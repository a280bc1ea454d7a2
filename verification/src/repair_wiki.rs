//! Repair Wiki correlations: the model tier of a product, the sensor masks
//! that a panic log prints, and what each mask means for that tier.
use crate::text::{add_unique, dec_text, dec_text_exec, push_unique, add_unique_exec, append_str, char_is_digit, char_is_hex_digit, char_is_ws, chars_eq, chars_eq_ci, chars_of, chars_of_strings, ci_at, ci_at_exec, ci_char, ci_char_exec, contains, contains_any, contains_any_exec, contains_str, eq_ci, eq_str, hex_text, hex_text_exec, is_digit, is_hex_digit, is_ws, lemma_run_end, lemma_ws_run_end, lines, lit_views, lower_chars, lower_seq, owned, parse_hex_u64, parse_hex_u64_spec, parse_u64, parse_u64_spec, run_end, seq_contains, slice_to_vec, starts_with, starts_with_str, string_of, strings_of, strs, to_lowercase, trim, trim_chars, unicode_lower, views, ws_run_end, ws_run_end_exec};
use crate::knowledge::{opt_str_view};
use crate::iphone::{after_marker, find_first, until_marker};
use crate::panic_diagnostic::{log_suggests_bottom_mic_oxidation, or_empty, oxidation_words};
use crate::findings::{BoardView, CauseBoard, add_check_s, add_ui_s, board_grows, board_view, group_board_grows, max_u32, push_cause_s};
use crate::panic_logs_chart::{apply_panic_logs_chart_pdf, chart_spec, i2c_bus_cited, lemma_chart_grows};
use vstd::prelude::*;

verus! {

/// Workshop labels shared with the cause scoring.
pub const IPHONE11_TG_MISSING_CAUSE: &'static str = "TG0B ou TG0V \u{c2}\u{b7} iPhone 11 \u{c2}\u{b7} probl\u{c3}\u{a8}me de batterie";

pub const IPHONE11_PRS_MIC1_CAUSE: &'static str = "PRS0 ou MIC1 \u{c2}\u{b7} iPhone 11 \u{c2}\u{b7} nappe du connecteur de charge OEM/Premium";

pub const IPHONE11_MIC2_CAUSE: &'static str = "MIC2 \u{c2}\u{b7} iPhone 11 \u{c2}\u{b7} Nappe bouton power \u{c2}\u{b7} Micro c\u{c3}\u{b4}t\u{c3}\u{a9} flash";

pub const IPHONE11_MIC2_THERMAL_FLASH_POWER_CAUSE: &'static str = "MIC2 + thermalmonitord \u{c2}\u{b7} iPhone 11 \u{c2}\u{b7} Nappe bouton power / flash";

pub const IPHONE15_BOTTOM_MIC_MODULE_CAUSE: &'static str = "Module micro du bas (MIC1) \u{c2}\u{b7} iPhone 15 \u{c2}\u{b7} PCB MEMS sur assemblage USB-C \u{e2}\u{20ac}\u{201d} oxydation / clip / joint acoustique";

pub const IPHONE15_BOTTOM_MIC_HARDWARE_NOTE: &'static str = "PCB ind\u{c3}\u{a9}pendant (capsule MEMS), connecteur sur flex USB-C, emplacement ch\u{c3}\u{a2}ssis (grille m\u{c3}\u{a9}tal + joint mousse/caoutchouc)";

/// The generations that the Repair Wiki tables tell apart.
#[derive(Debug, Clone, Copy, PartialEq, Eq, Structural)]
pub enum RwTier {
    LegacyTextMic,
    Se2020SpecialMic,
    Series13Identifiers,
    Iphone1414Plus,
    Iphone14ProSeries,
    Iphone1515Plus,
    Iphone15ProSeries,
    Iphone16Series,
    UniversalFallback,
}

/// The product type to look up, lowercased: the one from the log when it
/// looks like `iPhoneN,M`, else the trimmed hint.
pub open spec fn product_key(product_log: Option<Seq<char>>, hint: Option<Seq<char>>) -> Seq<char> {
    let from_log = match product_log {
        Some(p) => {
            let t = trim(p);
            let l = unicode_lower(t);
            if starts_with(l, "iphone"@) && seq_contains(l, seq![',']) && t.len() > 0 {
                Some(lower_seq(t))
            } else {
                None
            }
        },
        None => None,
    };
    match from_log {
        Some(v) => v,
        None => lower_seq(trim(or_empty(hint))),
    }
}

pub fn product_lc(product_log: Option<&str>, hint: Option<&str>) -> (r: String)
    ensures
        r@ == product_key(opt_str_view(product_log), opt_str_view(hint)),
{
    match product_log {
        Some(p) => {
            let pc = chars_of(p);
            let t = trim_chars(&pc);
            let ts = string_of(&t);
            let l = to_lowercase(ts.as_str());
            let comma: Vec<char> = vec![','];
            assert(comma@ == seq![',']);
            if starts_with_str(&l, "iphone") && contains(&l, &comma) && t.len() > 0 {
                let v = lower_chars(&t);
                return string_of(&v);
            }
        },
        None => {},
    }
    let h = match hint {
        Some(h) => h,
        None => "",
    };
    let hc = chars_of(h);
    let ht = trim_chars(&hc);
    let hl = lower_chars(&ht);
    string_of(&hl)
}

pub open spec fn one_of(lc: Seq<char>, ids: Seq<Seq<char>>) -> bool {
    ids.contains(lc)
}

fn one_of_exec(lc: &str, ids: &Vec<&str>) -> (r: bool)
    ensures
        r == one_of(lc@, lit_views(ids@)),
{
    let c = chars_of(lc);
    let mut i: usize = 0;
    while i < ids.len()
        invariant
            i <= ids.len(),
            c@ == lc@,
            forall|j: int| 0 <= j < i ==> lit_views(ids@)[j] != lc@,
        decreases ids.len() - i,
    {
        if eq_str(&c, ids[i]) {
            assert(lit_views(ids@)[i as int] == lc@);
            return true;
        }
        i += 1;
    }
    assert(!lit_views(ids@).contains(lc@));
    false
}

pub fn is_iphone11_family(lc: &str) -> (r: bool)
    ensures
        r == one_of(lc@, seq!["iphone12,1"@, "iphone12,3"@, "iphone12,5"@]),
{
    let ids: Vec<&str> = vec!["iphone12,1", "iphone12,3", "iphone12,5"];
    assert(lit_views(ids@) == seq!["iphone12,1"@, "iphone12,3"@, "iphone12,5"@]);
    one_of_exec(lc, &ids)
}

pub fn is_iphone_x_only(lc: &str) -> (r: bool)
    ensures
        r == one_of(lc@, seq!["iphone10,3"@, "iphone10,6"@]),
{
    let ids: Vec<&str> = vec!["iphone10,3", "iphone10,6"];
    assert(lit_views(ids@) == seq!["iphone10,3"@, "iphone10,6"@]);
    one_of_exec(lc, &ids)
}

pub fn is_iphone_xs_xs_max(lc: &str) -> (r: bool)
    ensures
        r == one_of(lc@, seq!["iphone11,2"@, "iphone11,4"@, "iphone11,6"@]),
{
    let ids: Vec<&str> = vec!["iphone11,2", "iphone11,4", "iphone11,6"];
    assert(lit_views(ids@) == seq!["iphone11,2"@, "iphone11,4"@, "iphone11,6"@]);
    one_of_exec(lc, &ids)
}

pub fn is_iphone_xr_only(lc: &str) -> (r: bool)
    ensures
        r == (lc@ == "iphone11,8"@),
{
    let c = chars_of(lc);
    eq_str(&c, "iphone11,8")
}

pub fn is_iphone12_apple_ids(lc: &str) -> (r: bool)
    ensures
        r == one_of(lc@, seq!["iphone13,1"@, "iphone13,2"@, "iphone13,3"@, "iphone13,4"@]),
{
    let ids: Vec<&str> = vec!["iphone13,1", "iphone13,2", "iphone13,3", "iphone13,4"];
    assert(lit_views(ids@) == seq!["iphone13,1"@, "iphone13,2"@, "iphone13,3"@, "iphone13,4"@]);
    one_of_exec(lc, &ids)
}

pub open spec fn legacy_ids() -> Seq<Seq<char>> {
    seq![
        "iphone13,1"@,
        "iphone13,2"@,
        "iphone13,3"@,
        "iphone13,4"@,
        "iphone12,1"@,
        "iphone12,3"@,
        "iphone12,5"@,
        "iphone10,3"@,
        "iphone10,6"@,
        "iphone11,2"@,
        "iphone11,4"@,
        "iphone11,6"@,
        "iphone11,8"@,
        "iphone9,1"@,
        "iphone9,2"@,
        "iphone9,3"@,
        "iphone9,4"@,
        "iphone8,1"@,
        "iphone8,2"@,
        "iphone8,4"@,
    ]
}

/// The tier of a lowercased product type.
pub open spec fn tier_of(lc: Seq<char>) -> RwTier {
    if lc == "iphone12,8"@ {
        RwTier::Se2020SpecialMic
    } else if legacy_ids().contains(lc) {
        RwTier::LegacyTextMic
    } else if one_of(lc, seq!["iphone14,4"@, "iphone14,5"@, "iphone14,2"@, "iphone14,3"@]) {
        RwTier::Series13Identifiers
    } else if one_of(lc, seq!["iphone14,7"@, "iphone14,8"@]) {
        RwTier::Iphone1414Plus
    } else if one_of(lc, seq!["iphone15,2"@, "iphone15,3"@]) {
        RwTier::Iphone14ProSeries
    } else if one_of(lc, seq!["iphone15,4"@, "iphone15,5"@]) {
        RwTier::Iphone1515Plus
    } else if one_of(lc, seq!["iphone16,1"@, "iphone16,2"@]) {
        RwTier::Iphone15ProSeries
    } else if one_of(lc, seq!["iphone17,1"@, "iphone17,2"@, "iphone17,3"@, "iphone17,4"@]) {
        RwTier::Iphone16Series
    } else {
        RwTier::UniversalFallback
    }
}

pub fn tier_for_product(lc: &str) -> (r: RwTier)
    ensures
        r == tier_of(lc@),
{
    let c = chars_of(lc);
    if eq_str(&c, "iphone12,8") {
        return RwTier::Se2020SpecialMic;
    }
    let legacy: Vec<&str> = vec![
        "iphone13,1",
        "iphone13,2",
        "iphone13,3",
        "iphone13,4",
        "iphone12,1",
        "iphone12,3",
        "iphone12,5",
        "iphone10,3",
        "iphone10,6",
        "iphone11,2",
        "iphone11,4",
        "iphone11,6",
        "iphone11,8",
        "iphone9,1",
        "iphone9,2",
        "iphone9,3",
        "iphone9,4",
        "iphone8,1",
        "iphone8,2",
        "iphone8,4",
    ];
    assert(lit_views(legacy@) == legacy_ids());
    if one_of_exec(lc, &legacy) {
        return RwTier::LegacyTextMic;
    }
    let s13: Vec<&str> = vec!["iphone14,4", "iphone14,5", "iphone14,2", "iphone14,3"];
    assert(lit_views(s13@) == seq!["iphone14,4"@, "iphone14,5"@, "iphone14,2"@, "iphone14,3"@]);
    if one_of_exec(lc, &s13) {
        return RwTier::Series13Identifiers;
    }
    let s14: Vec<&str> = vec!["iphone14,7", "iphone14,8"];
    assert(lit_views(s14@) == seq!["iphone14,7"@, "iphone14,8"@]);
    if one_of_exec(lc, &s14) {
        return RwTier::Iphone1414Plus;
    }
    let s14p: Vec<&str> = vec!["iphone15,2", "iphone15,3"];
    assert(lit_views(s14p@) == seq!["iphone15,2"@, "iphone15,3"@]);
    if one_of_exec(lc, &s14p) {
        return RwTier::Iphone14ProSeries;
    }
    let s15: Vec<&str> = vec!["iphone15,4", "iphone15,5"];
    assert(lit_views(s15@) == seq!["iphone15,4"@, "iphone15,5"@]);
    if one_of_exec(lc, &s15) {
        return RwTier::Iphone1515Plus;
    }
    let s15p: Vec<&str> = vec!["iphone16,1", "iphone16,2"];
    assert(lit_views(s15p@) == seq!["iphone16,1"@, "iphone16,2"@]);
    if one_of_exec(lc, &s15p) {
        return RwTier::Iphone15ProSeries;
    }
    let s16: Vec<&str> = vec!["iphone17,1", "iphone17,2", "iphone17,3", "iphone17,4"];
    assert(lit_views(s16@) == seq!["iphone17,1"@, "iphone17,2"@, "iphone17,3"@, "iphone17,4"@]);
    if one_of_exec(lc, &s16) {
        return RwTier::Iphone16Series;
    }
    RwTier::UniversalFallback
}

// ---------------------------------------------------------------------------
// Sensor masks: `(?is)([sf])\.sensor\s+array[^\n]{0,1200}`
// ---------------------------------------------------------------------------
/// Where the sensor-array pattern matches at `p`: the end of the match.
pub open spec fn sensor_array_at(s: Seq<char>, p: int, lim: nat) -> Option<int> {
    if !(0 <= p < s.len() && (ci_char(s[p], 's') || ci_char(s[p], 'f'))) {
        None
    } else if !(p + 1 < s.len() && s[p + 1] == '.' && ci_at(s, "sensor"@, p + 2)) {
        None
    } else {
        let w = ws_run_end(s, p + 8);
        if w > p + 8 && ci_at(s, "array"@, w) {
            let a = w + 5;
            let nl = run_end(s, a, |c: char| c != '\n');
            Some(if nl - a <= lim { nl } else { a + lim })
        } else {
            None
        }
    }
}

/// The first match at or after `i`: its start and end.
pub open spec fn sensor_array_from(s: Seq<char>, i: int, lim: nat) -> Option<(int, int)>
    decreases s.len() + 1 - i,
{
    if i < 0 || i > s.len() {
        None
    } else if sensor_array_at(s, i, lim) is Some {
        Some((i, sensor_array_at(s, i, lim).unwrap()))
    } else {
        sensor_array_from(s, i + 1, lim)
    }
}

pub proof fn lemma_sensor_array_at(s: Seq<char>, p: int, lim: nat)
    ensures
        sensor_array_at(s, p, lim) matches Some(e) ==> p < e <= s.len(),
{
    reveal_strlit("sensor");
    reveal_strlit("array");
    if sensor_array_at(s, p, lim) is Some {
        lemma_ws_run_end(s, p + 8);
        let w = ws_run_end(s, p + 8);
        lemma_run_end(s, w + 5, |c: char| c != '\n');
    }
}

pub proof fn lemma_sensor_array_from(s: Seq<char>, i: int, lim: nat)
    ensures
        sensor_array_from(s, i, lim) matches Some(m) ==> i <= m.0 < m.1 <= s.len(),
    decreases s.len() + 1 - i,
{
    if !(i < 0 || i > s.len()) {
        if sensor_array_at(s, i, lim) is Some {
            lemma_sensor_array_at(s, i, lim);
        } else {
            lemma_sensor_array_from(s, i + 1, lim);
        }
    }
}

/// All the matches from `i` on, each search starting where the previous
/// match ended.
pub open spec fn sensor_array_matches(s: Seq<char>, i: int, lim: nat) -> Seq<Seq<char>>
    decreases s.len() + 1 - i,
{
    match sensor_array_from(s, i, lim) {
        None => Seq::empty(),
        Some(m) => {
            proof {
                lemma_sensor_array_from(s, i, lim);
            }
            seq![s.subrange(m.0, m.1)] + sensor_array_matches(s, m.1, lim)
        },
    }
}

/// A separator between mask tokens: a comma or whitespace.
pub open spec fn is_mask_sep(c: char) -> bool {
    c == ',' || is_ws(c)
}

/// The pieces of `s` between separators, empty pieces included (`split`).
pub open spec fn split_pieces(s: Seq<char>) -> Seq<Seq<char>>
    decreases s.len(),
{
    let k = run_end(s, 0, |c: char| !is_mask_sep(c));
    proof {
        lemma_run_end(s, 0, |c: char| !is_mask_sep(c));
    }
    if k >= s.len() {
        seq![s]
    } else {
        seq![s.take(k)] + split_pieces(s.skip(k + 1))
    }
}

pub open spec fn ascii_digits_of(s: Seq<char>) -> Seq<char>
    decreases s.len(),
{
    if s.len() == 0 {
        Seq::empty()
    } else {
        ascii_digits_of(s.drop_last()) + if is_digit(s.last()) {
            seq![s.last()]
        } else {
            Seq::<char>::empty()
        }
    }
}

pub open spec fn hex_digits_of(s: Seq<char>) -> Seq<char>
    decreases s.len(),
{
    if s.len() == 0 {
        Seq::empty()
    } else {
        hex_digits_of(s.drop_last()) + if is_hex_digit(s.last()) {
            seq![s.last()]
        } else {
            Seq::<char>::empty()
        }
    }
}

/// The value of a mask token: `0x` then its hexadecimal digits, or else its
/// decimal digits; nothing when there are none or the value exceeds 64 bits.
pub open spec fn mask_token_value(raw: Seq<char>) -> Option<u64> {
    if raw.len() == 0 {
        None
    } else if starts_with(lower_seq(raw), "0x"@) {
        parse_hex_u64_spec(hex_digits_of(lower_seq(raw).skip(2)))
    } else {
        parse_u64_spec(ascii_digits_of(raw))
    }
}

/// The non-zero values of the tokens of `pieces`, in order.
pub open spec fn nonzero_masks(pieces: Seq<Seq<char>>) -> Seq<u64>
    decreases pieces.len(),
{
    if pieces.len() == 0 {
        Seq::empty()
    } else {
        nonzero_masks(pieces.drop_last()) + match mask_token_value(trim(pieces.last())) {
            Some(v) => if v > 0 {
                seq![v]
            } else {
                Seq::<u64>::empty()
            },
            None => Seq::<u64>::empty(),
        }
    }
}

/// What follows ` is ` in a lowercased match, up to a written `\n`.
pub open spec fn mask_head(m: Seq<char>) -> Seq<char> {
    let low = unicode_lower(m);
    let after = match after_marker(low, " is "@) {
        Some(a) => a,
        None => Seq::empty(),
    };
    until_marker(until_marker(after, seq!['\\', 'n']), seq!['\n'])
}

pub open spec fn masks_of_matches(ms: Seq<Seq<char>>) -> Seq<u64>
    decreases ms.len(),
{
    if ms.len() == 0 {
        Seq::empty()
    } else {
        masks_of_matches(ms.drop_last()) + nonzero_masks(split_pieces(mask_head(ms.last())))
    }
}

/// The non-zero masks printed after `S.sensor array ... is` or
/// `F.sensor array ... is`, in order.
pub open spec fn sensor_masks(log: Seq<char>) -> Seq<u64> {
    masks_of_matches(sensor_array_matches(log, 0, 1200))
}

pub fn parse_sensor_mask_token(raw: &[char]) -> (r: Option<u64>)
    ensures
        r == mask_token_value(raw@),
{
    if raw.len() == 0 {
        return None;
    }
    let lc = lower_chars(raw);
    proof {
        reveal_strlit("0x");
    }
    if starts_with_str(&lc, "0x") {
        let rest = slice_to_vec(&lc, 2, lc.len());
        assert(rest@ == lower_seq(raw@).skip(2));
        let mut clean: Vec<char> = Vec::new();
        let mut i: usize = 0;
        while i < rest.len()
            invariant
                i <= rest.len(),
                clean@ == hex_digits_of(rest@.take(i as int)),
            decreases rest.len() - i,
        {
            assert(rest@.take(i + 1).drop_last() == rest@.take(i as int));
            if char_is_hex_digit(rest[i]) {
                clean.push(rest[i]);
            }
            i += 1;
        }
        assert(rest@.take(rest.len() as int) == rest@);
        return parse_hex_u64(&clean);
    }
    let mut digits: Vec<char> = Vec::new();
    let mut i: usize = 0;
    while i < raw.len()
        invariant
            i <= raw.len(),
            digits@ == ascii_digits_of(raw@.take(i as int)),
        decreases raw.len() - i,
    {
        assert(raw@.take(i + 1).drop_last() == raw@.take(i as int));
        if char_is_digit(raw[i]) {
            digits.push(raw[i]);
        }
        i += 1;
    }
    assert(raw@.take(raw.len() as int) == raw@);
    parse_u64(&digits)
}

fn sensor_array_at_exec(s: &[char], p: usize, lim: usize) -> (r: Option<usize>)
    requires
        p <= s.len(),
    ensures
        match r {
            Some(e) => sensor_array_at(s@, p as int, lim as nat) == Some(e as int) && p < e <= s.len(),
            None => sensor_array_at(s@, p as int, lim as nat) is None,
        },
{
    proof {
        reveal_strlit("sensor");
        reveal_strlit("array");
    }
    if !(p < s.len() && (ci_char_exec(s[p], 's') || ci_char_exec(s[p], 'f'))) {
        return None;
    }
    let sensor = chars_of("sensor");
    if !(p + 1 < s.len() && s[p + 1] == '.' && ci_at_exec(s, &sensor, p + 2)) {
        return None;
    }
    let w = ws_run_end_exec(s, p + 8);
    let array = chars_of("array");
    if w > p + 8 && ci_at_exec(s, &array, w) {
        let a = w + 5;
        let mut nl = a;
        while nl < s.len() && s[nl] != '\n'
            invariant
                a <= nl <= s.len(),
                run_end(s@, a as int, |c: char| c != '\n') == run_end(s@, nl as int, |c: char| c != '\n'),
            decreases s.len() - nl,
        {
            nl += 1;
        }
        Some(if nl - a <= lim { nl } else { a + lim })
    } else {
        None
    }
}

pub(crate) fn split_pieces_exec(s: &[char]) -> (r: Vec<Vec<char>>)
    ensures
        views(r@) == split_pieces(s@),
{
    let mut out: Vec<Vec<char>> = Vec::new();
    let mut start: usize = 0;
    let mut i: usize = 0;
    assert(s@.skip(0) =~= s@);
    assert(views(out@) =~= Seq::<Seq<char>>::empty());
    while i < s.len()
        invariant
            start <= i <= s.len(),
            views(out@) + split_pieces(s@.skip(start as int)) == split_pieces(s@),
            forall|j: int| start <= j < i ==> !is_mask_sep(#[trigger] s@[j]),
        decreases s.len() - i,
    {
        if s[i] == ',' || char_is_ws(s[i]) {
            let ghost rest = s@.skip(start as int);
            assert forall|j: int| 0 <= j < (i - start) implies !is_mask_sep(#[trigger] rest[j]) by {
                assert(rest[j] == s@[start + j]);
            }
            proof {
                lemma_run_end_stops(rest, i - start);
            }
            assert(rest.take(i - start) =~= s@.subrange(start as int, i as int));
            assert(rest.skip(i - start + 1) =~= s@.skip(i + 1));
            let piece = slice_to_vec(s, start, i);
            let ghost before = views(out@);
            out.push(piece);
            assert(views(out@) =~= before + seq![s@.subrange(start as int, i as int)]);
            start = i + 1;
        }
        i += 1;
    }
    let ghost rest = s@.skip(start as int);
    assert forall|j: int| 0 <= j < rest.len() implies !is_mask_sep(#[trigger] rest[j]) by {
        assert(rest[j] == s@[start + j]);
    }
    proof {
        lemma_run_end_all(rest, 0);
    }
    let piece = slice_to_vec(s, start, s.len());
    assert(piece@ =~= rest);
    let ghost before = views(out@);
    out.push(piece);
    assert(views(out@) =~= before + seq![rest]);
    out
}

proof fn lemma_run_end_stops(s: Seq<char>, k: int)
    requires
        0 <= k < s.len(),
        forall|j: int| 0 <= j < k ==> !is_mask_sep(#[trigger] s[j]),
        is_mask_sep(s[k]),
    ensures
        run_end(s, 0, |c: char| !is_mask_sep(c)) == k,
{
    lemma_run_end_stops_from(s, 0, k);
}

proof fn lemma_run_end_stops_from(s: Seq<char>, i: int, k: int)
    requires
        0 <= i <= k < s.len(),
        forall|j: int| i <= j < k ==> !is_mask_sep(#[trigger] s[j]),
        is_mask_sep(s[k]),
    ensures
        run_end(s, i, |c: char| !is_mask_sep(c)) == k,
    decreases k - i,
{
    if i < k {
        lemma_run_end_stops_from(s, i + 1, k);
    }
}

proof fn lemma_run_end_all(s: Seq<char>, i: int)
    requires
        0 <= i <= s.len(),
        forall|j: int| 0 <= j < s.len() ==> !is_mask_sep(#[trigger] s[j]),
    ensures
        run_end(s, i, |c: char| !is_mask_sep(c)) == s.len(),
    decreases s.len() - i,
{
    if i < s.len() {
        lemma_run_end_all(s, i + 1);
    }
}

fn nonzero_masks_exec(pieces: &Vec<Vec<char>>) -> (r: Vec<u64>)
    ensures
        r@ == nonzero_masks(views(pieces@)),
{
    let mut out: Vec<u64> = Vec::new();
    let mut i: usize = 0;
    while i < pieces.len()
        invariant
            i <= pieces.len(),
            out@ == nonzero_masks(views(pieces@).take(i as int)),
        decreases pieces.len() - i,
    {
        assert(views(pieces@).take(i + 1).drop_last() == views(pieces@).take(i as int));
        assert(views(pieces@).take(i + 1).last() == pieces@[i as int]@);
        let t = trim_chars(&pieces[i]);
        let ghost before = out@;
        match parse_sensor_mask_token(&t) {
            Some(v) => {
                if v > 0 {
                    out.push(v);
                    assert(out@ =~= before + seq![v]);
                } else {
                    assert(out@ =~= before + Seq::<u64>::empty());
                }
            },
            None => {
                assert(out@ =~= before + Seq::<u64>::empty());
            },
        }
        i += 1;
    }
    assert(views(pieces@).take(pieces.len() as int) == views(pieces@));
    out
}

pub(crate) fn mask_head_exec(m: &[char]) -> (r: Vec<char>)
    ensures
        r@ == mask_head(m@),
{
    let ms = string_of(m);
    let low = to_lowercase(ms.as_str());
    let is_m = chars_of(" is ");
    let after: Vec<char> = match find_first(&low, &is_m, 0) {
        None => Vec::new(),
        Some(i) => {
            let ll = low.len();
            assert(i + is_m.len() <= ll);
            let s = i + is_m.len();
            let e = match find_first(&low, &is_m, s) {
                Some(j) => j,
                None => low.len(),
            };
            slice_to_vec(&low, s, e)
        },
    };
    assert(after@ == match after_marker(low@, " is "@) {
        Some(a) => a,
        None => Seq::<char>::empty(),
    });
    let bs: Vec<char> = vec!['\\', 'n'];
    assert(bs@ == seq!['\\', 'n']);
    let h1 = until_first(&after, &bs);
    let nl: Vec<char> = vec!['\n'];
    assert(nl@ == seq!['\n']);
    until_first(&h1, &nl)
}

fn until_first(r: &[char], m: &[char]) -> (out: Vec<char>)
    ensures
        out@ == until_marker(r@, m@),
{
    match find_first(r, m, 0) {
        Some(j) => slice_to_vec(r, 0, j),
        None => {
            let v = slice_to_vec(r, 0, r.len());
            assert(v@ =~= r@);
            v
        },
    }
}

pub(crate) fn next_sensor_match(s: &[char], pos: usize, lim: usize) -> (r: Option<(usize, usize)>)
    requires
        pos <= s.len(),
    ensures
        match r {
            Some(m) => sensor_array_from(s@, pos as int, lim as nat) == Some((m.0 as int, m.1 as int)) && pos <= m.0 < m.1
                <= s.len(),
            None => sensor_array_from(s@, pos as int, lim as nat) is None,
        },
{
    let mut p = pos;
    while p <= s.len()
        invariant
            pos <= p <= s.len(),
            sensor_array_from(s@, pos as int, lim as nat) == sensor_array_from(s@, p as int, lim as nat),
        decreases s.len() + 1 - p,
    {
        match sensor_array_at_exec(s, p, lim) {
            Some(e) => {
                return Some((p, e));
            },
            None => {},
        }
        if p == s.len() {
            assert(sensor_array_from(s@, p + 1, lim as nat) is None);
            return None;
        }
        p += 1;
    }
    None
}

/// The non-zero sensor masks that the log prints, in order.
pub fn sensor_array_nonzero_decimal_masks(log_fragment: &str) -> (r: Vec<u64>)
    ensures
        r@ == sensor_masks(log_fragment@),
{
    let s = chars_of(log_fragment);
    let mut vals: Vec<u64> = Vec::new();
    let mut pos: usize = 0;
    let ghost mut done: Seq<Seq<char>> = Seq::empty();
    while pos <= s.len()
        invariant
            pos <= s.len(),
            s@ == log_fragment@,
            done + sensor_array_matches(s@, pos as int, 1200) == sensor_array_matches(s@, 0, 1200),
            vals@ == masks_of_matches(done),
        decreases s.len() + 1 - pos,
    {
        match next_sensor_match(&s, pos, 1200) {
            None => {
                assert(sensor_array_matches(s@, pos as int, 1200) =~= Seq::<Seq<char>>::empty());
                assert(done + Seq::<Seq<char>>::empty() =~= done);
                return vals;
            },
            Some((a, e)) => {
                let m = slice_to_vec(&s, a, e);
                let head = mask_head_exec(&m);
                let pieces = split_pieces_exec(&head);
                let nz = nonzero_masks_exec(&pieces);
                vals.extend_from_slice(&nz);
                proof {
                    let nd = done.push(m@);
                    assert(nd.drop_last() == done);
                    assert(done + sensor_array_matches(s@, pos as int, 1200) =~= nd + sensor_array_matches(s@, e as int, 1200));
                    done = nd;
                }
                pos = e;
            },
        }
    }
    vals
}

// ---------------------------------------------------------------------------
// What a mask means
// ---------------------------------------------------------------------------
/// The exact masks the Repair Wiki lists for a tier: the mask, its meaning,
/// and a weight in thousandths.
pub open spec fn tier_entries(tier: RwTier, mini: bool) -> Seq<(u64, Seq<char>, u32)> {
    match tier {
        RwTier::Series13Identifiers => seq![(0x800u64, "0x800 (2048) \u{c2}\u{b7} connecteur de charge"@, 890u32), (0x1000u64, "0x1000 (4096) \u{c2}\u{b7} capteur de proximit\u{c3}\u{a9}"@, 880u32), (0x1800u64, "0x1800 (6144) \u{c2}\u{b7} double d\u{c3}\u{a9}faut : proximit\u{c3}\u{a9} + connecteur de charge"@, 910u32), (0x4000u64, "0x4000 (16384) \u{c2}\u{b7} capteur / donn\u{c3}\u{a9}es batterie"@, 870u32)] + if mini {
            seq![(0x400u64, "0x400 (1024) \u{c2}\u{b7} iPhone 13 mini \u{c2}\u{b7} gyroscope"@, 930u32), (0xc00u64, "0xC00 (3072) \u{c2}\u{b7} iPhone 13 mini \u{c2}\u{b7} bottom board + nappe port de charge"@, 930u32)]
        } else {
            Seq::empty()
        },
        RwTier::Iphone1414Plus => seq![(0x400000u64, "0x400000 (4194304) \u{c2}\u{b7} iPhone 14 / 14 Plus \u{c2}\u{b7} nappe recharge sans fil (Qi) / vitre arri\u{c3}\u{a8}re"@, 910u32), (0x100000u64, "0x100000 (1048576) \u{c2}\u{b7} iPhone 14 / 14 Plus \u{c2}\u{b7} nappe connecteur de charge (Lightning)"@, 900u32), (0x500000u64, "0x500000 (5242880) \u{c2}\u{b7} iPhone 14 / 14 Plus \u{c2}\u{b7} communication batterie \u{e2}\u{20ac}\u{201d} peut aussi \u{c3}\u{aa}tre Taptic Engine ou nappe de charge"@, 860u32), (0x200000u64, "0x200000 (2097152) \u{c2}\u{b7} iPhone 14 / 14 Plus \u{c2}\u{b7} nappe capteur de proximit\u{c3}\u{a9}"@, 890u32), (0x600000u64, "0x600000 (6291456) \u{c2}\u{b7} iPhone 14 / 14 Plus \u{c2}\u{b7} double d\u{c3}\u{a9}faut : recharge sans fil + proximit\u{c3}\u{a9}"@, 920u32), (0x20000u64, "0x20000 (131072) \u{c2}\u{b7} iPhone 14 / 14 Plus \u{c2}\u{b7} probl\u{c3}\u{a8}me carte m\u{c3}\u{a8}re (logic board)"@, 840u32)],
        RwTier::Iphone14ProSeries => seq![(0x80000u64, "0x80000 (524288) \u{c2}\u{b7} iPhone 14 Pro / Pro Max \u{c2}\u{b7} nappe proximit\u{c3}\u{a9}"@, 910u32), (0x40000u64, "0x40000 (262144) \u{c2}\u{b7} iPhone 14 Pro / Pro Max \u{c2}\u{b7} nappe connecteur de charge"@, 900u32), (0x100000u64, "0x100000 (1048576) \u{c2}\u{b7} iPhone 14 Pro / Pro Max \u{c2}\u{b7} nappe bouton Power"@, 900u32), (0xc0000u64, "0xC0000 (786432) \u{c2}\u{b7} iPhone 14 Pro / Pro Max \u{c2}\u{b7} double d\u{c3}\u{a9}faut : proximit\u{c3}\u{a9} + connecteur de charge"@, 930u32), (0x180000u64, "0x180000 (1572864) \u{c2}\u{b7} iPhone 14 Pro / Pro Max \u{c2}\u{b7} double d\u{c3}\u{a9}faut : proximit\u{c3}\u{a9} + bouton Power"@, 930u32), (0x140000u64, "0x140000 (1310720) \u{c2}\u{b7} iPhone 14 Pro / Pro Max \u{c2}\u{b7} double d\u{c3}\u{a9}faut : bouton Power + connecteur de charge"@, 930u32), (0x1c0000u64, "0x1C0000 (1835008) \u{c2}\u{b7} iPhone 14 Pro / Pro Max \u{c2}\u{b7} triple d\u{c3}\u{a9}faut : proximit\u{c3}\u{a9} + bouton Power + connecteur de charge"@, 940u32), (0x20000u64, "0x20000 (131072) \u{c2}\u{b7} iPhone 14 Pro / Pro Max \u{c2}\u{b7} sandwich board / s\u{c3}\u{a9}paration carte m\u{c3}\u{a8}re"@, 850u32), (0xa0000u64, "0xA0000 (655360) \u{c2}\u{b7} iPhone 14 Pro / Pro Max \u{c2}\u{b7} sandwich board + nappe proximit\u{c3}\u{a9}"@, 880u32), (0x41u64, "0x41 (65) \u{c2}\u{b7} iPhone 14 Pro / Pro Max \u{c2}\u{b7} donn\u{c3}\u{a9}es batterie"@, 870u32)],
        RwTier::Iphone1515Plus => seq![(0x380000u64, "0x380000 (3670016) \u{c2}\u{b7} iPhone 15 / 15 Plus \u{c2}\u{b7} triple d\u{c3}\u{a9}faut : recharge sans fil + connecteur de charge + proximit\u{c3}\u{a9}"@, 940u32), (0x280000u64, "0x280000 (2621440) \u{c2}\u{b7} iPhone 15 / 15 Plus \u{c2}\u{b7} double d\u{c3}\u{a9}faut : recharge sans fil + connecteur de charge"@, 930u32), (0x200000u64, "0x200000 (2097152) \u{c2}\u{b7} iPhone 15 / 15 Plus \u{c2}\u{b7} recharge sans fil (nappe Qi / vitre arri\u{c3}\u{a8}re)"@, 900u32), (0x80000u64, "0x80000 (524288) \u{c2}\u{b7} iPhone 15 / 15 Plus \u{c2}\u{b7} assemblage USB-C + module micro bas MIC1 (PCB MEMS) / barom\u{c3}\u{a8}tre"@, 930u32), (0x100000u64, "0x100000 (1048576) \u{c2}\u{b7} iPhone 15 / 15 Plus \u{c2}\u{b7} nappe proximit\u{c3}\u{a9} / capteurs avant"@, 880u32), (0xa1u64, "0xA1 (161) \u{c2}\u{b7} iPhone 15 / 15 Plus \u{c2}\u{b7} capteur ou donn\u{c3}\u{a9}es batterie"@, 900u32)],
        RwTier::Iphone15ProSeries => seq![(0xa1u64, "0xA1 (161) \u{c2}\u{b7} iPhone 15 Pro / Pro Max \u{c2}\u{b7} capteur ou donn\u{c3}\u{a9}es batterie"@, 900u32), (0x700000u64, "0x700000 (7340032) \u{c2}\u{b7} iPhone 15 Pro / Pro Max \u{c2}\u{b7} double d\u{c3}\u{a9}faut : connecteur de charge + recharge sans fil"@, 920u32), (0x600000u64, "0x600000 (6291456) \u{c2}\u{b7} iPhone 15 Pro / Pro Max \u{c2}\u{b7} double d\u{c3}\u{a9}faut : proximit\u{c3}\u{a9} + recharge sans fil"@, 910u32), (0x400000u64, "0x400000 (4194304) \u{c2}\u{b7} iPhone 15 Pro / Pro Max \u{c2}\u{b7} recharge sans fil (nappe Qi arri\u{c3}\u{a8}re)"@, 900u32), (0x300000u64, "0x300000 (3145728) \u{c2}\u{b7} iPhone 15 Pro / Pro Max \u{c2}\u{b7} assemblage USB-C + module micro bas MIC1 (PCB MEMS)"@, 930u32), (0x100000u64, "0x100000 (1048576) \u{c2}\u{b7} iPhone 15 Pro / Pro Max \u{c2}\u{b7} nappe connecteur de charge USB\u{e2}\u{20ac}\u{2018}C (autre bus m\u{c3}\u{aa}me famille)"@, 870u32), (0x200000u64, "0x200000 (2097152) \u{c2}\u{b7} iPhone 15 Pro / Pro Max \u{c2}\u{b7} nappe proximit\u{c3}\u{a9}"@, 880u32), (0x280000u64, "0x280000 (2621440) \u{c2}\u{b7} iPhone 15 Pro / Pro Max \u{c2}\u{b7} Qi + ligne charge USB\u{e2}\u{20ac}\u{2018}C"@, 820u32)],
        RwTier::Iphone16Series => seq![(0xa1u64, "0xA1 (161) \u{c2}\u{b7} iPhone 16 \u{c2}\u{b7} bus donn\u{c3}\u{a9}es batterie"@, 890u32), (0x200000u64, "0x200000 (2097152) \u{c2}\u{b7} iPhone 16 \u{c2}\u{b7} bobine MagSafe / Qi arri\u{c3}\u{a8}re"@, 900u32), (0x300000u64, "0x300000 (3145728) \u{c2}\u{b7} iPhone 16 \u{c2}\u{b7} assemblage USB-C + port de charge"@, 890u32), (0x400000u64, "0x400000 (4194304) \u{c2}\u{b7} iPhone 16 \u{c2}\u{b7} bobine Qi / MagSafe arri\u{c3}\u{a8}re (nappe vitre)"@, 910u32), (0x700000u64, "0x700000 (7340032) \u{c2}\u{b7} iPhone 16 \u{c2}\u{b7} USB-C + Qi ensemble"@, 920u32), (0x280000u64, "0x280000 (2621440) \u{c2}\u{b7} iPhone 16 \u{c2}\u{b7} Qi / MagSafe + USB-C"@, 910u32), (0x380000u64, "0x380000 (3670016) \u{c2}\u{b7} iPhone 16 \u{c2}\u{b7} Qi + USB-C + proximit\u{c3}\u{a9} / capteurs fa\u{c3}\u{a7}ade"@, 930u32), (0x500000u64, "0x500000 (5242880) \u{c2}\u{b7} iPhone 16 \u{c2}\u{b7} batterie / bus alimentation"@, 870u32), (0x100000u64, "0x100000 (1048576) \u{c2}\u{b7} iPhone 16 \u{c2}\u{b7} nappe capteurs avant / proximit\u{c3}\u{a9}"@, 880u32), (0x600000u64, "0x600000 (6291456) \u{c2}\u{b7} iPhone 16 \u{c2}\u{b7} double d\u{c3}\u{a9}faut : recharge sans fil + capteurs avant"@, 900u32), (0x80000u64, "0x80000 (524288) \u{c2}\u{b7} iPhone 16 \u{c2}\u{b7} nappe bouton / Action button"@, 880u32)],
        _ => Seq::empty(),
    }
}

/// The bitwise table used when no exact mask matched (iPhone 13 and later).
pub open spec fn bit_table() -> Seq<(u64, Seq<char>, u32)> {
    seq![(0x20u64, "Circuit de charge"@, 620u32), (0x40u64, "Gas gauge batterie"@, 650u32), (0x41u64, "Donn\u{c3}\u{a9}es batterie"@, 660u32), (0xa1u64, "Capteur batterie"@, 680u32), (0xa9u64, "Variante erreur donn\u{c3}\u{a9}es batterie"@, 650u32), (0x400u64, "Gyroscope"@, 600u32), (0x800u64, "Connecteur de charge"@, 680u32), (0x1000u64, "Capteur proximit\u{c3}\u{a9}"@, 660u32), (0x4000u64, "Capteur batterie"@, 640u32), (0x20000u64, "Gyroscope (souvent iPhone 14 Pro et +) ou carte m\u{c3}\u{a8}re selon mod\u{c3}\u{a8}le"@, 580u32), (0x40000u64, "Connecteur de charge (souvent iPhone 14 Pro et +)"@, 620u32), (0x80000u64, "Capteur proximit\u{c3}\u{a9} (iPhone 14 \u{e2}\u{2020}\u{2019} 17, selon contexte)"@, 650u32), (0x100000u64, "Bouton Power / bus associ\u{c3}\u{a9} selon mod\u{c3}\u{a8}le"@, 620u32), (0x200000u64, "Capteur avant / recharge sans fil selon mod\u{c3}\u{a8}le"@, 680u32), (0x300000u64, "USB\u{e2}\u{20ac}\u{2018}C (mod\u{c3}\u{a8}les Pro)"@, 670u32), (0x400000u64, "Bobine recharge sans fil"@, 690u32), (0x500000u64, "Batterie"@, 610u32), (0x700000u64, "USB\u{e2}\u{20ac}\u{2018}C + recharge sans fil (bus commun)"@, 700u32)]
}

pub open spec fn exact_matches(val: u64, es: Seq<(u64, Seq<char>, u32)>) -> Seq<(Seq<char>, u32)>
    decreases es.len(),
{
    if es.len() == 0 {
        Seq::empty()
    } else {
        exact_matches(val, es.drop_last()) + if es.last().0 == val {
            seq![(es.last().1, es.last().2)]
        } else {
            Seq::<(Seq<char>, u32)>::empty()
        }
    }
}

pub open spec fn line_listed(acc: Seq<(Seq<char>, u32)>, line: Seq<char>) -> bool {
    exists|i: int| 0 <= i < acc.len() && (#[trigger] acc[i]).0 == line
}

/// The lines of the bits set in `val`, each once.
pub open spec fn bitwise_lines(val: u64, bs: Seq<(u64, Seq<char>, u32)>) -> Seq<(Seq<char>, u32)>
    decreases bs.len(),
{
    if bs.len() == 0 {
        Seq::empty()
    } else {
        let acc = bitwise_lines(val, bs.drop_last());
        let b = bs.last();
        let line = b.1 + " (sous-mask 0x"@ + hex_text(b.0 as nat) + ")"@;
        if b.0 != 0 && (val & b.0) == b.0 && !line_listed(acc, line) {
            acc.push((line, b.2))
        } else {
            acc
        }
    }
}

/// The meanings of a mask for a tier (`pc` is the lowercased product type):
/// the exact entries, or else, from the iPhone 13 on, the bits set.
pub open spec fn mask_explanations(val: u64, tier: RwTier, pc: Seq<char>) -> Seq<(Seq<char>, u32)> {
    let ex = exact_matches(val, tier_entries(tier, pc == "iphone14,4"@));
    if tier == RwTier::LegacyTextMic || tier == RwTier::Se2020SpecialMic || ex.len() > 0 {
        ex
    } else {
        bitwise_lines(val, bit_table())
    }
}

pub open spec fn weighted_views(v: Seq<(String, u32)>) -> Seq<(Seq<char>, u32)> {
    v.map_values(|p: (String, u32)| (p.0@, p.1))
}

pub open spec fn entry_views(v: Seq<(u64, &str, u32)>) -> Seq<(u64, Seq<char>, u32)> {
    v.map_values(|e: (u64, &str, u32)| (e.0, e.1@, e.2))
}

fn tier_table(tier: RwTier, mini: bool) -> (r: Vec<(u64, &'static str, u32)>)
    ensures
        entry_views(r@) == tier_entries(tier, mini),
{
    let v: Vec<(u64, &'static str, u32)> = match tier {
        RwTier::Series13Identifiers => if mini {
            vec![(0x800u64, "0x800 (2048) \u{c2}\u{b7} connecteur de charge", 890u32), (0x1000u64, "0x1000 (4096) \u{c2}\u{b7} capteur de proximit\u{c3}\u{a9}", 880u32), (0x1800u64, "0x1800 (6144) \u{c2}\u{b7} double d\u{c3}\u{a9}faut : proximit\u{c3}\u{a9} + connecteur de charge", 910u32), (0x4000u64, "0x4000 (16384) \u{c2}\u{b7} capteur / donn\u{c3}\u{a9}es batterie", 870u32), (0x400u64, "0x400 (1024) \u{c2}\u{b7} iPhone 13 mini \u{c2}\u{b7} gyroscope", 930u32), (0xc00u64, "0xC00 (3072) \u{c2}\u{b7} iPhone 13 mini \u{c2}\u{b7} bottom board + nappe port de charge", 930u32)]
        } else {
            vec![(0x800u64, "0x800 (2048) \u{c2}\u{b7} connecteur de charge", 890u32), (0x1000u64, "0x1000 (4096) \u{c2}\u{b7} capteur de proximit\u{c3}\u{a9}", 880u32), (0x1800u64, "0x1800 (6144) \u{c2}\u{b7} double d\u{c3}\u{a9}faut : proximit\u{c3}\u{a9} + connecteur de charge", 910u32), (0x4000u64, "0x4000 (16384) \u{c2}\u{b7} capteur / donn\u{c3}\u{a9}es batterie", 870u32)]
        },
        RwTier::Iphone1414Plus => vec![(0x400000u64, "0x400000 (4194304) \u{c2}\u{b7} iPhone 14 / 14 Plus \u{c2}\u{b7} nappe recharge sans fil (Qi) / vitre arri\u{c3}\u{a8}re", 910u32), (0x100000u64, "0x100000 (1048576) \u{c2}\u{b7} iPhone 14 / 14 Plus \u{c2}\u{b7} nappe connecteur de charge (Lightning)", 900u32), (0x500000u64, "0x500000 (5242880) \u{c2}\u{b7} iPhone 14 / 14 Plus \u{c2}\u{b7} communication batterie \u{e2}\u{20ac}\u{201d} peut aussi \u{c3}\u{aa}tre Taptic Engine ou nappe de charge", 860u32), (0x200000u64, "0x200000 (2097152) \u{c2}\u{b7} iPhone 14 / 14 Plus \u{c2}\u{b7} nappe capteur de proximit\u{c3}\u{a9}", 890u32), (0x600000u64, "0x600000 (6291456) \u{c2}\u{b7} iPhone 14 / 14 Plus \u{c2}\u{b7} double d\u{c3}\u{a9}faut : recharge sans fil + proximit\u{c3}\u{a9}", 920u32), (0x20000u64, "0x20000 (131072) \u{c2}\u{b7} iPhone 14 / 14 Plus \u{c2}\u{b7} probl\u{c3}\u{a8}me carte m\u{c3}\u{a8}re (logic board)", 840u32)],
        RwTier::Iphone14ProSeries => vec![(0x80000u64, "0x80000 (524288) \u{c2}\u{b7} iPhone 14 Pro / Pro Max \u{c2}\u{b7} nappe proximit\u{c3}\u{a9}", 910u32), (0x40000u64, "0x40000 (262144) \u{c2}\u{b7} iPhone 14 Pro / Pro Max \u{c2}\u{b7} nappe connecteur de charge", 900u32), (0x100000u64, "0x100000 (1048576) \u{c2}\u{b7} iPhone 14 Pro / Pro Max \u{c2}\u{b7} nappe bouton Power", 900u32), (0xc0000u64, "0xC0000 (786432) \u{c2}\u{b7} iPhone 14 Pro / Pro Max \u{c2}\u{b7} double d\u{c3}\u{a9}faut : proximit\u{c3}\u{a9} + connecteur de charge", 930u32), (0x180000u64, "0x180000 (1572864) \u{c2}\u{b7} iPhone 14 Pro / Pro Max \u{c2}\u{b7} double d\u{c3}\u{a9}faut : proximit\u{c3}\u{a9} + bouton Power", 930u32), (0x140000u64, "0x140000 (1310720) \u{c2}\u{b7} iPhone 14 Pro / Pro Max \u{c2}\u{b7} double d\u{c3}\u{a9}faut : bouton Power + connecteur de charge", 930u32), (0x1c0000u64, "0x1C0000 (1835008) \u{c2}\u{b7} iPhone 14 Pro / Pro Max \u{c2}\u{b7} triple d\u{c3}\u{a9}faut : proximit\u{c3}\u{a9} + bouton Power + connecteur de charge", 940u32), (0x20000u64, "0x20000 (131072) \u{c2}\u{b7} iPhone 14 Pro / Pro Max \u{c2}\u{b7} sandwich board / s\u{c3}\u{a9}paration carte m\u{c3}\u{a8}re", 850u32), (0xa0000u64, "0xA0000 (655360) \u{c2}\u{b7} iPhone 14 Pro / Pro Max \u{c2}\u{b7} sandwich board + nappe proximit\u{c3}\u{a9}", 880u32), (0x41u64, "0x41 (65) \u{c2}\u{b7} iPhone 14 Pro / Pro Max \u{c2}\u{b7} donn\u{c3}\u{a9}es batterie", 870u32)],
        RwTier::Iphone1515Plus => vec![(0x380000u64, "0x380000 (3670016) \u{c2}\u{b7} iPhone 15 / 15 Plus \u{c2}\u{b7} triple d\u{c3}\u{a9}faut : recharge sans fil + connecteur de charge + proximit\u{c3}\u{a9}", 940u32), (0x280000u64, "0x280000 (2621440) \u{c2}\u{b7} iPhone 15 / 15 Plus \u{c2}\u{b7} double d\u{c3}\u{a9}faut : recharge sans fil + connecteur de charge", 930u32), (0x200000u64, "0x200000 (2097152) \u{c2}\u{b7} iPhone 15 / 15 Plus \u{c2}\u{b7} recharge sans fil (nappe Qi / vitre arri\u{c3}\u{a8}re)", 900u32), (0x80000u64, "0x80000 (524288) \u{c2}\u{b7} iPhone 15 / 15 Plus \u{c2}\u{b7} assemblage USB-C + module micro bas MIC1 (PCB MEMS) / barom\u{c3}\u{a8}tre", 930u32), (0x100000u64, "0x100000 (1048576) \u{c2}\u{b7} iPhone 15 / 15 Plus \u{c2}\u{b7} nappe proximit\u{c3}\u{a9} / capteurs avant", 880u32), (0xa1u64, "0xA1 (161) \u{c2}\u{b7} iPhone 15 / 15 Plus \u{c2}\u{b7} capteur ou donn\u{c3}\u{a9}es batterie", 900u32)],
        RwTier::Iphone15ProSeries => vec![(0xa1u64, "0xA1 (161) \u{c2}\u{b7} iPhone 15 Pro / Pro Max \u{c2}\u{b7} capteur ou donn\u{c3}\u{a9}es batterie", 900u32), (0x700000u64, "0x700000 (7340032) \u{c2}\u{b7} iPhone 15 Pro / Pro Max \u{c2}\u{b7} double d\u{c3}\u{a9}faut : connecteur de charge + recharge sans fil", 920u32), (0x600000u64, "0x600000 (6291456) \u{c2}\u{b7} iPhone 15 Pro / Pro Max \u{c2}\u{b7} double d\u{c3}\u{a9}faut : proximit\u{c3}\u{a9} + recharge sans fil", 910u32), (0x400000u64, "0x400000 (4194304) \u{c2}\u{b7} iPhone 15 Pro / Pro Max \u{c2}\u{b7} recharge sans fil (nappe Qi arri\u{c3}\u{a8}re)", 900u32), (0x300000u64, "0x300000 (3145728) \u{c2}\u{b7} iPhone 15 Pro / Pro Max \u{c2}\u{b7} assemblage USB-C + module micro bas MIC1 (PCB MEMS)", 930u32), (0x100000u64, "0x100000 (1048576) \u{c2}\u{b7} iPhone 15 Pro / Pro Max \u{c2}\u{b7} nappe connecteur de charge USB\u{e2}\u{20ac}\u{2018}C (autre bus m\u{c3}\u{aa}me famille)", 870u32), (0x200000u64, "0x200000 (2097152) \u{c2}\u{b7} iPhone 15 Pro / Pro Max \u{c2}\u{b7} nappe proximit\u{c3}\u{a9}", 880u32), (0x280000u64, "0x280000 (2621440) \u{c2}\u{b7} iPhone 15 Pro / Pro Max \u{c2}\u{b7} Qi + ligne charge USB\u{e2}\u{20ac}\u{2018}C", 820u32)],
        RwTier::Iphone16Series => vec![(0xa1u64, "0xA1 (161) \u{c2}\u{b7} iPhone 16 \u{c2}\u{b7} bus donn\u{c3}\u{a9}es batterie", 890u32), (0x200000u64, "0x200000 (2097152) \u{c2}\u{b7} iPhone 16 \u{c2}\u{b7} bobine MagSafe / Qi arri\u{c3}\u{a8}re", 900u32), (0x300000u64, "0x300000 (3145728) \u{c2}\u{b7} iPhone 16 \u{c2}\u{b7} assemblage USB-C + port de charge", 890u32), (0x400000u64, "0x400000 (4194304) \u{c2}\u{b7} iPhone 16 \u{c2}\u{b7} bobine Qi / MagSafe arri\u{c3}\u{a8}re (nappe vitre)", 910u32), (0x700000u64, "0x700000 (7340032) \u{c2}\u{b7} iPhone 16 \u{c2}\u{b7} USB-C + Qi ensemble", 920u32), (0x280000u64, "0x280000 (2621440) \u{c2}\u{b7} iPhone 16 \u{c2}\u{b7} Qi / MagSafe + USB-C", 910u32), (0x380000u64, "0x380000 (3670016) \u{c2}\u{b7} iPhone 16 \u{c2}\u{b7} Qi + USB-C + proximit\u{c3}\u{a9} / capteurs fa\u{c3}\u{a7}ade", 930u32), (0x500000u64, "0x500000 (5242880) \u{c2}\u{b7} iPhone 16 \u{c2}\u{b7} batterie / bus alimentation", 870u32), (0x100000u64, "0x100000 (1048576) \u{c2}\u{b7} iPhone 16 \u{c2}\u{b7} nappe capteurs avant / proximit\u{c3}\u{a9}", 880u32), (0x600000u64, "0x600000 (6291456) \u{c2}\u{b7} iPhone 16 \u{c2}\u{b7} double d\u{c3}\u{a9}faut : recharge sans fil + capteurs avant", 900u32), (0x80000u64, "0x80000 (524288) \u{c2}\u{b7} iPhone 16 \u{c2}\u{b7} nappe bouton / Action button", 880u32)],
        _ => Vec::new(),
    };
    assert(entry_views(v@) =~= tier_entries(tier, mini));
    v
}

fn line_listed_exec(out: &Vec<(String, u32)>, line: &[char]) -> (r: bool)
    ensures
        r == line_listed(weighted_views(out@), line@),
{
    let mut k: usize = 0;
    while k < out.len()
        invariant
            k <= out.len(),
            forall|j: int| 0 <= j < k ==> (#[trigger] weighted_views(out@)[j]).0 != line@,
        decreases out.len() - k,
    {
        let c = chars_of(out[k].0.as_str());
        if chars_eq(&c, line) {
            assert(weighted_views(out@)[k as int].0 == line@);
            return true;
        }
        k += 1;
    }
    false
}

fn universal_bitwise(val: u64, out: &mut Vec<(String, u32)>)
    requires
        old(out)@.len() == 0,
    ensures
        weighted_views(final(out)@) == bitwise_lines(val, bit_table()),
{
    let bits: Vec<(u64, &str, u32)> = vec![(0x20u64, "Circuit de charge", 620u32), (0x40u64, "Gas gauge batterie", 650u32), (0x41u64, "Donn\u{c3}\u{a9}es batterie", 660u32), (0xa1u64, "Capteur batterie", 680u32), (0xa9u64, "Variante erreur donn\u{c3}\u{a9}es batterie", 650u32), (0x400u64, "Gyroscope", 600u32), (0x800u64, "Connecteur de charge", 680u32), (0x1000u64, "Capteur proximit\u{c3}\u{a9}", 660u32), (0x4000u64, "Capteur batterie", 640u32), (0x20000u64, "Gyroscope (souvent iPhone 14 Pro et +) ou carte m\u{c3}\u{a8}re selon mod\u{c3}\u{a8}le", 580u32), (0x40000u64, "Connecteur de charge (souvent iPhone 14 Pro et +)", 620u32), (0x80000u64, "Capteur proximit\u{c3}\u{a9} (iPhone 14 \u{e2}\u{2020}\u{2019} 17, selon contexte)", 650u32), (0x100000u64, "Bouton Power / bus associ\u{c3}\u{a9} selon mod\u{c3}\u{a8}le", 620u32), (0x200000u64, "Capteur avant / recharge sans fil selon mod\u{c3}\u{a8}le", 680u32), (0x300000u64, "USB\u{e2}\u{20ac}\u{2018}C (mod\u{c3}\u{a8}les Pro)", 670u32), (0x400000u64, "Bobine recharge sans fil", 690u32), (0x500000u64, "Batterie", 610u32), (0x700000u64, "USB\u{e2}\u{20ac}\u{2018}C + recharge sans fil (bus commun)", 700u32)];
    assert(entry_views(bits@) == bit_table());
    let mut i: usize = 0;
    assert(weighted_views(out@) =~= Seq::<(Seq<char>, u32)>::empty());
    while i < bits.len()
        invariant
            i <= bits.len(),
            entry_views(bits@) == bit_table(),
            weighted_views(out@) == bitwise_lines(val, bit_table().take(i as int)),
        decreases bits.len() - i,
    {
        assert(bit_table().take(i + 1).drop_last() == bit_table().take(i as int));
        assert(bit_table().take(i + 1).last() == (bits@[i as int].0, bits@[i as int].1@, bits@[i as int].2));
        let (bit, label, wt) = bits[i];
        if bit != 0 && (val & bit) == bit {
            let mut line = chars_of(label);
            append_str(&mut line, " (sous-mask 0x");
            let hx = hex_text_exec(bit);
            line.extend_from_slice(&hx);
            line.push(')');
            proof {
                reveal_strlit(")");
            }
            assert(line@ =~= label@ + " (sous-mask 0x"@ + hex_text(bit as nat) + ")"@);
            let ghost acc = weighted_views(out@);
            let listed = line_listed_exec(out, &line);
            if !listed {
                out.push((string_of(&line), wt));
                assert(weighted_views(out@) =~= acc.push((line@, wt)));
            }
        }
        i += 1;
    }
    assert(bit_table().take(bits.len() as int) == bit_table());
}

/// The meanings of a sensor mask for the tier of the product `pc` (weights
/// in thousandths).
pub fn explanations_for_mask(val: u64, tier: RwTier, log_lc: &str, pc: &str) -> (r: Vec<(String, u32)>)
    ensures
        weighted_views(r@) == mask_explanations(val, tier, pc@),
{
    let pcc = chars_of(pc);
    let mini = eq_str(&pcc, "iphone14,4");
    let table = tier_table(tier, mini);
    let mut out: Vec<(String, u32)> = Vec::new();
    let mut i: usize = 0;
    assert(weighted_views(out@) =~= Seq::<(Seq<char>, u32)>::empty());
    while i < table.len()
        invariant
            i <= table.len(),
            weighted_views(out@) == exact_matches(val, entry_views(table@).take(i as int)),
        decreases table.len() - i,
    {
        assert(entry_views(table@).take(i + 1).drop_last() == entry_views(table@).take(i as int));
        let (mask, label, wt) = table[i];
        if mask == val {
            let ghost before = weighted_views(out@);
            out.push((owned(label), wt));
            assert(weighted_views(out@) =~= before + seq![(label@, wt)]);
        } else {
            assert(weighted_views(out@) =~= weighted_views(out@) + Seq::<(Seq<char>, u32)>::empty());
        }
        i += 1;
    }
    assert(entry_views(table@).take(table.len() as int) == entry_views(table@));
    match tier {
        RwTier::LegacyTextMic | RwTier::Se2020SpecialMic => {
            return out;
        },
        _ => {},
    }
    if out.len() == 0 {
        universal_bitwise(val, &mut out);
    }
    out
}

// ---------------------------------------------------------------------------
// Workshop hints
// ---------------------------------------------------------------------------
/// A cause label as displayed: trimmed.
pub fn cause_label(msg: String) -> (r: String)
    ensures
        r@ == trim(msg@),
{
    let c = chars_of(msg.as_str());
    let t = trim_chars(&c);
    string_of(&t)
}

/// The iFixit hints that a lowercased log calls for, in order.
pub open spec fn ifixit_hints(l: Seq<char>) -> Seq<Seq<char>> {
    (if seq_contains(l, "thermalmonitord"@) && !seq_contains(l, "missing sensor"@) && !seq_contains(
        l,
        "missing sensor(s)"@,
    ) {
        seq!["iFixit FR : thermalmonitord sans \u{c2}\u{ab} missing sensor \u{c2}\u{bb} peut \u{c3}\u{aa}tre logiciel (Springboard, logd, wifid) \u{e2}\u{20ac}\u{201d} mise \u{c3}\u{a0} jour / restore \u{c3}\u{a0} envisager."@]
    } else {
        Seq::empty()
    }) + (if seq_contains(l, "i2c"@) || seq_contains(l, "i\u{c2}\u{b2}c"@) {
        seq!["iFixit : plusieurs bus I\u{c2}\u{b2}C par mod\u{c3}\u{a8}le \u{e2}\u{20ac}\u{201d} utiliser le nom de bus / p\u{c3}\u{a9}riph\u{c3}\u{a9}rique cit\u{c3}\u{a9} dans le log ou un sch\u{c3}\u{a9}ma."@]
    } else {
        Seq::empty()
    }) + (if seq_contains(l, "smc panic"@) || seq_contains(l, "smc panic assertion"@) || seq_contains(
        l,
        "bsc failure"@,
    ) {
        seq!["iFixit : SMC assertion (surtout iPhone 13+) \u{e2}\u{20ac}\u{201d} corr\u{c3}\u{a9}ler capteurs + codes sensor array ; reboot ~3 min si donn\u{c3}\u{a9}es absentes."@]
    } else {
        Seq::empty()
    }) + (if seq_contains(l, "bosch"@) && seq_contains(l, "aop"@) {
        seq!["iFixit : panique AOP / canal Bosch (audio) \u{e2}\u{20ac}\u{201d} nappe port de charge (signaux HP), liquide, pi\u{c3}\u{a8}ce d\u{e2}\u{20ac}\u{2122}origine ou premium."@]
    } else {
        Seq::empty()
    })
}

/// Adds to the workshop checks (a list without repeats) the iFixit hints
/// that the lowercased log calls for.
pub fn append_ifixit_kernel_panic_hints(log_lc: &str, checks: &mut Vec<String>)
    ensures
        strs(final(checks)@) == add_unique(strs(old(checks)@), ifixit_hints(log_lc@)),
{
    let l = chars_of(log_lc);
    let mut hints: Vec<Vec<char>> = Vec::new();
    if contains_str(&l, "thermalmonitord") && !contains_str(&l, "missing sensor") && !contains_str(
        &l,
        "missing sensor(s)",
    ) {
        hints.push(chars_of("iFixit FR : thermalmonitord sans \u{c2}\u{ab} missing sensor \u{c2}\u{bb} peut \u{c3}\u{aa}tre logiciel (Springboard, logd, wifid) \u{e2}\u{20ac}\u{201d} mise \u{c3}\u{a0} jour / restore \u{c3}\u{a0} envisager."));
    }
    if contains_str(&l, "i2c") || contains_str(&l, "i\u{c2}\u{b2}c") {
        hints.push(chars_of("iFixit : plusieurs bus I\u{c2}\u{b2}C par mod\u{c3}\u{a8}le \u{e2}\u{20ac}\u{201d} utiliser le nom de bus / p\u{c3}\u{a9}riph\u{c3}\u{a9}rique cit\u{c3}\u{a9} dans le log ou un sch\u{c3}\u{a9}ma."));
    }
    if contains_str(&l, "smc panic") || contains_str(&l, "smc panic assertion") || contains_str(&l, "bsc failure") {
        hints.push(chars_of("iFixit : SMC assertion (surtout iPhone 13+) \u{e2}\u{20ac}\u{201d} corr\u{c3}\u{a9}ler capteurs + codes sensor array ; reboot ~3 min si donn\u{c3}\u{a9}es absentes."));
    }
    if contains_str(&l, "bosch") && contains_str(&l, "aop") {
        hints.push(chars_of("iFixit : panique AOP / canal Bosch (audio) \u{e2}\u{20ac}\u{201d} nappe port de charge (signaux HP), liquide, pi\u{c3}\u{a8}ce d\u{e2}\u{20ac}\u{2122}origine ou premium."));
    }
    assert(views(hints@) =~= ifixit_hints(log_lc@));
    let mut cur = chars_of_strings(checks.as_slice());
    add_unique_exec(&mut cur, &hints);
    *checks = strings_of(&cur);
}

/// Some missing sensor equals `id` without regard to ASCII case.
pub fn missing_lists_sensor(missing: &[String], id: &str) -> (r: bool)
    ensures
        r == exists|j: int| 0 <= j < strs(missing@).len() && eq_ci(#[trigger] strs(missing@)[j], id@),
{
    let idc = chars_of(id);
    let mut i: usize = 0;
    while i < missing.len()
        invariant
            i <= missing.len(),
            idc@ == id@,
            forall|j: int| 0 <= j < i ==> !eq_ci(#[trigger] strs(missing@)[j], id@),
        decreases missing.len() - i,
    {
        let c = chars_of(missing[i].as_str());
        if chars_eq_ci(&c, &idc) {
            assert(eq_ci(strs(missing@)[i as int], id@));
            return true;
        }
        i += 1;
    }
    false
}

/// The lowercased log speaks of liquid or corrosion.
pub fn log_suggests_liquid_or_oxidation(log_lc: &str) -> (r: bool)
    ensures
        r == contains_any(log_lc@, oxidation_words()),
{
    log_suggests_bottom_mic_oxidation(log_lc)
}

/// The iPhone 15 bottom microphone is implicated: MIC1 missing or named, or
/// the thermal daemon with an SMC panic or a bottom-module mask.
pub open spec fn bottom_mic_signal(l: Seq<char>, missing: Seq<Seq<char>>) -> bool {
    ||| (exists|j: int| 0 <= j < missing.len() && eq_ci(#[trigger] missing[j], "mic1"@))
    ||| seq_contains(l, "mic1"@)
    ||| (seq_contains(l, "thermalmonitord"@) && contains_any(
        l,
        seq!["smc panic"@, "0x80000"@, "524288"@, "0x300000"@, "3145728"@],
    ))
}

pub fn iphone15_bottom_mic_signal(log_lc: &str, missing_sensors: &[String]) -> (r: bool)
    ensures
        r == bottom_mic_signal(log_lc@, strs(missing_sensors@)),
{
    if missing_lists_sensor(missing_sensors, "mic1") {
        return true;
    }
    let l = chars_of(log_lc);
    if contains_str(&l, "mic1") {
        return true;
    }
    let masks: Vec<&str> = vec!["smc panic", "0x80000", "524288", "0x300000", "3145728"];
    assert(lit_views(masks@) == seq!["smc panic"@, "0x80000"@, "524288"@, "0x300000"@, "3145728"@]);
    contains_str(&l, "thermalmonitord") && contains_any_exec(&l, &masks)
}


// ---------------------------------------------------------------------------
// Correlations written on the cause board
// ---------------------------------------------------------------------------
/// Some missing sensor equals `id`, ASCII case aside.
pub open spec fn lists(missing: Seq<Seq<char>>, id: Seq<char>) -> bool {
    exists|j: int| 0 <= j < missing.len() && eq_ci(#[trigger] missing[j], id)
}

pub open spec fn has(l: Seq<char>, w: Seq<char>) -> bool {
    seq_contains(l, w)
}

/// A cause pushed with its trimmed label, and a line shown.
pub open spec fn cause_and_line(b: BoardView, label: Seq<char>, w: u32, line: Seq<char>) -> BoardView {
    add_ui_s(push_cause_s(b, trim(label), w), line)
}

/// The iPhone 11 family, whose sensors are named in the text of the log.
pub open spec fn iphone11_rules(b: BoardView, l: Seq<char>, pc: Seq<char>, missing: Seq<Seq<char>>) -> BoardView {
    let b1 = if has(l, "tg0b"@) || has(l, "tg0v"@) {
        let x = add_check_s(
            cause_and_line(b, IPHONE11_TG_MISSING_CAUSE@, 920, "Capteur TG \u{c2}\u{b7} "@ + IPHONE11_TG_MISSING_CAUSE@),
            "TG0B/TG0V 11 : batterie/FPC pile \u{c2}\u{b7} diode I2C (SCL/SDA) \u{c2}\u{b7} R3201/R3202 \u{c2}\u{b7} OL \u{e2}\u{2020}\u{2019} piste CPU ; CC \u{e2}\u{2020}\u{2019} CPU."@,
        );
        if pc == "iphone12,3"@ || pc == "iphone12,5"@ {
            add_check_s(x, "TG0V/TG0B 11 Pro / Max : iFixit \u{e2}\u{20ac}\u{201d} capteurs batterie ; aussi ensemble port de charge sur carte."@)
        } else {
            x
        }
    } else {
        b
    };
    let b2 = if has(l, "prs0"@) || has(l, "mic1"@) {
        add_check_s(
            cause_and_line(b1, IPHONE11_PRS_MIC1_CAUSE@, 900, "Capteur PRS/MIC1 \u{c2}\u{b7} "@ + IPHONE11_PRS_MIC1_CAUSE@),
            "PRS0/MIC1 11 : cas iFixit/terrain \u{e2}\u{20ac}\u{201d} nappe charge OEM/Premium \u{c2}\u{b7} FPC dock \u{c2}\u{b7} liquide \u{c2}\u{b7} R6822/R6823 I2C1 AOP."@,
        )
    } else {
        b1
    };
    let b3 = if lists(missing, "mic2"@) {
        let y = add_check_s(
            cause_and_line(b2, IPHONE11_MIC2_CAUSE@, 930, "Capteur mic2 \u{c2}\u{b7} "@ + IPHONE11_MIC2_CAUSE@),
            "MIC2 \u{c2}\u{b7} iPhone 11 : nappe bouton power (micro flash) \u{e2}\u{20ac}\u{201d} oxydation connecteur, FPC mal clip\u{c3}\u{a9}, vitre arri\u{c3}\u{a8}re / flash, chute ou liquide. Pas l'\u{c3}\u{a9}couteur en premier."@,
        );
        if has(l, "thermalmonitord"@) {
            add_check_s(
                cause_and_line(
                    y,
                    IPHONE11_MIC2_THERMAL_FLASH_POWER_CAUSE@,
                    650,
                    "Flash / power \u{c2}\u{b7} "@ + IPHONE11_MIC2_THERMAL_FLASH_POWER_CAUSE@,
                ),
                "iPhone 11 + thermal : prioriser Power + flash."@,
            )
        } else {
            y
        }
    } else {
        b2
    };
    let b4 = add_check_s(
        add_check_s(add_check_s(add_check_s(b3, "iPhone 11 : reboot \u{e2}\u{20ac}\u{201d} dock, puis Power+flash ; si carte double, interposer. S\u{c3}\u{a9}rie 12+ = autre profil \u{c2}\u{ab} connecteur \u{c2}\u{bb}."@), "iPhone 11 : capteur cit\u{c3}\u{a9} dans le log en premier ; nappes avant carte."@), "Liquide / oxy / pry : \u{c3}\u{a9}liminer avant de conclure carte m\u{c3}\u{a8}re."@),
        "Aftermarket 11 : fort taux d\u{e2}\u{20ac}\u{2122}\u{c3}\u{a9}chec \u{e2}\u{20ac}\u{201d} valider avec OEM/Premium."@,
    );
    let b5 = if has(l, "boot"@) || has(l, "loop"@) {
        add_check_s(b4, "iPhone 11 : boot ~3 min + capteur \u{e2}\u{20ac}\u{201d} dock puis Power+flash."@)
    } else {
        b4
    };
    if has(l, "bsc failure"@) || has(l, "bsc "@) {
        add_check_s(b5, "11 Pro / Max : SMC BSC failure \u{e2}\u{20ac}\u{201d} souvent ligne batterie / fuel gauge ; ne pas assimiler \u{c3}\u{a0} PMIC mort sans preuve."@)
    } else {
        b5
    }
}

pub open spec fn is_x(pc: Seq<char>) -> bool {
    one_of(pc, seq!["iphone10,3"@, "iphone10,6"@])
}

pub open spec fn is_xs(pc: Seq<char>) -> bool {
    one_of(pc, seq!["iphone11,2"@, "iphone11,4"@, "iphone11,6"@])
}

pub open spec fn is_xr(pc: Seq<char>) -> bool {
    pc == "iphone11,8"@
}

pub open spec fn is_i12(pc: Seq<char>) -> bool {
    one_of(pc, seq!["iphone13,1"@, "iphone13,2"@, "iphone13,3"@, "iphone13,4"@])
}

pub open spec fn mic2_label(pc: Seq<char>) -> Seq<char> {
    if is_i12(pc) {
        "MIC2 \u{c2}\u{b7} iPhone 12 (famille) \u{c2}\u{b7} \u{c3}\u{a9}couteur interne / pr\u{c3}\u{a9}-ensemble avant (corr\u{c3}\u{a9}lation atelier)"@
    } else if is_x(pc) {
        "MIC2 \u{c2}\u{b7} iPhone X \u{c2}\u{b7} \u{c3}\u{a9}couteur interne / nappe capteurs avant"@
    } else if is_xs(pc) || is_xr(pc) {
        "MIC2 \u{c2}\u{b7} XS / XR \u{c2}\u{b7} \u{c3}\u{a9}couteur interne / capteurs avant"@
    } else {
        "MIC2 \u{c2}\u{b7} microphone sur nappe du bouton power (ou nappe dock selon mod\u{c3}\u{a8}le)"@
    }
}

pub open spec fn mic2_weight(pc: Seq<char>) -> u32 {
    if is_i12(pc) {
        900
    } else if is_x(pc) || is_xs(pc) || is_xr(pc) {
        880
    } else {
        860
    }
}

/// The other generations of the text-sensor tiers (X, XS, XR, 12, SE…):
/// first part.
pub open spec fn legacy_rules_a(b: BoardView, l: Seq<char>, pc: Seq<char>, missing: Seq<Seq<char>>) -> BoardView {
    let b1 = if is_x(pc) && has(l, "thermalmonitord"@) && has(l, "mic1"@) {
        add_check_s(
            cause_and_line(b, "iPhone X \u{c2}\u{b7} thermalmonitord + MIC1 \u{c2}\u{b7} nappe charge / dock / micro bas (tr\u{c3}\u{a8}s fiable atelier)"@, 910, trim("iPhone X \u{c2}\u{b7} thermalmonitord + MIC1 \u{c2}\u{b7} nappe charge / dock / micro bas (tr\u{c3}\u{a8}s fiable atelier)"@)),
            "Faux ami : thermalmonitord \u{e2}\u{2030}\u{a0} chauffe CPU \u{e2}\u{20ac}\u{201d} souvent capteur absent ou bus dock (X)."@,
        )
    } else {
        b
    };
    let b2 = if is_x(pc) && has(l, "smc panic"@) {
        cause_and_line(b1, "iPhone X \u{c2}\u{b7} SMC PANIC ASSERT \u{c2}\u{b7} batterie, dock ou court PPBUS (fiabilit\u{c3}\u{a9} moyenne \u{e2}\u{20ac}\u{201d} croiser gas gauge / capteurs)"@, 720, trim("iPhone X \u{c2}\u{b7} SMC PANIC ASSERT \u{c2}\u{b7} batterie, dock ou court PPBUS (fiabilit\u{c3}\u{a9} moyenne \u{e2}\u{20ac}\u{201d} croiser gas gauge / capteurs)"@))
    } else {
        b1
    };
    let b3 = if is_xs(pc) && lists(missing, "mic2"@) && (has(l, "boot"@) || has(l, "loop"@)) {
        add_check_s(b2, "XS / XS Max : bootloop apr\u{c3}\u{a8}s changement \u{c3}\u{a9}couteur + missing mic2 = signature atelier tr\u{c3}\u{a8}s connue."@)
    } else {
        b2
    };
    let b4 = if has(l, "prs0"@) {
        let lab = if is_xr(pc) {
            "PRS0 \u{c2}\u{b7} iPhone XR \u{c2}\u{b7} recharge sans fil / pression / flex p\u{c3}\u{a9}riph\u{c3}\u{a9}rique (atelier)"@
        } else {
            "PRS0 \u{c2}\u{b7} probl\u{c3}\u{a8}me li\u{c3}\u{a9} \u{c3}\u{a0} la nappe du connecteur de charge"@
        };
        cause_and_line(b3, lab, if is_xr(pc) { 870 } else { 860 }, "Capteur prs0 \u{c2}\u{b7} "@ + lab)
    } else {
        b3
    };
    let b5 = if has(l, "tg0b"@) {
        cause_and_line(b4, "TG0B \u{c2}\u{b7} probl\u{c3}\u{a8}me de batterie / fuel gauge"@, 840, "Capteur tg0b \u{c2}\u{b7} "@ + "TG0B \u{c2}\u{b7} probl\u{c3}\u{a8}me de batterie / fuel gauge"@)
    } else {
        b4
    };
    if has(l, "tg0v"@) {
        cause_and_line(b5, "TG0V \u{c2}\u{b7} probl\u{c3}\u{a8}me de batterie"@, 820, "Capteur tg0v \u{c2}\u{b7} "@ + "TG0V \u{c2}\u{b7} probl\u{c3}\u{a8}me de batterie"@)
    } else {
        b5
    }
}

/// Second part: MIC1, Eiger, MIC2 and the general checks.
pub open spec fn legacy_rules_b(b: BoardView, l: Seq<char>, pc: Seq<char>, tier: RwTier, missing: Seq<Seq<char>>) -> BoardView {
    let b1 = if tier == RwTier::Se2020SpecialMic && has(l, "mic1"@) {
        add_check_s(
            add_ui_s(push_cause_s(b, trim("SE 2020 MIC1 \u{c2}\u{b7} nappe connecteur de charge d'abord, puis lignes I2C1 / tactile si connu bon"@), 920), "SE2020 MIC1 \u{c2}\u{b7} dock OEM/Premium connu bon puis diode I2C1_AP_SCL/SDA"@),
            "SE 2020 / mic1 \u{e2}\u{20ac}\u{201d} cas Repair Wiki : tester dock connu bon, puis diode I2C1_AP_SCL/SDA ; ne pas condamner carte avant isolement."@,
        )
    } else if tier == RwTier::LegacyTextMic && has(l, "mic1"@) {
        let lab = if is_xs(pc) || is_xr(pc) || is_i12(pc) {
            "MIC1 \u{c2}\u{b7} nappe dock / connecteur de charge (corr\u{c3}\u{a9}lation forte X / XS / XR / 12)"@
        } else {
            "MIC1 \u{c2}\u{b7} probl\u{c3}\u{a8}me li\u{c3}\u{a9} \u{c3}\u{a0} la nappe du connecteur de charge"@
        };
        cause_and_line(b, lab, 860, "MIC1 \u{c2}\u{b7} "@ + lab)
    } else {
        b
    };
    let b2 = if tier == RwTier::LegacyTextMic && is_i12(pc) && has(l, "eiger"@) {
        add_ui_s(push_cause_s(b1, trim("Eiger \u{c2}\u{b7} iPhone 12 \u{c2}\u{b7} nappe du connecteur de charge"@), 870), "Eiger (iPhone 12) \u{c2}\u{b7} nappe connecteur de charge"@)
    } else {
        b1
    };
    let b3 = if lists(missing, "mic2"@) {
        cause_and_line(b2, mic2_label(pc), mic2_weight(pc), "MIC2 \u{c2}\u{b7} "@ + mic2_label(pc))
    } else {
        b2
    };
    let b4 = add_check_s(b3, "V\u{c3}\u{a9}rifier nappes OEM sur capteurs texte MIC/PRS/TG"@);
    if is_i12(pc) {
        add_check_s(b4, "S\u{c3}\u{a9}rie 12 : reboot ~3 min + capteur \u{e2}\u{20ac}\u{201d} corr\u{c3}\u{a9}lation atelier forte (>80 %) dock ou \u{c3}\u{a9}couteur."@)
    } else {
        b4
    }
}

/// The text-sensor tiers: the iPhone 11 family or the other generations,
/// then ANS2.
pub open spec fn legacy_rules(b: BoardView, l: Seq<char>, pc: Seq<char>, tier: RwTier, missing: Seq<Seq<char>>) -> BoardView {
    let b1 = if one_of(pc, seq!["iphone12,1"@, "iphone12,3"@, "iphone12,5"@]) {
        iphone11_rules(b, l, pc, missing)
    } else {
        legacy_rules_b(legacy_rules_a(b, l, pc, missing), l, pc, tier, missing)
    };
    if has(l, "ans2"@) {
        let x = add_ui_s(push_cause_s(b1, trim("ANS2 \u{c2}\u{b7} NAND ou contr\u{c3}\u{b4}leur stockage / liaison CPU\u{e2}\u{20ac}\u{201c}NAND (corrosion possible)"@), 870), "ANS2 pr\u{c3}\u{a9}sent dans le log"@);
        if tier == RwTier::Series13Identifiers {
            add_check_s(x, "S\u{c3}\u{a9}rie 13 : apr\u{c3}\u{a8}s s\u{c3}\u{a9}paration carte, ANS2 \u{e2}\u{2020}\u{2019} isoler soudure NAND / interposer / rails donn\u{c3}\u{a9}es."@)
        } else {
            x
        }
    } else {
        b1
    }
}

/// The line shown for an explanation of a mask.
pub open spec fn mask_line(val: u64, e: Seq<char>) -> Seq<char> {
    "Mask 0x"@ + hex_text(val as nat) + " ("@ + dec_text(val as nat) + ") \u{c2}\u{b7} "@ + e
}

/// The explanations of one mask: each pushed as a cause; shown once over
/// all masks (`decoded` holds those shown).
pub open spec fn mask_rules(b: BoardView, decoded: Seq<Seq<char>>, val: u64, ex: Seq<(Seq<char>, u32)>) -> (BoardView, Seq<Seq<char>>)
    decreases ex.len(),
{
    if ex.len() == 0 {
        (b, decoded)
    } else {
        let (b1, d1) = mask_rules(b, decoded, val, ex.drop_last());
        let e = ex.last();
        let b2 = if d1.contains(e.0) {
            b1
        } else {
            add_ui_s(b1, mask_line(val, e.0))
        };
        (push_cause_s(b2, trim(e.0), e.1), push_unique(d1, e.0))
    }
}

pub open spec fn masks_rules(b: BoardView, masks: Seq<u64>, tier: RwTier, pc: Seq<char>) -> (BoardView, Seq<Seq<char>>)
    decreases masks.len(),
{
    if masks.len() == 0 {
        (b, Seq::empty())
    } else {
        let (b1, d1) = masks_rules(b, masks.drop_last(), tier, pc);
        mask_rules(b1, d1, masks.last(), mask_explanations(masks.last(), tier, pc))
    }
}

/// The bottom microphone module of the iPhone 15 family.
pub open spec fn bottom_mic_rules(b: BoardView, l: Seq<char>, missing: Seq<Seq<char>>) -> BoardView {
    let thermal = has(l, "thermalmonitord"@);
    let m1 = lists(missing, "mic1"@);
    let w0: u32 = if m1 && thermal {
        970
    } else if m1 || has(l, "mic1"@) {
        950
    } else {
        900
    };
    let liquid = contains_any(l, oxidation_words());
    let ox = trim("Oxydation module micro bas / connecteur flex USB-C (tr\u{c3}\u{a8}s fr\u{c3}\u{a9}quent s\u{c3}\u{a9}rie 15)"@);
    let b1 = if liquid {
        add_ui_s(push_cause_s(b, ox, 940), "Liquide / oxy \u{c2}\u{b7} "@ + ox)
    } else {
        b
    };
    let w = if liquid {
        max_u32(w0, 980)
    } else {
        w0
    };
    let b2 = cause_and_line(b1, IPHONE15_BOTTOM_MIC_MODULE_CAUSE@, w, "Module micro bas \u{c2}\u{b7} "@ + IPHONE15_BOTTOM_MIC_MODULE_CAUSE@);
    let b3 = add_check_s(
        add_check_s(b2, "S\u{c3}\u{a9}rie 15 \u{c2}\u{b7} hardware : "@ + IPHONE15_BOTTOM_MIC_HARDWARE_NOTE@ + seq!['.']),
        "Module micro bas : reseat clip sur flex USB-C, joint acoustique, nettoyage ultrason si oxyd\u{c3}\u{a9} ; assembler USB-C OEM."@,
    );
    let b4 = if thermal {
        add_check_s(b3, "thermalmonitord sur iPhone 15 \u{e2}\u{2030}\u{a0} surchauffe CPU : prioriser MIC1 / lignes capteurs du module bas."@)
    } else {
        b3
    };
    add_check_s(b4, "Le t\u{c3}\u{a9}l\u{c3}\u{a9}phone peut encore charger (VBUS OK) alors que MIC1 / capteurs du flex bas sont absents."@)
}

/// The checks added when sensor masks were read.
pub open spec fn mask_tail_rules(b: BoardView, tier: RwTier) -> BoardView {
    let b1 = add_check_s(b, "Contr\u{c3}\u{b4}ler tableau capteurs S.sensor avec masques hex."@);
    let b2 = if tier == RwTier::Series13Identifiers {
        add_check_s(add_check_s(add_check_s(b1, "S\u{c3}\u{a9}rie 13 SMC + sensor array : apr\u{c3}\u{a8}s chaque reboot ~3 min, noter le code hex sous Sensor Array."@), "\u{c3}\u{20ac} contr\u{c3}\u{b4}ler : nappe flash \u{c2}\u{b7} nappe bouton power \u{c2}\u{b7} proximit\u{c3}\u{a9} \u{c2}\u{b7} charge \u{c2}\u{b7} batterie \u{c2}\u{b7} liquide \u{c2}\u{b7} connecteurs arrach\u{c3}\u{a9}s."@), "Aftermarket d\u{c3}\u{a9}clenche souvent ces paniques \u{e2}\u{20ac}\u{201d} pr\u{c3}\u{a9}f\u{c3}\u{a9}rer OEM ou Premium pour tester."@)
    } else {
        b1
    };
    if tier == RwTier::Iphone1515Plus {
        add_check_s(add_check_s(add_check_s(b2, "15 / 15 Plus : lire le nombre exact sous S.sensor array (ex. 2621440 = 0x280000) \u{e2}\u{20ac}\u{201d} priorit\u{c3}\u{a9} sur d\u{c3}\u{a9}tail bitwise."@), "Apr\u{c3}\u{a8}s swap : derni\u{c3}\u{a8}re pi\u{c3}\u{a8}ce en cause en premier ; aftermarket nappes = risque."@), "Avant carte : FPC recharge + USB\u{e2}\u{20ac}\u{2018}C + liquide \u{c2}\u{b7} sandwich au doute."@)
    } else {
        b2
    }
}

pub open spec fn recent_tier(t: RwTier) -> bool {
    t == RwTier::Iphone1414Plus || t == RwTier::Iphone14ProSeries || t == RwTier::Iphone1515Plus
        || t == RwTier::Iphone15ProSeries || t == RwTier::Iphone16Series
}

/// The rules after the text-sensor tiers: TAOP/TAOJ, the masks and the
/// recent generations.
pub open spec fn later_rules(b: BoardView, l: Seq<char>, window: Seq<char>, pc: Seq<char>, tier: RwTier, missing: Seq<Seq<char>>) -> BoardView {
    let legacy = tier == RwTier::LegacyTextMic || tier == RwTier::Se2020SpecialMic;
    let masks = sensor_masks(window);
    let b1 = if has(l, "smc panic"@) && has(l, "taop"@) && has(l, "taoj"@) {
        add_ui_s(add_check_s(b, "SMC + TAOP/TAOJ + OUTBOX : souvent nappe Qi/MagSafe ou USB\u{e2}\u{20ac}\u{2018}C mal enclench\u{c3}\u{a9}e \u{e2}\u{20ac}\u{201d} reprendre ces FPC avant carte."@), "Motif SMC BSC + TAOP/TAOJ : penser charge sans fil / MagSafe et nappe USB\u{e2}\u{20ac}\u{2018}C (align\u{c3}\u{a9} masque 0x280000)."@)
    } else {
        b
    };
    let b2 = if masks.len() == 0 && legacy {
        add_ui_s(b1, "(Capteurs en texte seulement sur cette g\u{c3}\u{a9}n\u{c3}\u{a9}ration \u{e2}\u{20ac}\u{201d} pas de masque S.sensor lisible)"@)
    } else {
        b1
    };
    let b3 = if masks.len() == 0 && !legacy {
        add_ui_s(b2, "Aucune valeur bitmask non nulle lisible dans sensor array \u{e2}\u{20ac}\u{201d} coller panic-full complet aide."@)
    } else {
        b2
    };
    let b4 = masks_rules(b3, masks, tier, pc).0;
    let b5 = if tier == RwTier::Series13Identifiers && has(l, "ans2"@) {
        add_check_s(b4, "S\u{c3}\u{a9}rie 13 : apr\u{c3}\u{a8}s s\u{c3}\u{a9}paration carte, ANS2 \u{e2}\u{2020}\u{2019} NAND / interposer / rails donn\u{c3}\u{a9}es (atelier)."@)
    } else {
        b4
    };
    let b6 = if recent_tier(tier) {
        let x = if has(l, "userspace watchdog"@) {
            add_check_s(b5, "S\u{c3}\u{a9}rie 14/15 : userspace watchdog \u{e2}\u{20ac}\u{201d} signature parfois pi\u{c3}\u{a9}g\u{c3}\u{a9}e ; \u{c3}\u{a9}carter bug iOS / restauration avant hardware seul."@)
        } else {
            b5
        };
        if has(l, "baseband panic"@) {
            add_check_s(x, "Baseband panic 14/15 : RF, alim BB, eSIM ou iOS \u{e2}\u{20ac}\u{201d} ne pas conclure hardware sans contexte."@)
        } else {
            x
        }
    } else {
        b5
    };
    let b7 = if (tier == RwTier::Iphone1515Plus || tier == RwTier::Iphone15ProSeries) && bottom_mic_signal(l, missing) {
        bottom_mic_rules(b6, l, missing)
    } else {
        b6
    };
    if masks.len() == 0 {
        b7
    } else {
        mask_tail_rules(b7, tier)
    }
}

/// The product key handed to the chart: none when empty.
pub open spec fn chart_product(pc: Seq<char>) -> Option<Seq<char>> {
    if pc.len() == 0 {
        None
    } else {
        Some(pc)
    }
}

/// Everything that the Repair Wiki correlations write on the board and
/// show, given whether the regex of the chart finds an I²C bus.
pub open spec fn wiki_rules(
    b: BoardView,
    product_log: Option<Seq<char>>,
    hint: Option<Seq<char>>,
    soc: Option<Seq<char>>,
    l: Seq<char>,
    window: Seq<char>,
    missing: Seq<Seq<char>>,
    i2c_cited: bool,
) -> BoardView {
    let b0 = BoardView { checks: add_unique(b.checks, ifixit_hints(l)), ..b };
    let pc = product_key(product_log, hint);
    let b1 = chart_spec(b0, l, chart_product(pc), soc, i2c_cited);
    let tier = tier_of(pc);
    let b2 = if tier == RwTier::LegacyTextMic || tier == RwTier::Se2020SpecialMic {
        legacy_rules(b1, l, pc, tier, missing)
    } else {
        b1
    };
    later_rules(b2, l, window, pc, tier, missing)
}

fn cat(a: &str, b: &str) -> (r: String)
    ensures
        r@ == a@ + b@,
{
    let mut v = chars_of(a);
    append_str(&mut v, b);
    string_of(&v)
}

fn note_check(board: &mut CauseBoard, ui: &Vec<String>, c: String)
    ensures
        board_view(*final(board), ui@) == add_check_s(board_view(*old(board), ui@), c@),
{
    board.add_check(c);
}

fn note_line(board: &CauseBoard, ui: &mut Vec<String>, s: String)
    ensures
        board_view(*board, final(ui)@) == add_ui_s(board_view(*board, old(ui)@), s@),
{
    let ghost before = strs(ui@);
    ui.push(s);
    assert(strs(ui@) =~= before.push(s@));
}

fn note_cause(board: &mut CauseBoard, ui: &Vec<String>, name: &str, w: u32)
    ensures
        board_view(*final(board), ui@) == push_cause_s(board_view(*old(board), ui@), name@, w),
{
    board.push_cause(name, w);
}

/// Pushes the trimmed `label` with weight `w`, then shows `line`.
fn note_cause_line(board: &mut CauseBoard, ui: &mut Vec<String>, label: &str, w: u32, line: String)
    ensures
        board_view(*final(board), final(ui)@) == cause_and_line(board_view(*old(board), old(ui)@), label@, w, line@),
{
    let n = cause_label(owned(label));
    note_cause(board, ui, n.as_str(), w);
    note_line(board, ui, line);
}

fn iphone11_exec(board: &mut CauseBoard, ui: &mut Vec<String>, l: &[char], pc: &str, missing: &[String])
    ensures
        board_view(*final(board), final(ui)@) == iphone11_rules(board_view(*old(board), old(ui)@), l@, pc@, strs(missing@)),
{
    let pcc = chars_of(pc);
    if contains_str(l, "tg0b") || contains_str(l, "tg0v") {
        note_cause_line(board, ui, IPHONE11_TG_MISSING_CAUSE, 920, cat("Capteur TG \u{c2}\u{b7} ", IPHONE11_TG_MISSING_CAUSE));
        note_check(board, ui, owned("TG0B/TG0V 11 : batterie/FPC pile \u{c2}\u{b7} diode I2C (SCL/SDA) \u{c2}\u{b7} R3201/R3202 \u{c2}\u{b7} OL \u{e2}\u{2020}\u{2019} piste CPU ; CC \u{e2}\u{2020}\u{2019} CPU."));
        if eq_str(&pcc, "iphone12,3") || eq_str(&pcc, "iphone12,5") {
            note_check(board, ui, owned("TG0V/TG0B 11 Pro / Max : iFixit \u{e2}\u{20ac}\u{201d} capteurs batterie ; aussi ensemble port de charge sur carte."));
        }
    }
    if contains_str(l, "prs0") || contains_str(l, "mic1") {
        note_cause_line(board, ui, IPHONE11_PRS_MIC1_CAUSE, 900, cat("Capteur PRS/MIC1 \u{c2}\u{b7} ", IPHONE11_PRS_MIC1_CAUSE));
        note_check(board, ui, owned("PRS0/MIC1 11 : cas iFixit/terrain \u{e2}\u{20ac}\u{201d} nappe charge OEM/Premium \u{c2}\u{b7} FPC dock \u{c2}\u{b7} liquide \u{c2}\u{b7} R6822/R6823 I2C1 AOP."));
    }
    if missing_lists_sensor(missing, "mic2") {
        note_cause_line(board, ui, IPHONE11_MIC2_CAUSE, 930, cat("Capteur mic2 \u{c2}\u{b7} ", IPHONE11_MIC2_CAUSE));
        note_check(board, ui, owned("MIC2 \u{c2}\u{b7} iPhone 11 : nappe bouton power (micro flash) \u{e2}\u{20ac}\u{201d} oxydation connecteur, FPC mal clip\u{c3}\u{a9}, vitre arri\u{c3}\u{a8}re / flash, chute ou liquide. Pas l'\u{c3}\u{a9}couteur en premier."));
        if contains_str(l, "thermalmonitord") {
            note_cause_line(
                board,
                ui,
                IPHONE11_MIC2_THERMAL_FLASH_POWER_CAUSE,
                650,
                cat("Flash / power \u{c2}\u{b7} ", IPHONE11_MIC2_THERMAL_FLASH_POWER_CAUSE),
            );
            note_check(board, ui, owned("iPhone 11 + thermal : prioriser Power + flash."));
        }
    }
    note_check(board, ui, owned("iPhone 11 : reboot \u{e2}\u{20ac}\u{201d} dock, puis Power+flash ; si carte double, interposer. S\u{c3}\u{a9}rie 12+ = autre profil \u{c2}\u{ab} connecteur \u{c2}\u{bb}."));
    note_check(board, ui, owned("iPhone 11 : capteur cit\u{c3}\u{a9} dans le log en premier ; nappes avant carte."));
    note_check(board, ui, owned("Liquide / oxy / pry : \u{c3}\u{a9}liminer avant de conclure carte m\u{c3}\u{a8}re."));
    note_check(board, ui, owned("Aftermarket 11 : fort taux d\u{e2}\u{20ac}\u{2122}\u{c3}\u{a9}chec \u{e2}\u{20ac}\u{201d} valider avec OEM/Premium."));
    if contains_str(l, "boot") || contains_str(l, "loop") {
        note_check(board, ui, owned("iPhone 11 : boot ~3 min + capteur \u{e2}\u{20ac}\u{201d} dock puis Power+flash."));
    }
    if contains_str(l, "bsc failure") || contains_str(l, "bsc ") {
        note_check(board, ui, owned("11 Pro / Max : SMC BSC failure \u{e2}\u{20ac}\u{201d} souvent ligne batterie / fuel gauge ; ne pas assimiler \u{c3}\u{a0} PMIC mort sans preuve."));
    }
}

fn legacy_a_exec(board: &mut CauseBoard, ui: &mut Vec<String>, l: &[char], pc: &str, missing: &[String])
    ensures
        board_view(*final(board), final(ui)@) == legacy_rules_a(board_view(*old(board), old(ui)@), l@, pc@, strs(missing@)),
{
    let x = is_iphone_x_only(pc);
    let xs = is_iphone_xs_xs_max(pc);
    let xr = is_iphone_xr_only(pc);
    if x && contains_str(l, "thermalmonitord") && contains_str(l, "mic1") {
        let n = cause_label(owned("iPhone X \u{c2}\u{b7} thermalmonitord + MIC1 \u{c2}\u{b7} nappe charge / dock / micro bas (tr\u{c3}\u{a8}s fiable atelier)"));
        note_cause_line(board, ui, "iPhone X \u{c2}\u{b7} thermalmonitord + MIC1 \u{c2}\u{b7} nappe charge / dock / micro bas (tr\u{c3}\u{a8}s fiable atelier)", 910, n);
        note_check(board, ui, owned("Faux ami : thermalmonitord \u{e2}\u{2030}\u{a0} chauffe CPU \u{e2}\u{20ac}\u{201d} souvent capteur absent ou bus dock (X)."));
    }
    if x && contains_str(l, "smc panic") {
        let n = cause_label(owned("iPhone X \u{c2}\u{b7} SMC PANIC ASSERT \u{c2}\u{b7} batterie, dock ou court PPBUS (fiabilit\u{c3}\u{a9} moyenne \u{e2}\u{20ac}\u{201d} croiser gas gauge / capteurs)"));
        note_cause_line(board, ui, "iPhone X \u{c2}\u{b7} SMC PANIC ASSERT \u{c2}\u{b7} batterie, dock ou court PPBUS (fiabilit\u{c3}\u{a9} moyenne \u{e2}\u{20ac}\u{201d} croiser gas gauge / capteurs)", 720, n);
    }
    if xs && missing_lists_sensor(missing, "mic2") && (contains_str(l, "boot") || contains_str(l, "loop")) {
        note_check(board, ui, owned("XS / XS Max : bootloop apr\u{c3}\u{a8}s changement \u{c3}\u{a9}couteur + missing mic2 = signature atelier tr\u{c3}\u{a8}s connue."));
    }
    if contains_str(l, "prs0") {
        let lab: &str = if xr {
            "PRS0 \u{c2}\u{b7} iPhone XR \u{c2}\u{b7} recharge sans fil / pression / flex p\u{c3}\u{a9}riph\u{c3}\u{a9}rique (atelier)"
        } else {
            "PRS0 \u{c2}\u{b7} probl\u{c3}\u{a8}me li\u{c3}\u{a9} \u{c3}\u{a0} la nappe du connecteur de charge"
        };
        let wt: u32 = if xr { 870 } else { 860 };
        note_cause_line(board, ui, lab, wt, cat("Capteur prs0 \u{c2}\u{b7} ", lab));
    }
    if contains_str(l, "tg0b") {
        note_cause_line(board, ui, "TG0B \u{c2}\u{b7} probl\u{c3}\u{a8}me de batterie / fuel gauge", 840, cat("Capteur tg0b \u{c2}\u{b7} ", "TG0B \u{c2}\u{b7} probl\u{c3}\u{a8}me de batterie / fuel gauge"));
    }
    if contains_str(l, "tg0v") {
        note_cause_line(board, ui, "TG0V \u{c2}\u{b7} probl\u{c3}\u{a8}me de batterie", 820, cat("Capteur tg0v \u{c2}\u{b7} ", "TG0V \u{c2}\u{b7} probl\u{c3}\u{a8}me de batterie"));
    }
}

fn mic2_label_exec(pc: &str) -> (r: &'static str)
    ensures
        r@ == mic2_label(pc@),
{
    if is_iphone12_apple_ids(pc) {
        "MIC2 \u{c2}\u{b7} iPhone 12 (famille) \u{c2}\u{b7} \u{c3}\u{a9}couteur interne / pr\u{c3}\u{a9}-ensemble avant (corr\u{c3}\u{a9}lation atelier)"
    } else if is_iphone_x_only(pc) {
        "MIC2 \u{c2}\u{b7} iPhone X \u{c2}\u{b7} \u{c3}\u{a9}couteur interne / nappe capteurs avant"
    } else if is_iphone_xs_xs_max(pc) || is_iphone_xr_only(pc) {
        "MIC2 \u{c2}\u{b7} XS / XR \u{c2}\u{b7} \u{c3}\u{a9}couteur interne / capteurs avant"
    } else {
        "MIC2 \u{c2}\u{b7} microphone sur nappe du bouton power (ou nappe dock selon mod\u{c3}\u{a8}le)"
    }
}

fn legacy_b_exec(board: &mut CauseBoard, ui: &mut Vec<String>, l: &[char], pc: &str, tier: RwTier, missing: &[String])
    ensures
        board_view(*final(board), final(ui)@) == legacy_rules_b(board_view(*old(board), old(ui)@), l@, pc@, tier, strs(missing@)),
{
    let i12 = is_iphone12_apple_ids(pc);
    let xs = is_iphone_xs_xs_max(pc);
    let xr = is_iphone_xr_only(pc);
    let x = is_iphone_x_only(pc);
    if tier == RwTier::Se2020SpecialMic && contains_str(l, "mic1") {
        let n = cause_label(owned("SE 2020 MIC1 \u{c2}\u{b7} nappe connecteur de charge d'abord, puis lignes I2C1 / tactile si connu bon"));
        note_cause(board, ui, n.as_str(), 920);
        note_line(board, ui, owned("SE2020 MIC1 \u{c2}\u{b7} dock OEM/Premium connu bon puis diode I2C1_AP_SCL/SDA"));
        note_check(board, ui, owned("SE 2020 / mic1 \u{e2}\u{20ac}\u{201d} cas Repair Wiki : tester dock connu bon, puis diode I2C1_AP_SCL/SDA ; ne pas condamner carte avant isolement."));
    } else if tier == RwTier::LegacyTextMic && contains_str(l, "mic1") {
        let lab: &str = if xs || xr || i12 {
            "MIC1 \u{c2}\u{b7} nappe dock / connecteur de charge (corr\u{c3}\u{a9}lation forte X / XS / XR / 12)"
        } else {
            "MIC1 \u{c2}\u{b7} probl\u{c3}\u{a8}me li\u{c3}\u{a9} \u{c3}\u{a0} la nappe du connecteur de charge"
        };
        note_cause_line(board, ui, lab, 860, cat("MIC1 \u{c2}\u{b7} ", lab));
    }
    if tier == RwTier::LegacyTextMic && i12 && contains_str(l, "eiger") {
        let n = cause_label(owned("Eiger \u{c2}\u{b7} iPhone 12 \u{c2}\u{b7} nappe du connecteur de charge"));
        note_cause(board, ui, n.as_str(), 870);
        note_line(board, ui, owned("Eiger (iPhone 12) \u{c2}\u{b7} nappe connecteur de charge"));
    }
    let lab2 = mic2_label_exec(pc);
    let w2: u32 = if i12 {
        900
    } else if x || xs || xr {
        880
    } else {
        860
    };
    if missing_lists_sensor(missing, "mic2") {
        note_cause_line(board, ui, lab2, w2, cat("MIC2 \u{c2}\u{b7} ", lab2));
    }
    note_check(board, ui, owned("V\u{c3}\u{a9}rifier nappes OEM sur capteurs texte MIC/PRS/TG"));
    if i12 {
        note_check(board, ui, owned("S\u{c3}\u{a9}rie 12 : reboot ~3 min + capteur \u{e2}\u{20ac}\u{201d} corr\u{c3}\u{a9}lation atelier forte (>80 %) dock ou \u{c3}\u{a9}couteur."));
    }
}

fn legacy_exec(board: &mut CauseBoard, ui: &mut Vec<String>, l: &[char], pc: &str, tier: RwTier, missing: &[String])
    ensures
        board_view(*final(board), final(ui)@) == legacy_rules(board_view(*old(board), old(ui)@), l@, pc@, tier, strs(missing@)),
{
    if is_iphone11_family(pc) {
        iphone11_exec(board, ui, l, pc, missing);
    } else {
        legacy_a_exec(board, ui, l, pc, missing);
        legacy_b_exec(board, ui, l, pc, tier, missing);
    }
    if contains_str(l, "ans2") {
        let n = cause_label(owned("ANS2 \u{c2}\u{b7} NAND ou contr\u{c3}\u{b4}leur stockage / liaison CPU\u{e2}\u{20ac}\u{201c}NAND (corrosion possible)"));
        note_cause(board, ui, n.as_str(), 870);
        note_line(board, ui, owned("ANS2 pr\u{c3}\u{a9}sent dans le log"));
        if tier == RwTier::Series13Identifiers {
            note_check(board, ui, owned("S\u{c3}\u{a9}rie 13 : apr\u{c3}\u{a8}s s\u{c3}\u{a9}paration carte, ANS2 \u{e2}\u{2020}\u{2019} isoler soudure NAND / interposer / rails donn\u{c3}\u{a9}es."));
        }
    }
}

fn strings_contain(v: &Vec<String>, x: &str) -> (r: bool)
    ensures
        r == strs(v@).contains(x@),
{
    let xc = chars_of(x);
    let mut i: usize = 0;
    while i < v.len()
        invariant
            i <= v.len(),
            xc@ == x@,
            forall|j: int| 0 <= j < i ==> strs(v@)[j] != x@,
        decreases v.len() - i,
    {
        let c = chars_of(v[i].as_str());
        if chars_eq(&c, &xc) {
            assert(strs(v@)[i as int] == x@);
            return true;
        }
        i += 1;
    }
    false
}

fn mask_line_exec(val: u64, e: &str) -> (r: String)
    ensures
        r@ == mask_line(val, e@),
{
    let mut v = chars_of("Mask 0x");
    let h = hex_text_exec(val);
    v.extend_from_slice(&h);
    append_str(&mut v, " (");
    let d = dec_text_exec(val);
    v.extend_from_slice(&d);
    append_str(&mut v, ") \u{c2}\u{b7} ");
    append_str(&mut v, e);
    string_of(&v)
}

fn mask_exec(board: &mut CauseBoard, ui: &mut Vec<String>, decoded: &mut Vec<String>, val: u64, ex: &Vec<(String, u32)>)
    ensures
        (board_view(*final(board), final(ui)@), strs(final(decoded)@)) == mask_rules(
            board_view(*old(board), old(ui)@),
            strs(old(decoded)@),
            val,
            weighted_views(ex@),
        ),
{
    let ghost b0 = board_view(*board, ui@);
    let ghost d0 = strs(decoded@);
    let ghost wv = weighted_views(ex@);
    let mut i: usize = 0;
    assert(wv.take(0) =~= Seq::<(Seq<char>, u32)>::empty());
    while i < ex.len()
        invariant
            i <= ex.len(),
            wv == weighted_views(ex@),
            (board_view(*board, ui@), strs(decoded@)) == mask_rules(b0, d0, val, wv.take(i as int)),
        decreases ex.len() - i,
    {
        assert(wv.take(i + 1).drop_last() =~= wv.take(i as int));
        assert(wv.take(i + 1).last() == (ex@[i as int].0@, ex@[i as int].1));
        let e = ex[i].0.as_str();
        let w = ex[i].1;
        let seen = strings_contain(decoded, e);
        if !seen {
            note_line(board, ui, mask_line_exec(val, e));
            let ghost before = strs(decoded@);
            decoded.push(owned(e));
            assert(strs(decoded@) =~= before.push(e@));
        }
        let n = cause_label(owned(e));
        note_cause(board, ui, n.as_str(), w);
        i += 1;
    }
    assert(wv.take(ex.len() as int) =~= wv);
}

fn masks_exec(board: &mut CauseBoard, ui: &mut Vec<String>, masks: &Vec<u64>, tier: RwTier, log_lc: &str, pc: &str)
    ensures
        board_view(*final(board), final(ui)@) == masks_rules(board_view(*old(board), old(ui)@), masks@, tier, pc@).0,
{
    let ghost b0 = board_view(*board, ui@);
    let mut decoded: Vec<String> = Vec::new();
    let mut i: usize = 0;
    assert(masks@.take(0) =~= Seq::<u64>::empty());
    assert(strs(decoded@) =~= Seq::<Seq<char>>::empty());
    while i < masks.len()
        invariant
            i <= masks.len(),
            (board_view(*board, ui@), strs(decoded@)) == masks_rules(b0, masks@.take(i as int), tier, pc@),
        decreases masks.len() - i,
    {
        assert(masks@.take(i + 1).drop_last() =~= masks@.take(i as int));
        assert(masks@.take(i + 1).last() == masks@[i as int]);
        let val = masks[i];
        let ex = explanations_for_mask(val, tier, log_lc, pc);
        mask_exec(board, ui, &mut decoded, val, &ex);
        i += 1;
    }
    assert(masks@.take(masks.len() as int) =~= masks@);
}

fn bottom_mic_exec(board: &mut CauseBoard, ui: &mut Vec<String>, l: &[char], log_lc: &str, missing: &[String])
    requires
        l@ == log_lc@,
    ensures
        board_view(*final(board), final(ui)@) == bottom_mic_rules(board_view(*old(board), old(ui)@), l@, strs(missing@)),
{
    let thermal = contains_str(l, "thermalmonitord");
    let m1 = missing_lists_sensor(missing, "mic1");
    let w0: u32 = if m1 && thermal {
        970
    } else if m1 || contains_str(l, "mic1") {
        950
    } else {
        900
    };
    let liquid = log_suggests_liquid_or_oxidation(log_lc);
    let mut w = w0;
    if liquid {
        if w < 980 {
            w = 980;
        }
        let ox = cause_label(owned("Oxydation module micro bas / connecteur flex USB-C (tr\u{c3}\u{a8}s fr\u{c3}\u{a9}quent s\u{c3}\u{a9}rie 15)"));
        note_cause(board, ui, ox.as_str(), 940);
        note_line(board, ui, cat("Liquide / oxy \u{c2}\u{b7} ", ox.as_str()));
    }
    assert(w == (if liquid { max_u32(w0, 980) } else { w0 }));
    assert(liquid == contains_any(l@, oxidation_words()));
    note_cause_line(
        board,
        ui,
        IPHONE15_BOTTOM_MIC_MODULE_CAUSE,
        w,
        cat("Module micro bas \u{c2}\u{b7} ", IPHONE15_BOTTOM_MIC_MODULE_CAUSE),
    );
    let mut hw = chars_of("S\u{c3}\u{a9}rie 15 \u{c2}\u{b7} hardware : ");
    append_str(&mut hw, IPHONE15_BOTTOM_MIC_HARDWARE_NOTE);
    hw.push('.');
    assert(hw@ =~= "S\u{c3}\u{a9}rie 15 \u{c2}\u{b7} hardware : "@ + IPHONE15_BOTTOM_MIC_HARDWARE_NOTE@ + seq!['.']);
    note_check(board, ui, string_of(&hw));
    note_check(board, ui, owned("Module micro bas : reseat clip sur flex USB-C, joint acoustique, nettoyage ultrason si oxyd\u{c3}\u{a9} ; assembler USB-C OEM."));
    if thermal {
        note_check(board, ui, owned("thermalmonitord sur iPhone 15 \u{e2}\u{2030}\u{a0} surchauffe CPU : prioriser MIC1 / lignes capteurs du module bas."));
    }
    note_check(board, ui, owned("Le t\u{c3}\u{a9}l\u{c3}\u{a9}phone peut encore charger (VBUS OK) alors que MIC1 / capteurs du flex bas sont absents."));
}

fn mask_tail_exec(board: &mut CauseBoard, ui: &Vec<String>, tier: RwTier)
    ensures
        board_view(*final(board), ui@) == mask_tail_rules(board_view(*old(board), ui@), tier),
{
    note_check(board, ui, owned("Contr\u{c3}\u{b4}ler tableau capteurs S.sensor avec masques hex."));
    if tier == RwTier::Series13Identifiers {
        note_check(board, ui, owned("S\u{c3}\u{a9}rie 13 SMC + sensor array : apr\u{c3}\u{a8}s chaque reboot ~3 min, noter le code hex sous Sensor Array."));
        note_check(board, ui, owned("\u{c3}\u{20ac} contr\u{c3}\u{b4}ler : nappe flash \u{c2}\u{b7} nappe bouton power \u{c2}\u{b7} proximit\u{c3}\u{a9} \u{c2}\u{b7} charge \u{c2}\u{b7} batterie \u{c2}\u{b7} liquide \u{c2}\u{b7} connecteurs arrach\u{c3}\u{a9}s."));
        note_check(board, ui, owned("Aftermarket d\u{c3}\u{a9}clenche souvent ces paniques \u{e2}\u{20ac}\u{201d} pr\u{c3}\u{a9}f\u{c3}\u{a9}rer OEM ou Premium pour tester."));
    }
    if tier == RwTier::Iphone1515Plus {
        note_check(board, ui, owned("15 / 15 Plus : lire le nombre exact sous S.sensor array (ex. 2621440 = 0x280000) \u{e2}\u{20ac}\u{201d} priorit\u{c3}\u{a9} sur d\u{c3}\u{a9}tail bitwise."));
        note_check(board, ui, owned("Apr\u{c3}\u{a8}s swap : derni\u{c3}\u{a8}re pi\u{c3}\u{a8}ce en cause en premier ; aftermarket nappes = risque."));
        note_check(board, ui, owned("Avant carte : FPC recharge + USB\u{e2}\u{20ac}\u{2018}C + liquide \u{c2}\u{b7} sandwich au doute."));
    }
}

fn later_exec(
    board: &mut CauseBoard,
    ui: &mut Vec<String>,
    l: &[char],
    log_lc: &str,
    log_window: &str,
    pc: &str,
    tier: RwTier,
    missing: &[String],
)
    requires
        l@ == log_lc@,
    ensures
        board_view(*final(board), final(ui)@) == later_rules(board_view(*old(board), old(ui)@), l@, log_window@, pc@, tier, strs(missing@)),
{
    let legacy = tier == RwTier::LegacyTextMic || tier == RwTier::Se2020SpecialMic;
    let masks = sensor_array_nonzero_decimal_masks(log_window);
    if contains_str(l, "smc panic") && contains_str(l, "taop") && contains_str(l, "taoj") {
        note_check(board, ui, owned("SMC + TAOP/TAOJ + OUTBOX : souvent nappe Qi/MagSafe ou USB\u{e2}\u{20ac}\u{2018}C mal enclench\u{c3}\u{a9}e \u{e2}\u{20ac}\u{201d} reprendre ces FPC avant carte."));
        note_line(board, ui, owned("Motif SMC BSC + TAOP/TAOJ : penser charge sans fil / MagSafe et nappe USB\u{e2}\u{20ac}\u{2018}C (align\u{c3}\u{a9} masque 0x280000)."));
    }
    if masks.len() == 0 && legacy {
        note_line(board, ui, owned("(Capteurs en texte seulement sur cette g\u{c3}\u{a9}n\u{c3}\u{a9}ration \u{e2}\u{20ac}\u{201d} pas de masque S.sensor lisible)"));
    }
    if masks.len() == 0 && !legacy {
        note_line(board, ui, owned("Aucune valeur bitmask non nulle lisible dans sensor array \u{e2}\u{20ac}\u{201d} coller panic-full complet aide."));
    }
    masks_exec(board, ui, &masks, tier, log_lc, pc);
    if tier == RwTier::Series13Identifiers && contains_str(l, "ans2") {
        note_check(board, ui, owned("S\u{c3}\u{a9}rie 13 : apr\u{c3}\u{a8}s s\u{c3}\u{a9}paration carte, ANS2 \u{e2}\u{2020}\u{2019} NAND / interposer / rails donn\u{c3}\u{a9}es (atelier)."));
    }
    if tier == RwTier::Iphone1414Plus || tier == RwTier::Iphone14ProSeries || tier == RwTier::Iphone1515Plus
        || tier == RwTier::Iphone15ProSeries || tier == RwTier::Iphone16Series {
        if contains_str(l, "userspace watchdog") {
            note_check(board, ui, owned("S\u{c3}\u{a9}rie 14/15 : userspace watchdog \u{e2}\u{20ac}\u{201d} signature parfois pi\u{c3}\u{a9}g\u{c3}\u{a9}e ; \u{c3}\u{a9}carter bug iOS / restauration avant hardware seul."));
        }
        if contains_str(l, "baseband panic") {
            note_check(board, ui, owned("Baseband panic 14/15 : RF, alim BB, eSIM ou iOS \u{e2}\u{20ac}\u{201d} ne pas conclure hardware sans contexte."));
        }
    }
    if (tier == RwTier::Iphone1515Plus || tier == RwTier::Iphone15ProSeries) && iphone15_bottom_mic_signal(log_lc, missing) {
        bottom_mic_exec(board, ui, l, log_lc, missing);
    }
    if masks.len() > 0 {
        mask_tail_exec(board, ui, tier);
    }
}

/// Writes on the board the Repair Wiki correlations of a panic log: the
/// iFixit hints, the PANIC LOGS chart, the rules of the product's tier, and
/// what each sensor mask of `log_window` means for it. Returns the lines to
/// show.
pub fn apply_repair_wiki_correlations(
    board: &mut CauseBoard,
    product_from_log: Option<&str>,
    device_hint: Option<&str>,
    soc_id: Option<&str>,
    log_lc: &str,
    log_window: &str,
    missing_sensors: &[String],
) -> (ui: Vec<String>)
    ensures
        board_view(*final(board), ui@) == wiki_rules(
            board_view(*old(board), Seq::empty()),
            opt_str_view(product_from_log),
            opt_str_view(device_hint),
            opt_str_view(soc_id),
            log_lc@,
            log_window@,
            strs(missing_sensors@),
            i2c_bus_cited(log_lc@),
        ),
        board_grows(board_view(*old(board), Seq::empty()), board_view(*final(board), ui@)),
{
    proof {
        law_correlations_only_add(
            board_view(*old(board), Seq::empty()),
            opt_str_view(product_from_log),
            opt_str_view(device_hint),
            opt_str_view(soc_id),
            log_lc@,
            log_window@,
            strs(missing_sensors@),
            i2c_bus_cited(log_lc@),
        );
    }
    let mut ui: Vec<String> = Vec::new();
    append_ifixit_kernel_panic_hints(log_lc, &mut board.checks);
    let pc = product_lc(product_from_log, device_hint);
    let chart_p: Option<&str> = if pc.as_str().is_empty() {
        None
    } else {
        Some(pc.as_str())
    };
    apply_panic_logs_chart_pdf(log_lc, chart_p, soc_id, board, &mut ui);
    let tier = tier_for_product(pc.as_str());
    let l = chars_of(log_lc);
    if tier == RwTier::LegacyTextMic || tier == RwTier::Se2020SpecialMic {
        legacy_exec(board, &mut ui, &l, pc.as_str(), tier, missing_sensors);
    }
    later_exec(board, &mut ui, &l, log_lc, log_window, pc.as_str(), tier, missing_sensors);
    ui
}

// ---------------------------------------------------------------------------
// What the correlations do to the board
// ---------------------------------------------------------------------------
proof fn lemma_iphone11_grows(a: BoardView, b: BoardView, l: Seq<char>, pc: Seq<char>, missing: Seq<Seq<char>>)
    requires
        board_grows(a, b),
    ensures
        board_grows(a, iphone11_rules(b, l, pc, missing)),
{
    broadcast use group_board_grows;
}

proof fn lemma_legacy_a_grows(a: BoardView, b: BoardView, l: Seq<char>, pc: Seq<char>, missing: Seq<Seq<char>>)
    requires
        board_grows(a, b),
    ensures
        board_grows(a, legacy_rules_a(b, l, pc, missing)),
{
    broadcast use group_board_grows;
}

proof fn lemma_legacy_b_grows(a: BoardView, b: BoardView, l: Seq<char>, pc: Seq<char>, tier: RwTier, missing: Seq<Seq<char>>)
    requires
        board_grows(a, b),
    ensures
        board_grows(a, legacy_rules_b(b, l, pc, tier, missing)),
{
    broadcast use group_board_grows;
}

proof fn lemma_legacy_grows(a: BoardView, b: BoardView, l: Seq<char>, pc: Seq<char>, tier: RwTier, missing: Seq<Seq<char>>)
    requires
        board_grows(a, b),
    ensures
        board_grows(a, legacy_rules(b, l, pc, tier, missing)),
{
    broadcast use group_board_grows;
    lemma_iphone11_grows(a, b, l, pc, missing);
    lemma_legacy_a_grows(a, b, l, pc, missing);
    lemma_legacy_b_grows(a, legacy_rules_a(b, l, pc, missing), l, pc, tier, missing);
}

/// Every weight of a list of weighted lines is positive.
pub open spec fn weights_positive(ex: Seq<(Seq<char>, u32)>) -> bool {
    forall|i: int| 0 <= i < ex.len() ==> (#[trigger] ex[i]).1 > 0
}

pub open spec fn table_weights_positive(es: Seq<(u64, Seq<char>, u32)>) -> bool {
    forall|i: int| 0 <= i < es.len() ==> (#[trigger] es[i]).2 > 0
}

proof fn lemma_exact_matches_positive(val: u64, es: Seq<(u64, Seq<char>, u32)>)
    requires
        table_weights_positive(es),
    ensures
        weights_positive(exact_matches(val, es)),
    decreases es.len(),
{
    if es.len() > 0 {
        assert(table_weights_positive(es.drop_last()));
        lemma_exact_matches_positive(val, es.drop_last());
        assert(es[es.len() - 1].2 > 0);
    }
}

proof fn lemma_bitwise_lines_positive(val: u64, bs: Seq<(u64, Seq<char>, u32)>)
    requires
        table_weights_positive(bs),
    ensures
        weights_positive(bitwise_lines(val, bs)),
    decreases bs.len(),
{
    if bs.len() > 0 {
        assert(table_weights_positive(bs.drop_last()));
        lemma_bitwise_lines_positive(val, bs.drop_last());
        assert(bs[bs.len() - 1].2 > 0);
    }
}

proof fn lemma_mask_explanations_positive(val: u64, tier: RwTier, pc: Seq<char>)
    ensures
        weights_positive(mask_explanations(val, tier, pc)),
{
    let es = tier_entries(tier, pc == "iphone14,4"@);
    assert forall|i: int| 0 <= i < es.len() implies (#[trigger] es[i]).2 > 0 by {}
    lemma_exact_matches_positive(val, es);
    let bt = bit_table();
    assert forall|i: int| 0 <= i < bt.len() implies (#[trigger] bt[i]).2 > 0 by {}
    lemma_bitwise_lines_positive(val, bt);
}

proof fn lemma_mask_rules_grows(a: BoardView, b: BoardView, decoded: Seq<Seq<char>>, val: u64, ex: Seq<(Seq<char>, u32)>)
    requires
        board_grows(a, b),
        weights_positive(ex),
    ensures
        board_grows(a, mask_rules(b, decoded, val, ex).0),
    decreases ex.len(),
{
    broadcast use group_board_grows;
    if ex.len() > 0 {
        assert(weights_positive(ex.drop_last()));
        lemma_mask_rules_grows(a, b, decoded, val, ex.drop_last());
        assert(ex[ex.len() - 1].1 > 0);
    }
}

broadcast proof fn lemma_masks_rules_grows(a: BoardView, b: BoardView, masks: Seq<u64>, tier: RwTier, pc: Seq<char>)
    requires
        board_grows(a, b),
    ensures
        #[trigger] board_grows(a, masks_rules(b, masks, tier, pc).0),
    decreases masks.len(),
{
    if masks.len() > 0 {
        lemma_masks_rules_grows(a, b, masks.drop_last(), tier, pc);
        let (b1, d1) = masks_rules(b, masks.drop_last(), tier, pc);
        lemma_mask_explanations_positive(masks.last(), tier, pc);
        lemma_mask_rules_grows(a, b1, d1, masks.last(), mask_explanations(masks.last(), tier, pc));
    }
}

broadcast proof fn lemma_bottom_mic_grows(a: BoardView, b: BoardView, l: Seq<char>, missing: Seq<Seq<char>>)
    requires
        board_grows(a, b),
    ensures
        #[trigger] board_grows(a, bottom_mic_rules(b, l, missing)),
{
    broadcast use group_board_grows;
}

broadcast proof fn lemma_mask_tail_grows(a: BoardView, b: BoardView, tier: RwTier)
    requires
        board_grows(a, b),
    ensures
        #[trigger] board_grows(a, mask_tail_rules(b, tier)),
{
    broadcast use group_board_grows;
}

proof fn lemma_later_grows(a: BoardView, b: BoardView, l: Seq<char>, window: Seq<char>, pc: Seq<char>, tier: RwTier, missing: Seq<Seq<char>>)
    requires
        board_grows(a, b),
    ensures
        board_grows(a, later_rules(b, l, window, pc, tier, missing)),
{
    broadcast use group_board_grows, lemma_masks_rules_grows, lemma_bottom_mic_grows, lemma_mask_tail_grows;
}

proof fn lemma_add_unique_keeps(acc: Seq<Seq<char>>, xs: Seq<Seq<char>>, c: Seq<char>)
    requires
        acc.contains(c),
    ensures
        add_unique(acc, xs).contains(c),
    decreases xs.len(),
{
    if xs.len() > 0 {
        lemma_add_unique_keeps(acc, xs.drop_last(), c);
        let a1 = add_unique(acc, xs.drop_last());
        assert(add_unique(acc, xs) == push_unique(a1, xs.last()));
        if !a1.contains(xs.last()) {
            let i = choose|i: int| 0 <= i < a1.len() && a1[i] == c;
            assert(a1.push(xs.last())[i] == c);
        }
    }
}

/// The Repair Wiki correlations only add to the board: every cause keeps at
/// least its weight (the highest weight pushed for a name wins), every
/// check stays, and each cause they bring in weighs more than nothing.
pub proof fn law_correlations_only_add(
    b: BoardView,
    product_log: Option<Seq<char>>,
    hint: Option<Seq<char>>,
    soc: Option<Seq<char>>,
    l: Seq<char>,
    window: Seq<char>,
    missing: Seq<Seq<char>>,
    i2c_cited: bool,
)
    ensures
        board_grows(b, wiki_rules(b, product_log, hint, soc, l, window, missing, i2c_cited)),
{
    broadcast use group_board_grows;
    let b0 = BoardView { checks: add_unique(b.checks, ifixit_hints(l)), ..b };
    assert forall|c: Seq<char>| #![trigger b0.checks.contains(c)] b.checks.contains(c) implies b0.checks.contains(c) by {
        lemma_add_unique_keeps(b.checks, ifixit_hints(l), c);
    }
    assert(board_grows(b, b0));
    let pc = product_key(product_log, hint);
    lemma_chart_grows(b, b0, l, chart_product(pc), soc, i2c_cited);
    let b1 = chart_spec(b0, l, chart_product(pc), soc, i2c_cited);
    let tier = tier_of(pc);
    lemma_legacy_grows(b, b1, l, pc, tier, missing);
    let b2 = if tier == RwTier::LegacyTextMic || tier == RwTier::Se2020SpecialMic {
        legacy_rules(b1, l, pc, tier, missing)
    } else {
        b1
    };
    lemma_later_grows(b, b2, l, window, pc, tier, missing);
}

/// The line that names an entry of a bit table: its meaning and its
/// sub-mask in hexadecimal.
pub open spec fn submask_line(b: (u64, Seq<char>, u32)) -> Seq<char> {
    b.1 + " (sous-mask 0x"@ + hex_text(b.0 as nat) + ")"@
}

/// An entry of a bit table whose sub-mask is non-zero and has all its bits
/// set in `val`.
pub open spec fn submask_set(val: u64, b: (u64, Seq<char>, u32)) -> bool {
    b.0 != 0 && (val & b.0) == b.0
}

/// The bitwise decode of a value: every line names an entry of the table
/// whose sub-mask has all its bits set in the value (with that entry's
/// weight); every such entry has its line listed; no line comes twice.
pub proof fn law_bitwise_lines_name_set_submasks(val: u64, bs: Seq<(u64, Seq<char>, u32)>)
    ensures
        forall|i: int| #![trigger bitwise_lines(val, bs)[i]] 0 <= i < bitwise_lines(val, bs).len() ==> exists|k: int|
            0 <= k < bs.len() && submask_set(val, #[trigger] bs[k]) && bitwise_lines(val, bs)[i] == (
            submask_line(bs[k]),
            bs[k].2,
        ),
        forall|k: int| 0 <= k < bs.len() && submask_set(val, #[trigger] bs[k]) ==> exists|i: int|
            0 <= i < bitwise_lines(val, bs).len() && (#[trigger] bitwise_lines(val, bs)[i]).0 == submask_line(bs[k]),
        forall|i: int, j: int|
            0 <= i < j < bitwise_lines(val, bs).len() ==> (#[trigger] bitwise_lines(val, bs)[i]).0 != (
            #[trigger] bitwise_lines(val, bs)[j]).0,
    decreases bs.len(),
{
    if bs.len() > 0 {
        let t = bs.drop_last();
        law_bitwise_lines_name_set_submasks(val, t);
        let acc = bitwise_lines(val, t);
        let r = bitwise_lines(val, bs);
        let b = bs.last();
        assert(submask_line(b) == b.1 + " (sous-mask 0x"@ + hex_text(b.0 as nat) + ")"@);
        assert forall|i: int| #![trigger r[i]] 0 <= i < r.len() implies exists|k: int|
            0 <= k < bs.len() && submask_set(val, #[trigger] bs[k]) && r[i] == (submask_line(bs[k]), bs[k].2) by {
            if i < acc.len() {
                assert(r[i] == acc[i]);
                let k = choose|k: int| 0 <= k < t.len() && submask_set(val, #[trigger] t[k]) && acc[i] == (
                    submask_line(t[k]),
                    t[k].2,
                );
                assert(t[k] == bs[k]);
            } else {
                assert(bs[bs.len() - 1] == b);
            }
        }
        assert forall|k: int| 0 <= k < bs.len() && submask_set(val, #[trigger] bs[k]) implies exists|i: int|
            0 <= i < r.len() && (#[trigger] r[i]).0 == submask_line(bs[k]) by {
            if k < t.len() {
                assert(t[k] == bs[k]);
                let i = choose|i: int| 0 <= i < acc.len() && (#[trigger] acc[i]).0 == submask_line(t[k]);
                assert(r[i] == acc[i]);
            } else {
                assert(bs[k] == b);
                if line_listed(acc, submask_line(b)) {
                    let i = choose|i: int| 0 <= i < acc.len() && (#[trigger] acc[i]).0 == submask_line(b);
                    assert(r[i] == acc[i]);
                } else {
                    assert(r[acc.len() as int].0 == submask_line(b));
                }
            }
        }
        assert forall|i: int, j: int| 0 <= i < j < r.len() implies (#[trigger] r[i]).0 != (#[trigger] r[j]).0 by {
            if j < acc.len() {
                assert(r[i] == acc[i] && r[j] == acc[j]);
            } else {
                assert(r[i] == acc[i]);
                assert(r[j].0 == submask_line(b));
                assert(!line_listed(acc, submask_line(b)));
                if acc[i].0 == submask_line(b) {
                    assert(line_listed(acc, submask_line(b)));
                }
            }
        }
    }
}

} // verus!
