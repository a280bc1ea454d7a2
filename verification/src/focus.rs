//! Where a diagnosis points the technician: the search that opens the
//! reference sheet, the section of the sheet for the device, the buses that
//! the log cites, the evidence shown with the diagnosis, and how specific a
//! cause name is.
use crate::knowledge::opt_str_view;
use crate::patterns::{regex_all, regex_capture_group, regex_find_all, regex_find_first, regex_first, regex_group};
use crate::text::{
    append_chars, append_str, add_unique, add_unique_exec, join_strings, push_unique_exec, byte_len, is_ws, starts_with, starts_with_str, trim_start, ws_run_end, ws_run_end_exec, byte_len_below, chars_eq_ci, chars_of, contains_str, eq_ci, eq_str, hex_text, hex_text_exec, join,
    join_exec, lower_chars, lower_seq, opt_view, parse_u64, parse_u64_spec, push_unique, seq_contains, strings_of, slice_to_vec, string_of, strs,
    to_lowercase, trim, trim_chars, unicode_lower, upper_chars, upper_seq, views,
};
use crate::workshop::{product_type_section, section_from_marketing_name, section_of_marketing, section_of_product};
use vstd::prelude::*;

verus! {

pub open spec fn has(l: Seq<char>, w: Seq<char>) -> bool {
    seq_contains(l, w)
}

// ---------------------------------------------------------------------------
// The search of the reference sheet
// ---------------------------------------------------------------------------
pub open spec fn is_query_sep(c: char) -> bool {
    c == ',' || c == ' ' || c == ';'
}

/// The first separator at or after `i`.
pub open spec fn first_sep(s: Seq<char>, i: int) -> Option<int>
    decreases s.len() - i,
{
    if i < 0 || i >= s.len() {
        None
    } else if is_query_sep(s[i]) {
        Some(i)
    } else {
        first_sep(s, i + 1)
    }
}

pub proof fn lemma_first_sep(s: Seq<char>, i: int)
    requires
        0 <= i,
    ensures
        first_sep(s, i) matches Some(k) ==> i <= k < s.len() && is_query_sep(s[k]),
        first_sep(s, i) is None ==> forall|j: int| i <= j < s.len() ==> !is_query_sep(#[trigger] s[j]),
    decreases s.len() - i,
{
    if i < s.len() && !is_query_sep(s[i]) {
        lemma_first_sep(s, i + 1);
    }
}

/// A piece that names a sensor: 2 to 10 bytes once trimmed.
pub open spec fn sensor_piece(p: Seq<char>) -> Option<Seq<char>> {
    let t = trim(p);
    if 2 <= byte_len(t) <= 10 {
        Some(t)
    } else {
        None
    }
}

/// The first piece (between `,`, ` ` and `;`) of `s` that names a sensor.
pub open spec fn first_sensor_token(s: Seq<char>) -> Option<Seq<char>>
    decreases s.len(),
{
    match first_sep(s, 0) {
        None => sensor_piece(s),
        Some(k) => {
            proof {
                lemma_first_sep(s, 0);
            }
            match sensor_piece(s.take(k)) {
                Some(t) => Some(t),
                None => first_sensor_token(s.skip(k + 1)),
            }
        },
    }
}

/// The first marker of the blob, as the sheet spells it.
pub open spec fn token_search(blob: Seq<char>) -> Seq<char> {
    if has(blob, "thermalmonitord"@) {
        "thermalmonitord"@
    } else if has(blob, "smc panic"@) {
        "SMC PANIC"@
    } else if has(blob, "ans2"@) {
        "ANS2"@
    } else if has(blob, "sep panic"@) {
        "SEP"@
    } else if has(blob, "baseband"@) {
        "Baseband"@
    } else if has(blob, "applesochot"@) {
        "AppleSocHot"@
    } else if has(blob, "aop nmi"@) {
        "AOP NMI"@
    } else {
        Seq::empty()
    }
}

/// The search for a lowercased blob, given what the patterns found: the
/// sensor list after `missing sensor(s):`, and in the sensor-array match a
/// hexadecimal number or a number of four digits or more.
pub open spec fn search_query(blob: Seq<char>, sensors: Option<Seq<char>>, hex: Option<Seq<char>>, dec: Option<Seq<char>>) -> Seq<char> {
    let from_sensors = match sensors {
        Some(m) => first_sensor_token(m),
        None => None,
    };
    match from_sensors {
        Some(t) => upper_seq(t),
        None => match hex {
            Some(h) => upper_seq(h),
            None => match (match dec {
                Some(d) => parse_u64_spec(d),
                None => None,
            }) {
                Some(v) => "0x"@ + upper_seq(hex_text(v as nat)),
                None => token_search(blob),
            },
        },
    }
}

fn first_sensor_token_exec(s: &[char]) -> (r: Option<Vec<char>>)
    ensures
        match r {
            Some(t) => first_sensor_token(s@) == Some(t@),
            None => first_sensor_token(s@) is None,
        },
{
    let mut rest = slice_to_vec(s, 0, s.len());
    assert(rest@ =~= s@);
    loop
        invariant
            first_sensor_token(s@) == first_sensor_token(rest@),
        decreases rest.len(),
    {
        let mut k: usize = 0;
        while k < rest.len() && !(rest[k] == ',' || rest[k] == ' ' || rest[k] == ';')
            invariant
                k <= rest.len(),
                first_sep(rest@, 0) == first_sep(rest@, k as int),
            decreases rest.len() - k,
        {
            k += 1;
        }
        proof {
            lemma_first_sep(rest@, 0);
        }
        let piece = if k < rest.len() {
            slice_to_vec(&rest, 0, k)
        } else {
            slice_to_vec(&rest, 0, rest.len())
        };
        assert(k >= rest.len() ==> piece@ =~= rest@);
        let t = trim_chars(&piece);
        let ok = t.len() > 0 && !byte_len_below(&t, 2) && byte_len_below(&t, 11);
        proof {
            if t.len() == 0 {
                assert(t@ =~= Seq::<char>::empty());
            }
        }
        if ok {
            return Some(t);
        }
        if k >= rest.len() {
            return None;
        }
        rest = slice_to_vec(&rest, k + 1, rest.len());
    }
}

/// The search once the patterns have run (`search_query`).
pub fn search_query_from(blob_lower: &str, sensors: Option<&str>, hex: Option<&str>, dec: Option<&str>) -> (r: String)
    ensures
        r@ == search_query(blob_lower@, opt_str_view(sensors), opt_str_view(hex), opt_str_view(dec)),
{
    match sensors {
        Some(m) => {
            let mc = chars_of(m);
            match first_sensor_token_exec(&mc) {
                Some(t) => return string_of(&upper_chars(&t)),
                None => {},
            }
        },
        None => {},
    }
    match hex {
        Some(h) => {
            let hc = chars_of(h);
            return string_of(&upper_chars(&hc));
        },
        None => {},
    }
    let v = match dec {
        Some(d) => {
            let dc = chars_of(d);
            parse_u64(&dc)
        },
        None => None,
    };
    match v {
        Some(v) => {
            let mut out = chars_of("0x");
            let hx = hex_text_exec(v);
            let up = upper_chars(&hx);
            out.extend_from_slice(&up);
            string_of(&out)
        },
        None => {
            let b = chars_of(blob_lower);
            if contains_str(&b, "thermalmonitord") {
                owned_str("thermalmonitord")
            } else if contains_str(&b, "smc panic") {
                owned_str("SMC PANIC")
            } else if contains_str(&b, "ans2") {
                owned_str("ANS2")
            } else if contains_str(&b, "sep panic") {
                owned_str("SEP")
            } else if contains_str(&b, "baseband") {
                owned_str("Baseband")
            } else if contains_str(&b, "applesochot") {
                owned_str("AppleSocHot")
            } else if contains_str(&b, "aop nmi") {
                owned_str("AOP NMI")
            } else {
                String::new()
            }
        },
    }
}

fn owned_str(s: &str) -> (r: String)
    ensures
        r@ == s@,
{
    string_of(&chars_of(s))
}

pub open spec fn sensors_pattern() -> Seq<char> {
    "missing sensor\\(s?\\)?:?\\s*([a-z0-9,\\s]+)"@
}

pub open spec fn array_pattern() -> Seq<char> {
    "(?i)s\\.sensor\\s+array[^\\n]*?(?:is\\s+)?(?:0x[0-9a-f]+|\\d{4,})"@
}

pub open spec fn hex_pattern() -> Seq<char> {
    "(?i)0x[0-9a-f]+"@
}

pub open spec fn dec_pattern() -> Seq<char> {
    "\\d{4,}"@
}

/// The number that the sensor-array match of the blob holds, by `pattern`.
pub open spec fn array_number(blob: Seq<char>, pattern: Seq<char>) -> Option<Seq<char>> {
    match regex_group(array_pattern(), blob, 0) {
        Some(chunk) => regex_first(pattern, chunk),
        None => None,
    }
}

/// The search that opens the reference sheet for a lowercased blob: the
/// first missing sensor named, else the sensor-array number in hexadecimal,
/// else the first known marker.
pub fn infer_search_query_from_blob(blob_lower: &str) -> (r: String)
    ensures
        r@ == search_query(
            blob_lower@,
            regex_group(sensors_pattern(), blob_lower@, 1),
            array_number(blob_lower@, hex_pattern()),
            array_number(blob_lower@, dec_pattern()),
        ),
{
    let sensors = regex_capture_group("missing sensor\\(s?\\)?:?\\s*([a-z0-9,\\s]+)", blob_lower, 1);
    let chunk = regex_capture_group("(?i)s\\.sensor\\s+array[^\\n]*?(?:is\\s+)?(?:0x[0-9a-f]+|\\d{4,})", blob_lower, 0);
    let (hex, dec) = match &chunk {
        Some(c) => (regex_find_first("(?i)0x[0-9a-f]+", c.as_str()), regex_find_first("\\d{4,}", c.as_str())),
        None => (None, None),
    };
    search_query_from(
        blob_lower,
        match &sensors {
            Some(s) => Some(s.as_str()),
            None => None,
        },
        match &hex {
            Some(s) => Some(s.as_str()),
            None => None,
        },
        match &dec {
            Some(s) => Some(s.as_str()),
            None => None,
        },
    )
}


// ---------------------------------------------------------------------------
// The section of the reference sheet
// ---------------------------------------------------------------------------
/// The section named by the system-on-chip of a lowercased log, with its
/// confidence in thousandths (none: the generic section, 0).
pub open spec fn soc_section(blob: Seq<char>) -> (Seq<char>, u32) {
    if has(blob, "t8120"@) || has(blob, "t8122"@) {
        ("iphone-15-pro"@, 600)
    } else if has(blob, "t8112"@) || has(blob, "t8110"@) {
        ("iphone-15"@, 600)
    } else if has(blob, "t8103"@) || has(blob, "t8101"@) {
        ("iphone-14-pro"@, 600)
    } else if has(blob, "t8132"@) {
        ("iphone-14"@, 600)
    } else if has(blob, "t8015"@) {
        ("iphone-11"@, 550)
    } else if has(blob, "t8030"@) {
        ("iphone-x"@, 550)
    } else {
        ("iphone-x"@, 0)
    }
}

/// The section of the sheet and its confidence (thousandths): from the
/// product type asked for, the device of the diagnosis, its marketing name
/// or displayed model, a `ProductType:` line of the log, an `iPhone …` name
/// in the log, or the system-on-chip; `product_line` and `iphone_name` are
/// what the two patterns found in the log.
pub open spec fn section_choice(
    product_type: Option<Seq<char>>,
    device: Seq<char>,
    marketing_name: Option<Seq<char>>,
    device_model: Seq<char>,
    panic_text: Seq<char>,
    product_line: Option<Seq<char>>,
    iphone_name: Option<Seq<char>>,
) -> (Seq<char>, u32) {
    let d = trim(device);
    let m = match marketing_name {
        Some(x) => x,
        None => Seq::empty(),
    };
    if product_type is Some && trim(product_type.unwrap()).len() > 0 && section_of_product(product_type.unwrap()) is Some {
        (section_of_product(product_type.unwrap()).unwrap(), 1000)
    } else if d.len() > 0 && !eq_ci(d, "unknown"@) && section_of_product(d) is Some {
        (section_of_product(d).unwrap(), 970)
    } else if m.len() > 0 && section_of_marketing(m) is Some {
        (section_of_marketing(m).unwrap(), 920)
    } else if device_model.len() > 0 && section_of_marketing(device_model) is Some {
        (section_of_marketing(device_model).unwrap(), 920)
    } else if product_line is Some && section_of_product(product_line.unwrap()) is Some {
        (section_of_product(product_line.unwrap()).unwrap(), 950)
    } else if iphone_name is Some && section_of_marketing(iphone_name.unwrap()) is Some {
        (section_of_marketing(iphone_name.unwrap()).unwrap(), 800)
    } else {
        soc_section(lower_seq(panic_text))
    }
}

pub open spec fn section_view(r: (&str, u32)) -> (Seq<char>, u32) {
    (r.0@, r.1)
}

/// The section once the patterns have run (`section_choice`).
pub fn section_choice_from(
    product_type: Option<&str>,
    device: &str,
    marketing_name: Option<&str>,
    device_model: &str,
    panic_text: &str,
    product_line: Option<&str>,
    iphone_name: Option<&str>,
) -> (r: (&'static str, u32))
    ensures
        section_view(r) == section_choice(
            opt_str_view(product_type),
            device@,
            opt_str_view(marketing_name),
            device_model@,
            panic_text@,
            opt_str_view(product_line),
            opt_str_view(iphone_name),
        ),
{
    match product_type {
        Some(pt) => {
            let pc = chars_of(pt);
            let t = trim_chars(&pc);
            if t.len() > 0 {
                match product_type_section(pt) {
                    Some(sec) => return (sec, 1000),
                    None => {},
                }
            }
        },
        None => {},
    }
    let dc = chars_of(device);
    let dt = trim_chars(&dc);
    if dt.len() > 0 && !chars_eq_ci(&dt, &chars_of("unknown")) {
        let ds = string_of(&dt);
        match product_type_section(ds.as_str()) {
            Some(sec) => return (sec, 970),
            None => {},
        }
    }
    match marketing_name {
        Some(m) => {
            if !m.is_empty() {
                match section_from_marketing_name(m) {
                    Some(sec) => return (sec, 920),
                    None => {},
                }
            }
        },
        None => {},
    }
    if !device_model.is_empty() {
        match section_from_marketing_name(device_model) {
            Some(sec) => return (sec, 920),
            None => {},
        }
    }
    match product_line {
        Some(c) => match product_type_section(c) {
            Some(sec) => return (sec, 950),
            None => {},
        },
        None => {},
    }
    match iphone_name {
        Some(c) => match section_from_marketing_name(c) {
            Some(sec) => return (sec, 800),
            None => {},
        },
        None => {},
    }
    let tc = chars_of(panic_text);
    let b = lower_chars(&tc);
    if contains_str(&b, "t8120") || contains_str(&b, "t8122") {
        ("iphone-15-pro", 600)
    } else if contains_str(&b, "t8112") || contains_str(&b, "t8110") {
        ("iphone-15", 600)
    } else if contains_str(&b, "t8103") || contains_str(&b, "t8101") {
        ("iphone-14-pro", 600)
    } else if contains_str(&b, "t8132") {
        ("iphone-14", 600)
    } else if contains_str(&b, "t8015") {
        ("iphone-11", 550)
    } else if contains_str(&b, "t8030") {
        ("iphone-x", 550)
    } else {
        ("iphone-x", 0)
    }
}

pub open spec fn product_line_pattern() -> Seq<char> {
    "(?i)ProductType\\s*[:=]\\s*(iPhone\\d+,\\d+)"@
}

pub open spec fn iphone_name_pattern() -> Seq<char> {
    "(?i)iPhone\\s*(?:SE\\s*\\(?\\d+(?:st|nd|rd|th)?[^)]*\\)?|\\d+(?:\\s*(?:Pro\\s*Max|Pro|Plus|mini))?)"@
}

/// The section of the reference sheet for a diagnosis (`section_choice`),
/// with the patterns run on the panic text.
pub fn reference_section(
    product_type: Option<&str>,
    device: &str,
    marketing_name: Option<&str>,
    device_model: &str,
    panic_text: &str,
) -> (r: (&'static str, u32))
    ensures
        section_view(r) == section_choice(
            opt_str_view(product_type),
            device@,
            opt_str_view(marketing_name),
            device_model@,
            panic_text@,
            regex_group(product_line_pattern(), panic_text@, 1),
            regex_group(iphone_name_pattern(), panic_text@, 0),
        ),
{
    let line = regex_capture_group("(?i)ProductType\\s*[:=]\\s*(iPhone\\d+,\\d+)", panic_text, 1);
    let name = regex_capture_group(
        "(?i)iPhone\\s*(?:SE\\s*\\(?\\d+(?:st|nd|rd|th)?[^)]*\\)?|\\d+(?:\\s*(?:Pro\\s*Max|Pro|Plus|mini))?)",
        panic_text,
        0,
    );
    section_choice_from(
        product_type,
        device,
        marketing_name,
        device_model,
        panic_text,
        match &line {
            Some(s) => Some(s.as_str()),
            None => None,
        },
        match &name {
            Some(s) => Some(s.as_str()),
            None => None,
        },
    )
}

/// The lowercased text searched for the sheet: the panic text, the probable
/// cause, the keywords and the critical lines, one per line.
pub open spec fn focus_blob(panic_text: Seq<char>, probable_cause: Seq<char>, keywords: Seq<Seq<char>>, critical: Seq<Seq<char>>) -> Seq<char> {
    lower_seq(join(seq![panic_text, probable_cause] + keywords + critical, seq!['\n']))
}

/// The search of the sheet for an analysis: `infer_search_query_from_blob`
/// on its blob, or `thermalmonitord` when that finds nothing and the blob
/// names it.
pub fn focus_search(panic_text: &str, probable_cause: &str, keywords: &[String], critical_lines: &[String]) -> (r: String)
    ensures
        ({
            let blob = focus_blob(panic_text@, probable_cause@, strs(keywords@), strs(critical_lines@));
            let q = search_query(
                blob,
                regex_group(sensors_pattern(), blob, 1),
                array_number(blob, hex_pattern()),
                array_number(blob, dec_pattern()),
            );
            r@ == if q.len() == 0 && has(blob, "thermalmonitord"@) {
                "thermalmonitord"@
            } else {
                q
            }
        }),
{
    let mut parts: Vec<Vec<char>> = Vec::new();
    parts.push(chars_of(panic_text));
    parts.push(chars_of(probable_cause));
    let mut i: usize = 0;
    let ghost head = seq![panic_text@, probable_cause@];
    assert(views(parts@) =~= head);
    while i < keywords.len()
        invariant
            i <= keywords.len(),
            head == seq![panic_text@, probable_cause@],
            views(parts@) == head + strs(keywords@).take(i as int),
        decreases keywords.len() - i,
    {
        let ghost before = views(parts@);
        parts.push(chars_of(keywords[i].as_str()));
        assert(strs(keywords@).take(i + 1) =~= strs(keywords@).take(i as int).push(keywords@[i as int]@));
        assert(views(parts@) =~= before.push(keywords@[i as int]@));
        i += 1;
    }
    assert(strs(keywords@).take(keywords.len() as int) =~= strs(keywords@));
    let ghost mid = views(parts@);
    let mut j: usize = 0;
    while j < critical_lines.len()
        invariant
            j <= critical_lines.len(),
            views(parts@) == mid + strs(critical_lines@).take(j as int),
        decreases critical_lines.len() - j,
    {
        let ghost before = views(parts@);
        parts.push(chars_of(critical_lines[j].as_str()));
        assert(strs(critical_lines@).take(j + 1) =~= strs(critical_lines@).take(j as int).push(critical_lines@[j as int]@));
        assert(views(parts@) =~= before.push(critical_lines@[j as int]@));
        j += 1;
    }
    assert(strs(critical_lines@).take(critical_lines.len() as int) =~= strs(critical_lines@));
    let nl: Vec<char> = vec!['\n'];
    assert(nl@ == seq!['\n']);
    let joined = join_exec(&parts, &nl);
    let blob = lower_chars(&joined);
    assert(views(parts@) =~= seq![panic_text@, probable_cause@] + strs(keywords@) + strs(critical_lines@));
    let bs = string_of(&blob);
    let q = infer_search_query_from_blob(bs.as_str());
    if q.as_str().is_empty() && contains_str(&blob, "thermalmonitord") {
        owned_str("thermalmonitord")
    } else {
        q
    }
}


// ---------------------------------------------------------------------------
// How specific a cause name is
// ---------------------------------------------------------------------------
pub proof fn lemma_trim_start_skip(s: Seq<char>, i: int)
    requires
        0 <= i <= s.len(),
    ensures
        trim_start(s.subrange(i, s.len() as int)) == s.subrange(ws_run_end(s, i), s.len() as int),
    decreases s.len() - i,
{
    if i < s.len() && is_ws(s[i]) {
        assert(s.subrange(i, s.len() as int).drop_first() =~= s.subrange(i + 1, s.len() as int));
        lemma_trim_start_skip(s, i + 1);
    }
}

/// The rank of a cause name, higher for a more specific and actionable
/// cause: 5 for a hexadecimal mask, 7 for a named missing-sensor
/// correlation, 4 for a power rail or a battery link to the SMC, 3 for the
/// SMC lines or queue, 2 for a bus or an unexplained thermal daemon, else 0.
/// `name` is matched lowercased (`str::to_lowercase`).
pub open spec fn precision_rank(name: Seq<char>) -> u8 {
    let n = unicode_lower(name);
    if starts_with(trim_start(name), "0x"@) {
        5
    } else if starts_with(n, "mic2 \u{c2}\u{b7}"@) || starts_with(n, "mic1 \u{c2}\u{b7}"@)
        || (has(n, "mic2"@) && (has(n, "lightning"@) || has(n, "dock"@) || has(n, "nappe power"@) || has(n, "iphone 11"@)))
        || (has(n, "prs0"@) && has(n, "nappe"@))
        || (has(n, "iphone 11"@) && has(n, "prs0"@) && has(n, "mic1"@))
        || (has(n, "iphone 11"@) && (has(n, "tg0b"@) || has(n, "tg0v"@))) {
        7
    } else if (has(n, "rails alim"@) && has(n, "smc"@)) || has(n, "communication batterie ou thermique vers smc"@)
        || (has(n, "usb-c"@) && (has(n, "pmu"@) || has(n, "pmic"@))) {
        4
    } else if has(n, "lignes smc"@) || has(n, "(outbox)"@) || has(n, "file smc"@) {
        3
    } else if has(n, "bsc / liaison batterie-bus"@) || has(n, "thermalmonitord sans check"@) {
        2
    } else {
        0
    }
}

/// The rank of a cause name (`precision_rank`).
pub fn hardware_precision_rank(name: &str) -> (r: u8)
    ensures
        r == precision_rank(name@),
{
    let n = to_lowercase(name);
    let nc = chars_of(name);
    let a = ws_run_end_exec(&nc, 0);
    let t = slice_to_vec(&nc, a, nc.len());
    proof {
        lemma_trim_start_skip(nc@, 0);
        assert(nc@.subrange(0, nc@.len() as int) =~= nc@);
    }
    if starts_with_str(&t, "0x") {
        return 5;
    }
    if starts_with_str(&n, "mic2 \u{c2}\u{b7}") || starts_with_str(&n, "mic1 \u{c2}\u{b7}")
        || (contains_str(&n, "mic2") && (contains_str(&n, "lightning") || contains_str(&n, "dock")
            || contains_str(&n, "nappe power") || contains_str(&n, "iphone 11")))
        || (contains_str(&n, "prs0") && contains_str(&n, "nappe"))
        || (contains_str(&n, "iphone 11") && contains_str(&n, "prs0") && contains_str(&n, "mic1"))
        || (contains_str(&n, "iphone 11") && (contains_str(&n, "tg0b") || contains_str(&n, "tg0v"))) {
        return 7;
    }
    if (contains_str(&n, "rails alim") && contains_str(&n, "smc"))
        || contains_str(&n, "communication batterie ou thermique vers smc")
        || (contains_str(&n, "usb-c") && (contains_str(&n, "pmu") || contains_str(&n, "pmic"))) {
        return 4;
    }
    if contains_str(&n, "lignes smc") || contains_str(&n, "(outbox)") || contains_str(&n, "file smc") {
        return 3;
    }
    if contains_str(&n, "bsc / liaison batterie-bus") || contains_str(&n, "thermalmonitord sans check") {
        return 2;
    }
    0
}


// ---------------------------------------------------------------------------
// The buses that a log cites
// ---------------------------------------------------------------------------
pub open spec fn bus_pattern() -> Seq<char> {
    "(?i)\\b(i2c\\d+|i2c[-_ ]?[a-z0-9]{1,8}|scl|sda|spi\\d+|uart\\d+)\\b"@
}

/// A matched bus name, trimmed, with its spaces turned into hyphens.
pub open spec fn bus_label(m: Seq<char>) -> Seq<char> {
    trim(m).map_values(|c: char| if c == ' ' { '-' } else { c })
}

/// `acc` with `v` added unless it holds it already, ASCII case ignored.
pub open spec fn push_unique_ci(acc: Seq<Seq<char>>, v: Seq<char>) -> Seq<Seq<char>> {
    if exists|j: int| 0 <= j < acc.len() && eq_ci(#[trigger] acc[j], v) {
        acc
    } else {
        acc.push(v)
    }
}

/// The labels of the first `k` matches, each kept once.
pub open spec fn bus_names_upto(matches: Seq<Seq<char>>, k: int) -> Seq<Seq<char>>
    decreases k,
{
    if k <= 0 {
        Seq::empty()
    } else {
        push_unique_ci(bus_names_upto(matches, k - 1), bus_label(matches[k - 1]))
    }
}

/// The bus names of the first twelve matches, each kept once, ASCII case
/// ignored, in the order of the log.
pub open spec fn bus_names(matches: Seq<Seq<char>>) -> Seq<Seq<char>> {
    bus_names_upto(matches, if matches.len() < 12 { matches.len() as int } else { 12 })
}

fn bus_label_exec(m: &str) -> (r: Vec<char>)
    ensures
        r@ == bus_label(m@),
{
    let mc = chars_of(m);
    let t = trim_chars(&mc);
    let mut r: Vec<char> = Vec::new();
    let mut i: usize = 0;
    while i < t.len()
        invariant
            i <= t.len(),
            t@ == trim(m@),
            r@ == t@.subrange(0, i as int).map_values(|c: char| if c == ' ' { '-' } else { c }),
        decreases t.len() - i,
    {
        let c = t[i];
        r.push(if c == ' ' { '-' } else { c });
        assert(t@.subrange(0, i + 1) =~= t@.subrange(0, i as int).push(c));
        i += 1;
    }
    assert(t@.subrange(0, t.len() as int) =~= t@);
    r
}

pub(crate) fn holds_ci(out: &Vec<Vec<char>>, v: &[char]) -> (r: bool)
    ensures
        r == exists|j: int| 0 <= j < views(out@).len() && eq_ci(#[trigger] views(out@)[j], v@),
{
    let mut j: usize = 0;
    while j < out.len()
        invariant
            j <= out.len(),
            forall|k: int| 0 <= k < j ==> !eq_ci(#[trigger] views(out@)[k], v@),
        decreases out.len() - j,
    {
        if chars_eq_ci(&out[j], v) {
            assert(eq_ci(views(out@)[j as int], v@));
            return true;
        }
        j += 1;
    }
    false
}

/// The bus names of a list of matches (`bus_names`).
pub fn i2c_bus_names_from(matches: &[String]) -> (r: Vec<String>)
    ensures
        strs(r@) == bus_names(strs(matches@)),
{
    let n: usize = if matches.len() < 12 { matches.len() } else { 12 };
    let mut out: Vec<Vec<char>> = Vec::new();
    let mut i: usize = 0;
    while i < n
        invariant
            i <= n <= matches.len(),
            n as int == if matches.len() < 12 { matches.len() as int } else { 12int },
            views(out@) == bus_names_upto(strs(matches@), i as int),
        decreases n - i,
    {
        let v = bus_label_exec(matches[i].as_str());
        let ghost acc = views(out@);
        let found = holds_ci(&out, &v);
        assert(strs(matches@)[i as int] == matches@[i as int]@);
        if !found {
            out.push(v);
            assert(views(out@) =~= acc.push(v@));
        }
        i += 1;
    }
    strings_of(&out)
}

/// The buses cited by a lowercased log: the matches of `bus_pattern` run
/// through `bus_names`.
pub fn extract_i2c_bus_names(log_lc: &str) -> (r: Vec<String>)
    ensures
        strs(r@) == bus_names(regex_all(bus_pattern(), log_lc@)),
{
    let ms = regex_find_all("(?i)\\b(i2c\\d+|i2c[-_ ]?[a-z0-9]{1,8}|scl|sda|spi\\d+|uart\\d+)\\b", log_lc);
    i2c_bus_names_from(&ms)
}


// ---------------------------------------------------------------------------
// The evidence shown with a diagnosis
// ---------------------------------------------------------------------------
/// At most the first `n` items.
pub open spec fn take_upto<T>(s: Seq<T>, n: int) -> Seq<T> {
    if s.len() <= n {
        s
    } else {
        s.take(n)
    }
}

/// Each item with `p` in front.
pub open spec fn prefixed(p: Seq<char>, xs: Seq<Seq<char>>) -> Seq<Seq<char>> {
    xs.map_values(|x: Seq<char>| p + x)
}

/// A line without its backslashes.
pub open spec fn drop_backslashes(l: Seq<char>) -> Seq<char>
    decreases l.len(),
{
    if l.len() == 0 {
        l
    } else if l.last() == '\\' {
        drop_backslashes(l.drop_last())
    } else {
        drop_backslashes(l.drop_last()).push(l.last())
    }
}

/// The marker of a critical line: its first 150 characters once its
/// backslashes are gone.
pub open spec fn critical_marker(l: Seq<char>) -> Seq<char> {
    "Ligne critique : "@ + take_upto(drop_backslashes(l), 150)
}

/// The evidence markers of a diagnosis, each kept once, at most ten: the
/// resolved model (else the product identifier unless it is `unknown`), the
/// missing sensors read, the first six signatures, the first four buses
/// cited, the first four critical lines; a notice when there is none.
pub open spec fn evidence_markers(
    marketing_name: Option<Seq<char>>,
    device: Seq<char>,
    missing: Seq<Seq<char>>,
    signatures: Seq<Seq<char>>,
    buses: Seq<Seq<char>>,
    critical: Seq<Seq<char>>,
) -> Seq<Seq<char>> {
    let a1: Seq<Seq<char>> = match marketing_name {
        Some(m) => seq!["Mod\u{c3}\u{a8}le r\u{c3}\u{a9}solu : "@ + m],
        None => if device != "unknown"@ {
            seq!["Identifiant produit : "@ + device]
        } else {
            Seq::empty()
        },
    };
    let a2 = if missing.len() > 0 {
        push_unique(a1, "Capteurs manquants lus : "@ + join(missing, ", "@))
    } else {
        a1
    };
    let a3 = add_unique(a2, prefixed("Signature : "@, take_upto(signatures, 6)));
    let a4 = add_unique(a3, prefixed("Bus cit\u{c3}\u{a9} : "@, take_upto(buses, 4)));
    let a5 = add_unique(a4, take_upto(critical, 4).map_values(|l: Seq<char>| critical_marker(l)));
    let a6 = if a5.len() == 0 {
        seq!["Aucune preuve forte extraite : importer le panic-full le plus r\u{c3}\u{a9}cent."@]
    } else {
        a5
    };
    take_upto(a6, 10)
}

fn prefixed_exec(p: &str, xs: &[String], n: usize) -> (r: Vec<Vec<char>>)
    ensures
        views(r@) == prefixed(p@, take_upto(strs(xs@), n as int)),
{
    let m: usize = if xs.len() <= n { xs.len() } else { n };
    let pc = chars_of(p);
    let mut r: Vec<Vec<char>> = Vec::new();
    let mut i: usize = 0;
    while i < m
        invariant
            i <= m <= xs.len(),
            m == if xs.len() <= n { xs.len() } else { n },
            pc@ == p@,
            views(r@) == prefixed(p@, strs(xs@).take(i as int)),
        decreases m - i,
    {
        let mut v = pc.clone();
        append_str(&mut v, xs[i].as_str());
        let ghost before = views(r@);
        r.push(v);
        assert(views(r@) =~= before.push(p@ + xs@[i as int]@));
        assert(strs(xs@).take(i + 1) =~= strs(xs@).take(i as int).push(xs@[i as int]@));
        i += 1;
    }
    assert(take_upto(strs(xs@), n as int) =~= strs(xs@).take(m as int));
    r
}

fn drop_backslashes_exec(l: &[char]) -> (r: Vec<char>)
    ensures
        r@ == drop_backslashes(l@),
{
    let mut r: Vec<char> = Vec::new();
    let mut i: usize = 0;
    while i < l.len()
        invariant
            i <= l.len(),
            r@ == drop_backslashes(l@.subrange(0, i as int)),
        decreases l.len() - i,
    {
        assert(l@.subrange(0, i + 1).drop_last() =~= l@.subrange(0, i as int));
        if l[i] != '\\' {
            r.push(l[i]);
        }
        i += 1;
    }
    assert(l@.subrange(0, l.len() as int) =~= l@);
    r
}

fn critical_marker_exec(l: &str) -> (r: Vec<char>)
    ensures
        r@ == critical_marker(l@),
{
    let lc = chars_of(l);
    let d = drop_backslashes_exec(&lc);
    let k: usize = if d.len() <= 150 { d.len() } else { 150 };
    let t = slice_to_vec(&d, 0, k);
    assert(take_upto(d@, 150) =~= d@.subrange(0, k as int));
    let mut r = chars_of("Ligne critique : ");
    append_chars(&mut r, &t);
    r
}

/// The evidence markers once the buses are known (`evidence_markers`).
pub fn evidence_markers_from(
    marketing_name: Option<&str>,
    device: &str,
    missing_sensors: &[String],
    signatures: &[String],
    buses: &[String],
    critical_lines: &[String],
) -> (r: Vec<String>)
    ensures
        strs(r@) == evidence_markers(
            opt_str_view(marketing_name),
            device@,
            strs(missing_sensors@),
            strs(signatures@),
            strs(buses@),
            strs(critical_lines@),
        ),
{
    let mut out: Vec<Vec<char>> = Vec::new();
    match marketing_name {
        Some(m) => {
            let mut v = chars_of("Mod\u{c3}\u{a8}le r\u{c3}\u{a9}solu : ");
            append_str(&mut v, m);
            out.push(v);
        },
        None => {
            let dc = chars_of(device);
            if !eq_str(&dc, "unknown") {
                let mut v = chars_of("Identifiant produit : ");
                append_chars(&mut v, &dc);
                out.push(v);
            }
        },
    }
    assert(views(out@) =~= match opt_str_view(marketing_name) {
        Some(m) => seq!["Mod\u{c3}\u{a8}le r\u{c3}\u{a9}solu : "@ + m],
        None => if device@ != "unknown"@ {
            seq!["Identifiant produit : "@ + device@]
        } else {
            Seq::<Seq<char>>::empty()
        },
    });
    if missing_sensors.len() > 0 {
        let mut v = chars_of("Capteurs manquants lus : ");
        let j = join_strings(missing_sensors, ", ");
        append_chars(&mut v, &j);
        push_unique_exec(&mut out, v);
    }
    let sg = prefixed_exec("Signature : ", signatures, 6);
    add_unique_exec(&mut out, &sg);
    let bs = prefixed_exec("Bus cit\u{c3}\u{a9} : ", buses, 4);
    add_unique_exec(&mut out, &bs);
    let m: usize = if critical_lines.len() <= 4 { critical_lines.len() } else { 4 };
    let mut cl: Vec<Vec<char>> = Vec::new();
    let mut i: usize = 0;
    while i < m
        invariant
            i <= m <= critical_lines.len(),
            m == if critical_lines.len() <= 4 { critical_lines.len() } else { 4 },
            views(cl@) == strs(critical_lines@).take(i as int).map_values(|l: Seq<char>| critical_marker(l)),
        decreases m - i,
    {
        let v = critical_marker_exec(critical_lines[i].as_str());
        let ghost before = views(cl@);
        cl.push(v);
        assert(views(cl@) =~= before.push(critical_marker(critical_lines@[i as int]@)));
        assert(strs(critical_lines@).take(i + 1) =~= strs(critical_lines@).take(i as int).push(critical_lines@[i as int]@));
        i += 1;
    }
    assert(take_upto(strs(critical_lines@), 4) =~= strs(critical_lines@).take(m as int));
    add_unique_exec(&mut out, &cl);
    if out.len() == 0 {
        out.push(chars_of("Aucune preuve forte extraite : importer le panic-full le plus r\u{c3}\u{a9}cent."));
        assert(views(out@) =~= seq!["Aucune preuve forte extraite : importer le panic-full le plus r\u{c3}\u{a9}cent."@]);
    }
    if out.len() > 10 {
        out.truncate(10);
    }
    strings_of(&out)
}

/// The evidence markers of a diagnosis, the buses read from the lowercased
/// log (`extract_i2c_bus_names`).
pub fn build_evidence_markers(
    marketing_name: Option<&str>,
    device: &str,
    missing_sensors: &[String],
    signatures: &[String],
    log_lc: &str,
    critical_lines: &[String],
) -> (r: Vec<String>)
    ensures
        strs(r@) == evidence_markers(
            opt_str_view(marketing_name),
            device@,
            strs(missing_sensors@),
            strs(signatures@),
            bus_names(regex_all(bus_pattern(), log_lc@)),
            strs(critical_lines@),
        ),
{
    let buses = extract_i2c_bus_names(log_lc);
    evidence_markers_from(marketing_name, device, missing_sensors, signatures, &buses, critical_lines)
}


/// Adding an item that is not there keeps a list free of repeats.
pub proof fn lemma_push_unique_distinct(acc: Seq<Seq<char>>, x: Seq<char>)
    requires
        acc.no_duplicates(),
    ensures
        push_unique(acc, x).no_duplicates(),
{
    if !acc.contains(x) {
        let r = acc.push(x);
        assert forall|i: int, j: int| 0 <= i < r.len() && 0 <= j < r.len() && i != j implies r[i] != r[j] by {
            if i == acc.len() as int {
                assert(acc[j] == r[j]);
            } else if j == acc.len() as int {
                assert(acc[i] == r[i]);
            }
        }
    }
}

/// Adding items each unless there keeps a list free of repeats.
pub proof fn lemma_add_unique_distinct(acc: Seq<Seq<char>>, xs: Seq<Seq<char>>)
    requires
        acc.no_duplicates(),
    ensures
        add_unique(acc, xs).no_duplicates(),
    decreases xs.len(),
{
    if xs.len() > 0 {
        lemma_add_unique_distinct(acc, xs.drop_last());
        lemma_push_unique_distinct(add_unique(acc, xs.drop_last()), xs.last());
    }
}

/// The evidence of a diagnosis lists at most ten markers, none twice.
pub proof fn law_evidence_markers_bounded_distinct(
    marketing_name: Option<Seq<char>>,
    device: Seq<char>,
    missing: Seq<Seq<char>>,
    signatures: Seq<Seq<char>>,
    buses: Seq<Seq<char>>,
    critical: Seq<Seq<char>>,
)
    ensures
        evidence_markers(marketing_name, device, missing, signatures, buses, critical).len() <= 10,
        evidence_markers(marketing_name, device, missing, signatures, buses, critical).no_duplicates(),
{
    let a1: Seq<Seq<char>> = match marketing_name {
        Some(m) => seq!["Mod\u{c3}\u{a8}le r\u{c3}\u{a9}solu : "@ + m],
        None => if device != "unknown"@ {
            seq!["Identifiant produit : "@ + device]
        } else {
            Seq::empty()
        },
    };
    assert(a1.no_duplicates());
    let a2 = if missing.len() > 0 {
        push_unique(a1, "Capteurs manquants lus : "@ + join(missing, ", "@))
    } else {
        a1
    };
    if missing.len() > 0 {
        lemma_push_unique_distinct(a1, "Capteurs manquants lus : "@ + join(missing, ", "@));
    }
    let a3 = add_unique(a2, prefixed("Signature : "@, take_upto(signatures, 6)));
    lemma_add_unique_distinct(a2, prefixed("Signature : "@, take_upto(signatures, 6)));
    let a4 = add_unique(a3, prefixed("Bus cit\u{c3}\u{a9} : "@, take_upto(buses, 4)));
    lemma_add_unique_distinct(a3, prefixed("Bus cit\u{c3}\u{a9} : "@, take_upto(buses, 4)));
    let a5 = add_unique(a4, take_upto(critical, 4).map_values(|l: Seq<char>| critical_marker(l)));
    lemma_add_unique_distinct(a4, take_upto(critical, 4).map_values(|l: Seq<char>| critical_marker(l)));
    let a6 = if a5.len() == 0 {
        seq!["Aucune preuve forte extraite : importer le panic-full le plus r\u{c3}\u{a9}cent."@]
    } else {
        a5
    };
    assert(a6.no_duplicates());
    let r = take_upto(a6, 10);
    assert(r.no_duplicates()) by {
        if a6.len() > 10 {
            assert forall|i: int, j: int| 0 <= i < r.len() && 0 <= j < r.len() && i != j implies r[i] != r[j] by {
                assert(r[i] == a6[i] && r[j] == a6[j]);
            }
        }
    }
}


proof fn lemma_bus_names_upto(matches: Seq<Seq<char>>, k: int)
    requires
        0 <= k <= matches.len(),
    ensures
        bus_names_upto(matches, k).len() <= k,
        forall|i: int, j: int|
            0 <= i < j < bus_names_upto(matches, k).len() ==> !eq_ci(
                #[trigger] bus_names_upto(matches, k)[i],
                #[trigger] bus_names_upto(matches, k)[j],
            ),
    decreases k,
{
    if k > 0 {
        lemma_bus_names_upto(matches, k - 1);
        let prev = bus_names_upto(matches, k - 1);
        let v = bus_label(matches[k - 1]);
        if !(exists|j: int| 0 <= j < prev.len() && eq_ci(#[trigger] prev[j], v)) {
            let r = prev.push(v);
            assert forall|i: int, j: int| 0 <= i < j < r.len() implies !eq_ci(#[trigger] r[i], #[trigger] r[j]) by {
                if j == prev.len() as int {
                    assert(r[i] == prev[i]);
                    assert(r[j] == v);
                } else {
                    assert(r[i] == prev[i] && r[j] == prev[j]);
                }
            }
        }
    }
}

/// The buses cited by a log are at most twelve, no two the same without
/// regard to ASCII case.
pub proof fn law_bus_names_bounded_distinct(matches: Seq<Seq<char>>)
    ensures
        bus_names(matches).len() <= 12,
        forall|i: int, j: int|
            0 <= i < j < bus_names(matches).len() ==> !eq_ci(#[trigger] bus_names(matches)[i], #[trigger] bus_names(matches)[j]),
{
    let k = if matches.len() < 12 { matches.len() as int } else { 12 };
    lemma_bus_names_upto(matches, k);
}

} // verus!
