//! iPhone over USB: model names, what the USB tools print, recovery-mode
//! identity, and the lockdown property lists that `ideviceinfo` returns.
use crate::text::{add_unique, add_unique_exec, all_hex_digits, append_str, byte_len, byte_len_below, char_is_digit, char_is_hex_digit, char_is_unicode_digit, char_is_ws, chars_eq, chars_of, ci_at, ci_at_exec, contains, contains_any, contains_any_exec, eq_ci, eq_ci_str, eq_str, first_index_of, first_index_of_exec, is_digit, is_hex_digit, is_unicode_digit, is_ws, join, join_exec, lemma_run_end, lines, lit_views, num_value, occurs_at, occurs_at_exec, opt_view, owned, parse_hex_u64, parse_u64, parse_u64_spec, push_unique, push_unique_exec, run_end, seq_contains, slice_to_vec, split_lines, split_words, starts_with, starts_with_str, string_of, strings_of, strip_leading, strip_leading_exec, strs, to_lowercase, to_uppercase, trim, trim_chars, trim_start, unicode_lower, unicode_upper, views, words, ws_run_end, ws_run_end_exec};
use crate::knowledge::{opt_chars, opt_str_view};
use crate::signature::{chars_lt, lemma_lex_irreflexive, lemma_lex_total, lemma_lex_trans, lex_lt, strictly_sorted};
use vstd::prelude::*;

verus! {

// ---------------------------------------------------------------------------
// Status of the USB link
// ---------------------------------------------------------------------------
/// What the USB probe reports about the connected iPhone.
#[derive(Debug, Clone)]
pub struct IphoneUsbStatus {
    pub phase: String,
    pub detail: String,
    pub udids: Vec<String>,
    pub marketing_name: Option<String>,
    pub product_type: Option<String>,
    pub ios_version: Option<String>,
    pub recovery_serial: Option<String>,
    pub recovery_imei: Option<String>,
    pub recovery_ecid: Option<String>,
}

/// An `IphoneUsbStatus` with every text taken by its characters.
pub struct UsbStatusView {
    pub phase: Seq<char>,
    pub detail: Seq<char>,
    pub udids: Seq<Seq<char>>,
    pub marketing_name: Option<Seq<char>>,
    pub product_type: Option<Seq<char>>,
    pub ios_version: Option<Seq<char>>,
    pub recovery_serial: Option<Seq<char>>,
    pub recovery_imei: Option<Seq<char>>,
    pub recovery_ecid: Option<Seq<char>>,
}

impl View for IphoneUsbStatus {
    type V = UsbStatusView;

    open spec fn view(&self) -> UsbStatusView {
        UsbStatusView {
            phase: self.phase@,
            detail: self.detail@,
            udids: strs(self.udids@),
            marketing_name: opt_view(self.marketing_name),
            product_type: opt_view(self.product_type),
            ios_version: opt_view(self.ios_version),
            recovery_serial: opt_view(self.recovery_serial),
            recovery_imei: opt_view(self.recovery_imei),
            recovery_ecid: opt_view(self.recovery_ecid),
        }
    }
}

/// A status outside recovery mode: the recovery identity is left empty.
pub open spec fn plain_status(
    phase: Seq<char>,
    detail: Seq<char>,
    udids: Seq<Seq<char>>,
    marketing_name: Option<Seq<char>>,
    product_type: Option<Seq<char>>,
    ios_version: Option<Seq<char>>,
) -> UsbStatusView {
    UsbStatusView {
        phase,
        detail,
        udids,
        marketing_name,
        product_type,
        ios_version,
        recovery_serial: None,
        recovery_imei: None,
        recovery_ecid: None,
    }
}

pub fn usb_status(
    phase: &str,
    detail: String,
    udids: Vec<String>,
    marketing_name: Option<String>,
    product_type: Option<String>,
    ios_version: Option<String>,
) -> (r: IphoneUsbStatus)
    ensures
        r@ == plain_status(
            phase@,
            detail@,
            strs(udids@),
            opt_view(marketing_name),
            opt_view(product_type),
            opt_view(ios_version),
        ),
{
    IphoneUsbStatus {
        phase: owned(phase),
        detail,
        udids,
        marketing_name,
        product_type,
        ios_version,
        recovery_serial: None,
        recovery_imei: None,
        recovery_ecid: None,
    }
}

/// Nothing on the USB bus.
pub fn unplugged() -> (r: IphoneUsbStatus)
    ensures
        r@ == plain_status("unplugged"@, Seq::empty(), Seq::empty(), None, None, None),
{
    let r = usb_status("unplugged", String::new(), Vec::new(), None, None, None);
    assert(strs(Seq::<String>::empty()) =~= Seq::<Seq<char>>::empty());
    r
}

// ---------------------------------------------------------------------------
// Model names
// ---------------------------------------------------------------------------
/// The marketing name of a product type (`iPhone15,2` is `iPhone 14 Pro`),
/// or the empty text for a type that the table does not know.
pub open spec fn marketing_name(p: Seq<char>) -> Seq<char> {
    if p == "iPhone8,1"@ {
        "iPhone 6s"@
    } else if p == "iPhone8,2"@ {
        "iPhone 6s Plus"@
    } else if p == "iPhone8,4"@ {
        "iPhone SE (1st gen)"@
    } else if p == "iPhone9,1"@ {
        "iPhone 7"@
    } else if p == "iPhone9,2"@ {
        "iPhone 7 Plus"@
    } else if p == "iPhone9,3"@ {
        "iPhone 7"@
    } else if p == "iPhone9,4"@ {
        "iPhone 7 Plus"@
    } else if p == "iPhone10,1"@ {
        "iPhone 8"@
    } else if p == "iPhone10,2"@ {
        "iPhone 8 Plus"@
    } else if p == "iPhone10,3"@ {
        "iPhone X"@
    } else if p == "iPhone10,4"@ {
        "iPhone 8"@
    } else if p == "iPhone10,5"@ {
        "iPhone 8 Plus"@
    } else if p == "iPhone10,6"@ {
        "iPhone X"@
    } else if p == "iPhone11,2"@ {
        "iPhone XS"@
    } else if p == "iPhone11,4"@ {
        "iPhone XS Max"@
    } else if p == "iPhone11,6"@ {
        "iPhone XS Max"@
    } else if p == "iPhone11,8"@ {
        "iPhone XR"@
    } else if p == "iPhone12,8"@ {
        "iPhone SE (2nd gen)"@
    } else if p == "iPhone12,1"@ {
        "iPhone 11"@
    } else if p == "iPhone12,3"@ {
        "iPhone 11 Pro"@
    } else if p == "iPhone12,5"@ {
        "iPhone 11 Pro Max"@
    } else if p == "iPhone13,1"@ {
        "iPhone 12 mini"@
    } else if p == "iPhone13,2"@ {
        "iPhone 12"@
    } else if p == "iPhone13,3"@ {
        "iPhone 12 Pro"@
    } else if p == "iPhone13,4"@ {
        "iPhone 12 Pro Max"@
    } else if p == "iPhone14,4"@ {
        "iPhone 13 mini"@
    } else if p == "iPhone14,5"@ {
        "iPhone 13"@
    } else if p == "iPhone14,2"@ {
        "iPhone 13 Pro"@
    } else if p == "iPhone14,3"@ {
        "iPhone 13 Pro Max"@
    } else if p == "iPhone14,7"@ {
        "iPhone 14"@
    } else if p == "iPhone14,6"@ {
        "iPhone SE (3rd gen)"@
    } else if p == "iPhone14,8"@ {
        "iPhone 14 Plus"@
    } else if p == "iPhone15,2"@ {
        "iPhone 14 Pro"@
    } else if p == "iPhone15,3"@ {
        "iPhone 14 Pro Max"@
    } else if p == "iPhone15,4"@ {
        "iPhone 15"@
    } else if p == "iPhone15,5"@ {
        "iPhone 15 Plus"@
    } else if p == "iPhone16,1"@ {
        "iPhone 15 Pro"@
    } else if p == "iPhone16,2"@ {
        "iPhone 15 Pro Max"@
    } else if p == "iPhone17,1"@ {
        "iPhone 16 Pro"@
    } else if p == "iPhone17,2"@ {
        "iPhone 16 Pro Max"@
    } else if p == "iPhone17,3"@ {
        "iPhone 16"@
    } else if p == "iPhone17,4"@ {
        "iPhone 16 Plus"@
    } else if p == "iPhone18,1"@ {
        "iPhone 17 Pro"@
    } else if p == "iPhone18,2"@ {
        "iPhone 17 Pro Max"@
    } else if p == "iPhone18,3"@ {
        "iPhone 17"@
    } else if p == "iPhone18,4"@ {
        "iPhone 17 Plus"@
    } else {
        Seq::empty()
    }
}

fn marketing_lookup_chars(p: &[char]) -> (r: &'static str)
    ensures
        r@ == marketing_name(p@),
{
    if eq_str(p, "iPhone8,1") {
        return "iPhone 6s";
    }
    if eq_str(p, "iPhone8,2") {
        return "iPhone 6s Plus";
    }
    if eq_str(p, "iPhone8,4") {
        return "iPhone SE (1st gen)";
    }
    if eq_str(p, "iPhone9,1") {
        return "iPhone 7";
    }
    if eq_str(p, "iPhone9,2") {
        return "iPhone 7 Plus";
    }
    if eq_str(p, "iPhone9,3") {
        return "iPhone 7";
    }
    if eq_str(p, "iPhone9,4") {
        return "iPhone 7 Plus";
    }
    if eq_str(p, "iPhone10,1") {
        return "iPhone 8";
    }
    if eq_str(p, "iPhone10,2") {
        return "iPhone 8 Plus";
    }
    if eq_str(p, "iPhone10,3") {
        return "iPhone X";
    }
    if eq_str(p, "iPhone10,4") {
        return "iPhone 8";
    }
    if eq_str(p, "iPhone10,5") {
        return "iPhone 8 Plus";
    }
    if eq_str(p, "iPhone10,6") {
        return "iPhone X";
    }
    if eq_str(p, "iPhone11,2") {
        return "iPhone XS";
    }
    if eq_str(p, "iPhone11,4") {
        return "iPhone XS Max";
    }
    if eq_str(p, "iPhone11,6") {
        return "iPhone XS Max";
    }
    if eq_str(p, "iPhone11,8") {
        return "iPhone XR";
    }
    if eq_str(p, "iPhone12,8") {
        return "iPhone SE (2nd gen)";
    }
    if eq_str(p, "iPhone12,1") {
        return "iPhone 11";
    }
    if eq_str(p, "iPhone12,3") {
        return "iPhone 11 Pro";
    }
    if eq_str(p, "iPhone12,5") {
        return "iPhone 11 Pro Max";
    }
    if eq_str(p, "iPhone13,1") {
        return "iPhone 12 mini";
    }
    if eq_str(p, "iPhone13,2") {
        return "iPhone 12";
    }
    if eq_str(p, "iPhone13,3") {
        return "iPhone 12 Pro";
    }
    if eq_str(p, "iPhone13,4") {
        return "iPhone 12 Pro Max";
    }
    if eq_str(p, "iPhone14,4") {
        return "iPhone 13 mini";
    }
    if eq_str(p, "iPhone14,5") {
        return "iPhone 13";
    }
    if eq_str(p, "iPhone14,2") {
        return "iPhone 13 Pro";
    }
    if eq_str(p, "iPhone14,3") {
        return "iPhone 13 Pro Max";
    }
    if eq_str(p, "iPhone14,7") {
        return "iPhone 14";
    }
    if eq_str(p, "iPhone14,6") {
        return "iPhone SE (3rd gen)";
    }
    if eq_str(p, "iPhone14,8") {
        return "iPhone 14 Plus";
    }
    if eq_str(p, "iPhone15,2") {
        return "iPhone 14 Pro";
    }
    if eq_str(p, "iPhone15,3") {
        return "iPhone 14 Pro Max";
    }
    if eq_str(p, "iPhone15,4") {
        return "iPhone 15";
    }
    if eq_str(p, "iPhone15,5") {
        return "iPhone 15 Plus";
    }
    if eq_str(p, "iPhone16,1") {
        return "iPhone 15 Pro";
    }
    if eq_str(p, "iPhone16,2") {
        return "iPhone 15 Pro Max";
    }
    if eq_str(p, "iPhone17,1") {
        return "iPhone 16 Pro";
    }
    if eq_str(p, "iPhone17,2") {
        return "iPhone 16 Pro Max";
    }
    if eq_str(p, "iPhone17,3") {
        return "iPhone 16";
    }
    if eq_str(p, "iPhone17,4") {
        return "iPhone 16 Plus";
    }
    if eq_str(p, "iPhone18,1") {
        return "iPhone 17 Pro";
    }
    if eq_str(p, "iPhone18,2") {
        return "iPhone 17 Pro Max";
    }
    if eq_str(p, "iPhone18,3") {
        return "iPhone 17";
    }
    if eq_str(p, "iPhone18,4") {
        return "iPhone 17 Plus";
    }
    proof {
        reveal_strlit("");
    }
    ""
}

/// Marketing name of a product type, empty when the type is unknown.
pub fn marketing_lookup(product_type: &str) -> (r: &'static str)
    ensures
        r@ == marketing_name(product_type@),
{
    let p = chars_of(product_type);
    marketing_lookup_chars(&p)
}

/// What a model hint shows: a product type that the table knows becomes its
/// marketing name, anything else is shown trimmed, an empty hint is nothing.
pub open spec fn display_for_hint(hint: Option<Seq<char>>) -> Option<Seq<char>> {
    match hint {
        None => None,
        Some(h) => {
            let t = trim(h);
            if t.len() == 0 {
                None
            } else if seq_contains(t, seq![',']) && starts_with(unicode_lower(t), "iphone"@)
                && marketing_name(t).len() > 0 {
                Some(marketing_name(t))
            } else {
                Some(t)
            }
        },
    }
}

pub fn marketing_display_for_hints(hint: Option<&str>) -> (r: Option<String>)
    ensures
        opt_view(r) == display_for_hint(opt_str_view(hint)),
{
    let h = match hint {
        None => {
            return None;
        },
        Some(h) => h,
    };
    let hc = chars_of(h);
    let t = trim_chars(&hc);
    if t.len() == 0 {
        return None;
    }
    let comma: Vec<char> = vec![','];
    assert(comma@ == seq![',']);
    let ts = string_of(&t);
    if contains(&t, &comma) {
        let lower = to_lowercase(ts.as_str());
        if starts_with_str(&lower, "iphone") {
            let m = marketing_lookup_chars(&t);
            if !m.is_empty() {
                return Some(owned(m));
            }
        }
    }
    Some(ts)
}

// ---------------------------------------------------------------------------
// Reading what the USB tools print
// ---------------------------------------------------------------------------
/// Messages that mean that nothing is plugged in.
pub open spec fn strict_unplugged_markers() -> Seq<Seq<char>> {
    seq![
        "no device found"@,
        "no device detected"@,
        "device not found"@,
        "no devices found"@,
        "unable to retrieve device list"@,
        "could not connect to device"@,
        "connection refused"@,
        "no device"@,
    ]
}

/// Messages that mean that the iPhone waits to be unlocked or trusted.
pub open spec fn trust_markers() -> Seq<Seq<char>> {
    seq![
        "please unlock"@,
        "unlock your"@,
        "trust this computer"@,
        "tap trust"@,
        "could not connect to lockdownd"@,
        "device is not paired"@,
        "not paired with this host"@,
        "pairing is required"@,
        "pairing required"@,
        "invalid host id"@,
        "host is not trusted"@,
        "user denied"@,
        "password protected"@,
    ]
}

/// Messages of `irecovery` that report a failure.
pub open spec fn irecovery_failure_markers() -> Seq<Seq<char>> {
    seq!["error:"@, "error "@, "could not"@, "unsupported"@, "failed"@]
}

/// The tool says that no device is connected.
pub fn looks_like_strict_unplugged(msg: &str) -> (r: bool)
    ensures
        r == contains_any(unicode_lower(msg@), strict_unplugged_markers()),
{
    let m = to_lowercase(msg);
    let needles: Vec<&str> = vec![
        "no device found",
        "no device detected",
        "device not found",
        "no devices found",
        "unable to retrieve device list",
        "could not connect to device",
        "connection refused",
        "no device",
    ];
    assert(lit_views(needles@) == strict_unplugged_markers());
    contains_any_exec(&m, &needles)
}

/// The tool says that the iPhone must be unlocked or must trust this host.
pub fn looks_like_trust_or_lockdown(msg: &str) -> (r: bool)
    ensures
        r == contains_any(unicode_lower(msg@), trust_markers()),
{
    let m = to_lowercase(msg);
    let needles: Vec<&str> = vec![
        "please unlock",
        "unlock your",
        "trust this computer",
        "tap trust",
        "could not connect to lockdownd",
        "device is not paired",
        "not paired with this host",
        "pairing is required",
        "pairing required",
        "invalid host id",
        "host is not trusted",
        "user denied",
        "password protected",
    ];
    assert(lit_views(needles@) == trust_markers());
    contains_any_exec(&m, &needles)
}

/// The output of an `irecovery` command reports a failure.
pub fn irecovery_output_looks_failed(text: &str) -> (r: bool)
    ensures
        r == contains_any(unicode_lower(text@), irecovery_failure_markers()),
{
    let m = to_lowercase(text);
    let needles: Vec<&str> = vec!["error:", "error ", "could not", "unsupported", "failed"];
    assert(lit_views(needles@) == irecovery_failure_markers());
    contains_any_exec(&m, &needles)
}

/// The ellipsis that ends a shortened message.
pub open spec fn ellipsis() -> Seq<char> {
    seq!['\u{e2}', '\u{20ac}', '\u{a6}']
}

/// A message trimmed and cut to at most `max` characters, the last of which
/// is then the ellipsis.
pub open spec fn clamp_text(s: Seq<char>, max: nat) -> Seq<char> {
    let t = trim(s);
    if t.len() <= max {
        t
    } else {
        t.take(if max >= 1 { max - 1 } else { 0 }) + ellipsis()
    }
}

pub fn clamp_usb_detail(s: &str, max_chars: usize) -> (r: String)
    ensures
        r@ == clamp_text(s@, max_chars as nat),
{
    let sc = chars_of(s);
    let t = trim_chars(&sc);
    if t.len() <= max_chars {
        return string_of(&t);
    }
    let keep: usize = if max_chars >= 1 { max_chars - 1 } else { 0 };
    let mut out = slice_to_vec(&t, 0, keep);
    out.push('\u{e2}');
    out.push('\u{20ac}');
    out.push('\u{a6}');
    assert(out@ == t@.take(keep as int) + ellipsis());
    string_of(&out)
}

/// The marketing name of a product type, when the table knows it.
pub open spec fn known_marketing(p: Seq<char>) -> Option<Seq<char>> {
    if marketing_name(p).len() == 0 {
        None
    } else {
        Some(marketing_name(p))
    }
}

fn known_marketing_exec(p: &str) -> (r: Option<String>)
    ensures
        opt_view(r) == known_marketing(p@),
{
    let m = marketing_lookup(p);
    if m.is_empty() {
        None
    } else {
        Some(owned(m))
    }
}

/// The status once `ideviceinfo` has answered: without a product type the
/// iPhone still waits for trust.
pub open spec fn status_from_product(
    udids: Seq<Seq<char>>,
    product: Option<Seq<char>>,
    ios: Option<Seq<char>>,
) -> UsbStatusView {
    match product {
        None => plain_status("awaiting_trust"@, Seq::empty(), udids, None, None, None),
        Some(p) => plain_status("connected"@, Seq::empty(), udids, known_marketing(p), Some(p), ios),
    }
}

pub fn status_from_product_ios(udids: Vec<String>, product: Option<String>, ios: Option<String>) -> (r: IphoneUsbStatus)
    ensures
        r@ == status_from_product(strs(udids@), opt_view(product), opt_view(ios)),
{
    match product {
        None => usb_status("awaiting_trust", String::new(), udids, None, None, None),
        Some(p) => {
            let mapped = known_marketing_exec(p.as_str());
            usb_status("connected", String::new(), udids, mapped, Some(p), ios)
        },
    }
}

// ---------------------------------------------------------------------------
// Device identifiers printed by `idevice_id -l`
// ---------------------------------------------------------------------------
pub open spec fn is_udid_char(c: char) -> bool {
    is_hex_digit(c) || c == '-'
}

/// Number of hexadecimal digits in `s`.
pub open spec fn count_hex(s: Seq<char>) -> nat
    decreases s.len(),
{
    if s.len() == 0 {
        0
    } else {
        count_hex(s.drop_last()) + if is_hex_digit(s.last()) {
            1nat
        } else {
            0nat
        }
    }
}

/// A token trimmed and without its leading byte-order marks.
pub open spec fn udid_core(t: Seq<char>) -> Seq<char> {
    strip_leading(trim(t), '\u{feff}')
}

/// A token that looks like an Apple UDID: 20 to 48 characters, each a hex
/// digit or `-` (so the count is also the byte length), at least 16 of them
/// hex digits.
pub open spec fn udid_token(t: Seq<char>) -> Option<Seq<char>> {
    let u = udid_core(t);
    if 20 <= u.len() <= 48 && (forall|i: int| 0 <= i < u.len() ==> is_udid_char(#[trigger] u[i]))
        && count_hex(u) >= 16 {
        Some(u)
    } else {
        None
    }
}

fn udid_token_chars(t: &[char]) -> (r: Option<Vec<char>>)
    ensures
        opt_chars(r) == udid_token(t@),
{
    let tt = trim_chars(t);
    let u = strip_leading_exec(&tt, '\u{feff}');
    if u.len() < 20 || u.len() > 48 {
        return None;
    }
    let mut n: usize = 0;
    let mut i: usize = 0;
    while i < u.len()
        invariant
            i <= u.len() <= 48,
            u@ == udid_core(t@),
            n == count_hex(u@.take(i as int)),
            n <= i,
            forall|j: int| 0 <= j < i ==> is_udid_char(#[trigger] u@[j]),
        decreases u.len() - i,
    {
        assert(u@.take(i + 1).drop_last() == u@.take(i as int));
        let c = u[i];
        if char_is_hex_digit(c) {
            n += 1;
        } else if c != '-' {
            assert(!is_udid_char(u@[i as int]));
            return None;
        }
        i += 1;
    }
    assert(u@.take(u.len() as int) == u@);
    if n < 16 {
        return None;
    }
    Some(u)
}

/// `Some` of the token when it looks like an Apple UDID.
pub fn token_likely_apple_udid(t: &str) -> (r: Option<String>)
    ensures
        opt_view(r) == udid_token(t@),
{
    let tc = chars_of(t);
    match udid_token_chars(&tc) {
        Some(u) => Some(string_of(&u)),
        None => None,
    }
}

/// The tokens of `ws` that look like UDIDs, in order.
pub open spec fn valid_tokens(ws: Seq<Seq<char>>) -> Seq<Seq<char>>
    decreases ws.len(),
{
    if ws.len() == 0 {
        Seq::empty()
    } else {
        valid_tokens(ws.drop_last()) + match udid_token(ws.last()) {
            Some(u) => seq![u],
            None => Seq::empty(),
        }
    }
}

fn valid_tokens_exec(ws: &Vec<Vec<char>>) -> (r: Vec<Vec<char>>)
    ensures
        views(r@) == valid_tokens(views(ws@)),
{
    let mut out: Vec<Vec<char>> = Vec::new();
    let mut i: usize = 0;
    while i < ws.len()
        invariant
            i <= ws.len(),
            views(out@) == valid_tokens(views(ws@).take(i as int)),
        decreases ws.len() - i,
    {
        assert(views(ws@).take(i + 1).drop_last() == views(ws@).take(i as int));
        assert(views(ws@).take(i + 1).last() == ws@[i as int]@);
        let ghost before = views(out@);
        match udid_token_chars(&ws[i]) {
            Some(u) => {
                out.push(u);
                assert(views(out@) == before + seq![views(out@).last()]);
            },
            None => {
                assert(before + Seq::<Seq<char>>::empty() == before);
            },
        }
        i += 1;
    }
    assert(views(ws@).take(ws.len() as int) == views(ws@));
    out
}

/// One line of `idevice_id -l`: the UDID-like words of the line, or the whole
/// line when none of its words is one.
pub open spec fn udid_line_step(acc: Seq<Seq<char>>, line: Seq<char>) -> Seq<Seq<char>> {
    let l = udid_core(line);
    if l.len() == 0 {
        acc
    } else if valid_tokens(words(l)).len() > 0 {
        add_unique(acc, valid_tokens(words(l)))
    } else {
        match udid_token(l) {
            Some(u) => push_unique(acc, u),
            None => acc,
        }
    }
}

pub open spec fn udid_lines(ls: Seq<Seq<char>>) -> Seq<Seq<char>>
    decreases ls.len(),
{
    if ls.len() == 0 {
        Seq::empty()
    } else {
        udid_line_step(udid_lines(ls.drop_last()), ls.last())
    }
}

/// The distinct UDIDs that `idevice_id -l` printed, first seen first.
pub open spec fn udids_in(out: Seq<char>) -> Seq<Seq<char>> {
    udid_lines(lines(udid_core(out)))
}

pub fn parse_udids(stdout: &str) -> (r: Vec<String>)
    ensures
        strs(r@) == udids_in(stdout@),
{
    let sc = chars_of(stdout);
    let t = trim_chars(&sc);
    let text = strip_leading_exec(&t, '\u{feff}');
    let ls = split_lines(&text);
    let mut out: Vec<Vec<char>> = Vec::new();
    let mut i: usize = 0;
    while i < ls.len()
        invariant
            i <= ls.len(),
            views(ls@) == lines(udid_core(stdout@)),
            views(out@) == udid_lines(views(ls@).take(i as int)),
        decreases ls.len() - i,
    {
        assert(views(ls@).take(i + 1).drop_last() == views(ls@).take(i as int));
        assert(views(ls@).take(i + 1).last() == ls@[i as int]@);
        let lt = trim_chars(&ls[i]);
        let l = strip_leading_exec(&lt, '\u{feff}');
        if l.len() > 0 {
            let ws = split_words(&l);
            let toks = valid_tokens_exec(&ws);
            if toks.len() > 0 {
                add_unique_exec(&mut out, &toks);
            } else {
                match udid_token_chars(&l) {
                    Some(u) => push_unique_exec(&mut out, u),
                    None => {},
                }
            }
        }
        i += 1;
    }
    assert(views(ls@).take(ls.len() as int) == views(ls@));
    strings_of(&out)
}

// ---------------------------------------------------------------------------
// Recovery mode: what `irecovery -q` prints
// ---------------------------------------------------------------------------
/// What `u32::from_str_radix(_, 16)` returns.
pub open spec fn parse_hex_u32_spec(s: Seq<char>) -> Option<u32> {
    let d = if s.len() > 0 && s[0] == '+' {
        s.drop_first()
    } else {
        s
    };
    if d.len() > 0 && all_hex_digits(d) && num_value(d, 16) <= u32::MAX {
        Some(num_value(d, 16) as u32)
    } else {
        None
    }
}

/// A hexadecimal value written with a `0x` or `0X` prefix.
pub open spec fn hex_u32_of(val: Seq<char>) -> Option<u32> {
    let t = trim(val);
    if t.len() >= 2 && t[0] == '0' && (t[1] == 'x' || t[1] == 'X') {
        parse_hex_u32_spec(t.skip(2))
    } else {
        None
    }
}

fn hex_u32_chars(val: &[char]) -> (r: Option<u32>)
    ensures
        r == hex_u32_of(val@),
{
    let t = trim_chars(val);
    if t.len() >= 2 && t[0] == '0' && (t[1] == 'x' || t[1] == 'X') {
        let d = slice_to_vec(&t, 2, t.len());
        assert(d@ == t@.skip(2));
        match parse_hex_u64(&d) {
            Some(v) => {
                if v <= 0xffff_ffffu64 {
                    Some(v as u32)
                } else {
                    None
                }
            },
            None => None,
        }
    } else {
        None
    }
}

pub fn parse_irecovery_hex_u32(val: &str) -> (r: Option<u32>)
    ensures
        r == hex_u32_of(val@),
{
    let v = chars_of(val);
    hex_u32_chars(&v)
}

/// The product type of an iPhone board, by its chip and board ids.
pub open spec fn cpid_bdid_product(cpid: u32, bdid: u32) -> Option<Seq<char>> {
    if cpid == 0x8900 && bdid == 0x00 {
        Some("iPhone1,1"@)
    } else if cpid == 0x8900 && bdid == 0x04 {
        Some("iPhone1,2"@)
    } else if cpid == 0x8920 && bdid == 0x00 {
        Some("iPhone2,1"@)
    } else if cpid == 0x8930 && bdid == 0x00 {
        Some("iPhone3,1"@)
    } else if cpid == 0x8930 && bdid == 0x04 {
        Some("iPhone3,2"@)
    } else if cpid == 0x8930 && bdid == 0x06 {
        Some("iPhone3,3"@)
    } else if cpid == 0x8940 && bdid == 0x08 {
        Some("iPhone4,1"@)
    } else if cpid == 0x8950 && bdid == 0x00 {
        Some("iPhone5,1"@)
    } else if cpid == 0x8950 && bdid == 0x02 {
        Some("iPhone5,2"@)
    } else if cpid == 0x8950 && bdid == 0x0a {
        Some("iPhone5,3"@)
    } else if cpid == 0x8950 && bdid == 0x0e {
        Some("iPhone5,4"@)
    } else if cpid == 0x8960 && bdid == 0x00 {
        Some("iPhone6,1"@)
    } else if cpid == 0x8960 && bdid == 0x02 {
        Some("iPhone6,2"@)
    } else if cpid == 0x7000 && bdid == 0x04 {
        Some("iPhone7,1"@)
    } else if cpid == 0x7000 && bdid == 0x06 {
        Some("iPhone7,2"@)
    } else if cpid == 0x8000 && bdid == 0x04 {
        Some("iPhone8,1"@)
    } else if cpid == 0x8003 && bdid == 0x04 {
        Some("iPhone8,1"@)
    } else if cpid == 0x8000 && bdid == 0x06 {
        Some("iPhone8,2"@)
    } else if cpid == 0x8003 && bdid == 0x06 {
        Some("iPhone8,2"@)
    } else if cpid == 0x8003 && bdid == 0x02 {
        Some("iPhone8,4"@)
    } else if cpid == 0x8000 && bdid == 0x02 {
        Some("iPhone8,4"@)
    } else if cpid == 0x8010 && bdid == 0x08 {
        Some("iPhone9,1"@)
    } else if cpid == 0x8010 && bdid == 0x0a {
        Some("iPhone9,2"@)
    } else if cpid == 0x8010 && bdid == 0x0c {
        Some("iPhone9,3"@)
    } else if cpid == 0x8010 && bdid == 0x0e {
        Some("iPhone9,4"@)
    } else if cpid == 0x8015 && bdid == 0x02 {
        Some("iPhone10,1"@)
    } else if cpid == 0x8015 && bdid == 0x04 {
        Some("iPhone10,2"@)
    } else if cpid == 0x8015 && bdid == 0x06 {
        Some("iPhone10,3"@)
    } else if cpid == 0x8015 && bdid == 0x0a {
        Some("iPhone10,4"@)
    } else if cpid == 0x8015 && bdid == 0x0c {
        Some("iPhone10,5"@)
    } else if cpid == 0x8015 && bdid == 0x0e {
        Some("iPhone10,6"@)
    } else if cpid == 0x8020 && bdid == 0x0e {
        Some("iPhone11,2"@)
    } else if cpid == 0x8020 && bdid == 0x0a {
        Some("iPhone11,4"@)
    } else if cpid == 0x8020 && bdid == 0x1a {
        Some("iPhone11,6"@)
    } else if cpid == 0x8020 && bdid == 0x0c {
        Some("iPhone11,8"@)
    } else if cpid == 0x8030 && bdid == 0x04 {
        Some("iPhone12,1"@)
    } else if cpid == 0x8030 && bdid == 0x06 {
        Some("iPhone12,3"@)
    } else if cpid == 0x8030 && bdid == 0x02 {
        Some("iPhone12,5"@)
    } else if cpid == 0x8030 && bdid == 0x10 {
        Some("iPhone12,8"@)
    } else if cpid == 0x8101 && bdid == 0x0a {
        Some("iPhone13,1"@)
    } else if cpid == 0x8101 && bdid == 0x0c {
        Some("iPhone13,2"@)
    } else if cpid == 0x8101 && bdid == 0x0e {
        Some("iPhone13,3"@)
    } else if cpid == 0x8101 && bdid == 0x08 {
        Some("iPhone13,4"@)
    } else if cpid == 0x8110 && bdid == 0x0c {
        Some("iPhone14,2"@)
    } else if cpid == 0x8110 && bdid == 0x0e {
        Some("iPhone14,3"@)
    } else if cpid == 0x8110 && bdid == 0x08 {
        Some("iPhone14,4"@)
    } else if cpid == 0x8110 && bdid == 0x0a {
        Some("iPhone14,5"@)
    } else if cpid == 0x8110 && bdid == 0x10 {
        Some("iPhone14,6"@)
    } else if cpid == 0x8110 && bdid == 0x18 {
        Some("iPhone14,7"@)
    } else if cpid == 0x8110 && bdid == 0x1a {
        Some("iPhone14,8"@)
    } else if cpid == 0x8120 && bdid == 0x0c {
        Some("iPhone15,2"@)
    } else if cpid == 0x8120 && bdid == 0x0e {
        Some("iPhone15,3"@)
    } else if cpid == 0x8120 && bdid == 0x08 {
        Some("iPhone15,4"@)
    } else if cpid == 0x8120 && bdid == 0x0a {
        Some("iPhone15,5"@)
    } else if cpid == 0x8130 && bdid == 0x04 {
        Some("iPhone16,1"@)
    } else if cpid == 0x8130 && bdid == 0x06 {
        Some("iPhone16,2"@)
    } else if cpid == 0x8140 && bdid == 0x0c {
        Some("iPhone17,1"@)
    } else if cpid == 0x8140 && bdid == 0x0e {
        Some("iPhone17,2"@)
    } else if cpid == 0x8140 && bdid == 0x08 {
        Some("iPhone17,3"@)
    } else if cpid == 0x8140 && bdid == 0x0a {
        Some("iPhone17,4"@)
    } else if cpid == 0x8140 && bdid == 0x04 {
        Some("iPhone17,5"@)
    } else if cpid == 0x8150 && bdid == 0x0c {
        Some("iPhone18,1"@)
    } else if cpid == 0x8150 && bdid == 0x0e {
        Some("iPhone18,2"@)
    } else if cpid == 0x8150 && bdid == 0x08 {
        Some("iPhone18,3"@)
    } else if cpid == 0x8150 && bdid == 0x0a {
        Some("iPhone18,4"@)
    } else if cpid == 0x8150 && bdid == 0x16 {
        Some("iPhone18,5"@)
    } else {
        None
    }
}

pub fn iphone_product_type_from_cpid_bdid(cpid: u32, bdid: u32) -> (r: Option<&'static str>)
    ensures
        opt_str_view(r) == cpid_bdid_product(cpid, bdid),
{
    if cpid == 0x8900 && bdid == 0x00 {
        return Some("iPhone1,1");
    }
    if cpid == 0x8900 && bdid == 0x04 {
        return Some("iPhone1,2");
    }
    if cpid == 0x8920 && bdid == 0x00 {
        return Some("iPhone2,1");
    }
    if cpid == 0x8930 && bdid == 0x00 {
        return Some("iPhone3,1");
    }
    if cpid == 0x8930 && bdid == 0x04 {
        return Some("iPhone3,2");
    }
    if cpid == 0x8930 && bdid == 0x06 {
        return Some("iPhone3,3");
    }
    if cpid == 0x8940 && bdid == 0x08 {
        return Some("iPhone4,1");
    }
    if cpid == 0x8950 && bdid == 0x00 {
        return Some("iPhone5,1");
    }
    if cpid == 0x8950 && bdid == 0x02 {
        return Some("iPhone5,2");
    }
    if cpid == 0x8950 && bdid == 0x0a {
        return Some("iPhone5,3");
    }
    if cpid == 0x8950 && bdid == 0x0e {
        return Some("iPhone5,4");
    }
    if cpid == 0x8960 && bdid == 0x00 {
        return Some("iPhone6,1");
    }
    if cpid == 0x8960 && bdid == 0x02 {
        return Some("iPhone6,2");
    }
    if cpid == 0x7000 && bdid == 0x04 {
        return Some("iPhone7,1");
    }
    if cpid == 0x7000 && bdid == 0x06 {
        return Some("iPhone7,2");
    }
    if cpid == 0x8000 && bdid == 0x04 {
        return Some("iPhone8,1");
    }
    if cpid == 0x8003 && bdid == 0x04 {
        return Some("iPhone8,1");
    }
    if cpid == 0x8000 && bdid == 0x06 {
        return Some("iPhone8,2");
    }
    if cpid == 0x8003 && bdid == 0x06 {
        return Some("iPhone8,2");
    }
    if cpid == 0x8003 && bdid == 0x02 {
        return Some("iPhone8,4");
    }
    if cpid == 0x8000 && bdid == 0x02 {
        return Some("iPhone8,4");
    }
    if cpid == 0x8010 && bdid == 0x08 {
        return Some("iPhone9,1");
    }
    if cpid == 0x8010 && bdid == 0x0a {
        return Some("iPhone9,2");
    }
    if cpid == 0x8010 && bdid == 0x0c {
        return Some("iPhone9,3");
    }
    if cpid == 0x8010 && bdid == 0x0e {
        return Some("iPhone9,4");
    }
    if cpid == 0x8015 && bdid == 0x02 {
        return Some("iPhone10,1");
    }
    if cpid == 0x8015 && bdid == 0x04 {
        return Some("iPhone10,2");
    }
    if cpid == 0x8015 && bdid == 0x06 {
        return Some("iPhone10,3");
    }
    if cpid == 0x8015 && bdid == 0x0a {
        return Some("iPhone10,4");
    }
    if cpid == 0x8015 && bdid == 0x0c {
        return Some("iPhone10,5");
    }
    if cpid == 0x8015 && bdid == 0x0e {
        return Some("iPhone10,6");
    }
    if cpid == 0x8020 && bdid == 0x0e {
        return Some("iPhone11,2");
    }
    if cpid == 0x8020 && bdid == 0x0a {
        return Some("iPhone11,4");
    }
    if cpid == 0x8020 && bdid == 0x1a {
        return Some("iPhone11,6");
    }
    if cpid == 0x8020 && bdid == 0x0c {
        return Some("iPhone11,8");
    }
    if cpid == 0x8030 && bdid == 0x04 {
        return Some("iPhone12,1");
    }
    if cpid == 0x8030 && bdid == 0x06 {
        return Some("iPhone12,3");
    }
    if cpid == 0x8030 && bdid == 0x02 {
        return Some("iPhone12,5");
    }
    if cpid == 0x8030 && bdid == 0x10 {
        return Some("iPhone12,8");
    }
    if cpid == 0x8101 && bdid == 0x0a {
        return Some("iPhone13,1");
    }
    if cpid == 0x8101 && bdid == 0x0c {
        return Some("iPhone13,2");
    }
    if cpid == 0x8101 && bdid == 0x0e {
        return Some("iPhone13,3");
    }
    if cpid == 0x8101 && bdid == 0x08 {
        return Some("iPhone13,4");
    }
    if cpid == 0x8110 && bdid == 0x0c {
        return Some("iPhone14,2");
    }
    if cpid == 0x8110 && bdid == 0x0e {
        return Some("iPhone14,3");
    }
    if cpid == 0x8110 && bdid == 0x08 {
        return Some("iPhone14,4");
    }
    if cpid == 0x8110 && bdid == 0x0a {
        return Some("iPhone14,5");
    }
    if cpid == 0x8110 && bdid == 0x10 {
        return Some("iPhone14,6");
    }
    if cpid == 0x8110 && bdid == 0x18 {
        return Some("iPhone14,7");
    }
    if cpid == 0x8110 && bdid == 0x1a {
        return Some("iPhone14,8");
    }
    if cpid == 0x8120 && bdid == 0x0c {
        return Some("iPhone15,2");
    }
    if cpid == 0x8120 && bdid == 0x0e {
        return Some("iPhone15,3");
    }
    if cpid == 0x8120 && bdid == 0x08 {
        return Some("iPhone15,4");
    }
    if cpid == 0x8120 && bdid == 0x0a {
        return Some("iPhone15,5");
    }
    if cpid == 0x8130 && bdid == 0x04 {
        return Some("iPhone16,1");
    }
    if cpid == 0x8130 && bdid == 0x06 {
        return Some("iPhone16,2");
    }
    if cpid == 0x8140 && bdid == 0x0c {
        return Some("iPhone17,1");
    }
    if cpid == 0x8140 && bdid == 0x0e {
        return Some("iPhone17,2");
    }
    if cpid == 0x8140 && bdid == 0x08 {
        return Some("iPhone17,3");
    }
    if cpid == 0x8140 && bdid == 0x0a {
        return Some("iPhone17,4");
    }
    if cpid == 0x8140 && bdid == 0x04 {
        return Some("iPhone17,5");
    }
    if cpid == 0x8150 && bdid == 0x0c {
        return Some("iPhone18,1");
    }
    if cpid == 0x8150 && bdid == 0x0e {
        return Some("iPhone18,2");
    }
    if cpid == 0x8150 && bdid == 0x08 {
        return Some("iPhone18,3");
    }
    if cpid == 0x8150 && bdid == 0x0a {
        return Some("iPhone18,4");
    }
    if cpid == 0x8150 && bdid == 0x16 {
        return Some("iPhone18,5");
    }
    None
}

/// Where `(?i)iPhone(\d+)\s*,\s*(\d+)` matches at `p`: the spans of the two
/// numbers.
pub open spec fn product_at(s: Seq<char>, p: int) -> Option<(int, int, int, int)> {
    if !ci_at(s, "iPhone"@, p) {
        None
    } else {
        let a = p + 6;
        let b = run_end(s, a, |c: char| is_unicode_digit(c));
        let c = ws_run_end(s, b);
        if b > a && c < s.len() && s[c] == ',' {
            let d = ws_run_end(s, c + 1);
            let e = run_end(s, d, |c: char| is_unicode_digit(c));
            if e > d {
                Some((a, b, d, e))
            } else {
                None
            }
        } else {
            None
        }
    }
}

pub open spec fn product_from(s: Seq<char>, i: int) -> Option<(int, int, int, int)>
    decreases s.len() + 1 - i,
{
    if i < 0 || i > s.len() {
        None
    } else if product_at(s, i) is Some {
        product_at(s, i)
    } else {
        product_from(s, i + 1)
    }
}

/// The first `iPhoneN,M` product type written in `s`, spelled `iPhoneN,M`.
pub open spec fn product_in_blob(s: Seq<char>) -> Option<Seq<char>> {
    match product_from(s, 0) {
        Some(sp) => Some("iPhone"@ + s.subrange(sp.0, sp.1) + seq![','] + s.subrange(sp.2, sp.3)),
        None => None,
    }
}

fn digit_run_end(s: &[char], i: usize) -> (r: usize)
    requires
        i <= s.len(),
    ensures
        r as int == run_end(s@, i as int, |c: char| is_unicode_digit(c)),
        i <= r <= s.len(),
{
    let mut d = i;
    while d < s.len() && char_is_unicode_digit(s[d])
        invariant
            i <= d <= s.len(),
            run_end(s@, i as int, |c: char| is_unicode_digit(c)) == run_end(s@, d as int, |c: char| is_unicode_digit(c)),
        decreases s.len() - d,
    {
        d += 1;
    }
    d
}

fn product_at_exec(s: &[char], p: usize) -> (r: Option<(usize, usize, usize, usize)>)
    requires
        p <= s.len(),
    ensures
        match r {
            Some(sp) => product_at(s@, p as int) == Some((sp.0 as int, sp.1 as int, sp.2 as int, sp.3 as int))
                && sp.0 <= sp.1 <= sp.2 <= sp.3 <= s.len(),
            None => product_at(s@, p as int) is None,
        },
{
    proof {
        reveal_strlit("iPhone");
    }
    let lit = chars_of("iPhone");
    if !ci_at_exec(s, &lit, p) {
        return None;
    }
    let a = p + 6;
    let b = digit_run_end(s, a);
    let c = ws_run_end_exec(s, b);
    if b > a && c < s.len() && s[c] == ',' {
        let d = ws_run_end_exec(s, c + 1);
        let e = digit_run_end(s, d);
        if e > d {
            Some((a, b, d, e))
        } else {
            None
        }
    } else {
        None
    }
}

fn product_in_blob_exec(s: &[char]) -> (r: Option<Vec<char>>)
    ensures
        opt_chars(r) == product_in_blob(s@),
{
    let mut p: usize = 0;
    while p < s.len()
        invariant
            p <= s.len(),
            product_from(s@, 0) == product_from(s@, p as int),
        decreases s.len() - p,
    {
        match product_at_exec(s, p) {
            Some(sp) => {
                assert(product_from(s@, p as int) == product_at(s@, p as int));
                let mut out = chars_of("iPhone");
                let x = slice_to_vec(s, sp.0, sp.1);
                out.extend_from_slice(&x);
                out.push(',');
                let y = slice_to_vec(s, sp.2, sp.3);
                out.extend_from_slice(&y);
                return Some(out);
            },
            None => {},
        }
        p += 1;
    }
    proof {
        reveal_strlit("iPhone");
    }
    assert(product_at(s@, p as int) is None);
    assert(product_from(s@, p + 1) is None);
    None
}

/// The first product type `iPhoneN,M` that a text names.
pub fn infer_iphone_product_from_blob(blob: &str) -> (r: Option<String>)
    ensures
        opt_view(r) == product_in_blob(blob@),
{
    let b = chars_of(blob);
    match product_in_blob_exec(&b) {
        Some(v) => Some(string_of(&v)),
        None => None,
    }
}

/// What `irecovery -q` reports about a device in recovery mode.
#[derive(Debug, Clone)]
pub struct IrecoveryQueryParsed {
    pub serial: Option<String>,
    pub imei: Option<String>,
    pub ecid: Option<String>,
    pub product: Option<String>,
    pub mode: Option<String>,
    pub irecovery_display_name: Option<String>,
    pub cpid: Option<u32>,
    pub bdid: Option<u32>,
}

pub struct IrecoveryView {
    pub serial: Option<Seq<char>>,
    pub imei: Option<Seq<char>>,
    pub ecid: Option<Seq<char>>,
    pub product: Option<Seq<char>>,
    pub mode: Option<Seq<char>>,
    pub display_name: Option<Seq<char>>,
    pub cpid: Option<u32>,
    pub bdid: Option<u32>,
}

impl View for IrecoveryQueryParsed {
    type V = IrecoveryView;

    open spec fn view(&self) -> IrecoveryView {
        IrecoveryView {
            serial: opt_view(self.serial),
            imei: opt_view(self.imei),
            ecid: opt_view(self.ecid),
            product: opt_view(self.product),
            mode: opt_view(self.mode),
            display_name: opt_view(self.irecovery_display_name),
            cpid: self.cpid,
            bdid: self.bdid,
        }
    }
}

pub open spec fn empty_irecovery() -> IrecoveryView {
    IrecoveryView {
        serial: None,
        imei: None,
        ecid: None,
        product: None,
        mode: None,
        display_name: None,
        cpid: None,
        bdid: None,
    }
}

/// A `KEY: value` line: the key, trimmed and uppercased, and the value,
/// trimmed and without a leading `=`; nothing for an empty or `n/a` value.
pub open spec fn irecovery_entry(line: Seq<char>) -> Option<(Seq<char>, Seq<char>)> {
    let l = trim(line);
    match first_index_of(l, ':', 0) {
        None => None,
        Some(k) => {
            let v0 = trim(l.skip(k + 1));
            let v = if v0.len() > 0 && v0[0] == '=' {
                trim(v0.skip(1))
            } else {
                v0
            };
            if v.len() == 0 || eq_ci(v, "n/a"@) {
                None
            } else {
                Some((unicode_upper(trim(l.take(k))), v))
            }
        },
    }
}

/// The effect of one line on what has been read so far.
pub open spec fn irecovery_step(acc: IrecoveryView, line: Seq<char>) -> IrecoveryView {
    match irecovery_entry(line) {
        None => acc,
        Some((k, v)) => {
            if k == "SRNM"@ || k == "SERIAL"@ {
                IrecoveryView { serial: Some(v), ..acc }
            } else if k == "IMEI"@ {
                IrecoveryView { imei: Some(v), ..acc }
            } else if k == "ECID"@ {
                IrecoveryView { ecid: Some(v), ..acc }
            } else if k == "PRODUCT"@ {
                IrecoveryView { product: Some(v), ..acc }
            } else if k == "NAME"@ {
                IrecoveryView { display_name: Some(v), ..acc }
            } else if k == "CPID"@ {
                IrecoveryView { cpid: hex_u32_of(v), ..acc }
            } else if k == "BDID"@ {
                IrecoveryView { bdid: hex_u32_of(v), ..acc }
            } else if k == "MODEL"@ {
                if acc.product is None && product_in_blob(trim(v)) is Some {
                    IrecoveryView { product: product_in_blob(trim(v)), ..acc }
                } else {
                    acc
                }
            } else if k == "MODE"@ {
                IrecoveryView { mode: Some(v), ..acc }
            } else {
                acc
            }
        },
    }
}

pub open spec fn irecovery_lines(ls: Seq<Seq<char>>) -> IrecoveryView
    decreases ls.len(),
{
    if ls.len() == 0 {
        empty_irecovery()
    } else {
        irecovery_step(irecovery_lines(ls.drop_last()), ls.last())
    }
}

/// What the lines of an `irecovery -q` output report.
pub open spec fn irecovery_parse(text: Seq<char>) -> IrecoveryView {
    irecovery_lines(lines(text))
}

fn irecovery_entry_exec(line: &[char]) -> (r: Option<(Vec<char>, Vec<char>)>)
    ensures
        match r {
            Some(kv) => irecovery_entry(line@) == Some((kv.0@, kv.1@)),
            None => irecovery_entry(line@) is None,
        },
{
    let l = trim_chars(line);
    let k = match first_index_of_exec(&l, ':') {
        None => {
            return None;
        },
        Some(k) => k,
    };
    let rest = slice_to_vec(&l, k + 1, l.len());
    assert(rest@ == l@.skip(k + 1));
    let v0 = trim_chars(&rest);
    let v = if v0.len() > 0 && v0[0] == '=' {
        let r1 = slice_to_vec(&v0, 1, v0.len());
        assert(r1@ == v0@.skip(1));
        trim_chars(&r1)
    } else {
        v0
    };
    if v.len() == 0 || eq_ci_str(&v, "n/a") {
        return None;
    }
    let raw = slice_to_vec(&l, 0, k);
    assert(raw@ == l@.take(k as int));
    let kt = trim_chars(&raw);
    let ks = string_of(&kt);
    let ku = to_uppercase(ks.as_str());
    Some((ku, v))
}

fn irecovery_apply(out: &mut IrecoveryQueryParsed, line: &[char])
    ensures
        final(out)@ == irecovery_step(old(out)@, line@),
{
    let (k, v) = match irecovery_entry_exec(line) {
        None => {
            return;
        },
        Some(kv) => kv,
    };
    if eq_str(&k, "SRNM") || eq_str(&k, "SERIAL") {
        out.serial = Some(string_of(&v));
    } else if eq_str(&k, "IMEI") {
        out.imei = Some(string_of(&v));
    } else if eq_str(&k, "ECID") {
        out.ecid = Some(string_of(&v));
    } else if eq_str(&k, "PRODUCT") {
        out.product = Some(string_of(&v));
    } else if eq_str(&k, "NAME") {
        out.irecovery_display_name = Some(string_of(&v));
    } else if eq_str(&k, "CPID") {
        out.cpid = hex_u32_chars(&v);
    } else if eq_str(&k, "BDID") {
        out.bdid = hex_u32_chars(&v);
    } else if eq_str(&k, "MODEL") {
        if out.product.is_none() {
            let vt = trim_chars(&v);
            match product_in_blob_exec(&vt) {
                Some(p) => {
                    out.product = Some(string_of(&p));
                },
                None => {},
            }
        }
    } else if eq_str(&k, "MODE") {
        out.mode = Some(string_of(&v));
    }
}

/// Reads the `KEY: value` lines of `irecovery -q`; keys are matched without
/// regard to case, later lines overwrite earlier ones.
pub fn parse_irecovery_query(text: &str) -> (r: IrecoveryQueryParsed)
    ensures
        r@ == irecovery_parse(text@),
{
    let tc = chars_of(text);
    let ls = split_lines(&tc);
    let mut out = IrecoveryQueryParsed {
        serial: None,
        imei: None,
        ecid: None,
        product: None,
        mode: None,
        irecovery_display_name: None,
        cpid: None,
        bdid: None,
    };
    let mut i: usize = 0;
    while i < ls.len()
        invariant
            i <= ls.len(),
            views(ls@) == lines(text@),
            out@ == irecovery_lines(views(ls@).take(i as int)),
        decreases ls.len() - i,
    {
        assert(views(ls@).take(i + 1).drop_last() == views(ls@).take(i as int));
        assert(views(ls@).take(i + 1).last() == ls@[i as int]@);
        irecovery_apply(&mut out, &ls[i]);
        i += 1;
    }
    assert(views(ls@).take(ls.len() as int) == views(ls@));
    out
}

/// The device found in recovery mode, from what `irecovery -q` printed on its
/// two output streams; nothing when the output names no device at all.
pub open spec fn recovery_product(text: Seq<char>, p: IrecoveryView) -> Option<Seq<char>> {
    if p.product is Some {
        p.product
    } else if product_in_blob(text) is Some {
        product_in_blob(text)
    } else if p.cpid is Some && p.bdid is Some {
        cpid_bdid_product(p.cpid.unwrap(), p.bdid.unwrap())
    } else {
        None
    }
}

/// Some text that is not blank.
pub open spec fn nonblank(o: Option<Seq<char>>) -> bool {
    o is Some && trim(o.unwrap()).len() > 0
}

pub open spec fn recovery_status(stdout: Seq<char>, stderr: Seq<char>) -> Option<UsbStatusView> {
    let text = stdout + seq!['\n'] + stderr;
    let p = irecovery_parse(text);
    let product = recovery_product(text, p);
    let has_identity = (p.serial is Some && p.serial.unwrap().len() > 0) || nonblank(product)
        || nonblank(p.mode) || nonblank(p.ecid) || nonblank(p.imei) || (p.cpid is Some
        && p.bdid is Some);
    if !has_identity {
        None
    } else {
        let marketing = if product is Some && known_marketing(product.unwrap()) is Some {
            known_marketing(product.unwrap())
        } else if nonblank(p.display_name) {
            Some(trim(p.display_name.unwrap()))
        } else if nonblank(product) {
            Some(trim(product.unwrap()))
        } else {
            None
        };
        Some(
            UsbStatusView {
                phase: "recovery"@,
                detail: Seq::empty(),
                udids: Seq::empty(),
                marketing_name: marketing,
                product_type: product,
                ios_version: p.mode,
                recovery_serial: p.serial,
                recovery_imei: p.imei,
                recovery_ecid: p.ecid,
            },
        )
    }
}

pub open spec fn opt_status_view(o: Option<IphoneUsbStatus>) -> Option<UsbStatusView> {
    match o {
        Some(s) => Some(s@),
        None => None,
    }
}

fn nonblank_exec(o: &Option<String>) -> (r: bool)
    ensures
        r == nonblank(opt_view(*o)),
{
    match o {
        Some(s) => {
            let c = chars_of(s.as_str());
            let t = trim_chars(&c);
            t.len() > 0
        },
        None => false,
    }
}

fn trimmed_string(s: &String) -> (r: String)
    ensures
        r@ == trim(s@),
{
    let c = chars_of(s.as_str());
    let t = trim_chars(&c);
    string_of(&t)
}

/// The status of a device in recovery mode, from the two output streams of
/// `irecovery -q`.
pub fn recovery_status_from_output(stdout: &str, stderr: &str) -> (r: Option<IphoneUsbStatus>)
    ensures
        opt_status_view(r) == recovery_status(stdout@, stderr@),
{
    let mut t: Vec<char> = chars_of(stdout);
    t.push('\n');
    let e = chars_of(stderr);
    t.extend_from_slice(&e);
    let text = string_of(&t);
    let ghost tv = stdout@ + seq!['\n'] + stderr@;
    assert(text@ == tv);
    let parsed = parse_irecovery_query(text.as_str());
    let mut product = parsed.product.clone();
    if product.is_none() {
        product = match product_in_blob_exec(&t) {
            Some(v) => Some(string_of(&v)),
            None => None,
        };
    }
    if product.is_none() {
        match (parsed.cpid, parsed.bdid) {
            (Some(c), Some(b)) => {
                product = match iphone_product_type_from_cpid_bdid(c, b) {
                    Some(p) => Some(owned(p)),
                    None => None,
                };
            },
            _ => {},
        }
    }
    assert(opt_view(product) == recovery_product(tv, parsed@));
    let serial_ok = match &parsed.serial {
        Some(s) => !s.as_str().is_empty(),
        None => false,
    };
    assert(serial_ok == (parsed@.serial is Some && parsed@.serial.unwrap().len() > 0));
    let has_identity = serial_ok || nonblank_exec(&product) || nonblank_exec(&parsed.mode)
        || nonblank_exec(&parsed.ecid) || nonblank_exec(&parsed.imei) || (parsed.cpid.is_some()
        && parsed.bdid.is_some());
    if !has_identity {
        return None;
    }
    let ghost pv = parsed@;
    let ghost prod = opt_view(product);
    assert(has_identity == ((pv.serial is Some && pv.serial.unwrap().len() > 0) || nonblank(prod)
        || nonblank(pv.mode) || nonblank(pv.ecid) || nonblank(pv.imei) || (pv.cpid is Some
        && pv.bdid is Some)));
    let mut marketing: Option<String> = None;
    match &product {
        Some(p) => {
            marketing = known_marketing_exec(p.as_str());
        },
        None => {},
    }
    if marketing.is_none() {
        if nonblank_exec(&parsed.irecovery_display_name) {
            match &parsed.irecovery_display_name {
                Some(d) => {
                    marketing = Some(trimmed_string(d));
                },
                None => {},
            }
        } else if nonblank_exec(&product) {
            match &product {
                Some(p) => {
                    marketing = Some(trimmed_string(p));
                },
                None => {},
            }
        }
    }
    assert(opt_view(marketing) == (if prod is Some && known_marketing(prod.unwrap()) is Some {
        known_marketing(prod.unwrap())
    } else if nonblank(pv.display_name) {
        Some(trim(pv.display_name.unwrap()))
    } else if nonblank(prod) {
        Some(trim(prod.unwrap()))
    } else {
        None
    }));
    assert(strs(Seq::<String>::empty()) =~= Seq::<Seq<char>>::empty());
    Some(
        IphoneUsbStatus {
            phase: owned("recovery"),
            detail: String::new(),
            udids: Vec::new(),
            marketing_name: marketing,
            product_type: product,
            ios_version: parsed.mode,
            recovery_serial: parsed.serial,
            recovery_imei: parsed.imei,
            recovery_ecid: parsed.ecid,
        },
    )
}

// ---------------------------------------------------------------------------
// Values of a property list, found by their key
// ---------------------------------------------------------------------------
/// Index of the first occurrence of `n` in `h` at or after `i`.
pub open spec fn first_occ(h: Seq<char>, n: Seq<char>, i: int) -> Option<int>
    decreases h.len() + 1 - i,
{
    if i < 0 || i + n.len() > h.len() {
        None
    } else if occurs_at(h, n, i) {
        Some(i)
    } else {
        first_occ(h, n, i + 1)
    }
}

pub fn find_first(h: &[char], n: &[char], from: usize) -> (r: Option<usize>)
    ensures
        match r {
            Some(i) => first_occ(h@, n@, from as int) == Some(i as int) && from <= i && i + n@.len()
                <= h@.len(),
            None => first_occ(h@, n@, from as int) is None,
        },
{
    if n.len() > h.len() || from > h.len() - n.len() {
        return None;
    }
    let last = h.len() - n.len();
    let mut i = from;
    while i <= last
        invariant
            last == h.len() - n.len(),
            from <= i,
            first_occ(h@, n@, from as int) == first_occ(h@, n@, i as int),
        decreases last + 1 - i,
    {
        if occurs_at_exec(h, n, i) {
            return Some(i);
        }
        if i == last {
            assert(first_occ(h@, n@, i + 1) is None);
            return None;
        }
        i += 1;
    }
    None
}

/// The text between the first occurrence of `m` and the next one (or the end),
/// as `split(m).nth(1)` gives it.
pub open spec fn after_marker(h: Seq<char>, m: Seq<char>) -> Option<Seq<char>> {
    match first_occ(h, m, 0) {
        None => None,
        Some(i) => {
            let s = i + m.len();
            let e = match first_occ(h, m, s) {
                Some(j) => j,
                None => h.len() as int,
            };
            Some(h.subrange(s, e))
        },
    }
}

/// `r` up to the first occurrence of `m`, as `split(m).next()` gives it.
pub open spec fn until_marker(r: Seq<char>, m: Seq<char>) -> Seq<char> {
    match first_occ(r, m, 0) {
        Some(j) => r.take(j),
        None => r,
    }
}

pub open spec fn nonempty_text(v: Seq<char>) -> Option<Seq<char>> {
    if v.len() > 0 {
        Some(v)
    } else {
        None
    }
}

/// The value written after `<key>key</key>`: the trimmed text of an
/// `<integer>` or a `<string>`, or `true` / `false`.
#[verifier::opaque]
pub open spec fn plist_value_after(xml: Seq<char>, key: Seq<char>) -> Option<Seq<char>> {
    match after_marker(xml, "<key>"@ + key + "</key>"@) {
        None => None,
        Some(seg) => {
            let tail = trim_start(seg);
            if starts_with(tail, "<integer>"@) {
                nonempty_text(trim(until_marker(tail.skip(9), "</integer>"@)))
            } else if starts_with(tail, "<string>"@) {
                nonempty_text(trim(until_marker(tail.skip(8), "</string>"@)))
            } else if starts_with(tail, "<true/>"@) || starts_with(tail, "<true />"@) {
                Some("true"@)
            } else if starts_with(tail, "<false/>"@) || starts_with(tail, "<false />"@) {
                Some("false"@)
            } else {
                None
            }
        },
    }
}

fn until_marker_exec(r: &[char], m: &str) -> (out: Vec<char>)
    ensures
        out@ == until_marker(r@, m@),
{
    let mc = chars_of(m);
    match find_first(r, &mc, 0) {
        Some(j) => slice_to_vec(r, 0, j),
        None => slice_to_vec(r, 0, r.len()),
    }
}

fn nonempty_exec(v: Vec<char>) -> (r: Option<Vec<char>>)
    ensures
        opt_chars(r) == nonempty_text(v@),
{
    if v.len() > 0 {
        Some(v)
    } else {
        None
    }
}

fn trim_start_exec(s: &[char]) -> (r: Vec<char>)
    ensures
        r@ == trim_start(s@),
{
    let mut a: usize = 0;
    assert(s@.subrange(0, s.len() as int) =~= s@);
    while a < s.len() && char_is_ws(s[a])
        invariant
            a <= s.len(),
            trim_start(s@) == trim_start(s@.subrange(a as int, s.len() as int)),
        decreases s.len() - a,
    {
        assert(s@.subrange(a as int, s.len() as int).drop_first() =~= s@.subrange(a + 1, s.len() as int));
        a += 1;
    }
    slice_to_vec(s, a, s.len())
}

fn plist_value_after_chars(xml: &[char], key: &[char]) -> (r: Option<Vec<char>>)
    ensures
        opt_chars(r) == plist_value_after(xml@, key@),
{
    let mut m: Vec<char> = chars_of("<key>");
    m.extend_from_slice(key);
    append_str(&mut m, "</key>");
    assert(m@ =~= "<key>"@ + key@ + "</key>"@);
    let i = match find_first(xml, &m, 0) {
        None => {
            proof {
                reveal(plist_value_after);
            }
            return None;
        },
        Some(i) => i,
    };
    let xl = xml.len();
    assert(i + m.len() <= xl);
    let s = i + m.len();
    let e = match find_first(xml, &m, s) {
        Some(j) => j,
        None => xml.len(),
    };
    let seg = slice_to_vec(xml, s, e);
    let tail = trim_start_exec(&seg);
    proof {
        reveal(plist_value_after);
        reveal_strlit("<integer>");
        reveal_strlit("<string>");
    }
    if starts_with_str(&tail, "<integer>") {
        let r = slice_to_vec(&tail, 9, tail.len());
        assert(r@ == tail@.skip(9));
        let v = until_marker_exec(&r, "</integer>");
        return nonempty_exec(trim_chars(&v));
    }
    if starts_with_str(&tail, "<string>") {
        let r = slice_to_vec(&tail, 8, tail.len());
        assert(r@ == tail@.skip(8));
        let v = until_marker_exec(&r, "</string>");
        return nonempty_exec(trim_chars(&v));
    }
    if starts_with_str(&tail, "<true/>") || starts_with_str(&tail, "<true />") {
        return Some(chars_of("true"));
    }
    if starts_with_str(&tail, "<false/>") || starts_with_str(&tail, "<false />") {
        return Some(chars_of("false"));
    }
    None
}

/// The value of `key` in an `ideviceinfo -x` property list.
pub fn value_after_plist_key(xml: &str, key: &str) -> (r: Option<String>)
    ensures
        opt_view(r) == plist_value_after(xml@, key@),
{
    let x = chars_of(xml);
    let k = chars_of(key);
    match plist_value_after_chars(&x, &k) {
        Some(v) => Some(string_of(&v)),
        None => None,
    }
}

// ---------------------------------------------------------------------------
// Disk usage (`com.apple.disk_usage`)
// ---------------------------------------------------------------------------
/// Space on the device, in bytes.
#[derive(Debug, Clone, Copy)]
pub struct DiskUsage {
    pub total_bytes: u64,
    pub used_bytes: u64,
    pub free_bytes: u64,
    pub data_total_bytes: u64,
    pub data_free_bytes: u64,
}

/// A number read from a value, 0 when there is none or it is not a number.
pub open spec fn number_or_zero(v: Option<Seq<char>>) -> u64 {
    match v {
        Some(s) => match parse_u64_spec(s) {
            Some(n) => n,
            None => 0,
        },
        None => 0,
    }
}

pub open spec fn sat_sub(a: u64, b: u64) -> u64 {
    if a >= b {
        (a - b) as u64
    } else {
        0
    }
}

/// Disk usage from the five numbers of the domain: the total is the disk
/// capacity, or system plus data capacity (modulo 2^64) when the disk
/// capacity is 0; the free space is that of the data partition.
pub open spec fn disk_usage_from(total: u64, sys_total: u64, sys_free: u64, data_total: u64, data_free: u64) -> DiskUsage {
    let total_eff = if total > 0 {
        total
    } else {
        ((sys_total + data_total) % 0x1_0000_0000_0000_0000) as u64
    };
    let room = sat_sub(total_eff, data_free);
    let sys_part = if sys_free <= room {
        sys_free
    } else {
        room
    };
    DiskUsage {
        total_bytes: total_eff,
        used_bytes: sat_sub(total_eff, (data_free + sys_part) as u64),
        free_bytes: data_free,
        data_total_bytes: data_total,
        data_free_bytes: data_free,
    }
}

/// The data partition's free space: `TotalDataAvailable`, or
/// `AmountDataAvailable` when the former is absent.
pub open spec fn data_free_value(xml: Seq<char>) -> Option<Seq<char>> {
    if plist_value_after(xml, "TotalDataAvailable"@) is Some {
        plist_value_after(xml, "TotalDataAvailable"@)
    } else {
        plist_value_after(xml, "AmountDataAvailable"@)
    }
}

/// The space of the device as the `com.apple.disk_usage` domain reports it.
pub open spec fn disk_usage_of(xml: Seq<char>) -> DiskUsage {
    disk_usage_from(
        number_or_zero(plist_value_after(xml, "TotalDiskCapacity"@)),
        number_or_zero(plist_value_after(xml, "TotalSystemCapacity"@)),
        number_or_zero(plist_value_after(xml, "TotalSystemAvailable"@)),
        number_or_zero(plist_value_after(xml, "TotalDataCapacity"@)),
        number_or_zero(data_free_value(xml)),
    )
}

fn disk_usage_from_exec(total: u64, sys_total: u64, sys_free: u64, data_total: u64, data_free: u64) -> (r: DiskUsage)
    ensures
        r == disk_usage_from(total, sys_total, sys_free, data_total, data_free),
{
    let total_eff = if total > 0 {
        total
    } else {
        sys_total.wrapping_add(data_total)
    };
    let room = total_eff.saturating_sub(data_free);
    let sys_part = if sys_free <= room {
        sys_free
    } else {
        room
    };
    let used = total_eff.saturating_sub(data_free + sys_part);
    DiskUsage {
        total_bytes: total_eff,
        used_bytes: used,
        free_bytes: data_free,
        data_total_bytes: data_total,
        data_free_bytes: data_free,
    }
}

fn number_or_zero_exec(v: Option<Vec<char>>) -> (r: u64)
    ensures
        r == number_or_zero(opt_chars(v)),
{
    match v {
        Some(s) => match parse_u64(&s) {
            Some(n) => n,
            None => 0,
        },
        None => 0,
    }
}

fn key_value(xml: &[char], key: &str) -> (r: Option<Vec<char>>)
    ensures
        opt_chars(r) == plist_value_after(xml@, key@),
{
    let k = chars_of(key);
    plist_value_after_chars(xml, &k)
}

/// Space on the device, from the `com.apple.disk_usage` domain.
pub fn disk_usage_from_xml(xml: &str) -> (r: DiskUsage)
    ensures
        r == disk_usage_of(xml@),
{
    let x = chars_of(xml);
    let total = number_or_zero_exec(key_value(&x, "TotalDiskCapacity"));
    let sys_total = number_or_zero_exec(key_value(&x, "TotalSystemCapacity"));
    let sys_free = number_or_zero_exec(key_value(&x, "TotalSystemAvailable"));
    let data_total = number_or_zero_exec(key_value(&x, "TotalDataCapacity"));
    let df = key_value(&x, "TotalDataAvailable");
    let df2 = if df.is_some() {
        df
    } else {
        key_value(&x, "AmountDataAvailable")
    };
    assert(opt_chars(df2) == data_free_value(xml@));
    let data_free = number_or_zero_exec(df2);
    disk_usage_from_exec(total, sys_total, sys_free, data_total, data_free)
}

// ---------------------------------------------------------------------------
// The lockdown property list (`ideviceinfo -x`)
// ---------------------------------------------------------------------------
/// One property of the device: its key and its value as text.
#[derive(Debug, Clone)]
pub struct DeviceInfoField {
    pub id: String,
    pub value: String,
}

pub open spec fn field_views(v: Seq<DeviceInfoField>) -> Seq<(Seq<char>, Seq<char>)> {
    v.map_values(|f: DeviceInfoField| (f.id@, f.value@))
}

pub proof fn lemma_first_occ(h: Seq<char>, n: Seq<char>, i: int)
    ensures
        first_occ(h, n, i) matches Some(k) ==> i <= k && occurs_at(h, n, k) && k + n.len() <= h.len(),
    decreases h.len() + 1 - i,
{
    if !(i < 0 || i + n.len() > h.len()) && !occurs_at(h, n, i) {
        lemma_first_occ(h, n, i + 1);
    }
}

/// Where the block opened at the start of `s` closes, nesting counted: the
/// scan is at `i` with `depth` blocks open.
pub open spec fn block_end(s: Seq<char>, open: Seq<char>, close: Seq<char>, i: int, depth: nat) -> Option<int>
    decreases s.len() - i,
{
    if i < 0 || i >= s.len() || depth == 0 || open.len() == 0 || close.len() == 0 {
        None
    } else if occurs_at(s, open, i) {
        block_end(s, open, close, i + open.len(), depth + 1)
    } else if occurs_at(s, close, i) {
        if depth == 1 {
            Some(i + close.len())
        } else {
            block_end(s, open, close, i + close.len(), (depth - 1) as nat)
        }
    } else {
        block_end(s, open, close, i + 1, depth)
    }
}

/// Length of the block `open ... close` at the start of `s`, nested blocks
/// of the same kind included.
pub open spec fn tag_block_len(s: Seq<char>, open: Seq<char>, close: Seq<char>) -> Option<int> {
    if starts_with(s, open) {
        block_end(s, open, close, open.len() as int, 1)
    } else {
        None
    }
}

proof fn lemma_block_end(s: Seq<char>, open: Seq<char>, close: Seq<char>, i: int, depth: nat)
    ensures
        block_end(s, open, close, i, depth) matches Some(n) ==> i < n <= s.len(),
    decreases s.len() - i,
{
    if i < 0 || i >= s.len() || depth == 0 || open.len() == 0 || close.len() == 0 {
    } else if occurs_at(s, open, i) {
        lemma_block_end(s, open, close, i + open.len(), depth + 1);
    } else if occurs_at(s, close, i) {
        if depth != 1 {
            lemma_block_end(s, open, close, i + close.len(), (depth - 1) as nat);
        }
    } else {
        lemma_block_end(s, open, close, i + 1, depth);
    }
}

pub fn consume_xml_tag_block(s: &[char], open: &str, close: &str) -> (r: Option<usize>)
    requires
        open@.len() > 0,
        close@.len() > 0,
    ensures
        match r {
            Some(n) => tag_block_len(s@, open@, close@) == Some(n as int) && n <= s.len(),
            None => tag_block_len(s@, open@, close@) is None,
        },
{
    let op = chars_of(open);
    let cl = chars_of(close);
    if !occurs_at_exec(s, &op, 0) {
        return None;
    }
    let mut depth: usize = 1;
    let mut i: usize = op.len();
    while i < s.len()
        invariant
            op@ == open@,
            cl@ == close@,
            op.len() > 0,
            cl.len() > 0,
            1 <= depth <= i,
            i <= s.len(),
            tag_block_len(s@, open@, close@) == block_end(s@, open@, close@, i as int, depth as nat),
        decreases s.len() - i,
    {
        if occurs_at_exec(s, &op, i) {
            depth += 1;
            i += op.len();
        } else if occurs_at_exec(s, &cl, i) {
            if depth == 1 {
                proof {
                    lemma_block_end(s@, open@, close@, i as int, 1);
                }
                return Some(i + cl.len());
            }
            depth -= 1;
            i += cl.len();
        } else {
            i += 1;
        }
    }
    None
}

/// Characters of `s` that are not whitespace.
pub open spec fn non_ws(s: Seq<char>) -> Seq<char>
    decreases s.len(),
{
    if s.len() == 0 {
        Seq::empty()
    } else {
        non_ws(s.drop_last()) + if is_ws(s.last()) {
            Seq::<char>::empty()
        } else {
            seq![s.last()]
        }
    }
}

/// A `<data>` payload: its first 96 characters that are not whitespace, and
/// the ellipsis when more of them follow than that text has bytes.
pub open spec fn data_text(x: Seq<char>) -> Seq<char> {
    let raw = if non_ws(x).len() <= 96 {
        non_ws(x)
    } else {
        non_ws(x).take(96)
    };
    if non_ws(x).len() > byte_len(raw) {
        raw + ellipsis()
    } else {
        raw
    }
}

/// The text of the element `<tag>text</tag>` at the start of `t`, and the
/// length of the element.
pub open spec fn element_text(t: Seq<char>, open: Seq<char>, close: Seq<char>) -> Option<(Seq<char>, int)> {
    let rest = t.skip(open.len() as int);
    match first_occ(rest, close, 0) {
        Some(e) => Some((rest.take(e), open.len() + e + close.len())),
        None => None,
    }
}

pub open spec fn shift(o: Option<(Seq<char>, int)>, pad: int) -> Option<(Seq<char>, int)> {
    match o {
        Some(p) => Some((p.0, p.1 + pad)),
        None => None,
    }
}

/// The value at the start of `tail` (after blanks) as text, and how many
/// characters it takes: scalars by their text, `<data>` shortened, a
/// `<dict>` as `(objet)` and an `<array>` as `(liste)`.
pub open spec fn plist_payload(tail: Seq<char>) -> Option<(Seq<char>, int)> {
    let t = trim_start(tail);
    let pad = tail.len() - t.len();
    if starts_with(t, "<string>"@) {
        shift(element_text(t, "<string>"@, "</string>"@), pad)
    } else if starts_with(t, "<integer>"@) {
        shift(element_text(t, "<integer>"@, "</integer>"@), pad)
    } else if starts_with(t, "<real>"@) {
        shift(element_text(t, "<real>"@, "</real>"@), pad)
    } else if starts_with(t, "<date>"@) {
        shift(element_text(t, "<date>"@, "</date>"@), pad)
    } else if starts_with(t, "<true/>"@) || starts_with(t, "<true />"@) {
        match first_index_of(t, '>', 0) {
            Some(g) => Some(("true"@, pad + g + 1)),
            None => None,
        }
    } else if starts_with(t, "<false/>"@) || starts_with(t, "<false />"@) {
        match first_index_of(t, '>', 0) {
            Some(g) => Some(("false"@, pad + g + 1)),
            None => None,
        }
    } else if starts_with(t, "<data>"@) {
        match element_text(t, "<data>"@, "</data>"@) {
            Some(p) => Some((data_text(p.0), pad + p.1)),
            None => None,
        }
    } else if starts_with(t, "<dict>"@) {
        match tag_block_len(t, "<dict>"@, "</dict>"@) {
            Some(n) => Some(("(objet)"@, pad + n)),
            None => None,
        }
    } else if starts_with(t, "<array>"@) {
        match tag_block_len(t, "<array>"@, "</array>"@) {
            Some(n) => Some(("(liste)"@, pad + n)),
            None => None,
        }
    } else {
        None
    }
}

fn element_text_exec(t: &[char], open: &str, close: &str) -> (r: Option<(Vec<char>, usize)>)
    requires
        open@.len() <= t@.len(),
    ensures
        match r {
            Some(p) => element_text(t@, open@, close@) == Some((p.0@, p.1 as int)) && p.1 <= t.len(),
            None => element_text(t@, open@, close@) is None,
        },
{
    let ol = chars_of(open).len();
    let rest = slice_to_vec(t, ol, t.len());
    assert(rest@ == t@.skip(open@.len() as int));
    let cl = chars_of(close);
    match find_first(&rest, &cl, 0) {
        Some(e) => {
            let txt = slice_to_vec(&rest, 0, e);
            assert(txt@ == rest@.take(e as int));
            Some((txt, ol + e + cl.len()))
        },
        None => None,
    }
}

fn non_ws_exec(s: &[char]) -> (r: Vec<char>)
    ensures
        r@ == non_ws(s@),
{
    let mut r: Vec<char> = Vec::new();
    let mut i: usize = 0;
    while i < s.len()
        invariant
            i <= s.len(),
            r@ == non_ws(s@.take(i as int)),
        decreases s.len() - i,
    {
        assert(s@.take(i + 1).drop_last() == s@.take(i as int));
        if !char_is_ws(s[i]) {
            r.push(s[i]);
        }
        i += 1;
    }
    assert(s@.take(s.len() as int) == s@);
    r
}

fn data_text_exec(x: &[char]) -> (r: Vec<char>)
    ensures
        r@ == data_text(x@),
{
    let nw = non_ws_exec(x);
    let keep: usize = if nw.len() < 96 { nw.len() } else { 96 };
    let mut raw = slice_to_vec(&nw, 0, keep);
    assert(nw@.len() <= 96 ==> raw@ == nw@);
    if !byte_len_below(&raw, nw.len()) {
        return raw;
    }
    raw.push('\u{e2}');
    raw.push('\u{20ac}');
    raw.push('\u{a6}');
    raw
}

pub fn read_plist_value_payload(tail: &[char]) -> (r: Option<(Vec<char>, usize)>)
    ensures
        match r {
            Some(p) => plist_payload(tail@) == Some((p.0@, p.1 as int)) && p.1 <= tail.len(),
            None => plist_payload(tail@) is None,
        },
{
    let t = trim_start_exec(tail);
    proof {
        lemma_trim_start_suffix(tail@);
    }
    let pad = tail.len() - t.len();
    proof {
        reveal_strlit("<string>");
        reveal_strlit("<integer>");
        reveal_strlit("<real>");
        reveal_strlit("<date>");
        reveal_strlit("<data>");
    }
    if starts_with_str(&t, "<string>") {
        return match element_text_exec(&t, "<string>", "</string>") {
            Some(p) => Some((p.0, pad + p.1)),
            None => None,
        };
    }
    if starts_with_str(&t, "<integer>") {
        return match element_text_exec(&t, "<integer>", "</integer>") {
            Some(p) => Some((p.0, pad + p.1)),
            None => None,
        };
    }
    if starts_with_str(&t, "<real>") {
        return match element_text_exec(&t, "<real>", "</real>") {
            Some(p) => Some((p.0, pad + p.1)),
            None => None,
        };
    }
    if starts_with_str(&t, "<date>") {
        return match element_text_exec(&t, "<date>", "</date>") {
            Some(p) => Some((p.0, pad + p.1)),
            None => None,
        };
    }
    if starts_with_str(&t, "<true/>") || starts_with_str(&t, "<true />") {
        return match first_index_of_exec(&t, '>') {
            Some(g) => Some((chars_of("true"), pad + g + 1)),
            None => None,
        };
    }
    if starts_with_str(&t, "<false/>") || starts_with_str(&t, "<false />") {
        return match first_index_of_exec(&t, '>') {
            Some(g) => Some((chars_of("false"), pad + g + 1)),
            None => None,
        };
    }
    if starts_with_str(&t, "<data>") {
        return match element_text_exec(&t, "<data>", "</data>") {
            Some(p) => Some((data_text_exec(&p.0), pad + p.1)),
            None => None,
        };
    }
    proof {
        reveal_strlit("<dict>");
        reveal_strlit("</dict>");
        reveal_strlit("<array>");
        reveal_strlit("</array>");
    }
    if starts_with_str(&t, "<dict>") {
        return match consume_xml_tag_block(&t, "<dict>", "</dict>") {
            Some(n) => Some((chars_of("(objet)"), pad + n)),
            None => None,
        };
    }
    if starts_with_str(&t, "<array>") {
        return match consume_xml_tag_block(&t, "<array>", "</array>") {
            Some(n) => Some((chars_of("(liste)"), pad + n)),
            None => None,
        };
    }
    None
}

proof fn lemma_trim_start_suffix(s: Seq<char>)
    ensures
        trim_start(s).len() <= s.len(),
        trim_start(s) == s.skip(s.len() - trim_start(s).len()),
    decreases s.len(),
{
    if s.len() > 0 && is_ws(s[0]) {
        lemma_trim_start_suffix(s.drop_first());
        assert(s.drop_first().skip(s.drop_first().len() - trim_start(s).len()) =~= s.skip(
            s.len() - trim_start(s).len(),
        ));
    } else {
        assert(s.skip(0) =~= s);
    }
}

pub open spec fn is_ascii_ws(c: char) -> bool {
    c == ' ' || c == '\t' || c == '\n' || c == '\r' || c == '\u{c}'
}

/// The entries of the root dictionary, read from `i` on.
pub open spec fn lockdown_fields_from(xml: Seq<char>, i: int) -> Seq<(Seq<char>, Seq<char>)>
    decreases xml.len() - i,
{
    if i < 0 || i >= xml.len() {
        Seq::empty()
    } else {
        let j = run_end(xml, i, |c: char| is_ascii_ws(c));
        proof {
            lemma_run_end(xml, i, |c: char| is_ascii_ws(c));
        }
        if occurs_at(xml, "</dict>"@, j) {
            Seq::empty()
        } else if !occurs_at(xml, "<key>"@, j) {
            let next = match first_occ(xml, "<key>"@, j) {
                Some(k) => k,
                None => match first_occ(xml, "</dict>"@, j) {
                    Some(k) => k,
                    None => xml.len() as int,
                },
            };
            proof {
                lemma_first_occ(xml, "<key>"@, j);
                lemma_first_occ(xml, "</dict>"@, j);
            }
            if next <= i {
                Seq::empty()
            } else {
                lockdown_fields_from(xml, next)
            }
        } else {
            let k0 = j + 5;
            match first_occ(xml, "</key>"@, k0) {
                None => Seq::empty(),
                Some(endk) => {
                    proof {
                        lemma_first_occ(xml, "</key>"@, k0);
                    }
                    let key = trim(xml.subrange(k0, endk));
                    let i2 = endk + 6;
                    match plist_payload(xml.skip(i2)) {
                        None => Seq::empty(),
                        Some(p) => {
                            let i3 = i2 + p.1;
                            if i3 <= i || i3 > xml.len() {
                                Seq::empty()
                            } else if key.len() > 0 {
                                seq![(key, p.0)] + lockdown_fields_from(xml, i3)
                            } else {
                                lockdown_fields_from(xml, i3)
                            }
                        },
                    }
                },
            }
        }
    }
}

/// The entries `(key, value as text)` of the root dictionary of a lockdown
/// property list, in the order written.
pub open spec fn lockdown_fields(xml: Seq<char>) -> Seq<(Seq<char>, Seq<char>)> {
    match first_occ(xml, "<dict>"@, 0) {
        None => Seq::empty(),
        Some(d) => lockdown_fields_from(xml, d + 6),
    }
}

fn lockdown_fields_exec(xml: &[char]) -> (r: Vec<DeviceInfoField>)
    ensures
        field_views(r@) == lockdown_fields(xml@),
{
    let dict_o = chars_of("<dict>");
    let dict_c = chars_of("</dict>");
    let key_o = chars_of("<key>");
    let key_c = chars_of("</key>");
    proof {
        reveal_strlit("<dict>");
        reveal_strlit("</dict>");
        reveal_strlit("<key>");
        reveal_strlit("</key>");
    }
    let xl = xml.len();
    let mut out: Vec<DeviceInfoField> = Vec::new();
    assert(field_views(out@) =~= Seq::<(Seq<char>, Seq<char>)>::empty());
    let d = match find_first(xml, &dict_o, 0) {
        None => {
            return out;
        },
        Some(d) => d,
    };
    let mut i: usize = d + 6;
    while i < xml.len()
        invariant
            xl == xml@.len(),
            i <= xl,
            dict_o@ == "<dict>"@,
            dict_c@ == "</dict>"@,
            key_o@ == "<key>"@,
            key_c@ == "</key>"@,
            key_o@.len() == 5,
            key_c@.len() == 6,
            field_views(out@) + lockdown_fields_from(xml@, i as int) == lockdown_fields(xml@),
        decreases xml.len() - i,
    {
        let ghost gi = i as int;
        let mut j = i;
        while j < xml.len() && (xml[j] == ' ' || xml[j] == '\t' || xml[j] == '\n' || xml[j] == '\r'
            || xml[j] == '\u{c}')
            invariant
                gi <= j <= xml.len(),
                run_end(xml@, gi, |c: char| is_ascii_ws(c)) == run_end(xml@, j as int, |c: char| is_ascii_ws(c)),
            decreases xml.len() - j,
        {
            j += 1;
        }
        assert(j as int == run_end(xml@, gi, |c: char| is_ascii_ws(c)));
        if occurs_at_exec(xml, &dict_c, j) {
            assert(lockdown_fields_from(xml@, gi) =~= Seq::<(Seq<char>, Seq<char>)>::empty());
            assert(field_views(out@) + Seq::<(Seq<char>, Seq<char>)>::empty() =~= field_views(out@));
            return out;
        }
        if !occurs_at_exec(xml, &key_o, j) {
            let next = match find_first(xml, &key_o, j) {
                Some(k) => k,
                None => match find_first(xml, &dict_c, j) {
                    Some(k) => k,
                    None => xml.len(),
                },
            };
            if next <= i {
                assert(lockdown_fields_from(xml@, gi) =~= Seq::<(Seq<char>, Seq<char>)>::empty());
                assert(field_views(out@) + Seq::<(Seq<char>, Seq<char>)>::empty() =~= field_views(out@));
                return out;
            }
            i = next;
            continue;
        }
        let k0 = j + 5;
        let endk = match find_first(xml, &key_c, k0) {
            None => {
                assert(lockdown_fields_from(xml@, gi) =~= Seq::<(Seq<char>, Seq<char>)>::empty());
                assert(field_views(out@) + Seq::<(Seq<char>, Seq<char>)>::empty() =~= field_views(out@));
                return out;
            },
            Some(e) => e,
        };
        let kraw = slice_to_vec(xml, k0, endk);
        let key = trim_chars(&kraw);
        let i2 = endk + 6;
        let tail = slice_to_vec(xml, i2, xml.len());
        assert(tail@ == xml@.skip(i2 as int));
        let (value, consumed) = match read_plist_value_payload(&tail) {
            None => {
                assert(lockdown_fields_from(xml@, gi) =~= Seq::<(Seq<char>, Seq<char>)>::empty());
                assert(field_views(out@) + Seq::<(Seq<char>, Seq<char>)>::empty() =~= field_views(out@));
                return out;
            },
            Some(p) => p,
        };
        let i3 = i2 + consumed;
        if i3 <= i {
            assert(lockdown_fields_from(xml@, gi) =~= Seq::<(Seq<char>, Seq<char>)>::empty());
            assert(field_views(out@) + Seq::<(Seq<char>, Seq<char>)>::empty() =~= field_views(out@));
            return out;
        }
        if key.len() > 0 {
            let ghost before = field_views(out@);
            out.push(DeviceInfoField { id: string_of(&key), value: string_of(&value) });
            assert(field_views(out@) == before.push((key@, value@)));
            assert(before.push((key@, value@)) + lockdown_fields_from(xml@, i3 as int) =~= before + (seq![
                (key@, value@),
            ] + lockdown_fields_from(xml@, i3 as int)));
        }
        i = i3;
    }
    assert(field_views(out@) + Seq::<(Seq<char>, Seq<char>)>::empty() =~= field_views(out@));
    out
}

/// The entries of the root dictionary of a lockdown property list: a nested
/// dictionary reads `(objet)`, a nested array `(liste)`.
pub fn parse_lockdown_root_plist_xml(xml: &str) -> (r: Vec<DeviceInfoField>)
    ensures
        field_views(r@) == lockdown_fields(xml@),
{
    let x = chars_of(xml);
    lockdown_fields_exec(&x)
}

// ---------------------------------------------------------------------------
// Device properties keyed by name (a map listed in increasing key order)
// ---------------------------------------------------------------------------
pub open spec fn prop_keys(v: Seq<(Seq<char>, Seq<char>)>) -> Seq<Seq<char>> {
    v.map_values(|p: (Seq<char>, Seq<char>)| p.0)
}

/// Each key once, keys in increasing order.
pub open spec fn props_sorted(v: Seq<(Seq<char>, Seq<char>)>) -> bool {
    strictly_sorted(prop_keys(v))
}

/// The map that results from inserting the entries of `fs` into `m` in
/// order, a later entry replacing an earlier one of the same key.
pub open spec fn insert_all(m: Map<Seq<char>, Seq<char>>, fs: Seq<(Seq<char>, Seq<char>)>) -> Map<Seq<char>, Seq<char>>
    decreases fs.len(),
{
    if fs.len() == 0 {
        m
    } else {
        insert_all(m, fs.drop_last()).insert(fs.last().0, fs.last().1)
    }
}

/// The map that a listing stands for.
pub open spec fn prop_map(v: Seq<(Seq<char>, Seq<char>)>) -> Map<Seq<char>, Seq<char>> {
    insert_all(Map::empty(), v)
}

/// `v` lists exactly the entries of `m`, in increasing key order.
pub open spec fn lists_map(v: Seq<(Seq<char>, Seq<char>)>, m: Map<Seq<char>, Seq<char>>) -> bool {
    &&& props_sorted(v)
    &&& forall|k: Seq<char>| #[trigger] m.contains_key(k) <==> prop_keys(v).contains(k)
    &&& forall|i: int| 0 <= i < v.len() ==> m[#[trigger] v[i].0] == v[i].1
}

proof fn lemma_sorted_distinct(v: Seq<(Seq<char>, Seq<char>)>, i: int, j: int)
    requires
        props_sorted(v),
        0 <= i < v.len(),
        0 <= j < v.len(),
        i != j,
    ensures
        v[i].0 != v[j].0,
{
    if i < j {
        assert(lex_lt(prop_keys(v)[i], prop_keys(v)[j]));
        lemma_lex_irreflexive(v[i].0);
    } else {
        assert(lex_lt(prop_keys(v)[j], prop_keys(v)[i]));
        lemma_lex_irreflexive(v[j].0);
    }
}

proof fn lemma_lists_prop_map(v: Seq<(Seq<char>, Seq<char>)>)
    requires
        props_sorted(v),
    ensures
        lists_map(v, prop_map(v)),
    decreases v.len(),
{
    if v.len() > 0 {
        let w = v.drop_last();
        assert(prop_keys(w) =~= prop_keys(v).drop_last());
        lemma_lists_prop_map(w);
        let last = v.last();
        assert forall|k: Seq<char>| #[trigger] prop_map(v).contains_key(k) <==> prop_keys(v).contains(k) by {
            if prop_keys(v).contains(k) {
                let i = choose|i: int| 0 <= i < prop_keys(v).len() && prop_keys(v)[i] == k;
                if i < v.len() - 1 {
                    assert(prop_keys(w)[i] == k);
                }
            }
            if prop_keys(w).contains(k) {
                let i = choose|i: int| 0 <= i < prop_keys(w).len() && prop_keys(w)[i] == k;
                assert(prop_keys(v)[i] == k);
            }
            assert(prop_keys(v)[v.len() - 1] == last.0);
        }
        assert forall|i: int| 0 <= i < v.len() implies prop_map(v)[#[trigger] v[i].0] == v[i].1 by {
            if i < v.len() - 1 {
                lemma_sorted_distinct(v, i, v.len() - 1);
                assert(w[i] == v[i]);
            }
        }
    }
}

proof fn lemma_lists_unique(v: Seq<(Seq<char>, Seq<char>)>, m1: Map<Seq<char>, Seq<char>>, m2: Map<Seq<char>, Seq<char>>)
    requires
        lists_map(v, m1),
        lists_map(v, m2),
    ensures
        m1 == m2,
{
    assert forall|k: Seq<char>| #[trigger] m1.contains_key(k) implies m1[k] == m2[k] by {
        let i = choose|i: int| 0 <= i < prop_keys(v).len() && prop_keys(v)[i] == k;
        assert(v[i].0 == k);
    }
    assert(m1 =~= m2);
}

/// `v` lists `m`: then `v` stands for `m`.
proof fn lemma_prop_map_is(v: Seq<(Seq<char>, Seq<char>)>, m: Map<Seq<char>, Seq<char>>)
    requires
        lists_map(v, m),
    ensures
        prop_map(v) == m,
{
    lemma_lists_prop_map(v);
    lemma_lists_unique(v, prop_map(v), m);
}

/// Position of `key` in a sorted listing.
fn prop_index(v: &Vec<DeviceInfoField>, key: &[char]) -> (r: Option<usize>)
    ensures
        match r {
            Some(i) => i < v.len() && v@[i as int].id@ == key@,
            None => !prop_keys(field_views(v@)).contains(key@),
        },
{
    let mut i: usize = 0;
    while i < v.len()
        invariant
            i <= v.len(),
            forall|j: int| 0 <= j < i ==> v@[j].id@ != key@,
        decreases v.len() - i,
    {
        let id = chars_of(v[i].id.as_str());
        if chars_eq(&id, key) {
            return Some(i);
        }
        i += 1;
    }
    proof {
        if prop_keys(field_views(v@)).contains(key@) {
            let j = choose|j: int| 0 <= j < prop_keys(field_views(v@)).len() && prop_keys(field_views(v@))[j] == key@;
            assert(v@[j].id@ == key@);
        }
    }
    None
}

/// Inserts or replaces the entry of `key` (`BTreeMap::insert`).
fn prop_insert(v: &mut Vec<DeviceInfoField>, key: String, value: String, Ghost(m): Ghost<Map<Seq<char>, Seq<char>>>)
    requires
        lists_map(field_views(old(v)@), m),
    ensures
        lists_map(field_views(final(v)@), m.insert(key@, value@)),
{
    let kc = chars_of(key.as_str());
    let ghost w0 = field_views(v@);
    let mut p: usize = 0;
    while p < v.len() && chars_lt(&chars_of(v[p].id.as_str()), &kc)
        invariant
            p <= v.len(),
            v@ == old(v)@,
            w0 == field_views(v@),
            kc@ == key@,
            forall|j: int| 0 <= j < p ==> lex_lt(#[trigger] w0[j].0, key@),
        decreases v.len() - p,
    {
        p += 1;
    }
    let ghost m2 = m.insert(key@, value@);
    if p < v.len() && chars_eq(&chars_of(v[p].id.as_str()), &kc) {
        v[p] = DeviceInfoField { id: key, value };
        let ghost w1 = field_views(v@);
        assert(w1 == w0.update(p as int, (key@, value@)));
        assert(prop_keys(w1) =~= prop_keys(w0));
        assert forall|i: int| 0 <= i < w1.len() implies m2[#[trigger] w1[i].0] == w1[i].1 by {
            if i != p {
                lemma_sorted_distinct(w0, i, p as int);
            }
        }
        assert forall|k: Seq<char>| #[trigger] m2.contains_key(k) <==> prop_keys(w1).contains(k) by {
            assert(prop_keys(w0)[p as int] == key@);
        }
    } else {
        proof {
            if p < w0.len() {
                lemma_lex_total(w0[p as int].0, key@);
            }
        }
        v.insert(p, DeviceInfoField { id: key, value });
        let ghost w1 = field_views(v@);
        assert(w1 =~= w0.insert(p as int, (key@, value@)));
        assert(prop_keys(w1) =~= prop_keys(w0).insert(p as int, key@));
        assert forall|i: int, j: int| 0 <= i < j < prop_keys(w1).len() implies lex_lt(
            #[trigger] prop_keys(w1)[i],
            #[trigger] prop_keys(w1)[j],
        ) by {
            if j < p {
                assert(lex_lt(prop_keys(w0)[i], prop_keys(w0)[j]));
            } else if j == p {
                assert(lex_lt(w0[i].0, key@));
            } else if i == p {
                if j - 1 > p {
                    assert(lex_lt(prop_keys(w0)[p as int], prop_keys(w0)[j - 1]));
                    lemma_lex_trans(key@, w0[p as int].0, w0[j - 1].0);
                }
            } else if i < p {
                assert(lex_lt(w0[i].0, key@));
                assert(lex_lt(key@, w0[p as int].0));
                if j - 1 > p {
                    assert(lex_lt(prop_keys(w0)[p as int], prop_keys(w0)[j - 1]));
                    lemma_lex_trans(key@, w0[p as int].0, w0[j - 1].0);
                }
                lemma_lex_trans(w0[i].0, key@, w0[j - 1].0);
            } else {
                assert(lex_lt(prop_keys(w0)[i - 1], prop_keys(w0)[j - 1]));
            }
        }
        assert forall|k: Seq<char>| #[trigger] m2.contains_key(k) <==> prop_keys(w1).contains(k) by {
            if prop_keys(w1).contains(k) && k != key@ {
                let i = choose|i: int| 0 <= i < prop_keys(w1).len() && prop_keys(w1)[i] == k;
                if i < p {
                    assert(prop_keys(w0)[i] == k);
                } else {
                    assert(prop_keys(w0)[i - 1] == k);
                }
            }
            if m.contains_key(k) {
                let i = choose|i: int| 0 <= i < prop_keys(w0).len() && prop_keys(w0)[i] == k;
                if i < p {
                    assert(prop_keys(w1)[i] == k);
                } else {
                    assert(prop_keys(w1)[i + 1] == k);
                }
            }
            assert(prop_keys(w1)[p as int] == key@);
        }
        assert forall|i: int| 0 <= i < w1.len() implies m2[#[trigger] w1[i].0] == w1[i].1 by {
            if i < p {
                assert(w1[i] == w0[i]);
                lemma_lex_irreflexive(key@);
            } else if i > p {
                assert(w1[i] == w0[i - 1]);
                assert(lex_lt(prop_keys(w1)[p as int], prop_keys(w1)[i]));
                lemma_lex_irreflexive(key@);
            }
        }
    }
}

/// An empty listing stands for the empty map.
proof fn lemma_empty_listing(v: Seq<(Seq<char>, Seq<char>)>, m: Map<Seq<char>, Seq<char>>)
    requires
        lists_map(v, m),
    ensures
        (v.len() == 0) == (m == Map::<Seq<char>, Seq<char>>::empty()),
{
    if v.len() == 0 {
        assert(m =~= Map::<Seq<char>, Seq<char>>::empty());
    } else {
        assert(prop_keys(v)[0] == v[0].0);
        assert(m.contains_key(v[0].0));
    }
}

/// Inserts the entries of `fs` in order (`BTreeMap::insert` for each).
fn props_insert_all(v: &mut Vec<DeviceInfoField>, fs: Vec<DeviceInfoField>, Ghost(m): Ghost<Map<Seq<char>, Seq<char>>>)
    requires
        lists_map(field_views(old(v)@), m),
    ensures
        lists_map(field_views(final(v)@), insert_all(m, field_views(fs@))),
{
    let ghost fv = field_views(fs@);
    let mut i: usize = 0;
    for f in it: fs
        invariant
            fv == field_views(it.seq()),
            lists_map(field_views(v@), insert_all(m, fv.take(it.index() as int))),
    {
        let ghost k = it.index() as int;
        assert(fv.take(k + 1).drop_last() == fv.take(k));
        assert(fv.take(k + 1).last() == (f.id@, f.value@));
        prop_insert(v, f.id, f.value, Ghost(insert_all(m, fv.take(k))));
    }
    assert(fv.take(fv.len() as int) == fv);
}

/// Fills from `fs` the keys that are missing or blank: an entry whose value is
/// blank, `(objet)` or `(liste)` fills nothing.
pub open spec fn fill_blank(m: Map<Seq<char>, Seq<char>>, fs: Seq<(Seq<char>, Seq<char>)>) -> Map<Seq<char>, Seq<char>>
    decreases fs.len(),
{
    if fs.len() == 0 {
        m
    } else {
        let m0 = fill_blank(m, fs.drop_last());
        let f = fs.last();
        let vt = trim(f.1);
        if vt.len() == 0 || vt == "(objet)"@ || vt == "(liste)"@ {
            m0
        } else if !m0.contains_key(f.0) || trim(m0[f.0]).len() == 0 {
            m0.insert(f.0, f.1)
        } else {
            m0
        }
    }
}

fn props_fill_blank(v: &mut Vec<DeviceInfoField>, fs: Vec<DeviceInfoField>, Ghost(m): Ghost<Map<Seq<char>, Seq<char>>>)
    requires
        lists_map(field_views(old(v)@), m),
    ensures
        lists_map(field_views(final(v)@), fill_blank(m, field_views(fs@))),
{
    let ghost fv = field_views(fs@);
    for f in it: fs
        invariant
            fv == field_views(it.seq()),
            lists_map(field_views(v@), fill_blank(m, fv.take(it.index() as int))),
    {
        let ghost k = it.index() as int;
        let ghost m0 = fill_blank(m, fv.take(k));
        assert(fv.take(k + 1).drop_last() == fv.take(k));
        assert(fv.take(k + 1).last() == (f.id@, f.value@));
        let vc = chars_of(f.value.as_str());
        let vt = trim_chars(&vc);
        if vt.len() == 0 || eq_str(&vt, "(objet)") || eq_str(&vt, "(liste)") {
            assert(fill_blank(m, fv.take(k + 1)) == m0);
        } else {
            let kc = chars_of(f.id.as_str());
            let fill = match prop_index(v, &kc) {
                None => {
                    assert(!m0.contains_key(f.id@));
                    true
                },
                Some(idx) => {
                    let ghost w = field_views(v@);
                    assert(w[idx as int].0 == f.id@);
                    assert(prop_keys(w)[idx as int] == f.id@);
                    assert(m0.contains_key(f.id@));
                    assert(m0[f.id@] == w[idx as int].1);
                    let cc = chars_of(v[idx].value.as_str());
                    let ct = trim_chars(&cc);
                    ct.len() == 0
                },
            };
            if fill {
                prop_insert(v, f.id, f.value, Ghost(m0));
            } else {
                assert(fill_blank(m, fv.take(k + 1)) == m0);
            }
        }
    }
    assert(fv.take(fv.len() as int) == fv);
}

/// Fills the blank or missing properties of `props` from a domain's
/// property list (as `merge_plist_domain_filling_empty` does on the map).
pub fn merge_plist_domain_filling_empty(props: &mut Vec<DeviceInfoField>, xml: &str)
    requires
        props_sorted(field_views(old(props)@)),
    ensures
        props_sorted(field_views(final(props)@)),
        prop_map(field_views(final(props)@)) == fill_blank(prop_map(field_views(old(props)@)), lockdown_fields(xml@)),
{
    proof {
        lemma_lists_prop_map(field_views(props@));
    }
    let fs = parse_lockdown_root_plist_xml(xml);
    props_fill_blank(props, fs, Ghost(prop_map(field_views(props@))));
    proof {
        lemma_prop_map_is(
            field_views(props@),
            fill_blank(prop_map(field_views(old(props)@)), lockdown_fields(xml@)),
        );
    }
}

// ---------------------------------------------------------------------------
// Device details and identifiers
// ---------------------------------------------------------------------------
/// The properties read from the device, the UDID asked for, and a hint when
/// no usable IMEI came back.
#[derive(Debug, Clone)]
pub struct IphoneDeviceDetails {
    pub fields: Vec<DeviceInfoField>,
    pub udid: Option<String>,
    pub hint: Option<String>,
}

/// The message given when the device returned no property.
pub open spec fn no_lockdown_data() -> Seq<char> {
    "Aucune donn\u{c3}\u{a9}e lockdown (ideviceinfo). D\u{c3}\u{a9}verrouille l\u{e2}\u{20ac}\u{2122}iPhone, accepte \u{c2}\u{ab} Faire confiance \u{c2}\u{bb}, ou v\u{c3}\u{a9}rifie les outils USB / PANICBASE_IDEVICE_DIR."@
}

/// The hint given when no usable IMEI came back.
pub open spec fn imei_hint_text() -> Seq<char> {
    "L\u{e2}\u{20ac}\u{2122}IMEI peut \u{c3}\u{aa}tre absent selon iOS / confiance lockdown. SN + UDID restent les rep\u{c3}\u{a8}res atelier les plus fiables ici."@
}

/// A UDID trimmed, or nothing when it is blank.
pub open spec fn normalized_udid_of(udid: Option<Seq<char>>) -> Option<Seq<char>> {
    match udid {
        Some(u) => if trim(u).len() > 0 {
            Some(trim(u))
        } else {
            None
        },
        None => None,
    }
}

pub fn normalized_udid(udid: Option<String>) -> (r: Option<String>)
    ensures
        opt_view(r) == normalized_udid_of(opt_view(udid)),
{
    match udid {
        Some(u) => {
            let t = trimmed_string(&u);
            if t.as_str().is_empty() {
                None
            } else {
                Some(t)
            }
        },
        None => None,
    }
}

/// Number of ASCII digits in `s`.
pub open spec fn count_digits(s: Seq<char>) -> nat
    decreases s.len(),
{
    if s.len() == 0 {
        0
    } else {
        count_digits(s.drop_last()) + if is_digit(s.last()) {
            1nat
        } else {
            0nat
        }
    }
}

fn count_digits_exec(s: &[char]) -> (r: usize)
    ensures
        r == count_digits(s@),
{
    let mut n: usize = 0;
    let mut i: usize = 0;
    while i < s.len()
        invariant
            i <= s.len(),
            n <= i,
            n == count_digits(s@.take(i as int)),
        decreases s.len() - i,
    {
        assert(s@.take(i + 1).drop_last() == s@.take(i as int));
        if char_is_digit(s[i]) {
            n += 1;
        }
        i += 1;
    }
    assert(s@.take(s.len() as int) == s@);
    n
}

pub open spec fn is_imei_key(k: Seq<char>) -> bool {
    k == "InternationalMobileEquipmentIdentity"@ || k == "IMEI"@ || k == "MobileEquipmentIdentifier"@
}

/// An IMEI property with at least 8 digits that is not all zeros.
pub open spec fn substantial_imei(f: (Seq<char>, Seq<char>)) -> bool {
    is_imei_key(f.0) && count_digits(f.1) >= 8 && f.1 != "000000000000000"@
}

pub open spec fn imei_hint(fs: Seq<(Seq<char>, Seq<char>)>) -> Option<Seq<char>> {
    if exists|i: int| 0 <= i < fs.len() && substantial_imei(#[trigger] fs[i]) {
        None
    } else {
        Some(imei_hint_text())
    }
}

fn imei_hint_exec(fs: &Vec<DeviceInfoField>) -> (r: Option<String>)
    ensures
        opt_view(r) == imei_hint(field_views(fs@)),
{
    let mut i: usize = 0;
    while i < fs.len()
        invariant
            i <= fs.len(),
            forall|j: int| 0 <= j < i ==> !substantial_imei(#[trigger] field_views(fs@)[j]),
        decreases fs.len() - i,
    {
        let id = fs[i].id.as_str();
        let k = chars_of(id);
        if eq_str(&k, "InternationalMobileEquipmentIdentity") || eq_str(&k, "IMEI") || eq_str(
            &k,
            "MobileEquipmentIdentifier",
        ) {
            let v = chars_of(fs[i].value.as_str());
            if count_digits_exec(&v) >= 8 && !eq_str(&v, "000000000000000") {
                assert(substantial_imei(field_views(fs@)[i as int]));
                return None;
            }
        }
        i += 1;
    }
    Some(owned("L\u{e2}\u{20ac}\u{2122}IMEI peut \u{c3}\u{aa}tre absent selon iOS / confiance lockdown. SN + UDID restent les rep\u{c3}\u{a8}res atelier les plus fiables ici."))
}

/// The outcome once the properties are known: none is an error.
pub open spec fn details_outcome(
    fields: Seq<(Seq<char>, Seq<char>)>,
    udid: Option<Seq<char>>,
) -> Result<(Seq<(Seq<char>, Seq<char>)>, Option<Seq<char>>, Option<Seq<char>>), Seq<char>> {
    if fields.len() == 0 {
        Err(no_lockdown_data())
    } else {
        Ok((fields, normalized_udid_of(udid), imei_hint(fields)))
    }
}

pub open spec fn details_view(r: Result<IphoneDeviceDetails, String>) -> Result<
    (Seq<(Seq<char>, Seq<char>)>, Option<Seq<char>>, Option<Seq<char>>),
    Seq<char>,
> {
    match r {
        Ok(d) => Ok((field_views(d.fields@), opt_view(d.udid), opt_view(d.hint))),
        Err(e) => Err(e@),
    }
}

fn details_outcome_exec(fields: Vec<DeviceInfoField>, udid: Option<String>) -> (r: Result<IphoneDeviceDetails, String>)
    ensures
        details_view(r) == details_outcome(field_views(fields@), opt_view(udid)),
{
    if fields.len() == 0 {
        return Err(owned("Aucune donn\u{c3}\u{a9}e lockdown (ideviceinfo). D\u{c3}\u{a9}verrouille l\u{e2}\u{20ac}\u{2122}iPhone, accepte \u{c2}\u{ab} Faire confiance \u{c2}\u{bb}, ou v\u{c3}\u{a9}rifie les outils USB / PANICBASE_IDEVICE_DIR."));
    }
    let hint = imei_hint_exec(&fields);
    Ok(IphoneDeviceDetails { fields, udid: normalized_udid(udid), hint })
}

/// The properties that came back from per-key reads: each read value,
/// trimmed, unless it is blank.
pub open spec fn fields_of_reads(rs: Seq<(Seq<char>, Option<Seq<char>>)>) -> Seq<(Seq<char>, Seq<char>)>
    decreases rs.len(),
{
    if rs.len() == 0 {
        Seq::empty()
    } else {
        fields_of_reads(rs.drop_last()) + match rs.last().1 {
            Some(v) => if trim(v).len() > 0 {
                seq![(rs.last().0, trim(v))]
            } else {
                Seq::empty()
            },
            None => Seq::empty(),
        }
    }
}

pub open spec fn read_views(v: Seq<(String, Option<String>)>) -> Seq<(Seq<char>, Option<Seq<char>>)> {
    v.map_values(|p: (String, Option<String>)| (p.0@, opt_view(p.1)))
}

/// The properties from per-key reads (the key, and what the read returned).
pub fn fields_from_key_reads(reads: Vec<(String, Option<String>)>) -> (r: Vec<DeviceInfoField>)
    ensures
        field_views(r@) == fields_of_reads(read_views(reads@)),
{
    let ghost rv = read_views(reads@);
    let mut out: Vec<DeviceInfoField> = Vec::new();
    assert(field_views(out@) =~= Seq::<(Seq<char>, Seq<char>)>::empty());
    for rd in it: reads
        invariant
            rv == read_views(it.seq()),
            field_views(out@) == fields_of_reads(rv.take(it.index() as int)),
    {
        let ghost k = it.index() as int;
        assert(rv.take(k + 1).drop_last() == rv.take(k));
        assert(rv.take(k + 1).last() == (rd.0@, opt_view(rd.1)));
        let ghost before = field_views(out@);
        match rd.1 {
            Some(v) => {
                let t = trimmed_string(&v);
                if !t.as_str().is_empty() {
                    out.push(DeviceInfoField { id: rd.0, value: t });
                    assert(field_views(out@) =~= before + seq![(rd.0@, trim(v@))]);
                } else {
                    assert(before + Seq::<(Seq<char>, Seq<char>)>::empty() =~= before);
                }
            },
            None => {
                assert(before + Seq::<(Seq<char>, Seq<char>)>::empty() =~= before);
            },
        }
    }
    assert(rv.take(rv.len() as int) == rv);
    out
}

/// Identifiers of the device from per-key reads: an error when none came back.
pub fn device_identifiers_from_reads(reads: Vec<(String, Option<String>)>, udid: Option<String>) -> (r: Result<IphoneDeviceDetails, String>)
    ensures
        details_view(r) == details_outcome(fields_of_reads(read_views(reads@)), opt_view(udid)),
{
    let fields = fields_from_key_reads(reads);
    details_outcome_exec(fields, udid)
}

/// The keys read one by one for the identifiers of a device.
pub fn identifier_keys() -> (r: Vec<&'static str>)
    ensures
        lit_views(r@) == seq![
            "SerialNumber"@,
            "UniqueDeviceID"@,
            "InternationalMobileEquipmentIdentity"@,
            "InternationalMobileEquipmentIdentity2"@,
            "IMEI"@,
            "MobileEquipmentIdentifier"@,
        ],
{
    vec![
        "SerialNumber",
        "UniqueDeviceID",
        "InternationalMobileEquipmentIdentity",
        "InternationalMobileEquipmentIdentity2",
        "IMEI",
        "MobileEquipmentIdentifier",
    ]
}

/// The keys read one by one when the full property list gave nothing.
pub fn detail_keys() -> (r: Vec<&'static str>)
    ensures
        r@.len() == 34,
        lit_views(r@)[0] == "DeviceName"@,
        lit_views(r@)[33] == "GasGaugeCapability"@,
{
    vec![
        "DeviceName",
        "SerialNumber",
        "UniqueDeviceID",
        "InternationalMobileEquipmentIdentity",
        "MobileEquipmentIdentifier",
        "IMEI",
        "ProductType",
        "ProductVersion",
        "BuildVersion",
        "HardwareModel",
        "ModelNumber",
        "CPUArchitecture",
        "ActivationState",
        "PasswordProtected",
        "BasebandVersion",
        "BasebandStatus",
        "SIMStatus",
        "WiFiAddress",
        "BluetoothAddress",
        "EthernetAddress",
        "MLBSerialNumber",
        "RegionInfo",
        "TimeZone",
        "TotalDiskCapacity",
        "AmountDataAvailable",
        "TotalDataCapacity",
        "TotalDataAvailable",
        "TotalSystemCapacity",
        "TotalSystemAvailable",
        "BatteryCurrentCapacity",
        "BatteryIsCharging",
        "ExternalConnected",
        "FullyCharged",
        "GasGaugeCapability",
    ]
}

pub open spec fn opt_fields(o: Option<Vec<DeviceInfoField>>) -> Seq<(Seq<char>, Seq<char>)> {
    match o {
        Some(v) => field_views(v@),
        None => Seq::empty(),
    }
}

/// The properties of the device, from what the tools returned: the full
/// property list, else the per-key reads; then the blank ones filled from the
/// disk and battery domains; then the battery summary under its own key.
pub open spec fn details_props(
    full_xml: Option<Seq<char>>,
    key_fields: Seq<(Seq<char>, Seq<char>)>,
    disk_xml: Option<Seq<char>>,
    battery_xml: Option<Seq<char>>,
    summary: Option<Seq<char>>,
) -> Map<Seq<char>, Seq<char>> {
    let m1 = match full_xml {
        Some(x) => insert_all(Map::empty(), lockdown_fields(x)),
        None => Map::empty(),
    };
    let m2 = if m1 == Map::<Seq<char>, Seq<char>>::empty() {
        insert_all(m1, key_fields)
    } else {
        m1
    };
    let m3 = match disk_xml {
        Some(x) => fill_blank(m2, lockdown_fields(x)),
        None => m2,
    };
    let m4 = match battery_xml {
        Some(x) => fill_blank(m3, lockdown_fields(x)),
        None => m3,
    };
    match summary {
        Some(b) => if m4.contains_key("BatteryDomainSummary"@) {
            m4
        } else {
            m4.insert("BatteryDomainSummary"@, b)
        },
        None => m4,
    }
}

pub open spec fn opt_str_text(o: Option<&str>) -> Option<Seq<char>> {
    match o {
        Some(s) => Some(s@),
        None => None,
    }
}

/// The details of the device from what the tools returned. `key_fields` is
/// used only when the full property list gave no property. On success the
/// properties are listed in increasing key order.
pub fn device_details_assemble(
    full_xml: Option<&str>,
    key_fields: Option<Vec<DeviceInfoField>>,
    disk_xml: Option<&str>,
    battery_xml: Option<&str>,
    battery_summary: Option<String>,
    udid: Option<String>,
) -> (r: Result<IphoneDeviceDetails, String>)
    ensures
        ({
            let m = details_props(
                opt_str_text(full_xml),
                opt_fields(key_fields),
                opt_str_text(disk_xml),
                opt_str_text(battery_xml),
                opt_view(battery_summary),
            );
            match r {
                Ok(d) => m != Map::<Seq<char>, Seq<char>>::empty() && lists_map(field_views(d.fields@), m)
                    && opt_view(d.udid) == normalized_udid_of(opt_view(udid)) && opt_view(d.hint)
                    == imei_hint(field_views(d.fields@)),
                Err(e) => m == Map::<Seq<char>, Seq<char>>::empty() && e@ == no_lockdown_data(),
            }
        }),
{
    let mut props: Vec<DeviceInfoField> = Vec::new();
    let ghost m0 = Map::<Seq<char>, Seq<char>>::empty();
    assert(lists_map(field_views(props@), m0)) by {
        assert(prop_keys(field_views(props@)) =~= Seq::<Seq<char>>::empty());
    }
    let ghost m1 = match full_xml {
        Some(x) => insert_all(Map::empty(), lockdown_fields(x@)),
        None => Map::<Seq<char>, Seq<char>>::empty(),
    };
    match full_xml {
        Some(x) => {
            let fs = parse_lockdown_root_plist_xml(x);
            props_insert_all(&mut props, fs, Ghost(m0));
        },
        None => {},
    }
    assert(lists_map(field_views(props@), m1));
    proof {
        lemma_empty_listing(field_views(props@), m1);
    }
    let ghost m2 = if m1 == Map::<Seq<char>, Seq<char>>::empty() {
        insert_all(m1, opt_fields(key_fields))
    } else {
        m1
    };
    if props.len() == 0 {
        match key_fields {
            Some(kf) => {
                props_insert_all(&mut props, kf, Ghost(m1));
            },
            None => {},
        }
    }
    assert(lists_map(field_views(props@), m2));
    let ghost m3 = match disk_xml {
        Some(x) => fill_blank(m2, lockdown_fields(x@)),
        None => m2,
    };
    match disk_xml {
        Some(x) => {
            let fs = parse_lockdown_root_plist_xml(x);
            props_fill_blank(&mut props, fs, Ghost(m2));
        },
        None => {},
    }
    let ghost m4 = match battery_xml {
        Some(x) => fill_blank(m3, lockdown_fields(x@)),
        None => m3,
    };
    match battery_xml {
        Some(x) => {
            let fs = parse_lockdown_root_plist_xml(x);
            props_fill_blank(&mut props, fs, Ghost(m3));
        },
        None => {},
    }
    assert(lists_map(field_views(props@), m4));
    match battery_summary {
        Some(b) => {
            let key = chars_of("BatteryDomainSummary");
            match prop_index(&props, &key) {
                Some(idx) => {
                    assert(prop_keys(field_views(props@))[idx as int] == "BatteryDomainSummary"@);
                },
                None => {
                    props_insert_missing_key(&mut props, b, Ghost(m4));
                },
            }
        },
        None => {},
    }
    let ghost m5 = details_props(
        opt_str_text(full_xml),
        opt_fields(key_fields),
        opt_str_text(disk_xml),
        opt_str_text(battery_xml),
        opt_view(battery_summary),
    );
    assert(lists_map(field_views(props@), m5));
    proof {
        lemma_empty_listing(field_views(props@), m5);
    }
    details_outcome_exec(props, udid)
}

fn props_insert_missing_key(props: &mut Vec<DeviceInfoField>, b: String, Ghost(m): Ghost<Map<Seq<char>, Seq<char>>>)
    requires
        lists_map(field_views(old(props)@), m),
    ensures
        lists_map(field_views(final(props)@), m.insert("BatteryDomainSummary"@, b@)),
{
    prop_insert(props, owned("BatteryDomainSummary"), b, Ghost(m));
}

// ---------------------------------------------------------------------------
// Battery domain summary (`ideviceinfo -q com.apple.mobile.battery`)
// ---------------------------------------------------------------------------
pub open spec fn battery_keys() -> Seq<Seq<char>> {
    seq![
        "BatteryCurrentCapacity"@,
        "BatteryIsCharging"@,
        "FullyCharged"@,
        "ExternalConnected"@,
        "ExternalChargeCapable"@,
        "NominalChargeCapacity"@,
        "AppleRawMaxCapacity"@,
        "MaxCapacity"@,
        "DesignCapacity"@,
        "CycleCount"@,
        "MaximumCapacityPercent"@,
    ]
}

/// `key=value` for each key of `ks` that the output has a value for.
pub open spec fn battery_parts(s: Seq<char>, ks: Seq<Seq<char>>) -> Seq<Seq<char>>
    decreases ks.len(),
{
    if ks.len() == 0 {
        Seq::empty()
    } else {
        battery_parts(s, ks.drop_last()) + match plist_value_after(s, ks.last()) {
            Some(v) => seq![ks.last() + seq!['='] + v],
            None => Seq::empty(),
        }
    }
}

/// `char::is_control`: the C0 and C1 control characters.
pub open spec fn is_control(c: char) -> bool {
    (c as u32) <= 0x1f || (0x7f <= (c as u32) && (c as u32) <= 0x9f)
}

pub open spec fn non_control(s: Seq<char>) -> Seq<char>
    decreases s.len(),
{
    if s.len() == 0 {
        Seq::empty()
    } else {
        non_control(s.drop_last()) + if is_control(s.last()) {
            Seq::<char>::empty()
        } else {
            seq![s.last()]
        }
    }
}

/// A one-line summary of the battery domain: the known keys with their
/// values, or else an excerpt of the output when it is long enough.
pub open spec fn battery_summary_of(s: Seq<char>) -> Option<Seq<char>> {
    let parts = battery_parts(s, battery_keys());
    if trim(s).len() == 0 {
        None
    } else if parts.len() > 0 {
        Some(join(parts, " \u{c2}\u{b7} "@))
    } else {
        let nc = non_control(s);
        let t = if nc.len() <= 600 {
            nc
        } else {
            nc.take(600)
        };
        if byte_len(t) > 20 {
            Some("(extrait domaine) "@ + trim(t))
        } else {
            None
        }
    }
}

fn non_control_exec(s: &[char]) -> (r: Vec<char>)
    ensures
        r@ == non_control(s@),
{
    let mut r: Vec<char> = Vec::new();
    let mut i: usize = 0;
    while i < s.len()
        invariant
            i <= s.len(),
            r@ == non_control(s@.take(i as int)),
        decreases s.len() - i,
    {
        assert(s@.take(i + 1).drop_last() == s@.take(i as int));
        let c = s[i] as u32;
        if !(c <= 0x1f || (0x7f <= c && c <= 0x9f)) {
            r.push(s[i]);
        }
        i += 1;
    }
    assert(s@.take(s.len() as int) == s@);
    r
}

/// The summary of the battery domain from the output of `ideviceinfo -q
/// com.apple.mobile.battery`.
pub fn battery_summary_from_output(stdout: &str) -> (r: Option<String>)
    ensures
        opt_view(r) == battery_summary_of(stdout@),
{
    let s = chars_of(stdout);
    if trim_chars(&s).len() == 0 {
        return None;
    }
    let keys: Vec<&str> = vec![
        "BatteryCurrentCapacity",
        "BatteryIsCharging",
        "FullyCharged",
        "ExternalConnected",
        "ExternalChargeCapable",
        "NominalChargeCapacity",
        "AppleRawMaxCapacity",
        "MaxCapacity",
        "DesignCapacity",
        "CycleCount",
        "MaximumCapacityPercent",
    ];
    assert(lit_views(keys@) == battery_keys());
    let mut parts: Vec<Vec<char>> = Vec::new();
    let mut i: usize = 0;
    while i < keys.len()
        invariant
            i <= keys.len(),
            lit_views(keys@) == battery_keys(),
            views(parts@) == battery_parts(stdout@, battery_keys().take(i as int)),
            s@ == stdout@,
        decreases keys.len() - i,
    {
        assert(battery_keys().take(i + 1).drop_last() == battery_keys().take(i as int));
        assert(battery_keys().take(i + 1).last() == keys@[i as int]@);
        let k = chars_of(keys[i]);
        let ghost before = views(parts@);
        match plist_value_after_chars(&s, &k) {
            Some(v) => {
                let mut p = chars_of(keys[i]);
                p.push('=');
                p.extend_from_slice(&v);
                assert(p@ =~= keys@[i as int]@ + seq!['='] + v@);
                parts.push(p);
                assert(views(parts@) =~= before + seq![keys@[i as int]@ + seq!['='] + v@]);
            },
            None => {
                assert(before + Seq::<Seq<char>>::empty() =~= before);
            },
        }
        i += 1;
    }
    assert(battery_keys().take(11) == battery_keys());
    if parts.len() > 0 {
        let sep = chars_of(" \u{c2}\u{b7} ");
        let j = join_exec(&parts, &sep);
        return Some(string_of(&j));
    }
    let nc = non_control_exec(&s);
    let keep: usize = if nc.len() < 600 { nc.len() } else { 600 };
    let t = slice_to_vec(&nc, 0, keep);
    assert(nc@.len() <= 600 ==> t@ == nc@);
    if byte_len_below(&t, 21) {
        return None;
    }
    let mut out = chars_of("(extrait domaine) ");
    let tt = trim_chars(&t);
    out.extend_from_slice(&tt);
    Some(string_of(&out))
}

// ---------------------------------------------------------------------------
// Outcomes of the other device tools
// ---------------------------------------------------------------------------
pub open spec fn disk_outcome(tool_found: bool, xml: Option<Seq<char>>) -> Result<DiskUsage, Seq<char>> {
    if !tool_found {
        Err("ideviceinfo introuvable \u{e2}\u{20ac}\u{201d} v\u{c3}\u{a9}rifie le bundle libimobiledevice"@)
    } else {
        match xml {
            None => Err("Domaine com.apple.disk_usage indisponible (d\u{c3}\u{a9}verrouille l'iPhone et accepte \u{c2}\u{ab} Faire confiance \u{c2}\u{bb})"@),
            Some(x) => Ok(disk_usage_of(x)),
        }
    }
}

pub open spec fn disk_result_view(r: Result<DiskUsage, String>) -> Result<DiskUsage, Seq<char>> {
    match r {
        Ok(d) => Ok(d),
        Err(e) => Err(e@),
    }
}

/// The disk usage once `ideviceinfo` was looked for and, if found, asked for
/// the `com.apple.disk_usage` domain.
pub fn get_disk_usage(tool_found: bool, xml: Option<&str>) -> (r: Result<DiskUsage, String>)
    ensures
        disk_result_view(r) == disk_outcome(tool_found, opt_str_text(xml)),
{
    if !tool_found {
        return Err(owned("ideviceinfo introuvable \u{e2}\u{20ac}\u{201d} v\u{c3}\u{a9}rifie le bundle libimobiledevice"));
    }
    match xml {
        None => Err(owned("Domaine com.apple.disk_usage indisponible (d\u{c3}\u{a9}verrouille l'iPhone et accepte \u{c2}\u{ab} Faire confiance \u{c2}\u{bb})")),
        Some(x) => Ok(disk_usage_from_xml(x)),
    }
}

pub open spec fn unit_result_view(r: Result<(), String>) -> Result<(), Seq<char>> {
    match r {
        Ok(u) => Ok(u),
        Err(e) => Err(e@),
    }
}

/// What `idevicediagnostics <action>` came to: the tool missing, a run that
/// could not start (its error), or the exit status and the output streams.
pub open spec fn diagnostics_outcome(
    tool_found: bool,
    start_error: Option<Seq<char>>,
    success: bool,
    action: Seq<char>,
    stdout: Seq<char>,
    stderr: Seq<char>,
) -> Result<(), Seq<char>> {
    if !tool_found {
        Err("idevicediagnostics introuvable : copie le dossier win-x64 complet (ideviceinfo + idevicediagnostics + DLL) ou npm run sync:libimobiledevice."@)
    } else if start_error is Some {
        Err(start_error.unwrap())
    } else if !success {
        Err("idevicediagnostics "@ + action + " : "@ + trim(stderr) + seq![' '] + trim(stdout))
    } else {
        Ok(())
    }
}

pub fn idevice_diagnostics_action(
    tool_found: bool,
    start_error: Option<String>,
    success: bool,
    action: &str,
    stdout: &str,
    stderr: &str,
) -> (r: Result<(), String>)
    ensures
        unit_result_view(r) == diagnostics_outcome(tool_found, opt_view(start_error), success, action@, stdout@, stderr@),
{
    if !tool_found {
        return Err(owned("idevicediagnostics introuvable : copie le dossier win-x64 complet (ideviceinfo + idevicediagnostics + DLL) ou npm run sync:libimobiledevice."));
    }
    match start_error {
        Some(e) => {
            return Err(e);
        },
        None => {},
    }
    if !success {
        let mut m = chars_of("idevicediagnostics ");
        append_str(&mut m, action);
        append_str(&mut m, " : ");
        let ec = chars_of(stderr);
        let et = trim_chars(&ec);
        m.extend_from_slice(&et);
        m.push(' ');
        let oc = chars_of(stdout);
        let ot = trim_chars(&oc);
        m.extend_from_slice(&ot);
        assert(m@ =~= "idevicediagnostics "@ + action@ + " : "@ + trim(stderr@) + seq![' '] + trim(stdout@));
        return Err(string_of(&m));
    }
    Ok(())
}

} // verus!
