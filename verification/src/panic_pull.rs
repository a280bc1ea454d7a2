//! The choices made when the latest kernel panics are pulled from a
//! device: when a report was written (from its `panic-full-…` name, else
//! from the file times), which reports are kernel panics, the order in
//! which they are read, and how each is named and summed up.
use crate::gallery_afc::{name_cleaned, name_cleaned_chars, unsafe_name_char};
use crate::iphone::ellipsis;
use crate::knowledge::opt_str_view;
use crate::patterns::{regex_capture_group, regex_group};
use crate::text::{
    all_digits, append_chars, append_str, chars_of, contains_str, dec_text, dec_text_exec, ends_with, ends_with_str, eq_str, lower_chars, lower_seq,
    num_value, opt_view, owned, parse_u64, parse_u64_spec, seq_contains, slice_to_vec, string_of, to_lowercase, trim, trim_chars, unicode_lower,
    chars_eq_ci, eq_ci, is_ws, trim_end, trim_start,
};
use vstd::prelude::*;

verus! {

/// The most reports read in one pull.
pub const MAX_PANICS: usize = 5;

// ---------------------------------------------------------------------------
// Panic files pulled from the device
// ---------------------------------------------------------------------------
pub struct PanicPullRow {
    pub index: usize,
    pub filename: String,
    pub modified_label: String,
    pub snippet: String,
}

pub struct PanicPullListResponse {
    pub count: usize,
    pub total_downloaded: usize,
    pub message: String,
    pub logs: Vec<PanicPullRow>,
}

/// The first 220 characters of a text, trimmed, and the ellipsis when more
/// followed.
pub open spec fn snippet_of(s: Seq<char>) -> Seq<char> {
    if s.len() <= 220 {
        trim(s)
    } else {
        trim(s.take(220)) + ellipsis()
    }
}

pub fn truncate_snippet(s: &str) -> (r: String)
    ensures
        r@ == snippet_of(s@),
{
    let c = chars_of(s);
    if c.len() <= 220 {
        let t = trim_chars(&c);
        return string_of(&t);
    }
    let head = slice_to_vec(&c, 0, 220);
    let mut t = trim_chars(&head);
    t.push('\u{e2}');
    t.push('\u{20ac}');
    t.push('\u{a6}');
    assert(t@ =~= trim(c@.take(220)) + ellipsis());
    string_of(&t)
}

/// The text holds `panic-full` or `panicstring`, without regard to ASCII
/// case. Both markers are ASCII, so a match in the UTF-8 bytes is a match in
/// the characters.
pub open spec fn kernel_panic_text(s: Seq<char>) -> bool {
    (exists|p: int| #![trigger s.subrange(p, p + 10)] 0 <= p && p + 10 <= s.len() && eq_ci(s.subrange(p, p + 10), "panic-full"@))
        || (exists|p: int| #![trigger s.subrange(p, p + 11)] 0 <= p && p + 11 <= s.len() && eq_ci(s.subrange(p, p + 11), "panicstring"@))
}

fn has_marker_ci(s: &[char], m: &str, n: usize) -> (r: bool)
    requires
        m@.len() == n,
    ensures
        r == exists|p: int| #![trigger s@.subrange(p, p + n)] 0 <= p && p + n <= s@.len() && eq_ci(s@.subrange(p, p + n), m@),
{
    let mc = chars_of(m);
    if n > s.len() {
        return false;
    }
    let last = s.len() - n;
    let mut p: usize = 0;
    while p <= last
        invariant
            mc@ == m@,
            n <= s.len(),
            last == s.len() - n,
            forall|q: int| 0 <= q < p ==> !eq_ci(#[trigger] s@.subrange(q, q + n), m@),
        decreases last + 1 - p,
    {
        let w = slice_to_vec(s, p, p + n);
        if chars_eq_ci(&w, &mc) {
            return true;
        }
        if p == last {
            assert forall|q: int| 0 <= q && q + n <= s@.len() implies !eq_ci(#[trigger] s@.subrange(q, q + n), m@) by {
                assert(q <= p);
            }
            return false;
        }
        p += 1;
    }
    false
}

pub fn utf8_is_kernel_panic(s: &str) -> (r: bool)
    ensures
        r == kernel_panic_text(s@),
{
    let c = chars_of(s);
    proof {
        reveal_strlit("panic-full");
        reveal_strlit("panicstring");
    }
    has_marker_ci(&c, "panic-full", 10) || has_marker_ci(&c, "panicstring", 11)
}

/// A file name that looks like a full panic report.
pub open spec fn panic_file_name(name: Option<Seq<char>>) -> bool {
    match name {
        Some(n) => seq_contains(unicode_lower(n), "panic-full"@) || seq_contains(unicode_lower(n), "panic_full"@),
        None => false,
    }
}

/// Whether the file name (when it is valid text) names a full panic report.
pub fn filename_is_likely_panic(file_name: Option<&str>) -> (r: bool)
    ensures
        r == panic_file_name(opt_str_view(file_name)),
{
    match file_name {
        Some(n) => {
            let l = to_lowercase(n);
            contains_str(&l, "panic-full") || contains_str(&l, "panic_full")
        },
        None => false,
    }
}

/// A local file name for a pulled report: unsafe characters replaced by
/// `_`; `panic-full.ips` when nothing but blanks is left.
pub open spec fn local_file_name(name: Seq<char>) -> Seq<char> {
    if trim(name_cleaned(name)).len() == 0 {
        "panic-full.ips"@
    } else {
        name_cleaned(name)
    }
}

pub fn safe_local_filename(name: &str) -> (r: String)
    ensures
        r@ == local_file_name(name@),
{
    let c = chars_of(name);
    let cl = name_cleaned_chars(&c);
    if trim_chars(&cl).len() == 0 {
        owned("panic-full.ips")
    } else {
        string_of(&cl)
    }
}

// ---------------------------------------------------------------------------
// When a report was written
// ---------------------------------------------------------------------------
/// The milliseconds since the Unix epoch of a UTC date and time, as chrono
/// computes them; none for a date or time that does not exist.
pub uninterp spec fn utc_timestamp_millis(year: i32, month: u32, day: u32, hour: u32, min: u32, sec: u32) -> Option<i64>;

/// `chrono::NaiveDate::from_ymd_opt`, then `and_hms_opt`, then
/// `DateTime::<Utc>::from_naive_utc_and_offset(..).timestamp_millis()`.
/// Claimed: the result is `utc_timestamp_millis` of the arguments, and it is
/// none for a month outside 1..=12, a day outside 1..=31, an hour from 24,
/// a minute or a second from 60 (the crate's documentation of the two
/// constructors). Which days each month has is not restated here.
#[verifier::external_body]
fn utc_millis(year: i32, month: u32, day: u32, hour: u32, min: u32, sec: u32) -> (r: Option<i64>)
    ensures
        r == utc_timestamp_millis(year, month, day, hour, min, sec),
        month < 1 || month > 12 || day < 1 || day > 31 || hour >= 24 || min >= 60 || sec >= 60 ==> r is None,
{
    let date = chrono::NaiveDate::from_ymd_opt(year, month, day)?;
    let naive = date.and_hms_opt(hour, min, sec)?;
    Some(chrono::DateTime::<chrono::Utc>::from_naive_utc_and_offset(naive, chrono::Utc).timestamp_millis())
}

/// What `str::parse::<u32>` returns.
pub open spec fn parse_u32_spec(s: Seq<char>) -> Option<u32> {
    match parse_u64_spec(s) {
        Some(v) => if v <= u32::MAX {
            Some(v as u32)
        } else {
            None
        },
        None => None,
    }
}

/// What `str::parse::<i32>` returns: an optional sign, then ASCII digits
/// whose value fits.
pub open spec fn parse_i32_spec(s: Seq<char>) -> Option<i32> {
    if s.len() > 0 && s[0] == '-' {
        let d = s.drop_first();
        if d.len() > 0 && all_digits(d) && num_value(d, 10) <= 2147483648 {
            Some((0 - num_value(d, 10)) as i32)
        } else {
            None
        }
    } else {
        match parse_u64_spec(s) {
            Some(v) => if v <= 2147483647 {
                Some(v as i32)
            } else {
                None
            },
            None => None,
        }
    }
}

fn parse_u32_text(s: &str) -> (r: Option<u32>)
    ensures
        r == parse_u32_spec(s@),
{
    let c = chars_of(s);
    match parse_u64(&c) {
        Some(v) => if v <= 4294967295 {
            Some(v as u32)
        } else {
            None
        },
        None => None,
    }
}

fn parse_i32_text(s: &str) -> (r: Option<i32>)
    ensures
        r == parse_i32_spec(s@),
{
    let c = chars_of(s);
    if c.len() > 0 && c[0] == '-' {
        let d = slice_to_vec(&c, 1, c.len());
        assert(d@ == s@.drop_first());
        if d.len() > 0 && d[0] == '+' {
            assert(!all_digits(d@));
            return None;
        }
        match parse_u64(&d) {
            Some(v) => {
                if v <= 2147483648 {
                    let n: i64 = 0 - (v as i64);
                    Some(n as i32)
                } else {
                    None
                }
            },
            None => None,
        }
    } else {
        match parse_u64(&c) {
            Some(v) => if v <= 2147483647 {
                Some(v as i32)
            } else {
                None
            },
            None => None,
        }
    }
}

pub open spec fn panic_full_pattern() -> Seq<char> {
    "(?i)panic-full-(\\d{4})-(\\d{2})-(\\d{2})-(\\d{6})"@
}

/// The time a `panic-full-YYYY-MM-DD-HHMMSS` name carries, in UTC
/// milliseconds: the four groups of the pattern read as numbers, the six
/// digits split into hours, minutes and seconds.
pub open spec fn embedded_timestamp(name: Seq<char>) -> Option<i64> {
    let g1 = regex_group(panic_full_pattern(), name, 1);
    let g2 = regex_group(panic_full_pattern(), name, 2);
    let g3 = regex_group(panic_full_pattern(), name, 3);
    let g4 = regex_group(panic_full_pattern(), name, 4);
    if g1 is Some && g2 is Some && g3 is Some && g4 is Some && parse_i32_spec(g1.unwrap()) is Some && parse_u32_spec(g2.unwrap()) is Some
        && parse_u32_spec(g3.unwrap()) is Some && parse_u32_spec(g4.unwrap()) is Some {
        let hms = parse_u32_spec(g4.unwrap()).unwrap();
        utc_timestamp_millis(
            parse_i32_spec(g1.unwrap()).unwrap(),
            parse_u32_spec(g2.unwrap()).unwrap(),
            parse_u32_spec(g3.unwrap()).unwrap(),
            hms / 10000,
            (hms / 100) % 100,
            hms % 100,
        )
    } else {
        None
    }
}

/// The time a report's name carries (`embedded_timestamp`).
pub fn embedded_panic_full_timestamp_ms(filename: &str) -> (r: Option<i64>)
    ensures
        r == embedded_timestamp(filename@),
{
    let pat = "(?i)panic-full-(\\d{4})-(\\d{2})-(\\d{2})-(\\d{6})";
    let g1 = regex_capture_group(pat, filename, 1);
    let g2 = regex_capture_group(pat, filename, 2);
    let g3 = regex_capture_group(pat, filename, 3);
    let g4 = regex_capture_group(pat, filename, 4);
    let (s1, s2, s3, s4) = match (g1, g2, g3, g4) {
        (Some(a), Some(b), Some(c), Some(d)) => (a, b, c, d),
        _ => {
            return None;
        },
    };
    let y = match parse_i32_text(s1.as_str()) {
        Some(v) => v,
        None => {
            return None;
        },
    };
    let mo = match parse_u32_text(s2.as_str()) {
        Some(v) => v,
        None => {
            return None;
        },
    };
    let d = match parse_u32_text(s3.as_str()) {
        Some(v) => v,
        None => {
            return None;
        },
    };
    let hms = match parse_u32_text(s4.as_str()) {
        Some(v) => v,
        None => {
            return None;
        },
    };
    utc_millis(y, mo, d, hms / 10000, (hms / 100) % 100, hms % 100)
}

/// The time of an AFC candidate: its name's time, else its modification
/// time (its birth time when that is not positive), in nanoseconds above
/// 10^12 and taken as milliseconds below.
pub open spec fn afc_sort_key(name: Seq<char>, mtime_ns: i64, birth_ns: i64) -> i64 {
    match embedded_timestamp(name) {
        Some(t) => t,
        None => {
            let ns = if mtime_ns > 0 { mtime_ns } else { birth_ns };
            if ns > 1_000_000_000_000 {
                (ns / 1_000_000) as i64
            } else {
                ns
            }
        },
    }
}

/// The time of an AFC candidate (`afc_sort_key`).
pub fn afc_candidate_sort_ms(filename: &str, mtime_ns: i64, birth_ns: i64) -> (r: i64)
    ensures
        r == afc_sort_key(filename@, mtime_ns, birth_ns),
{
    match embedded_panic_full_timestamp_ms(filename) {
        Some(t) => t,
        None => {
            let ns = if mtime_ns > 0 { mtime_ns } else { birth_ns };
            if ns > 1_000_000_000_000 {
                ns / 1_000_000
            } else {
                ns
            }
        },
    }
}

/// The time a pulled file sorts by: its name's time, else its
/// modification time.
pub fn effective_panic_sort_ms(file_name: &str, mtime_ms: i64) -> (r: i64)
    ensures
        r == match embedded_timestamp(file_name@) {
            Some(t) => t,
            None => mtime_ms,
        },
{
    match embedded_panic_full_timestamp_ms(file_name) {
        Some(t) => t,
        None => mtime_ms,
    }
}


// ---------------------------------------------------------------------------
// Which reports are kernel panics
// ---------------------------------------------------------------------------
/// An AFC entry worth reading: its ASCII-lowercased name holds
/// `panic-full` or `panic_full` and ends in `.ips`, `.crash` or `.panic`.
pub open spec fn afc_panic_entry(entry: Seq<char>) -> bool {
    let l = lower_seq(entry);
    (seq_contains(l, "panic-full"@) || seq_contains(l, "panic_full"@))
        && (ends_with(l, ".ips"@) || ends_with(l, ".crash"@) || ends_with(l, ".panic"@))
}

/// Whether an AFC entry is read as a panic report (`afc_panic_entry`).
pub fn is_afc_panic_entry(entry: &str) -> (r: bool)
    ensures
        r == afc_panic_entry(entry@),
{
    let c = chars_of(entry);
    let l = lower_chars(&c);
    (contains_str(&l, "panic-full") || contains_str(&l, "panic_full"))
        && (ends_with_str(&l, ".ips") || ends_with_str(&l, ".crash") || ends_with_str(&l, ".panic"))
}

/// The AFC path of an entry of a directory.
pub open spec fn afc_child(dir: Seq<char>, entry: Seq<char>) -> Seq<char> {
    if dir == "/"@ {
        "/"@ + entry
    } else {
        dir + "/"@ + entry
    }
}

/// The AFC path of an entry of a directory (`afc_child`).
pub fn afc_child_path(dir: &str, entry: &str) -> (r: String)
    ensures
        r@ == afc_child(dir@, entry@),
{
    let dc = chars_of(dir);
    let mut v: Vec<char> = Vec::new();
    if eq_str(&dc, "/") {
        v.push('/');
    } else {
        append_chars(&mut v, &dc);
        v.push('/');
    }
    append_str(&mut v, entry);
    proof {
        reveal_strlit("/");
    }
    assert(v@ =~= afc_child(dir@, entry@));
    string_of(&v)
}

// ---------------------------------------------------------------------------
// How a report is named and summed up
// ---------------------------------------------------------------------------
/// The summary of a pull whose reports came through `source`.
pub open spec fn pull_summary(count: nat, total: nat, source: Seq<char>) -> Seq<char> {
    dec_text(count) + " panic(s) noyau (max "@ + dec_text(MAX_PANICS as nat) + "), les plus r\u{c3}\u{a9}cents via "@ + source + " sur "@
        + dec_text(total) + " fichier(s)."@
}

/// The summary of a pull whose reports came through `source` (`pull_summary`).
pub fn pull_summary_message(count: usize, total: usize, source: &str) -> (r: String)
    ensures
        r@ == pull_summary(count as nat, total as nat, source@),
{
    let mut v = dec_text_exec(count as u64);
    append_str(&mut v, " panic(s) noyau (max ");
    let m = dec_text_exec(MAX_PANICS as u64);
    append_chars(&mut v, &m);
    append_str(&mut v, "), les plus r\u{c3}\u{a9}cents via ");
    append_str(&mut v, source);
    append_str(&mut v, " sur ");
    let t = dec_text_exec(total as u64);
    append_chars(&mut v, &t);
    append_str(&mut v, " fichier(s).");
    string_of(&v)
}

/// The summary of a pull of downloaded reports.
pub open spec fn download_summary(count: nat, total: nat) -> Seq<char> {
    dec_text(count) + " panic(s) noyau (max "@ + dec_text(MAX_PANICS as nat) + "), les plus r\u{c3}\u{a9}cents sur "@ + dec_text(total)
        + " fichier(s) t\u{c3}\u{a9}l\u{c3}\u{a9}charg\u{c3}\u{a9}s."@
}

/// The summary of a pull of downloaded reports (`download_summary`).
pub fn download_summary_message(count: usize, total: usize) -> (r: String)
    ensures
        r@ == download_summary(count as nat, total as nat),
{
    let mut v = dec_text_exec(count as u64);
    append_str(&mut v, " panic(s) noyau (max ");
    let m = dec_text_exec(MAX_PANICS as u64);
    append_chars(&mut v, &m);
    append_str(&mut v, "), les plus r\u{c3}\u{a9}cents sur ");
    let t = dec_text_exec(total as u64);
    append_chars(&mut v, &t);
    append_str(&mut v, " fichier(s) t\u{c3}\u{a9}l\u{c3}\u{a9}charg\u{c3}\u{a9}s.");
    string_of(&v)
}

/// What a pull that found no kernel panic says: that nothing was
/// downloaded, or among how many files none was a panic.
pub open spec fn empty_pull(total: nat) -> Seq<char> {
    if total == 0 {
        "Aucun fichier .ips/.crash t\u{c3}\u{a9}l\u{c3}\u{a9}charg\u{c3}\u{a9} \u{e2}\u{20ac}\u{201d} l\u{e2}\u{20ac}\u{2122}appareil n\u{e2}\u{20ac}\u{2122}a peut-\u{c3}\u{aa}tre pas de logs accessibles. V\u{c3}\u{a9}rifie que l\u{e2}\u{20ac}\u{2122}iPhone est d\u{c3}\u{a9}verrouill\u{c3}\u{a9} et a accept\u{c3}\u{a9} \u{c2}\u{ab} Faire confiance \u{c2}\u{bb}."@
    } else {
        "Aucun panic noyau parmi les "@ + dec_text(total)
            + " fichier(s) t\u{c3}\u{a9}l\u{c3}\u{a9}charg\u{c3}\u{a9}s. Seuls les rapports contenant \u{c2}\u{ab} panic-full \u{c2}\u{bb} ou \u{c2}\u{ab} panicString \u{c2}\u{bb} sont retenus."@
    }
}

/// What a pull that found no kernel panic says (`empty_pull`).
pub fn empty_pull_message(total: usize) -> (r: String)
    ensures
        r@ == empty_pull(total as nat),
{
    if total == 0 {
        let v = chars_of(
            "Aucun fichier .ips/.crash t\u{c3}\u{a9}l\u{c3}\u{a9}charg\u{c3}\u{a9} \u{e2}\u{20ac}\u{201d} l\u{e2}\u{20ac}\u{2122}appareil n\u{e2}\u{20ac}\u{2122}a peut-\u{c3}\u{aa}tre pas de logs accessibles. V\u{c3}\u{a9}rifie que l\u{e2}\u{20ac}\u{2122}iPhone est d\u{c3}\u{a9}verrouill\u{c3}\u{a9} et a accept\u{c3}\u{a9} \u{c2}\u{ab} Faire confiance \u{c2}\u{bb}.",
        );
        string_of(&v)
    } else {
        let mut v = chars_of("Aucun panic noyau parmi les ");
        let t = dec_text_exec(total as u64);
        append_chars(&mut v, &t);
        append_str(
            &mut v,
            " fichier(s) t\u{c3}\u{a9}l\u{c3}\u{a9}charg\u{c3}\u{a9}s. Seuls les rapports contenant \u{c2}\u{ab} panic-full \u{c2}\u{bb} ou \u{c2}\u{ab} panicString \u{c2}\u{bb} sont retenus.",
        );
        string_of(&v)
    }
}


// ---------------------------------------------------------------------------
// The order in which reports are read
// ---------------------------------------------------------------------------
/// `order` lists each index below `n` once.
pub open spec fn index_permutation(order: Seq<usize>, n: nat) -> bool {
    &&& order.len() == n
    &&& forall|a: int| 0 <= a < n ==> #[trigger] order[a] < n
    &&& forall|a: int, b: int| 0 <= a < b < n ==> order[a] != order[b]
}

/// `order` runs from the latest time to the oldest, equal times in their
/// first order.
pub open spec fn latest_first(keys: Seq<i64>, order: Seq<usize>) -> bool {
    forall|a: int, b: int|
        #![trigger order[a], order[b]]
        0 <= a < b < order.len() ==> keys[order[a] as int] > keys[order[b] as int] || (keys[order[a] as int]
            == keys[order[b] as int] && order[a] < order[b])
}

/// The indices of `keys` from the latest time to the oldest, equal times
/// in their first order (a stable sort by decreasing time).
pub fn recency_order(keys: &[i64]) -> (r: Vec<usize>)
    ensures
        index_permutation(r@, keys.len() as nat),
        latest_first(keys@, r@),
{
    let mut r: Vec<usize> = Vec::new();
    let mut i: usize = 0;
    while i < keys.len()
        invariant
            i <= keys.len(),
            r.len() == i,
            forall|a: int| 0 <= a < i ==> #[trigger] r@[a] < i,
            forall|a: int, b: int| 0 <= a < b < i ==> r@[a] != r@[b],
            latest_first(keys@, r@),
        decreases keys.len() - i,
    {
        let k = keys[i];
        let mut p: usize = 0;
        while p < r.len() && keys[r[p]] >= k
            invariant
                p <= r.len() == i,
                i < keys.len(),
                k == keys@[i as int],
                forall|a: int| 0 <= a < i ==> #[trigger] r@[a] < i,
                forall|a: int| 0 <= a < p ==> keys@[#[trigger] r@[a] as int] >= k,
            decreases r.len() - p,
        {
            p += 1;
        }
        let ghost old_r = r@;
        assert forall|a: int| p <= a < old_r.len() implies keys@[#[trigger] old_r[a] as int] < k by {
            if a > p {
                assert(keys@[old_r[p as int] as int] >= keys@[old_r[a] as int]);
            }
        }
        r.insert(p, i);
        assert(r@ == old_r.insert(p as int, i));
        assert forall|a: int, b: int| 0 <= a < b < r@.len() implies (keys@[r@[a] as int] > keys@[r@[b] as int] || (keys@[r@[a] as int]
            == keys@[r@[b] as int] && r@[a] < r@[b])) by {
            if a < p && b == p {
                assert(r@[a] == old_r[a]);
            } else if a == p && b > p {
                assert(r@[b] == old_r[b - 1]);
            } else if b < p {
                assert(r@[a] == old_r[a] && r@[b] == old_r[b]);
            } else if a > p {
                assert(r@[a] == old_r[a - 1] && r@[b] == old_r[b - 1]);
            } else {
                assert(a < p && b > p);
                assert(r@[a] == old_r[a] && r@[b] == old_r[b - 1]);
            }
        }
        assert forall|a: int, b: int| 0 <= a < b < i + 1 implies r@[a] != r@[b] by {
            if a < p && b == p {
                assert(r@[a] == old_r[a]);
            } else if a == p && b > p {
                assert(r@[b] == old_r[b - 1]);
            } else if b < p {
                assert(r@[a] == old_r[a] && r@[b] == old_r[b]);
            } else if a > p {
                assert(r@[a] == old_r[a - 1] && r@[b] == old_r[b - 1]);
            } else {
                assert(r@[a] == old_r[a] && r@[b] == old_r[b - 1]);
            }
        }
        assert forall|a: int| 0 <= a < i + 1 implies #[trigger] r@[a] < i + 1 by {
            if a < p {
                assert(r@[a] == old_r[a]);
            } else if a > p {
                assert(r@[a] == old_r[a - 1]);
            }
        }
        i += 1;
    }
    r
}


// ---------------------------------------------------------------------------
// The label of a report's time
// ---------------------------------------------------------------------------
/// Whole seconds of a time in milliseconds, rounded toward zero.
pub open spec fn secs_of(ms: i64) -> int {
    if ms >= 0 {
        ms / 1000
    } else {
        0 - ((0 - ms) / 1000)
    }
}

/// The `%Y-%m-%d %H:%M UTC` text of a Unix time in seconds, as chrono
/// writes it; none out of chrono's range.
pub uninterp spec fn utc_minute_text(secs: i64) -> Option<Seq<char>>;

/// `chrono::DateTime::<Utc>::from_timestamp(secs, 0)`, then `format` with
/// `%Y-%m-%d %H:%M UTC`; the text is named by `utc_minute_text`.
#[verifier::external_body]
fn utc_minute_label(secs: i64) -> (r: Option<String>)
    ensures
        opt_view(r) == utc_minute_text(secs),
{
    match chrono::DateTime::<chrono::Utc>::from_timestamp(secs, 0) {
        Some(dt) => Some(dt.format("%Y-%m-%d %H:%M UTC").to_string()),
        None => None,
    }
}

/// The label of a report's time: chrono's text of its whole seconds, or a
/// dash out of range.
pub open spec fn time_label(ms: i64) -> Seq<char> {
    match utc_minute_text(secs_of(ms) as i64) {
        Some(t) => t,
        None => "\u{e2}\u{20ac}\u{201d}"@,
    }
}

/// The label of a report's time (`time_label`).
pub fn iso_label(ms: i64) -> (r: String)
    ensures
        r@ == time_label(ms),
{
    let secs: i64 = ms / 1000;
    assert(secs as int == secs_of(ms));
    match utc_minute_label(secs) {
        Some(t) => t,
        None => {
            let v = chars_of("\u{e2}\u{20ac}\u{201d}");
            string_of(&v)
        },
    }
}


/// The local name of a pulled report is never blank and holds no character
/// that a file name cannot hold.
pub proof fn law_local_name_is_safe(name: Seq<char>)
    ensures
        trim(local_file_name(name)).len() > 0,
        forall|i: int| 0 <= i < local_file_name(name).len() ==> !unsafe_name_char(#[trigger] local_file_name(name)[i]),
{
    reveal_strlit("panic-full.ips");
    let c = name_cleaned(name);
    assert forall|i: int| 0 <= i < c.len() implies !unsafe_name_char(#[trigger] c[i]) by {
        assert(c[i] == (if unsafe_name_char(name[i]) { '_' } else { name[i] }));
    }
    if trim(c).len() == 0 {
        let l = "panic-full.ips"@;
        assert(!is_ws(l[0]));
        assert(trim_start(l) == l);
        assert(!is_ws(l.last()));
        assert(trim_end(l) == l);
    }
}

// ---------------------------------------------------------------------------
// Picking the latest panics among pulled report files
// ---------------------------------------------------------------------------
/// What to do next with one report file, taken from the latest to the
/// oldest, while picking kernel panics.
#[derive(Debug, Clone, Copy, PartialEq, Eq, Structural)]
pub enum PickAction {
    /// Enough panics are kept: the walk ends.
    Stop,
    /// Read the first bytes of the file and test them for a kernel panic.
    ReadPrescan,
    /// Read the whole file (capped) and test it for a kernel panic.
    ReadFull,
    /// Keep the file as a panic.
    Keep,
    /// Pass over the file.
    Skip,
}

/// The step for a file: once `MAX_PANICS` are kept the walk stops. A file
/// whose name marks a panic is read whole and kept without a test of its
/// content; another is first tested on its first bytes, then read whole and
/// kept only when both reads hold a kernel panic.
pub open spec fn pick_action(taken: nat, likely_by_name: bool, prescan: Option<bool>, full: Option<bool>) -> PickAction {
    if taken >= MAX_PANICS {
        PickAction::Stop
    } else if likely_by_name {
        match full {
            None => PickAction::ReadFull,
            Some(_) => PickAction::Keep,
        }
    } else {
        match prescan {
            None => PickAction::ReadPrescan,
            Some(false) => PickAction::Skip,
            Some(true) => match full {
                None => PickAction::ReadFull,
                Some(true) => PickAction::Keep,
                Some(false) => PickAction::Skip,
            },
        }
    }
}

/// The next step of the pick for one file (`pick_action`), given how many
/// panics are kept so far and what the reads of this file gave. A file is
/// kept only while fewer than `MAX_PANICS` are, and a file without a panic
/// name only after both reads found a kernel panic.
pub fn pick_next_action(taken: usize, likely_by_name: bool, prescan: Option<bool>, full: Option<bool>) -> (r: PickAction)
    ensures
        r == pick_action(taken as nat, likely_by_name, prescan, full),
        r is Keep ==> taken < MAX_PANICS,
        r is Keep && !likely_by_name ==> prescan == Some(true) && full == Some(true),
{
    if taken >= MAX_PANICS {
        return PickAction::Stop;
    }
    if likely_by_name {
        return match full {
            None => PickAction::ReadFull,
            Some(_) => PickAction::Keep,
        };
    }
    match prescan {
        None => PickAction::ReadPrescan,
        Some(false) => PickAction::Skip,
        Some(true) => match full {
            None => PickAction::ReadFull,
            Some(true) => PickAction::Keep,
            Some(false) => PickAction::Skip,
        },
    }
}

// ---------------------------------------------------------------------------
// Extracting every report of the device into the reports folder
// ---------------------------------------------------------------------------
/// How a run of `idevicecrashreport` into the reports folder went.
pub enum CrashReportRun {
    /// The tool was not found.
    NotFound,
    /// The tool did not answer in time.
    TimedOut,
    /// The tool could not be started for another reason, given as text.
    StartFailed { error: String },
    /// The tool ran: its exit status (and that status as displayed) and its
    /// streams.
    Exited { success: bool, status: String, stdout: String, stderr: String },
}

pub enum CrashRunView {
    NotFound,
    TimedOut,
    StartFailed(Seq<char>),
    Exited(bool, Seq<char>, Seq<char>, Seq<char>),
}

impl View for CrashReportRun {
    type V = CrashRunView;

    open spec fn view(&self) -> CrashRunView {
        match self {
            CrashReportRun::NotFound => CrashRunView::NotFound,
            CrashReportRun::TimedOut => CrashRunView::TimedOut,
            CrashReportRun::StartFailed { error } => CrashRunView::StartFailed(error@),
            CrashReportRun::Exited { success, status, stdout, stderr } => CrashRunView::Exited(*success, status@, stdout@, stderr@),
        }
    }
}

/// The outcome of an extraction into `dir`, given how the tool ran and how
/// many `.ips` / `.crash` files the folder then holds.
pub open spec fn extraction_outcome(dir: Seq<char>, run: CrashRunView, files: nat) -> Result<Seq<char>, Seq<char>> {
    match run {
        CrashRunView::NotFound => Err(
            "idevicecrashreport introuvable \u{e2}\u{20ac}\u{201d} m\u{c3}\u{aa}me dossier qu\u{e2}\u{20ac}\u{2122}idevice_id."@,
        ),
        CrashRunView::TimedOut => Err(
            "idevicecrashreport : d\u{c3}\u{a9}lai d\u{c3}\u{a9}pass\u{c3}\u{a9} (USB lent ou appareil occup\u{c3}\u{a9}). R\u{c3}\u{a9}essaie."@,
        ),
        CrashRunView::StartFailed(e) => Err(e),
        CrashRunView::Exited(success, status, out, err) => if !success {
            Err("idevicecrashreport ("@ + status + ") stdout: "@ + trim(out) + " stderr: "@ + trim(err))
        } else {
            Ok("Extraction termin\u{c3}\u{a9}e dans \u{c2}\u{ab} "@ + dir + " \u{c2}\u{bb} \u{c2}\u{b7} "@ + dec_text(files)
                + " fichier(s) .ips / .crash visibles."@)
        },
    }
}

/// The outcome of an extraction into `dir` (`extraction_outcome`).
pub fn extract_panic_logs_outcome(dir: &str, run: CrashReportRun, files: usize) -> (r: Result<String, String>)
    ensures
        match r {
            Ok(t) => extraction_outcome(dir@, run@, files as nat) == Ok::<Seq<char>, Seq<char>>(t@),
            Err(e) => extraction_outcome(dir@, run@, files as nat) == Err::<Seq<char>, Seq<char>>(e@),
        },
{
    match run {
        CrashReportRun::NotFound => Err(owned(
            "idevicecrashreport introuvable \u{e2}\u{20ac}\u{201d} m\u{c3}\u{aa}me dossier qu\u{e2}\u{20ac}\u{2122}idevice_id.",
        )),
        CrashReportRun::TimedOut => Err(owned(
            "idevicecrashreport : d\u{c3}\u{a9}lai d\u{c3}\u{a9}pass\u{c3}\u{a9} (USB lent ou appareil occup\u{c3}\u{a9}). R\u{c3}\u{a9}essaie.",
        )),
        CrashReportRun::StartFailed { error } => Err(error),
        CrashReportRun::Exited { success, status, stdout, stderr } => {
            if !success {
                let mut v = chars_of("idevicecrashreport (");
                append_str(&mut v, status.as_str());
                append_str(&mut v, ") stdout: ");
                let o = trim_chars(&chars_of(stdout.as_str()));
                append_chars(&mut v, &o);
                append_str(&mut v, " stderr: ");
                let e = trim_chars(&chars_of(stderr.as_str()));
                append_chars(&mut v, &e);
                Err(string_of(&v))
            } else {
                let mut v = chars_of("Extraction termin\u{c3}\u{a9}e dans \u{c2}\u{ab} ");
                append_str(&mut v, dir);
                append_str(&mut v, " \u{c2}\u{bb} \u{c2}\u{b7} ");
                let n = dec_text_exec(files as u64);
                append_chars(&mut v, &n);
                append_str(&mut v, " fichier(s) .ips / .crash visibles.");
                Ok(string_of(&v))
            }
        },
    }
}

} // verus!
