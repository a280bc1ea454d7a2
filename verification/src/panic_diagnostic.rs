//! Structured reading of a panic log: the fields it declares, its canonical
//! sub-signatures, its panic family, and the workshop rules that turn them
//! into repair steps.
use crate::text::{add_unique, add_unique_exec, append_str, byte_len, byte_len_below, char_is_digit, char_is_unicode_digit, char_is_ws, chars_eq, chars_of, ci_at, ci_at_exec, contains, contains_any, contains_any_exec, contains_str, eq_ci, eq_ci_str, eq_str, is_digit, is_unicode_digit, is_ws, join, join_exec, lit_views, lower_chars, lower_seq, opt_view, owned, push_unique, run_end, seq_contains, slice_to_vec, starts_with, starts_with_str, string_of, strings_of, strs, to_lowercase, trim, trim_chars, unicode_lower, views, words, ws_run_end, ws_run_end_exec};
use crate::knowledge::{is_bug_sep, opt_str_view};
use crate::iphone::{is_control, marketing_name};
use crate::focus::lemma_push_unique_distinct;
use vstd::prelude::*;

verus! {

// ---------------------------------------------------------------------------
// The window of the log that is scanned
// ---------------------------------------------------------------------------
/// The first char index at or after `i` where the UTF-8 prefix has exactly
/// `n` bytes.
pub open spec fn byte_cut(s: Seq<char>, n: nat, i: int) -> Option<int>
    decreases s.len() + 1 - i,
{
    if i < 0 || i > s.len() {
        None
    } else if byte_len(s.take(i)) == n {
        Some(i)
    } else if byte_len(s.take(i)) > n || i == s.len() {
        None
    } else {
        byte_cut(s, n, i + 1)
    }
}

/// The first `n` bytes of `s` when they end on a character boundary and
/// `s` is longer; else all of `s` (`s.get(..n.min(len)).unwrap_or(s)`).
pub open spec fn byte_window(s: Seq<char>, n: nat) -> Seq<char> {
    match byte_cut(s, n, 0) {
        Some(i) => s.take(i),
        None => s,
    }
}

pub fn byte_window_exec(s: &[char], n: usize) -> (r: Vec<char>)
    ensures
        r@ == byte_window(s@, n as nat),
{
    let mut acc: usize = 0;
    let mut i: usize = 0;
    assert(s@.take(0) =~= Seq::<char>::empty());
    while i < s.len()
        invariant
            i <= s.len(),
            acc as nat == byte_len(s@.take(i as int)),
            acc <= n,
            byte_cut(s@, n as nat, 0) == byte_cut(s@, n as nat, i as int),
        decreases s.len() - i,
    {
        if acc == n {
            return slice_to_vec(s, 0, i);
        }
        assert(s@.take(i + 1).drop_last() =~= s@.take(i as int));
        let c = s[i] as u32;
        let w: usize = if c < 0x80 {
            1
        } else if c < 0x800 {
            2
        } else if c < 0x10000 {
            3
        } else {
            4
        };
        assert(byte_len(s@.take(i + 1)) == acc + w);
        if w > n - acc {
            assert(byte_cut(s@, n as nat, i + 1) is None);
            assert(s@.subrange(0, s.len() as int) =~= s@);
            return slice_to_vec(s, 0, s.len());
        }
        acc = acc + w;
        i += 1;
    }
    if acc == n {
        return slice_to_vec(s, 0, i);
    }
    assert(s@.subrange(0, s.len() as int) =~= s@);
    slice_to_vec(s, 0, s.len())
}

// ---------------------------------------------------------------------------
// `KEY["'\s:=]+"?(value)`: a key, separators, an optional quote, a value
// ---------------------------------------------------------------------------
/// The separators between a key and its value: `["'\s:=]`.
pub open spec fn is_kv_sep(c: char) -> bool {
    c == '"' || c == '\'' || is_ws(c) || c == ':' || c == '='
}

/// A character of a value: neither a quote nor white space. A product type
/// also stops at `>`, the other values at a comma, so a value is one bare
/// token (`iPhone12,1`, `17.4`).
pub open spec fn is_value_char(c: char, product: bool) -> bool {
    &&& c != '"' && c != '\'' && !is_ws(c)
    &&& if product {
        c != '>'
    } else {
        c != ','
    }
}

pub open spec fn value_end(s: Seq<char>, i: int, product: bool) -> int {
    run_end(s, i, |c: char| is_value_char(c, product))
}

/// The value found when the separators end at `k` (from `a0` on), with
/// backtracking towards shorter runs of separators.
pub open spec fn kv_try(s: Seq<char>, a0: int, k: int, product: bool) -> Option<(int, int)>
    decreases k - a0,
{
    if k <= a0 {
        None
    } else if k < s.len() && s[k] == '"' && value_end(s, k + 1, product) > k + 1 {
        Some((k + 1, value_end(s, k + 1, product)))
    } else if value_end(s, k, product) > k {
        Some((k, value_end(s, k, product)))
    } else {
        kv_try(s, a0, k - 1, product)
    }
}

/// Where `(?i)KEY["'\s:=]+"?([^...]+)` matches at `p`: the span of the value.
pub open spec fn kv_at(s: Seq<char>, key: Seq<char>, p: int, product: bool) -> Option<(int, int)> {
    if !ci_at(s, key, p) {
        None
    } else {
        let a0 = p + key.len();
        kv_try(s, a0, run_end(s, a0, |c: char| is_kv_sep(c)), product)
    }
}

pub open spec fn kv_from(s: Seq<char>, key: Seq<char>, i: int, product: bool) -> Option<(int, int)>
    decreases s.len() + 1 - i,
{
    if i < 0 || i > s.len() {
        None
    } else if kv_at(s, key, i, product) is Some {
        kv_at(s, key, i, product)
    } else {
        kv_from(s, key, i + 1, product)
    }
}

pub open spec fn span_text(s: Seq<char>, sp: Option<(int, int)>) -> Option<Seq<char>> {
    match sp {
        Some(x) => Some(s.subrange(x.0, x.1)),
        None => None,
    }
}

/// The value of the first `KEY ... value` in `s`.
pub open spec fn kv_value(s: Seq<char>, key: Seq<char>, product: bool) -> Option<Seq<char>> {
    span_text(s, kv_from(s, key, 0, product))
}

fn is_value_char_exec(c: char, product: bool) -> (r: bool)
    ensures
        r == is_value_char(c, product),
{
    if c == '"' || c == '\'' || char_is_ws(c) {
        return false;
    }
    if product {
        c != '>'
    } else {
        c != ','
    }
}

fn value_end_exec(s: &[char], i: usize, product: bool) -> (r: usize)
    requires
        i <= s.len(),
    ensures
        r as int == value_end(s@, i as int, product),
        i <= r <= s.len(),
{
    let mut j = i;
    while j < s.len() && is_value_char_exec(s[j], product)
        invariant
            i <= j <= s.len(),
            run_end(s@, i as int, |c: char| is_value_char(c, product)) == run_end(
                s@,
                j as int,
                |c: char| is_value_char(c, product),
            ),
        decreases s.len() - j,
    {
        j += 1;
    }
    j
}

fn sep_end_exec(s: &[char], i: usize) -> (r: usize)
    requires
        i <= s.len(),
    ensures
        r as int == run_end(s@, i as int, |c: char| is_kv_sep(c)),
        i <= r <= s.len(),
{
    let mut j = i;
    while j < s.len() && (s[j] == '"' || s[j] == '\'' || char_is_ws(s[j]) || s[j] == ':' || s[j] == '=')
        invariant
            i <= j <= s.len(),
            run_end(s@, i as int, |c: char| is_kv_sep(c)) == run_end(s@, j as int, |c: char| is_kv_sep(c)),
        decreases s.len() - j,
    {
        j += 1;
    }
    j
}

fn kv_at_exec(s: &[char], key: &[char], p: usize, product: bool) -> (r: Option<(usize, usize)>)
    requires
        p <= s.len(),
    ensures
        match r {
            Some(sp) => kv_at(s@, key@, p as int, product) == Some((sp.0 as int, sp.1 as int)) && sp.0
                <= sp.1 <= s.len(),
            None => kv_at(s@, key@, p as int, product) is None,
        },
{
    if !ci_at_exec(s, key, p) {
        return None;
    }
    let a0 = p + key.len();
    let mut k = sep_end_exec(s, a0);
    while k > a0
        invariant
            a0 <= k <= s.len(),
            a0 == p + key@.len(),
            ci_at(s@, key@, p as int),
            kv_at(s@, key@, p as int, product) == kv_try(s@, a0 as int, k as int, product),
        decreases k - a0,
    {
        if k < s.len() && s[k] == '"' {
            let e = value_end_exec(s, k + 1, product);
            if e > k + 1 {
                return Some((k + 1, e));
            }
        }
        let e = value_end_exec(s, k, product);
        if e > k {
            return Some((k, e));
        }
        k -= 1;
    }
    None
}

fn kv_value_exec(s: &[char], key: &str, product: bool) -> (r: Option<String>)
    ensures
        opt_view(r) == kv_value(s@, key@, product),
{
    let k = chars_of(key);
    let mut p: usize = 0;
    while p <= s.len()
        invariant
            kv_from(s@, key@, 0, product) == kv_from(s@, key@, p as int, product),
            k@ == key@,
        decreases s.len() + 1 - p,
    {
        match kv_at_exec(s, &k, p, product) {
            Some(sp) => {
                return Some(string_of(&slice_to_vec(s, sp.0, sp.1)));
            },
            None => {},
        }
        if p == s.len() {
            assert(kv_from(s@, key@, p + 1, product) is None);
            return None;
        }
        p += 1;
    }
    None
}

// ---------------------------------------------------------------------------
// `(?i)bug[_\s-]*type["'\s:=<]+"?(\d{2,})`
// ---------------------------------------------------------------------------
pub open spec fn is_bug_code_assign(c: char) -> bool {
    c == '"' || c == '\'' || c == ':' || c == '=' || c == '<' || is_ws(c)
}

/// Where the `bug_type` pattern matches at `p`: the span of the code. When
/// the longest run of separators is not followed by two digits, no shorter
/// run is (a separator is not a digit), so the longest run decides.
pub open spec fn bug_code_at(s: Seq<char>, p: int) -> Option<(int, int)> {
    if !ci_at(s, "bug"@, p) {
        None
    } else {
        let q1 = run_end(s, p + 3, |c: char| is_bug_sep(c));
        if !ci_at(s, "type"@, q1) {
            None
        } else {
            let q3 = run_end(s, q1 + 4, |c: char| is_bug_code_assign(c));
            let d = run_end(s, q3, |c: char| is_unicode_digit(c));
            if q3 > q1 + 4 && d - q3 >= 2 {
                Some((q3, d))
            } else {
                None
            }
        }
    }
}

pub open spec fn bug_code_from(s: Seq<char>, i: int) -> Option<(int, int)>
    decreases s.len() + 1 - i,
{
    if i < 0 || i > s.len() {
        None
    } else if bug_code_at(s, i) is Some {
        bug_code_at(s, i)
    } else {
        bug_code_from(s, i + 1)
    }
}

fn run_end_bug_sep(s: &[char], i: usize) -> (r: usize)
    requires
        i <= s.len(),
    ensures
        r as int == run_end(s@, i as int, |c: char| is_bug_sep(c)),
        i <= r <= s.len(),
{
    let mut j = i;
    while j < s.len() && (s[j] == '_' || s[j] == '-' || char_is_ws(s[j]))
        invariant
            i <= j <= s.len(),
            run_end(s@, i as int, |c: char| is_bug_sep(c)) == run_end(s@, j as int, |c: char| is_bug_sep(c)),
        decreases s.len() - j,
    {
        j += 1;
    }
    j
}

fn run_end_bug_assign(s: &[char], i: usize) -> (r: usize)
    requires
        i <= s.len(),
    ensures
        r as int == run_end(s@, i as int, |c: char| is_bug_code_assign(c)),
        i <= r <= s.len(),
{
    let mut j = i;
    while j < s.len() && (s[j] == '"' || s[j] == '\'' || s[j] == ':' || s[j] == '=' || s[j] == '<'
        || char_is_ws(s[j]))
        invariant
            i <= j <= s.len(),
            run_end(s@, i as int, |c: char| is_bug_code_assign(c)) == run_end(s@, j as int, |c: char| is_bug_code_assign(c)),
        decreases s.len() - j,
    {
        j += 1;
    }
    j
}

fn run_end_digits(s: &[char], i: usize) -> (r: usize)
    requires
        i <= s.len(),
    ensures
        r as int == run_end(s@, i as int, |c: char| is_unicode_digit(c)),
        i <= r <= s.len(),
{
    let mut j = i;
    while j < s.len() && char_is_unicode_digit(s[j])
        invariant
            i <= j <= s.len(),
            run_end(s@, i as int, |c: char| is_unicode_digit(c)) == run_end(s@, j as int, |c: char| is_unicode_digit(c)),
        decreases s.len() - j,
    {
        j += 1;
    }
    j
}

fn bug_code_at_exec(s: &[char], p: usize) -> (r: Option<(usize, usize)>)
    requires
        p <= s.len(),
    ensures
        match r {
            Some(sp) => bug_code_at(s@, p as int) == Some((sp.0 as int, sp.1 as int)) && sp.0 <= sp.1
                <= s.len(),
            None => bug_code_at(s@, p as int) is None,
        },
{
    proof {
        reveal_strlit("bug");
        reveal_strlit("type");
    }
    let bug = chars_of("bug");
    if !ci_at_exec(s, &bug, p) {
        return None;
    }
    let q1 = run_end_bug_sep(s, p + 3);
    let ty = chars_of("type");
    if !ci_at_exec(s, &ty, q1) {
        return None;
    }
    let q3 = run_end_bug_assign(s, q1 + 4);
    let d = run_end_digits(s, q3);
    if q3 > q1 + 4 && d - q3 >= 2 {
        Some((q3, d))
    } else {
        None
    }
}

fn bug_code_exec(s: &[char]) -> (r: Option<String>)
    ensures
        opt_view(r) == span_text(s@, bug_code_from(s@, 0)),
{
    let mut p: usize = 0;
    while p <= s.len()
        invariant
            bug_code_from(s@, 0) == bug_code_from(s@, p as int),
        decreases s.len() + 1 - p,
    {
        match bug_code_at_exec(s, p) {
            Some(sp) => {
                return Some(string_of(&slice_to_vec(s, sp.0, sp.1)));
            },
            None => {},
        }
        if p == s.len() {
            assert(bug_code_from(s@, p + 1) is None);
            return None;
        }
        p += 1;
    }
    None
}

// ---------------------------------------------------------------------------
// `(?is)"product"\s*:\s*"(iPhone\d+,\d+)"`
// ---------------------------------------------------------------------------
pub open spec fn json_product_at(s: Seq<char>, p: int) -> Option<(int, int)> {
    if !ci_at(s, "\"product\""@, p) {
        None
    } else {
        let a = ws_run_end(s, p + 9);
        if !(a < s.len() && s[a] == ':') {
            None
        } else {
            let b = ws_run_end(s, a + 1);
            if !(b < s.len() && s[b] == '"' && ci_at(s, "iPhone"@, b + 1)) {
                None
            } else {
                let d1 = run_end(s, b + 7, |c: char| is_unicode_digit(c));
                if !(d1 > b + 7 && d1 < s.len() && s[d1] == ',') {
                    None
                } else {
                    let d2 = run_end(s, d1 + 1, |c: char| is_unicode_digit(c));
                    if d2 > d1 + 1 && d2 < s.len() && s[d2] == '"' {
                        Some((b + 1, d2))
                    } else {
                        None
                    }
                }
            }
        }
    }
}

pub open spec fn json_product_from(s: Seq<char>, i: int) -> Option<(int, int)>
    decreases s.len() + 1 - i,
{
    if i < 0 || i > s.len() {
        None
    } else if json_product_at(s, i) is Some {
        json_product_at(s, i)
    } else {
        json_product_from(s, i + 1)
    }
}

fn json_product_at_exec(s: &[char], p: usize) -> (r: Option<(usize, usize)>)
    requires
        p <= s.len(),
    ensures
        match r {
            Some(sp) => json_product_at(s@, p as int) == Some((sp.0 as int, sp.1 as int)) && sp.0
                <= sp.1 <= s.len(),
            None => json_product_at(s@, p as int) is None,
        },
{
    proof {
        reveal_strlit("\"product\"");
        reveal_strlit("iPhone");
    }
    let lit = chars_of("\"product\"");
    if !ci_at_exec(s, &lit, p) {
        return None;
    }
    let a = ws_run_end_exec(s, p + 9);
    if !(a < s.len() && s[a] == ':') {
        return None;
    }
    let b = ws_run_end_exec(s, a + 1);
    let ip = chars_of("iPhone");
    if !(b < s.len() && s[b] == '"' && ci_at_exec(s, &ip, b + 1)) {
        return None;
    }
    let d1 = run_end_digits(s, b + 7);
    if !(d1 > b + 7 && d1 < s.len() && s[d1] == ',') {
        return None;
    }
    let d2 = run_end_digits(s, d1 + 1);
    if d2 > d1 + 1 && d2 < s.len() && s[d2] == '"' {
        Some((b + 1, d2))
    } else {
        None
    }
}

fn json_product_exec(s: &[char]) -> (r: Option<String>)
    ensures
        opt_view(r) == span_text(s@, json_product_from(s@, 0)),
{
    let mut p: usize = 0;
    while p <= s.len()
        invariant
            json_product_from(s@, 0) == json_product_from(s@, p as int),
        decreases s.len() + 1 - p,
    {
        match json_product_at_exec(s, p) {
            Some(sp) => {
                return Some(string_of(&slice_to_vec(s, sp.0, sp.1)));
            },
            None => {},
        }
        if p == s.len() {
            assert(json_product_from(s@, p + 1) is None);
            return None;
        }
        p += 1;
    }
    None
}

// ---------------------------------------------------------------------------
// `(?is)panicString["'\s:=]+"?(.{12,960}?)"?(?:\n\n|\z|"\s|,)`
// ---------------------------------------------------------------------------
/// The end of the preview can stand at `x`: a blank line, the end of the
/// text, a quote before whitespace, or a comma.
pub open spec fn preview_stop(s: Seq<char>, x: int) -> bool {
    ||| (x + 1 < s.len() && s[x] == '\n' && s[x + 1] == '\n')
    ||| x == s.len()
    ||| (x + 1 < s.len() && s[x] == '"' && is_ws(s[x + 1]))
    ||| (0 <= x < s.len() && s[x] == ',')
}

/// A preview of `n` characters from `g` fits: optionally a quote, then a stop.
pub open spec fn preview_fits(s: Seq<char>, g: int, n: int) -> bool {
    let e = g + n;
    e <= s.len() && ((e < s.len() && s[e] == '"' && preview_stop(s, e + 1)) || preview_stop(s, e))
}

/// The shortest length from `n` up to 960 that fits (the lazy repetition).
pub open spec fn preview_len(s: Seq<char>, g: int, n: int) -> Option<int>
    decreases 961 - n,
{
    if n > 960 || g + n > s.len() {
        None
    } else if preview_fits(s, g, n) {
        Some(n)
    } else {
        preview_len(s, g, n + 1)
    }
}

/// The preview when the separators end at `k`, with backtracking towards
/// shorter runs of separators.
pub open spec fn preview_try(s: Seq<char>, a0: int, k: int) -> Option<(int, int)>
    decreases k - a0,
{
    if k <= a0 {
        None
    } else if k < s.len() && s[k] == '"' && preview_len(s, k + 1, 12) is Some {
        Some((k + 1, k + 1 + preview_len(s, k + 1, 12).unwrap()))
    } else if preview_len(s, k, 12) is Some {
        Some((k, k + preview_len(s, k, 12).unwrap()))
    } else {
        preview_try(s, a0, k - 1)
    }
}

pub open spec fn preview_at(s: Seq<char>, p: int) -> Option<(int, int)> {
    if !ci_at(s, "panicString"@, p) {
        None
    } else {
        preview_try(s, p + 11, run_end(s, p + 11, |c: char| is_kv_sep(c)))
    }
}

pub open spec fn preview_from(s: Seq<char>, i: int) -> Option<(int, int)>
    decreases s.len() + 1 - i,
{
    if i < 0 || i > s.len() {
        None
    } else if preview_at(s, i) is Some {
        preview_at(s, i)
    } else {
        preview_from(s, i + 1)
    }
}

fn preview_stop_exec(s: &[char], x: usize) -> (r: bool)
    ensures
        r == preview_stop(s@, x as int),
{
    (x < s.len() && x + 1 < s.len() && s[x] == '\n' && s[x + 1] == '\n') || x == s.len() || (x < s.len()
        && x + 1 < s.len() && s[x] == '"' && char_is_ws(s[x + 1])) || (x < s.len() && s[x] == ',')
}

fn preview_len_exec(s: &[char], g: usize) -> (r: Option<usize>)
    requires
        g <= s.len(),
    ensures
        match r {
            Some(n) => preview_len(s@, g as int, 12) == Some(n as int) && g + n <= s.len(),
            None => preview_len(s@, g as int, 12) is None,
        },
{
    let mut n: usize = 12;
    while n <= 960 && n <= s.len() - g
        invariant
            g <= s.len(),
            12 <= n <= 961,
            preview_len(s@, g as int, 12) == preview_len(s@, g as int, n as int),
        decreases 961 - n,
    {
        let e = g + n;
        if (e < s.len() && s[e] == '"' && preview_stop_exec(s, e + 1)) || preview_stop_exec(s, e) {
            return Some(n);
        }
        n += 1;
    }
    None
}

fn preview_at_exec(s: &[char], p: usize) -> (r: Option<(usize, usize)>)
    requires
        p <= s.len(),
    ensures
        match r {
            Some(sp) => preview_at(s@, p as int) == Some((sp.0 as int, sp.1 as int)) && sp.0 <= sp.1
                <= s.len(),
            None => preview_at(s@, p as int) is None,
        },
{
    proof {
        reveal_strlit("panicString");
    }
    let lit = chars_of("panicString");
    if !ci_at_exec(s, &lit, p) {
        return None;
    }
    let a0 = p + 11;
    let mut k = sep_end_exec(s, a0);
    while k > a0
        invariant
            a0 <= k <= s.len(),
            a0 == p + 11,
            ci_at(s@, "panicString"@, p as int),
            "panicString"@.len() == 11,
            preview_at(s@, p as int) == preview_try(s@, a0 as int, k as int),
        decreases k - a0,
    {
        if k < s.len() && s[k] == '"' {
            match preview_len_exec(s, k + 1) {
                Some(n) => {
                    return Some((k + 1, k + 1 + n));
                },
                None => {},
            }
        }
        match preview_len_exec(s, k) {
            Some(n) => {
                return Some((k, k + n));
            },
            None => {},
        }
        k -= 1;
    }
    None
}

fn preview_span_exec(s: &[char]) -> (r: Option<(usize, usize)>)
    ensures
        match r {
            Some(sp) => preview_from(s@, 0) == Some((sp.0 as int, sp.1 as int)) && sp.0 <= sp.1 <= s.len(),
            None => preview_from(s@, 0) is None,
        },
{
    let mut p: usize = 0;
    while p <= s.len()
        invariant
            preview_from(s@, 0) == preview_from(s@, p as int),
        decreases s.len() + 1 - p,
    {
        match preview_at_exec(s, p) {
            Some(sp) => {
                return Some(sp);
            },
            None => {},
        }
        if p == s.len() {
            assert(preview_from(s@, p + 1) is None);
            return None;
        }
        p += 1;
    }
    None
}

/// The characters kept in a preview: all but control characters, except the
/// line feed.
pub open spec fn keep_preview_chars(s: Seq<char>) -> Seq<char>
    decreases s.len(),
{
    if s.len() == 0 {
        Seq::empty()
    } else {
        keep_preview_chars(s.drop_last()) + if is_control(s.last()) && s.last() != '\n' {
            Seq::<char>::empty()
        } else {
            seq![s.last()]
        }
    }
}

/// A preview cleaned: control characters dropped (line feeds kept), trimmed,
/// at most 900 characters.
pub open spec fn sanitized(s: Seq<char>) -> Seq<char> {
    let t = trim(keep_preview_chars(s));
    if t.len() <= 900 {
        t
    } else {
        t.take(900)
    }
}

pub fn sanitize_preview(s: &[char]) -> (r: String)
    ensures
        r@ == sanitized(s@),
{
    let mut k: Vec<char> = Vec::new();
    let mut i: usize = 0;
    while i < s.len()
        invariant
            i <= s.len(),
            k@ == keep_preview_chars(s@.take(i as int)),
        decreases s.len() - i,
    {
        assert(s@.take(i + 1).drop_last() == s@.take(i as int));
        let c = s[i] as u32;
        if !((c <= 0x1f || (0x7f <= c && c <= 0x9f)) && s[i] != '\n') {
            k.push(s[i]);
        }
        i += 1;
    }
    assert(s@.take(s.len() as int) == s@);
    let t = trim_chars(&k);
    let keep: usize = if t.len() <= 900 { t.len() } else { 900 };
    let out = slice_to_vec(&t, 0, keep);
    assert(t@.len() <= 900 ==> out@ == t@);
    string_of(&out)
}

// ---------------------------------------------------------------------------
// The fields a panic log declares
// ---------------------------------------------------------------------------
#[derive(Debug, Clone)]
pub struct ExtractedFields {
    pub panic_string_preview: Option<String>,
    pub bug_type: Option<String>,
    pub product: Option<String>,
    pub os_version: Option<String>,
    pub soc_id: Option<String>,
    pub uptime: Option<String>,
}

pub struct FieldsView {
    pub preview: Option<Seq<char>>,
    pub bug_type: Option<Seq<char>>,
    pub product: Option<Seq<char>>,
    pub os_version: Option<Seq<char>>,
    pub soc_id: Option<Seq<char>>,
    pub uptime: Option<Seq<char>>,
}

impl View for ExtractedFields {
    type V = FieldsView;

    open spec fn view(&self) -> FieldsView {
        FieldsView {
            preview: opt_view(self.panic_string_preview),
            bug_type: opt_view(self.bug_type),
            product: opt_view(self.product),
            os_version: opt_view(self.os_version),
            soc_id: opt_view(self.soc_id),
            uptime: opt_view(self.uptime),
        }
    }
}

/// The fields of a log, read from its first 80000 bytes: the `panicString`
/// preview, the `bug_type` code, the product (a JSON `"product"` first, then
/// `ProductType`), `ProductVersion`, `socId` and `uptime`.
pub open spec fn fields_of(log: Seq<char>) -> FieldsView {
    let w = byte_window(log, 80000);
    FieldsView {
        preview: match preview_from(w, 0) {
            Some(sp) => Some(sanitized(w.subrange(sp.0, sp.1))),
            None => None,
        },
        bug_type: span_text(w, bug_code_from(w, 0)),
        product: if json_product_from(w, 0) is Some {
            span_text(w, json_product_from(w, 0))
        } else {
            kv_value(w, "ProductType"@, true)
        },
        os_version: kv_value(w, "ProductVersion"@, false),
        soc_id: kv_value(w, "socid"@, false),
        uptime: kv_value(w, "uptime"@, false),
    }
}

pub fn extract_fields(log: &str) -> (r: ExtractedFields)
    ensures
        r@ == fields_of(log@),
{
    let lc = chars_of(log);
    let w = byte_window_exec(&lc, 80000);
    let preview = match preview_span_exec(&w) {
        Some(sp) => {
            let raw = slice_to_vec(&w, sp.0, sp.1);
            Some(sanitize_preview(&raw))
        },
        None => None,
    };
    let json = json_product_exec(&w);
    let product = if json.is_some() {
        json
    } else {
        kv_value_exec(&w, "ProductType", true)
    };
    ExtractedFields {
        panic_string_preview: preview,
        bug_type: bug_code_exec(&w),
        product,
        os_version: kv_value_exec(&w, "ProductVersion", false),
        soc_id: kv_value_exec(&w, "socid", false),
        uptime: kv_value_exec(&w, "uptime", false),
    }
}

pub open spec fn or_else(a: Option<Seq<char>>, b: Option<Seq<char>>) -> Option<Seq<char>> {
    if a is Some {
        a
    } else {
        b
    }
}

/// The fields of the primary log, each missing one taken from the IPS
/// envelope when there is a non-blank envelope.
pub open spec fn merged_fields(primary: Seq<char>, envelope: Option<Seq<char>>) -> FieldsView {
    let e = fields_of(primary);
    match envelope {
        Some(env) => if trim(env).len() == 0 {
            e
        } else {
            let m = fields_of(env);
            FieldsView {
                preview: or_else(e.preview, m.preview),
                bug_type: or_else(e.bug_type, m.bug_type),
                product: or_else(e.product, m.product),
                os_version: or_else(e.os_version, m.os_version),
                soc_id: or_else(e.soc_id, m.soc_id),
                uptime: or_else(e.uptime, m.uptime),
            }
        },
        None => e,
    }
}

fn or_else_exec(a: Option<String>, b: Option<String>) -> (r: Option<String>)
    ensures
        opt_view(r) == or_else(opt_view(a), opt_view(b)),
{
    if a.is_some() {
        a
    } else {
        b
    }
}

pub fn merge_extracted_fields(log_primary: &str, ips_envelope: Option<&str>) -> (r: ExtractedFields)
    ensures
        r@ == merged_fields(log_primary@, opt_str_view(ips_envelope)),
{
    let e = extract_fields(log_primary);
    let extra = match ips_envelope {
        None => {
            return e;
        },
        Some(x) => x,
    };
    let xc = chars_of(extra);
    if trim_chars(&xc).len() == 0 {
        return e;
    }
    let m = extract_fields(extra);
    ExtractedFields {
        panic_string_preview: or_else_exec(e.panic_string_preview, m.panic_string_preview),
        bug_type: or_else_exec(e.bug_type, m.bug_type),
        product: or_else_exec(e.product, m.product),
        os_version: or_else_exec(e.os_version, m.os_version),
        soc_id: or_else_exec(e.soc_id, m.soc_id),
        uptime: or_else_exec(e.uptime, m.uptime),
    }
}

// ---------------------------------------------------------------------------
// Canonical sub-signatures
// ---------------------------------------------------------------------------
/// The sub-signatures: a lowercase needle and the label it stands for,
/// longest needles first.
pub open spec fn sub_signature_rows() -> Seq<(Seq<char>, Seq<char>)> {
    seq![
        ("no successful checkins from thermalmonitord"@, "No successful checkins from thermalmonitord"@),
        ("no successful checkins"@, "No successful checkins"@),
        ("userspace watchdog timeout"@, "Userspace watchdog timeout"@),
        ("mic2 interrupt watchdog"@, "mic2 interrupt watchdog"@),
        ("undefined kernel instruction"@, "Undefined kernel instruction"@),
        ("undefined instruction"@, "Undefined kernel instruction"@),
        ("aop nmi power"@, "AOP NMI POWER"@),
        ("applesochot"@, "AppleSocHot"@),
        ("no valid cfg"@, "No valid CFG"@),
        ("ans2 recoverable panic"@, "ANS2 Recoverable Panic"@),
        ("outbox1 not ready"@, "OUTBOX1 not ready"@),
        ("bsc failure"@, "BSC failure"@),
        ("sep panic"@, "SEP Panic"@),
        ("baseband panic"@, "Baseband Panic"@),
        ("smc panic"@, "SMC PANIC"@),
        ("aop panic"@, "AOP PANIC"@),
        ("thermalmonitord"@, "thermalmonitord"@),
        ("missing sensor"@, "Missing sensor"@),
        ("gas gauge"@, "Gas gauge"@),
        ("watchdog timeout"@, "watchdog timeout"@),
    ]
}

/// The labels of the rows whose needle occurs in `blob`, in row order.
pub open spec fn rows_found(blob: Seq<char>, rows: Seq<(Seq<char>, Seq<char>)>) -> Seq<Seq<char>>
    decreases rows.len(),
{
    if rows.len() == 0 {
        Seq::empty()
    } else {
        rows_found(blob, rows.drop_last()) + if seq_contains(blob, rows.last().0) {
            seq![rows.last().1]
        } else {
            Seq::<Seq<char>>::empty()
        }
    }
}

/// The lowercased log, then the lowercased preview after a space.
pub open spec fn signature_blob(log: Seq<char>, preview: Option<Seq<char>>) -> Seq<char> {
    unicode_lower(log) + match preview {
        Some(p) => seq![' '] + unicode_lower(p),
        None => Seq::empty(),
    }
}

/// The distinct labels found in the log and its preview, in row order.
pub open spec fn normalized_signatures(log: Seq<char>, preview: Option<Seq<char>>) -> Seq<Seq<char>> {
    add_unique(Seq::empty(), rows_found(signature_blob(log, preview), sub_signature_rows()))
}

pub fn normalize_signatures(log: &str, extracted: &ExtractedFields) -> (r: Vec<String>)
    ensures
        strs(r@) == normalized_signatures(log@, extracted@.preview),
{
    let mut blob = to_lowercase(log);
    match &extracted.panic_string_preview {
        Some(p) => {
            blob.push(' ');
            let pl = to_lowercase(p.as_str());
            blob.extend_from_slice(&pl);
        },
        None => {},
    }
    assert(blob@ =~= signature_blob(log@, extracted@.preview));
    let rows: Vec<(&str, &str)> = vec![
        ("no successful checkins from thermalmonitord", "No successful checkins from thermalmonitord"),
        ("no successful checkins", "No successful checkins"),
        ("userspace watchdog timeout", "Userspace watchdog timeout"),
        ("mic2 interrupt watchdog", "mic2 interrupt watchdog"),
        ("undefined kernel instruction", "Undefined kernel instruction"),
        ("undefined instruction", "Undefined kernel instruction"),
        ("aop nmi power", "AOP NMI POWER"),
        ("applesochot", "AppleSocHot"),
        ("no valid cfg", "No valid CFG"),
        ("ans2 recoverable panic", "ANS2 Recoverable Panic"),
        ("outbox1 not ready", "OUTBOX1 not ready"),
        ("bsc failure", "BSC failure"),
        ("sep panic", "SEP Panic"),
        ("baseband panic", "Baseband Panic"),
        ("smc panic", "SMC PANIC"),
        ("aop panic", "AOP PANIC"),
        ("thermalmonitord", "thermalmonitord"),
        ("missing sensor", "Missing sensor"),
        ("gas gauge", "Gas gauge"),
        ("watchdog timeout", "watchdog timeout"),
    ];
    let ghost rv = rows@.map_values(|p: (&str, &str)| (p.0@, p.1@));
    assert(rv == sub_signature_rows());
    let mut found: Vec<Vec<char>> = Vec::new();
    let mut i: usize = 0;
    while i < rows.len()
        invariant
            i <= rows.len(),
            rv == rows@.map_values(|p: (&str, &str)| (p.0@, p.1@)),
            views(found@) == rows_found(blob@, rv.take(i as int)),
        decreases rows.len() - i,
    {
        assert(rv.take(i + 1).drop_last() == rv.take(i as int));
        assert(rv.take(i + 1).last() == (rows@[i as int].0@, rows@[i as int].1@));
        let (needle, label) = rows[i];
        let ghost before = views(found@);
        if contains_str(&blob, needle) {
            found.push(chars_of(label));
            assert(views(found@) =~= before + seq![label@]);
        } else {
            assert(before + Seq::<Seq<char>>::empty() =~= before);
        }
        i += 1;
    }
    assert(rv.take(rows.len() as int) == rv);
    let mut out: Vec<Vec<char>> = Vec::new();
    assert(views(out@) =~= Seq::<Seq<char>>::empty());
    add_unique_exec(&mut out, &found);
    strings_of(&out)
}

// ---------------------------------------------------------------------------
// Panic family
// ---------------------------------------------------------------------------
/// The family named by a `bug_type` code.
pub open spec fn bug_type_name(code: Seq<char>) -> Option<Seq<char>> {
    if code == "109"@ {
        Some("kernel panic"@)
    } else if code == "134"@ {
        Some("baseband panic"@)
    } else if code == "210"@ {
        Some("watchdog timeout"@)
    } else if code == "211"@ {
        Some("thermal issue"@)
    } else if code == "288"@ {
        Some("userspace reset"@)
    } else {
        None
    }
}

pub fn bug_type_label(code: &str) -> (r: Option<&'static str>)
    ensures
        opt_str_view(r) == bug_type_name(code@),
{
    let c = chars_of(code);
    if eq_str(&c, "109") {
        Some("kernel panic")
    } else if eq_str(&c, "134") {
        Some("baseband panic")
    } else if eq_str(&c, "210") {
        Some("watchdog timeout")
    } else if eq_str(&c, "211") {
        Some("thermal issue")
    } else if eq_str(&c, "288") {
        Some("userspace reset")
    } else {
        None
    }
}

/// `s` with each character of `cs` replaced by `_`.
pub open spec fn underscored(s: Seq<char>, also_slash_dash: bool) -> Seq<char> {
    s.map_values(|c: char| if c == ' ' || (also_slash_dash && (c == '/' || c == '-')) { '_' } else { c })
}

fn underscored_exec(s: &[char], also_slash_dash: bool) -> (r: Vec<char>)
    ensures
        r@ == underscored(s@, also_slash_dash),
{
    let mut r: Vec<char> = Vec::new();
    let mut i: usize = 0;
    while i < s.len()
        invariant
            i <= s.len(),
            r@ == underscored(s@.take(i as int), also_slash_dash),
        decreases s.len() - i,
    {
        let c = s[i];
        if c == ' ' || (also_slash_dash && (c == '/' || c == '-')) {
            r.push('_');
        } else {
            r.push(c);
        }
        assert(underscored(s@.take(i + 1), also_slash_dash) =~= underscored(s@.take(i as int), also_slash_dash).push(
            r@.last(),
        ));
        i += 1;
    }
    assert(s@.take(s.len() as int) == s@);
    r
}

pub open spec fn lowered(v: Seq<Seq<char>>) -> Seq<Seq<char>> {
    v.map_values(|s: Seq<char>| unicode_lower(s))
}

/// Families named by the signatures, in order of precedence.
pub open spec fn family_rules() -> Seq<(Seq<char>, Seq<char>)> {
    seq![
        ("smc panic"@, "smc_bsc_outbox_chain"@),
        ("bsc failure"@, "smc_bsc_outbox_chain"@),
        ("outbox1"@, "smc_bsc_outbox_chain"@),
        ("no valid cfg"@, "no_valid_cfg_nand"@),
        ("applesochot"@, "applesochot_soc_thermal"@),
        ("aop nmi power"@, "aop_nmi_power"@),
        ("undefined kernel instruction"@, "undefined_kernel_instruction"@),
        ("ans2"@, "ans2_storage"@),
        ("baseband panic"@, "baseband_panic"@),
        ("sep panic"@, "sep_panic"@),
        ("aop panic"@, "aop_panic"@),
    ]
}

/// The family of the first rule whose needle occurs in `pack`.
pub open spec fn first_family(pack: Seq<char>, rules: Seq<(Seq<char>, Seq<char>)>) -> Option<Seq<char>>
    decreases rules.len(),
{
    if rules.len() == 0 {
        None
    } else if seq_contains(pack, rules[0].0) {
        Some(rules[0].1)
    } else {
        first_family(pack, rules.drop_first())
    }
}

/// The panic family: from the signatures, else from the `bug_type` code, else
/// the first signature in snake case, else whether a preview exists.
pub open spec fn panic_family(f: FieldsView, normalized: Seq<Seq<char>>) -> Seq<char> {
    let pack = join(lowered(normalized), " "@);
    if first_family(pack, family_rules()) is Some {
        first_family(pack, family_rules()).unwrap()
    } else if f.bug_type is Some && bug_type_name(f.bug_type.unwrap()) is Some {
        "bug_"@ + f.bug_type.unwrap() + "_"@ + underscored(bug_type_name(f.bug_type.unwrap()).unwrap(), false)
    } else if normalized.len() > 0 {
        unicode_lower(underscored(normalized[0], true))
    } else if f.preview is Some {
        "unclassified_panicstring"@
    } else {
        "unknown"@
    }
}

pub fn resolve_panic_type(extracted: &ExtractedFields, normalized: &[String]) -> (r: String)
    ensures
        r@ == panic_family(extracted@, strs(normalized@)),
{
    let mut low: Vec<Vec<char>> = Vec::new();
    let mut i: usize = 0;
    while i < normalized.len()
        invariant
            i <= normalized.len(),
            views(low@) == lowered(strs(normalized@)).take(i as int),
        decreases normalized.len() - i,
    {
        let l = to_lowercase(normalized[i].as_str());
        let ghost before = views(low@);
        low.push(l);
        assert(views(low@) =~= before.push(unicode_lower(normalized@[i as int]@)));
        assert(lowered(strs(normalized@)).take(i + 1) =~= lowered(strs(normalized@)).take(i as int).push(
            unicode_lower(normalized@[i as int]@),
        ));
        i += 1;
    }
    assert(lowered(strs(normalized@)).take(normalized.len() as int) =~= lowered(strs(normalized@)));
    let sp = chars_of(" ");
    let pack = join_exec(&low, &sp);
    let rules: Vec<(&str, &str)> = vec![
        ("smc panic", "smc_bsc_outbox_chain"),
        ("bsc failure", "smc_bsc_outbox_chain"),
        ("outbox1", "smc_bsc_outbox_chain"),
        ("no valid cfg", "no_valid_cfg_nand"),
        ("applesochot", "applesochot_soc_thermal"),
        ("aop nmi power", "aop_nmi_power"),
        ("undefined kernel instruction", "undefined_kernel_instruction"),
        ("ans2", "ans2_storage"),
        ("baseband panic", "baseband_panic"),
        ("sep panic", "sep_panic"),
        ("aop panic", "aop_panic"),
    ];
    let ghost rv = rules@.map_values(|p: (&str, &str)| (p.0@, p.1@));
    assert(rv == family_rules());
    assert(rv.skip(0) =~= rv);
    let mut k: usize = 0;
    while k < rules.len()
        invariant
            k <= rules.len(),
            rv == rules@.map_values(|p: (&str, &str)| (p.0@, p.1@)),
            pack@ == join(lowered(strs(normalized@)), " "@),
            first_family(pack@, family_rules()) == first_family(pack@, rv.skip(k as int)),
        decreases rules.len() - k,
    {
        assert(rv.skip(k as int)[0] == rv[k as int]);
        assert(rv.skip(k as int).drop_first() == rv.skip(k + 1));
        let (needle, fam) = rules[k];
        assert(rv[k as int] == (needle@, fam@));
        if contains_str(&pack, needle) {
            return owned(fam);
        }
        k += 1;
    }
    assert(rv.skip(rules.len() as int) =~= Seq::<(Seq<char>, Seq<char>)>::empty());
    match &extracted.bug_type {
        Some(bt) => {
            match bug_type_label(bt.as_str()) {
                Some(l) => {
                    let mut out = chars_of("bug_");
                    append_str(&mut out, bt.as_str());
                    out.push('_');
                    let lc = chars_of(l);
                    let u = underscored_exec(&lc, false);
                    out.extend_from_slice(&u);
                    assert(out@ =~= "bug_"@ + bt@ + "_"@ + underscored(l@, false)) by {
                        reveal_strlit("_");
                    }
                    return string_of(&out);
                },
                None => {},
            }
        },
        None => {},
    }
    if normalized.len() > 0 {
        let fc = chars_of(normalized[0].as_str());
        let u = underscored_exec(&fc, true);
        let us = string_of(&u);
        let l = to_lowercase(us.as_str());
        return string_of(&l);
    }
    if extracted.panic_string_preview.is_some() {
        return owned("unclassified_panicstring");
    }
    owned("unknown")
}

// ---------------------------------------------------------------------------
// Device and log predicates
// ---------------------------------------------------------------------------
pub open spec fn or_empty(o: Option<Seq<char>>) -> Seq<char> {
    match o {
        Some(s) => s,
        None => ""@,
    }
}

fn or_empty_exec<'a>(o: Option<&'a str>) -> (r: &'a str)
    ensures
        r@ == or_empty(opt_str_view(o)),
{
    match o {
        Some(s) => s,
        None => "",
    }
}

/// An iPhone 7 or 7 Plus, by marketing name or product type.
pub open spec fn iphone_7_family(marketing: Option<Seq<char>>, product: Option<Seq<char>>) -> bool {
    let pack = unicode_lower(or_empty(marketing)) + seq![' '] + unicode_lower(or_empty(product));
    contains_any(
        pack,
        seq!["iphone 7"@, "iphone9,1"@, "iphone9,2"@, "iphone9,3"@, "iphone9,4"@],
    )
}

pub fn is_iphone_7_family(marketing: Option<&str>, product: Option<&str>) -> (r: bool)
    ensures
        r == iphone_7_family(opt_str_view(marketing), opt_str_view(product)),
{
    let mut pack = to_lowercase(or_empty_exec(marketing));
    pack.push(' ');
    let pl = to_lowercase(or_empty_exec(product));
    pack.extend_from_slice(&pl);
    let needles: Vec<&str> = vec!["iphone 7", "iphone9,1", "iphone9,2", "iphone9,3", "iphone9,4"];
    assert(lit_views(needles@) == seq!["iphone 7"@, "iphone9,1"@, "iphone9,2"@, "iphone9,3"@, "iphone9,4"@]);
    assert(pack@ =~= unicode_lower(or_empty(opt_str_view(marketing))) + seq![' '] + unicode_lower(
        or_empty(opt_str_view(product)),
    ));
    contains_any_exec(&pack, &needles)
}

/// An iPhone X, not an XS or XR, by marketing name.
pub open spec fn iphone_x_class(marketing: Option<Seq<char>>) -> bool {
    match marketing {
        Some(m) => {
            let l = unicode_lower(m);
            seq_contains(l, "iphone x"@) && !seq_contains(l, "iphone xs"@) && !seq_contains(l, "iphone xr"@)
        },
        None => false,
    }
}

pub fn is_iphone_x_class(marketing: Option<&str>) -> (r: bool)
    ensures
        r == iphone_x_class(opt_str_view(marketing)),
{
    match marketing {
        Some(m) => {
            let l = to_lowercase(m);
            contains_str(&l, "iphone x") && !contains_str(&l, "iphone xs") && !contains_str(&l, "iphone xr")
        },
        None => false,
    }
}

/// Some sensor of the list is exactly `id`.
pub fn missing_has(missing: &[String], id: &str) -> (r: bool)
    ensures
        r == strs(missing@).contains(id@),
{
    let mut i: usize = 0;
    while i < missing.len()
        invariant
            i <= missing.len(),
            forall|j: int| 0 <= j < i ==> strs(missing@)[j] != id@,
        decreases missing.len() - i,
    {
        let c = chars_of(missing[i].as_str());
        if eq_str(&c, id) {
            assert(strs(missing@)[i as int] == id@);
            return true;
        }
        i += 1;
    }
    false
}

/// A missing sensor of the battery path: `tg0…`, `ncc`, a gauge or the BMS.
pub open spec fn battery_sensor(s: Seq<char>) -> bool {
    starts_with(s, "tg0"@) || s == "ncc"@ || seq_contains(s, "gauge"@) || seq_contains(s, "bms"@)
}

pub fn missing_battery_hint(missing: &[String]) -> (r: bool)
    ensures
        r == exists|i: int| 0 <= i < missing@.len() && battery_sensor(#[trigger] strs(missing@)[i]),
{
    let mut i: usize = 0;
    while i < missing.len()
        invariant
            i <= missing.len(),
            forall|j: int| 0 <= j < i ==> !battery_sensor(#[trigger] strs(missing@)[j]),
        decreases missing.len() - i,
    {
        let c = chars_of(missing[i].as_str());
        if starts_with_str(&c, "tg0") || eq_str(&c, "ncc") || contains_str(&c, "gauge") || contains_str(&c, "bms") {
            assert(battery_sensor(strs(missing@)[i as int]));
            return true;
        }
        i += 1;
    }
    false
}

/// A missing sensor of the dock pressure path: `prs0`, `prs` or `prs…`.
pub open spec fn dock_pressure_sensor(s: Seq<char>) -> bool {
    s == "prs0"@ || s == "prs"@ || starts_with(s, "prs"@)
}

pub fn missing_dock_pressure_hint(missing: &[String]) -> (r: bool)
    ensures
        r == exists|i: int| 0 <= i < missing@.len() && dock_pressure_sensor(#[trigger] strs(missing@)[i]),
{
    let mut i: usize = 0;
    while i < missing.len()
        invariant
            i <= missing.len(),
            forall|j: int| 0 <= j < i ==> !dock_pressure_sensor(#[trigger] strs(missing@)[j]),
        decreases missing.len() - i,
    {
        let c = chars_of(missing[i].as_str());
        if eq_str(&c, "prs0") || eq_str(&c, "prs") || starts_with_str(&c, "prs") {
            assert(dock_pressure_sensor(strs(missing@)[i as int]));
            return true;
        }
        i += 1;
    }
    false
}

/// A product type or device hint, trimmed and ASCII-lowercased, is one of `ids`.
pub open spec fn slug_in(o: Option<Seq<char>>, ids: Seq<Seq<char>>) -> bool {
    o is Some && ids.contains(lower_seq(trim(o.unwrap())))
}

pub fn slug_in_exec(o: Option<&str>, ids: &Vec<&str>) -> (r: bool)
    ensures
        r == slug_in(opt_str_view(o), lit_views(ids@)),
{
    match o {
        None => false,
        Some(s) => {
            let c = chars_of(s);
            let t = trim_chars(&c);
            let l = lower_chars(&t);
            let mut i: usize = 0;
            while i < ids.len()
                invariant
                    i <= ids.len(),
                    opt_str_view(o) == Some(s@),
                    l@ == lower_seq(trim(s@)),
                    forall|j: int| 0 <= j < i ==> lit_views(ids@)[j] != l@,
                decreases ids.len() - i,
            {
                if eq_str(&l, ids[i]) {
                    assert(lit_views(ids@)[i as int] == l@);
                    return true;
                }
                i += 1;
            }
            assert(!lit_views(ids@).contains(l@));
            false
        },
    }
}

pub open spec fn iphone11_ids() -> Seq<Seq<char>> {
    seq!["iphone12,1"@, "iphone12,3"@, "iphone12,5"@]
}

/// An iPhone 11, 11 Pro or 11 Pro Max by product type or device hint.
pub fn is_iphone11_family_product(product: Option<&str>, device_hint: Option<&str>) -> (r: bool)
    ensures
        r == (slug_in(opt_str_view(product), iphone11_ids()) || slug_in(opt_str_view(device_hint), iphone11_ids())),
{
    let ids: Vec<&str> = vec!["iphone12,1", "iphone12,3", "iphone12,5"];
    assert(lit_views(ids@) == iphone11_ids());
    slug_in_exec(product, &ids) || slug_in_exec(device_hint, &ids)
}

pub open spec fn mic2_earpiece_ids() -> Seq<Seq<char>> {
    seq![
        "iphone10,3"@,
        "iphone10,6"@,
        "iphone11,2"@,
        "iphone11,4"@,
        "iphone11,6"@,
        "iphone11,8"@,
        "iphone12,1"@,
        "iphone12,3"@,
        "iphone12,5"@,
        "iphone13,1"@,
        "iphone13,2"@,
        "iphone13,3"@,
        "iphone13,4"@,
    ]
}

/// A generation whose MIC2 sits in the earpiece assembly.
pub fn is_mic2_earpiece_generation(product: Option<&str>, device_hint: Option<&str>) -> (r: bool)
    ensures
        r == (slug_in(opt_str_view(product), mic2_earpiece_ids()) || slug_in(
            opt_str_view(device_hint),
            mic2_earpiece_ids(),
        )),
{
    let ids: Vec<&str> = vec![
        "iphone10,3",
        "iphone10,6",
        "iphone11,2",
        "iphone11,4",
        "iphone11,6",
        "iphone11,8",
        "iphone12,1",
        "iphone12,3",
        "iphone12,5",
        "iphone13,1",
        "iphone13,2",
        "iphone13,3",
        "iphone13,4",
    ];
    assert(lit_views(ids@) == mic2_earpiece_ids());
    slug_in_exec(product, &ids) || slug_in_exec(device_hint, &ids)
}

pub open spec fn i2c_stress_words() -> Seq<Seq<char>> {
    seq!["timeout"@, "timed out"@, "time-out"@, "stall"@, "nack"@, "error recover"@]
}

/// The lowercased log names an I2C bus and a stall on it.
pub open spec fn i2c_stress(log_lc: Seq<char>) -> bool {
    (seq_contains(log_lc, "i2c"@) || seq_contains(log_lc, "i\u{c2}\u{b2}c"@)) && contains_any(
        log_lc,
        i2c_stress_words(),
    )
}

pub fn detect_i2c_stress(log_lc: &str) -> (r: bool)
    ensures
        r == i2c_stress(log_lc@),
{
    let l = chars_of(log_lc);
    if !contains_str(&l, "i2c") && !contains_str(&l, "i\u{c2}\u{b2}c") {
        return false;
    }
    let words: Vec<&str> = vec!["timeout", "timed out", "time-out", "stall", "nack", "error recover"];
    assert(lit_views(words@) == i2c_stress_words());
    contains_any_exec(&l, &words)
}

pub open spec fn iphone15_ids() -> Seq<Seq<char>> {
    seq!["iphone15,4"@, "iphone15,5"@, "iphone16,1"@, "iphone16,2"@]
}

/// An iPhone 15 of any size, by product type, device hint or marketing name.
pub open spec fn iphone15_series(marketing: Option<Seq<char>>, product: Option<Seq<char>>, hint: Option<Seq<char>>) -> bool {
    slug_in(product, iphone15_ids()) || slug_in(hint, iphone15_ids()) || (marketing is Some && seq_contains(
        lower_seq(marketing.unwrap()),
        "iphone 15"@,
    ))
}

pub fn is_iphone15_series_product(marketing: Option<&str>, product: Option<&str>, device_hint: Option<&str>) -> (r: bool)
    ensures
        r == iphone15_series(opt_str_view(marketing), opt_str_view(product), opt_str_view(device_hint)),
{
    let ids: Vec<&str> = vec!["iphone15,4", "iphone15,5", "iphone16,1", "iphone16,2"];
    assert(lit_views(ids@) == iphone15_ids());
    if slug_in_exec(product, &ids) || slug_in_exec(device_hint, &ids) {
        return true;
    }
    match marketing {
        Some(m) => {
            let c = chars_of(m);
            let l = lower_chars(&c);
            contains_str(&l, "iphone 15")
        },
        None => false,
    }
}

pub open spec fn oxidation_words() -> Seq<Seq<char>> {
    seq!["oxyd"@, "corros"@, "liquid"@, "eau"@, "humid"@, "moisture"@, "water damage"@]
}

/// The lowercased log speaks of liquid or corrosion.
pub fn log_suggests_bottom_mic_oxidation(log_lc: &str) -> (r: bool)
    ensures
        r == contains_any(log_lc@, oxidation_words()),
{
    let l = chars_of(log_lc);
    let words: Vec<&str> = vec!["oxyd", "corros", "liquid", "eau", "humid", "moisture", "water damage"];
    assert(lit_views(words@) == oxidation_words());
    contains_any_exec(&l, &words)
}

/// `s` without its spaces.
pub open spec fn without_spaces(s: Seq<char>) -> Seq<char>
    decreases s.len(),
{
    if s.len() == 0 {
        Seq::empty()
    } else {
        without_spaces(s.drop_last()) + if s.last() == ' ' {
            Seq::<char>::empty()
        } else {
            seq![s.last()]
        }
    }
}

fn without_spaces_exec(s: &[char]) -> (r: Vec<char>)
    ensures
        r@ == without_spaces(s@),
{
    let mut r: Vec<char> = Vec::new();
    let mut i: usize = 0;
    while i < s.len()
        invariant
            i <= s.len(),
            r@ == without_spaces(s@.take(i as int)),
        decreases s.len() - i,
    {
        assert(s@.take(i + 1).drop_last() == s@.take(i as int));
        if s[i] != ' ' {
            r.push(s[i]);
        }
        i += 1;
    }
    assert(s@.take(s.len() as int) == s@);
    r
}

pub open spec fn is_15_4(o: Option<Seq<char>>) -> bool {
    o is Some && {
        let c = without_spaces(unicode_lower(o.unwrap()));
        seq_contains(c, "iphone15,4"@) || c == "15,4"@
    }
}

fn is_15_4_exec(o: Option<&str>) -> (r: bool)
    ensures
        r == is_15_4(opt_str_view(o)),
{
    match o {
        None => false,
        Some(s) => {
            let l = to_lowercase(s);
            let c = without_spaces_exec(&l);
            contains_str(&c, "iphone15,4") || eq_str(&c, "15,4")
        },
    }
}

/// An iPhone 15 (iPhone15,4) by product type or device hint.
pub fn is_iphone15_4_product(product: Option<&str>, device_hint: Option<&str>) -> (r: bool)
    ensures
        r == (is_15_4(opt_str_view(product)) || is_15_4(opt_str_view(device_hint))),
{
    is_15_4_exec(product) || is_15_4_exec(device_hint)
}

/// The wireless-charging SMC pattern of the iPhone 15: SMC panic, BSC
/// failure, TAOP, TAOJ and OUTBOX1 not ready, all in the lowercased log.
pub open spec fn wireless_smc_fingerprint(l: Seq<char>) -> bool {
    &&& seq_contains(l, "smc panic"@)
    &&& seq_contains(l, "bsc failure"@)
    &&& seq_contains(l, "taop"@)
    &&& seq_contains(l, "taoj"@)
    &&& (seq_contains(l, "outbox1 not ready"@) || (seq_contains(l, "outbox1"@) && seq_contains(l, "not ready"@)))
}

pub fn iphone15_4_wireless_smc_fingerprint(log_lc: &str) -> (r: bool)
    ensures
        r == wireless_smc_fingerprint(log_lc@),
{
    let l = chars_of(log_lc);
    let smc = contains_str(&l, "smc panic");
    let bsc = contains_str(&l, "bsc failure");
    let taop = contains_str(&l, "taop");
    let taoj = contains_str(&l, "taoj");
    let out = contains_str(&l, "outbox1 not ready") || (contains_str(&l, "outbox1") && contains_str(&l, "not ready"));
    smc && bsc && taop && taoj && out
}

/// Appends `value` unless the list already holds it.
pub fn push_unique_vec(out: &mut Vec<String>, value: String)
    ensures
        strs(final(out)@) == push_unique(strs(old(out)@), value@),
{
    let v = chars_of(value.as_str());
    let mut i: usize = 0;
    while i < out.len()
        invariant
            i <= out.len(),
            v@ == value@,
            forall|j: int| 0 <= j < i ==> strs(out@)[j] != value@,
        decreases out.len() - i,
    {
        let c = chars_of(out[i].as_str());
        if chars_eq(&c, &v) {
            assert(strs(out@)[i as int] == value@);
            return;
        }
        i += 1;
    }
    assert(!strs(out@).contains(value@));
    let ghost before = strs(out@);
    out.push(value);
    assert(strs(out@) =~= before.push(value@));
}

/// Some needle occurs in `hay`.
pub fn hay_contains_any(hay: &str, needles: &Vec<&str>) -> (r: bool)
    ensures
        r == contains_any(hay@, lit_views(needles@)),
{
    let h = chars_of(hay);
    contains_any_exec(&h, needles)
}

// ---------------------------------------------------------------------------
// The repair workflow: action plan, danger flags, isolation steps and parts
// ---------------------------------------------------------------------------
/// Where the overall confidence stands: below 0.45, up to 0.78, or above.
#[derive(Debug, Clone, Copy, PartialEq, Eq)]
pub enum ConfidenceBand {
    Low,
    Middle,
    High,
}

/// The four lists of a repair workflow.
#[derive(Debug, Clone)]
pub struct WorkflowPlan {
    pub action_plan: Vec<String>,
    pub danger_flags: Vec<String>,
    pub isolation: Vec<String>,
    pub parts: Vec<String>,
}

pub struct PlanView {
    pub a: Seq<Seq<char>>,
    pub d: Seq<Seq<char>>,
    pub i: Seq<Seq<char>>,
    pub p: Seq<Seq<char>>,
}

impl View for WorkflowPlan {
    type V = PlanView;

    open spec fn view(&self) -> PlanView {
        PlanView {
            a: strs(self.action_plan@),
            d: strs(self.danger_flags@),
            i: strs(self.isolation@),
            p: strs(self.parts@),
        }
    }
}

/// `x` added, unless already there, to the list `which` (0: action plan,
/// 1: danger flags, 2: isolation, 3: parts).
pub open spec fn add_to(pl: PlanView, which: int, x: Seq<char>) -> PlanView {
    if which == 0 {
        PlanView { a: push_unique(pl.a, x), ..pl }
    } else if which == 1 {
        PlanView { d: push_unique(pl.d, x), ..pl }
    } else if which == 2 {
        PlanView { i: push_unique(pl.i, x), ..pl }
    } else {
        PlanView { p: push_unique(pl.p, x), ..pl }
    }
}

fn add_item(plan: &mut WorkflowPlan, which: u8, x: &str)
    ensures
        final(plan)@ == add_to(old(plan)@, which as int, x@),
{
    if which == 0 {
        push_unique_vec(&mut plan.action_plan, owned(x));
    } else if which == 1 {
        push_unique_vec(&mut plan.danger_flags, owned(x));
    } else if which == 2 {
        push_unique_vec(&mut plan.isolation, owned(x));
    } else {
        push_unique_vec(&mut plan.parts, owned(x));
    }
}

pub open spec fn rule_start(pl: PlanView) -> PlanView {
    add_to(add_to(pl, 0, "0. Sauvegarde client si l\u{e2}\u{20ac}\u{2122}iPhone tient."@), 0, "1. Utiliser le panic-full le plus r\u{c3}\u{a9}cent."@)
}

pub open spec fn rule_sensors(pl: PlanView, pack: Seq<char>, chassis: bool, has_thermal: bool, has_missing: bool) -> PlanView {
    if has_thermal || has_missing {
        add_to(add_to(add_to(pl, 1, "Reboot ~3 min : souvent un capteur absent, pas une batterie HS."@), 0, "2. Noter le capteur ou le masque indiqu\u{c3}\u{a9} dans le log."@), 2, "Boot minimal, puis remonter une nappe \u{c3}\u{a0} la fois."@)
    } else {
        pl
    }
}

pub open spec fn rule_dock(pl: PlanView, pack: Seq<char>, chassis: bool, has_thermal: bool, has_missing: bool) -> PlanView {
    if contains_any(pack, seq!["mic1"@, "prs0"@, "prs "@, "dock"@, "connecteur de charge"@, "charging port"@]) {
        add_to(add_to(add_to(add_to(pl, 3, "Nappe charge / dock OEM"@), 0, "Tester une nappe charge connue bonne."@), 2, "Inspecter FPC dock (pli, oxy)."@), 1, "Dock aftermarket : charge OK, capteurs KO."@)
    } else {
        pl
    }
}

pub open spec fn rule_earpiece(pl: PlanView, pack: Seq<char>, chassis: bool, has_thermal: bool, has_missing: bool) -> PlanView {
    if (contains_any(pack, seq!["mic2"@, "\u{c3}\u{a9}couteur"@, "earpiece"@, "capteurs avant"@, "pr\u{c3}\u{a9}-ensemble avant"@])) && !chassis {
        add_to(add_to(add_to(pl, 3, "\u{c3}\u{2030}couteur / avant connu bon"@), 0, "MIC2 : \u{c3}\u{a9}couteur ou power-flex selon mod\u{c3}\u{a8}le."@), 2, "Swap pr\u{c3}\u{a9}-ensemble avant, voir grille micro et liquide."@)
    } else {
        pl
    }
}

pub open spec fn rule_battery(pl: PlanView, pack: Seq<char>, chassis: bool, has_thermal: bool, has_missing: bool) -> PlanView {
    if contains_any(pack, seq!["tg0"@, "bms"@, "gas gauge"@, "batterie"@, "battery"@, "fuel gauge"@]) {
        add_to(add_to(add_to(pl, 3, "Batterie + FPC batterie"@), 0, "Batterie connue bonne, puis lignes BMS."@), 2, "Diode mode BMS, pression l\u{c3}\u{a9}g\u{c3}\u{a8}re FPC."@)
    } else {
        pl
    }
}

pub open spec fn rule_i2c(pl: PlanView, pack: Seq<char>, chassis: bool, has_thermal: bool, has_missing: bool) -> PlanView {
    if contains_any(pack, seq!["i2c"@, "i\u{c2}\u{b2}c"@, "scl stuck low"@, "stuck low"@, "nack"@, "timed out"@, "timeout"@]) {
        add_to(add_to(add_to(add_to(pl, 3, "Nappes du bus cit\u{c3}\u{a9} + sch\u{c3}\u{a9}ma"@), 0, "I\u{c2}\u{b2}C : une nappe \u{c3}\u{a0} la fois."@), 2, "SCL/SDA en diode, pull-up."@), 1, "I\u{c2}\u{b2}C : une seule nappe peut bloquer tout le bus."@)
    } else {
        pl
    }
}

pub open spec fn rule_smc(pl: PlanView, pack: Seq<char>, chassis: bool, has_thermal: bool, has_missing: bool) -> PlanView {
    if contains_any(pack, seq!["smc panic"@, "bsc failure"@, "sensor array"@, "outbox1"@, "taop"@, "taoj"@]) {
        add_to(add_to(add_to(pl, 0, "SMC : lire le masque capteur, pas seulement le titre."@), 2, "Wireless / USB-C selon le log."@), 1, "SMC \u{e2}\u{2030}\u{a0} PMIC mort sans preuve."@)
    } else {
        pl
    }
}

pub open spec fn rule_wireless(pl: PlanView, pack: Seq<char>, chassis: bool, has_thermal: bool, has_missing: bool) -> PlanView {
    if contains_any(pack, seq!["magsafe"@, "wireless"@, "qi"@, "taop"@, "taoj"@, "outbox1"@]) {
        add_to(add_to(pl, 3, "Nappe Qi / MagSafe"@), 0, "Resserrer ou changer la nappe sans fil."@)
    } else {
        pl
    }
}

pub open spec fn rule_nand(pl: PlanView, pack: Seq<char>, chassis: bool, has_thermal: bool, has_missing: bool) -> PlanView {
    if contains_any(pack, seq!["ans2"@, "nvme"@, "nand"@, "no valid cfg"@, "ememory"@, "apcie"@, "invalid queue"@]) {
        add_to(add_to(add_to(pl, 3, "Zone stockage / NAND"@), 0, "Donn\u{c3}\u{a9}es client : \u{c3}\u{a9}viter restore destructif."@), 1, "NAND : risque perte de donn\u{c3}\u{a9}es."@)
    } else {
        pl
    }
}

pub open spec fn rule_baseband(pl: PlanView, pack: Seq<char>, chassis: bool, has_thermal: bool, has_missing: bool) -> PlanView {
    if contains_any(pack, seq!["baseband"@, "bb_cpu"@, "modem"@, "rf"@]) {
        add_to(add_to(add_to(pl, 3, "Zone modem / RF"@), 0, "V\u{c3}\u{a9}rifier r\u{c3}\u{a9}seau, eSIM, puis hardware BB."@), 1, "Baseband : pas tout mettre sur la carte sans contexte r\u{c3}\u{a9}seau."@)
    } else {
        pl
    }
}

pub open spec fn rule_aop(pl: PlanView, pack: Seq<char>, chassis: bool, has_thermal: bool, has_missing: bool) -> PlanView {
    if contains_any(pack, seq!["aop panic"@, "aop nmi"@, "bosch"@, "flood"@, "face id"@, "proximity"@]) {
        add_to(add_to(add_to(pl, 3, "Nappes avant (Face ID, prox, \u{c3}\u{a9}couteur)"@), 0, "AOP : nappes avant et liquide."@), 1, "Face ID : pi\u{c3}\u{a8}ces pair\u{c3}\u{a9}es."@)
    } else {
        pl
    }
}

pub open spec fn rule_chassis(pl: PlanView, pack: Seq<char>, chassis: bool, mic2_missing: bool, has_thermal: bool, has_missing: bool) -> PlanView {
    if chassis && mic2_missing {
        add_to(add_to(add_to(add_to(pl, 1, "MIC2 iPhone 11 : nappe bouton power + micro flash \u{e2}\u{20ac}\u{201d} oxydation connecteur, FPC mal clip\u{c3}\u{a9}, vitre arri\u{c3}\u{a8}re / flash, chute ou liquide (reboot ~3 min)."@), 0, "iPhone 11 MIC2 : connecteur power (oxydation), historique vitre arri\u{c3}\u{a8}re / flash / chute, puis nappe power OEM."@), 3, "Nappe bouton power iPhone 11 (micro c\u{c3}\u{b4}t\u{c3}\u{a9} flash)"@), 2, "Ne pas partir sur l\u{e2}\u{20ac}\u{2122}\u{c3}\u{a9}couteur en premier sur s\u{c3}\u{a9}rie 11."@)
    } else if chassis && (has_missing || has_thermal || contains_any(pack, seq!["mic1"@, "prs0"@, "mic2"@, "dock"@, "connecteur de charge"@, "charging port"@])) {
        add_to(add_to(add_to(pl, 1, "iPhone 11 : surtout dock, Power+flash, puis interposer \u{e2}\u{20ac}\u{201d} pr\u{c3}\u{a9}-ensemble \u{c3}\u{a9}couteur facultatif \u{c2}\u{b7} pas le m\u{c3}\u{aa}me profil \u{c2}\u{ab} connecteur \u{c2}\u{bb} qu\u{e2}\u{20ac}\u{2122}en s\u{c3}\u{a9}rie 12."@), 0, "iPhone 11 : Power + flash, puis dock ; si carte double, tester interposer."@), 3, "iPhone 11 : nappe Power + flash de test"@)
    } else {
        pl
    }
}

pub open spec fn rule_band(pl: PlanView, band: ConfidenceBand) -> PlanView {
    match band {
        ConfidenceBand::Low => add_to(add_to(pl, 0, "Score bas : second log + photos connecteurs."@), 1, "Ne pas promettre une pi\u{c3}\u{a8}ce unique au client."@),
        ConfidenceBand::Middle => pl,
        ConfidenceBand::High => add_to(pl, 0, "Score haut : pr\u{c3}\u{a9}parer la pi\u{c3}\u{a8}ce, valider au multim\u{c3}\u{a8}tre."@),
    }
}

pub open spec fn rule_fallback(pl: PlanView) -> PlanView {
    let p1 = if pl.p.len() == 0 {
        add_to(add_to(pl, 3, "\u{c3}\u{2030}cran + batterie + dock de test"@), 3, "Multim\u{c3}\u{a8}tre + sch\u{c3}\u{a9}ma"@)
    } else {
        pl
    };
    if p1.i.len() == 0 {
        add_to(add_to(p1, 2, "Minimal puis une nappe \u{c3}\u{a0} la fois."@), 2, "Microscope : connecteurs, liquide, pins."@)
    } else {
        p1
    }
}

fn rule_start_exec(plan: &mut WorkflowPlan)
    ensures
        final(plan)@ == rule_start(old(plan)@),
{
    add_item(plan, 0, "0. Sauvegarde client si l\u{e2}\u{20ac}\u{2122}iPhone tient.");
    add_item(plan, 0, "1. Utiliser le panic-full le plus r\u{c3}\u{a9}cent.");
}

fn rule_sensors_exec(plan: &mut WorkflowPlan, pack: &[char], chassis: bool, has_thermal: bool, has_missing: bool)
    ensures
        final(plan)@ == rule_sensors(old(plan)@, pack@, chassis, has_thermal, has_missing),
{
    if has_thermal || has_missing {
        add_item(plan, 1, "Reboot ~3 min : souvent un capteur absent, pas une batterie HS.");
        add_item(plan, 0, "2. Noter le capteur ou le masque indiqu\u{c3}\u{a9} dans le log.");
        add_item(plan, 2, "Boot minimal, puis remonter une nappe \u{c3}\u{a0} la fois.");
    }
}

fn rule_dock_exec(plan: &mut WorkflowPlan, pack: &[char], chassis: bool, has_thermal: bool, has_missing: bool)
    ensures
        final(plan)@ == rule_dock(old(plan)@, pack@, chassis, has_thermal, has_missing),
{
    let needles: Vec<&str> = vec!["mic1", "prs0", "prs ", "dock", "connecteur de charge", "charging port"];
    assert(lit_views(needles@) == seq!["mic1"@, "prs0"@, "prs "@, "dock"@, "connecteur de charge"@, "charging port"@]);
    if contains_any_exec(pack, &needles) {
        add_item(plan, 3, "Nappe charge / dock OEM");
        add_item(plan, 0, "Tester une nappe charge connue bonne.");
        add_item(plan, 2, "Inspecter FPC dock (pli, oxy).");
        add_item(plan, 1, "Dock aftermarket : charge OK, capteurs KO.");
    }
}

fn rule_earpiece_exec(plan: &mut WorkflowPlan, pack: &[char], chassis: bool, has_thermal: bool, has_missing: bool)
    ensures
        final(plan)@ == rule_earpiece(old(plan)@, pack@, chassis, has_thermal, has_missing),
{
    let needles: Vec<&str> = vec!["mic2", "\u{c3}\u{a9}couteur", "earpiece", "capteurs avant", "pr\u{c3}\u{a9}-ensemble avant"];
    assert(lit_views(needles@) == seq!["mic2"@, "\u{c3}\u{a9}couteur"@, "earpiece"@, "capteurs avant"@, "pr\u{c3}\u{a9}-ensemble avant"@]);
    if (contains_any_exec(pack, &needles)) && !chassis {
        add_item(plan, 3, "\u{c3}\u{2030}couteur / avant connu bon");
        add_item(plan, 0, "MIC2 : \u{c3}\u{a9}couteur ou power-flex selon mod\u{c3}\u{a8}le.");
        add_item(plan, 2, "Swap pr\u{c3}\u{a9}-ensemble avant, voir grille micro et liquide.");
    }
}

fn rule_battery_exec(plan: &mut WorkflowPlan, pack: &[char], chassis: bool, has_thermal: bool, has_missing: bool)
    ensures
        final(plan)@ == rule_battery(old(plan)@, pack@, chassis, has_thermal, has_missing),
{
    let needles: Vec<&str> = vec!["tg0", "bms", "gas gauge", "batterie", "battery", "fuel gauge"];
    assert(lit_views(needles@) == seq!["tg0"@, "bms"@, "gas gauge"@, "batterie"@, "battery"@, "fuel gauge"@]);
    if contains_any_exec(pack, &needles) {
        add_item(plan, 3, "Batterie + FPC batterie");
        add_item(plan, 0, "Batterie connue bonne, puis lignes BMS.");
        add_item(plan, 2, "Diode mode BMS, pression l\u{c3}\u{a9}g\u{c3}\u{a8}re FPC.");
    }
}

fn rule_i2c_exec(plan: &mut WorkflowPlan, pack: &[char], chassis: bool, has_thermal: bool, has_missing: bool)
    ensures
        final(plan)@ == rule_i2c(old(plan)@, pack@, chassis, has_thermal, has_missing),
{
    let needles: Vec<&str> = vec!["i2c", "i\u{c2}\u{b2}c", "scl stuck low", "stuck low", "nack", "timed out", "timeout"];
    assert(lit_views(needles@) == seq!["i2c"@, "i\u{c2}\u{b2}c"@, "scl stuck low"@, "stuck low"@, "nack"@, "timed out"@, "timeout"@]);
    if contains_any_exec(pack, &needles) {
        add_item(plan, 3, "Nappes du bus cit\u{c3}\u{a9} + sch\u{c3}\u{a9}ma");
        add_item(plan, 0, "I\u{c2}\u{b2}C : une nappe \u{c3}\u{a0} la fois.");
        add_item(plan, 2, "SCL/SDA en diode, pull-up.");
        add_item(plan, 1, "I\u{c2}\u{b2}C : une seule nappe peut bloquer tout le bus.");
    }
}

fn rule_smc_exec(plan: &mut WorkflowPlan, pack: &[char], chassis: bool, has_thermal: bool, has_missing: bool)
    ensures
        final(plan)@ == rule_smc(old(plan)@, pack@, chassis, has_thermal, has_missing),
{
    let needles: Vec<&str> = vec!["smc panic", "bsc failure", "sensor array", "outbox1", "taop", "taoj"];
    assert(lit_views(needles@) == seq!["smc panic"@, "bsc failure"@, "sensor array"@, "outbox1"@, "taop"@, "taoj"@]);
    if contains_any_exec(pack, &needles) {
        add_item(plan, 0, "SMC : lire le masque capteur, pas seulement le titre.");
        add_item(plan, 2, "Wireless / USB-C selon le log.");
        add_item(plan, 1, "SMC \u{e2}\u{2030}\u{a0} PMIC mort sans preuve.");
    }
}

fn rule_wireless_exec(plan: &mut WorkflowPlan, pack: &[char], chassis: bool, has_thermal: bool, has_missing: bool)
    ensures
        final(plan)@ == rule_wireless(old(plan)@, pack@, chassis, has_thermal, has_missing),
{
    let needles: Vec<&str> = vec!["magsafe", "wireless", "qi", "taop", "taoj", "outbox1"];
    assert(lit_views(needles@) == seq!["magsafe"@, "wireless"@, "qi"@, "taop"@, "taoj"@, "outbox1"@]);
    if contains_any_exec(pack, &needles) {
        add_item(plan, 3, "Nappe Qi / MagSafe");
        add_item(plan, 0, "Resserrer ou changer la nappe sans fil.");
    }
}

fn rule_nand_exec(plan: &mut WorkflowPlan, pack: &[char], chassis: bool, has_thermal: bool, has_missing: bool)
    ensures
        final(plan)@ == rule_nand(old(plan)@, pack@, chassis, has_thermal, has_missing),
{
    let needles: Vec<&str> = vec!["ans2", "nvme", "nand", "no valid cfg", "ememory", "apcie", "invalid queue"];
    assert(lit_views(needles@) == seq!["ans2"@, "nvme"@, "nand"@, "no valid cfg"@, "ememory"@, "apcie"@, "invalid queue"@]);
    if contains_any_exec(pack, &needles) {
        add_item(plan, 3, "Zone stockage / NAND");
        add_item(plan, 0, "Donn\u{c3}\u{a9}es client : \u{c3}\u{a9}viter restore destructif.");
        add_item(plan, 1, "NAND : risque perte de donn\u{c3}\u{a9}es.");
    }
}

fn rule_baseband_exec(plan: &mut WorkflowPlan, pack: &[char], chassis: bool, has_thermal: bool, has_missing: bool)
    ensures
        final(plan)@ == rule_baseband(old(plan)@, pack@, chassis, has_thermal, has_missing),
{
    let needles: Vec<&str> = vec!["baseband", "bb_cpu", "modem", "rf"];
    assert(lit_views(needles@) == seq!["baseband"@, "bb_cpu"@, "modem"@, "rf"@]);
    if contains_any_exec(pack, &needles) {
        add_item(plan, 3, "Zone modem / RF");
        add_item(plan, 0, "V\u{c3}\u{a9}rifier r\u{c3}\u{a9}seau, eSIM, puis hardware BB.");
        add_item(plan, 1, "Baseband : pas tout mettre sur la carte sans contexte r\u{c3}\u{a9}seau.");
    }
}

fn rule_aop_exec(plan: &mut WorkflowPlan, pack: &[char], chassis: bool, has_thermal: bool, has_missing: bool)
    ensures
        final(plan)@ == rule_aop(old(plan)@, pack@, chassis, has_thermal, has_missing),
{
    let needles: Vec<&str> = vec!["aop panic", "aop nmi", "bosch", "flood", "face id", "proximity"];
    assert(lit_views(needles@) == seq!["aop panic"@, "aop nmi"@, "bosch"@, "flood"@, "face id"@, "proximity"@]);
    if contains_any_exec(pack, &needles) {
        add_item(plan, 3, "Nappes avant (Face ID, prox, \u{c3}\u{a9}couteur)");
        add_item(plan, 0, "AOP : nappes avant et liquide.");
        add_item(plan, 1, "Face ID : pi\u{c3}\u{a8}ces pair\u{c3}\u{a9}es.");
    }
}

fn rule_chassis_exec(plan: &mut WorkflowPlan, pack: &[char], chassis: bool, mic2_missing: bool, has_thermal: bool, has_missing: bool)
    ensures
        final(plan)@ == rule_chassis(old(plan)@, pack@, chassis, mic2_missing, has_thermal, has_missing),
{
    if chassis && mic2_missing {
        add_item(plan, 1, "MIC2 iPhone 11 : nappe bouton power + micro flash \u{e2}\u{20ac}\u{201d} oxydation connecteur, FPC mal clip\u{c3}\u{a9}, vitre arri\u{c3}\u{a8}re / flash, chute ou liquide (reboot ~3 min).");
        add_item(plan, 0, "iPhone 11 MIC2 : connecteur power (oxydation), historique vitre arri\u{c3}\u{a8}re / flash / chute, puis nappe power OEM.");
        add_item(plan, 3, "Nappe bouton power iPhone 11 (micro c\u{c3}\u{b4}t\u{c3}\u{a9} flash)");
        add_item(plan, 2, "Ne pas partir sur l\u{e2}\u{20ac}\u{2122}\u{c3}\u{a9}couteur en premier sur s\u{c3}\u{a9}rie 11.");
        return;
    }
    let needles: Vec<&str> = vec!["mic1", "prs0", "mic2", "dock", "connecteur de charge", "charging port"];
    assert(lit_views(needles@) == seq!["mic1"@, "prs0"@, "mic2"@, "dock"@, "connecteur de charge"@, "charging port"@]);
    if chassis && (has_missing || has_thermal || contains_any_exec(pack, &needles)) {
        add_item(plan, 1, "iPhone 11 : surtout dock, Power+flash, puis interposer \u{e2}\u{20ac}\u{201d} pr\u{c3}\u{a9}-ensemble \u{c3}\u{a9}couteur facultatif \u{c2}\u{b7} pas le m\u{c3}\u{aa}me profil \u{c2}\u{ab} connecteur \u{c2}\u{bb} qu\u{e2}\u{20ac}\u{2122}en s\u{c3}\u{a9}rie 12.");
        add_item(plan, 0, "iPhone 11 : Power + flash, puis dock ; si carte double, tester interposer.");
        add_item(plan, 3, "iPhone 11 : nappe Power + flash de test");
    }
}

fn rule_band_exec(plan: &mut WorkflowPlan, band: ConfidenceBand)
    ensures
        final(plan)@ == rule_band(old(plan)@, band),
{
    match band {
        ConfidenceBand::Low => {
            add_item(plan, 0, "Score bas : second log + photos connecteurs.");
            add_item(plan, 1, "Ne pas promettre une pi\u{c3}\u{a8}ce unique au client.");
        },
        ConfidenceBand::Middle => {},
        ConfidenceBand::High => {
            add_item(plan, 0, "Score haut : pr\u{c3}\u{a9}parer la pi\u{c3}\u{a8}ce, valider au multim\u{c3}\u{a8}tre.");
        },
    }
}

fn rule_fallback_exec(plan: &mut WorkflowPlan)
    ensures
        final(plan)@ == rule_fallback(old(plan)@),
{
    let ghost pl = plan@;
    if plan.parts.len() == 0 {
        add_item(plan, 3, "\u{c3}\u{2030}cran + batterie + dock de test");
        add_item(plan, 3, "Multim\u{c3}\u{a8}tre + sch\u{c3}\u{a9}ma");
    }
    let ghost p1 = plan@;
    if plan.isolation.len() == 0 {
        add_item(plan, 2, "Minimal puis une nappe \u{c3}\u{a0} la fois.");
        add_item(plan, 2, "Microscope : connecteurs, liquide, pins.");
    }
}

pub open spec fn first_n(s: Seq<Seq<char>>, n: nat) -> Seq<Seq<char>> {
    if s.len() <= n {
        s
    } else {
        s.take(n as int)
    }
}

/// The rules applied in order.
pub open spec fn workflow_rules(
    pack: Seq<char>,
    chassis: bool,
    mic2_missing: bool,
    has_thermal: bool,
    has_missing: bool,
    band: ConfidenceBand,
) -> PlanView {
    let s0 = PlanView { a: Seq::empty(), d: Seq::empty(), i: Seq::empty(), p: Seq::empty() };
    let s1 = rule_start(s0);
    let s2 = rule_sensors(s1, pack, chassis, has_thermal, has_missing);
    let s3 = rule_dock(s2, pack, chassis, has_thermal, has_missing);
    let s4 = rule_chassis(s3, pack, chassis, mic2_missing, has_thermal, has_missing);
    let s5 = rule_earpiece(s4, pack, chassis, has_thermal, has_missing);
    let s6 = rule_battery(s5, pack, chassis, has_thermal, has_missing);
    let s7 = rule_i2c(s6, pack, chassis, has_thermal, has_missing);
    let s8 = rule_smc(s7, pack, chassis, has_thermal, has_missing);
    let s9 = rule_wireless(s8, pack, chassis, has_thermal, has_missing);
    let s10 = rule_nand(s9, pack, chassis, has_thermal, has_missing);
    let s11 = rule_baseband(s10, pack, chassis, has_thermal, has_missing);
    let s12 = rule_aop(s11, pack, chassis, has_thermal, has_missing);
    let s13 = rule_band(s12, band);
    let s14 = rule_fallback(s13);
    PlanView { a: first_n(s14.a, 10), d: first_n(s14.d, 8), i: first_n(s14.i, 8), p: first_n(s14.p, 8) }
}

/// The text the rules look into: the lowercased log, causes and signatures.
pub open spec fn workflow_pack(log_lc: Seq<char>, causes: Seq<Seq<char>>, sigs: Seq<Seq<char>>) -> Seq<char> {
    log_lc + " | "@ + join(lowered(causes), " | "@) + " | "@ + join(lowered(sigs), " | "@)
}

/// An iPhone 11 chassis, by product type or marketing name.
pub open spec fn iphone11_chassis(device: Seq<char>, marketing: Option<Seq<char>>) -> bool {
    iphone11_ids().contains(lower_seq(trim(device))) || (marketing is Some && seq_contains(
        unicode_lower(marketing.unwrap()),
        "iphone 11"@,
    ) && !seq_contains(unicode_lower(marketing.unwrap()), "iphone 12"@))
}

/// The repair workflow for a diagnosis.
pub open spec fn workflow(
    device: Seq<char>,
    marketing: Option<Seq<char>>,
    causes: Seq<Seq<char>>,
    sigs: Seq<Seq<char>>,
    band: ConfidenceBand,
    log_lc: Seq<char>,
    missing: Seq<Seq<char>>,
) -> PlanView {
    let pack = workflow_pack(log_lc, causes, sigs);
    workflow_rules(
        pack,
        iphone11_chassis(device, marketing),
        exists|j: int| 0 <= j < missing.len() && eq_ci(#[trigger] missing[j], "mic2"@),
        seq_contains(pack, "thermalmonitord"@) || seq_contains(pack, "no successful checkins"@),
        missing.len() > 0 || seq_contains(pack, "missing sensor"@),
        band,
    )
}

fn lowered_exec(v: &[String]) -> (r: Vec<Vec<char>>)
    ensures
        views(r@) == lowered(strs(v@)),
{
    let mut low: Vec<Vec<char>> = Vec::new();
    let mut i: usize = 0;
    while i < v.len()
        invariant
            i <= v.len(),
            views(low@) == lowered(strs(v@)).take(i as int),
        decreases v.len() - i,
    {
        let l = to_lowercase(v[i].as_str());
        let ghost before = views(low@);
        low.push(l);
        assert(views(low@) =~= before.push(unicode_lower(v@[i as int]@)));
        assert(lowered(strs(v@)).take(i + 1) =~= lowered(strs(v@)).take(i as int).push(unicode_lower(v@[i as int]@)));
        i += 1;
    }
    assert(lowered(strs(v@)).take(v.len() as int) =~= lowered(strs(v@)));
    low
}

fn truncate_to(v: &mut Vec<String>, n: usize)
    ensures
        strs(final(v)@) == first_n(strs(old(v)@), n as nat),
{
    if v.len() > n {
        v.truncate(n);
        assert(strs(v@) =~= strs(old(v)@).take(n as int));
    }
}

fn any_mic2(missing: &[String]) -> (r: bool)
    ensures
        r == exists|j: int| 0 <= j < strs(missing@).len() && eq_ci(#[trigger] strs(missing@)[j], "mic2"@),
{
    let mut i: usize = 0;
    while i < missing.len()
        invariant
            i <= missing.len(),
            forall|j: int| 0 <= j < i ==> !eq_ci(#[trigger] strs(missing@)[j], "mic2"@),
        decreases missing.len() - i,
    {
        let c = chars_of(missing[i].as_str());
        if eq_ci_str(&c, "mic2") {
            assert(eq_ci(strs(missing@)[i as int], "mic2"@));
            return true;
        }
        i += 1;
    }
    false
}

fn iphone11_chassis_exec(device: &str, marketing: Option<&str>) -> (r: bool)
    ensures
        r == iphone11_chassis(device@, opt_str_view(marketing)),
{
    let dc = chars_of(device);
    let dt = trim_chars(&dc);
    let dl = lower_chars(&dt);
    if eq_str(&dl, "iphone12,1") || eq_str(&dl, "iphone12,3") || eq_str(&dl, "iphone12,5") {
        assert(iphone11_ids().contains(dl@)) by {
            assert(dl@ == iphone11_ids()[0] || dl@ == iphone11_ids()[1] || dl@ == iphone11_ids()[2]);
        }
        return true;
    }
    assert(!iphone11_ids().contains(dl@)) by {
        if iphone11_ids().contains(dl@) {
            let k = choose|k: int| 0 <= k < iphone11_ids().len() && iphone11_ids()[k] == dl@;
        }
    }
    match marketing {
        Some(m) => {
            let l = to_lowercase(m);
            contains_str(&l, "iphone 11") && !contains_str(&l, "iphone 12")
        },
        None => false,
    }
}

/// The action plan, danger flags, isolation steps and parts for a diagnosis:
/// the device and its marketing name, the cause names and signatures in
/// order, the confidence band, the lowercased log and the missing sensors.
pub fn build_dangerous_workflow(
    device: &str,
    marketing_name: Option<&str>,
    cause_names: &[String],
    signatures: &[String],
    band: ConfidenceBand,
    log_lc: &str,
    missing_sensors: &[String],
) -> (r: WorkflowPlan)
    ensures
        r@ == workflow(
            device@,
            opt_str_view(marketing_name),
            strs(cause_names@),
            strs(signatures@),
            band,
            log_lc@,
            strs(missing_sensors@),
        ),
{
    let cl = lowered_exec(cause_names);
    let sl = lowered_exec(signatures);
    let sep = chars_of(" | ");
    let cj = join_exec(&cl, &sep);
    let sj = join_exec(&sl, &sep);
    let mut pack = chars_of(log_lc);
    pack.extend_from_slice(&sep);
    pack.extend_from_slice(&cj);
    pack.extend_from_slice(&sep);
    pack.extend_from_slice(&sj);
    assert(pack@ =~= workflow_pack(log_lc@, strs(cause_names@), strs(signatures@)));
    let chassis = iphone11_chassis_exec(device, marketing_name);
    let mic2_missing = any_mic2(missing_sensors);
    let has_thermal = contains_str(&pack, "thermalmonitord") || contains_str(&pack, "no successful checkins");
    let has_missing = missing_sensors.len() > 0 || contains_str(&pack, "missing sensor");
    let mut plan = WorkflowPlan {
        action_plan: Vec::new(),
        danger_flags: Vec::new(),
        isolation: Vec::new(),
        parts: Vec::new(),
    };
    assert(plan@.a =~= Seq::<Seq<char>>::empty());
    assert(plan@.d =~= Seq::<Seq<char>>::empty());
    assert(plan@.i =~= Seq::<Seq<char>>::empty());
    assert(plan@.p =~= Seq::<Seq<char>>::empty());
    rule_start_exec(&mut plan);
    rule_sensors_exec(&mut plan, &pack, chassis, has_thermal, has_missing);
    rule_dock_exec(&mut plan, &pack, chassis, has_thermal, has_missing);
    rule_chassis_exec(&mut plan, &pack, chassis, mic2_missing, has_thermal, has_missing);
    rule_earpiece_exec(&mut plan, &pack, chassis, has_thermal, has_missing);
    rule_battery_exec(&mut plan, &pack, chassis, has_thermal, has_missing);
    rule_i2c_exec(&mut plan, &pack, chassis, has_thermal, has_missing);
    rule_smc_exec(&mut plan, &pack, chassis, has_thermal, has_missing);
    rule_wireless_exec(&mut plan, &pack, chassis, has_thermal, has_missing);
    rule_nand_exec(&mut plan, &pack, chassis, has_thermal, has_missing);
    rule_baseband_exec(&mut plan, &pack, chassis, has_thermal, has_missing);
    rule_aop_exec(&mut plan, &pack, chassis, has_thermal, has_missing);
    rule_band_exec(&mut plan, band);
    rule_fallback_exec(&mut plan);
    truncate_to(&mut plan.action_plan, 10);
    truncate_to(&mut plan.danger_flags, 8);
    truncate_to(&mut plan.isolation, 8);
    truncate_to(&mut plan.parts, 8);
    plan
}

/// Leading digits, dots and whitespace of an action-plan step removed.
pub open spec fn strip_step_number(s: Seq<char>) -> Seq<char>
    decreases s.len(),
{
    if s.len() > 0 && (is_digit(s[0]) || s[0] == '.' || is_ws(s[0])) {
        strip_step_number(s.drop_first())
    } else {
        s
    }
}

fn strip_step_number_exec(s: &[char]) -> (r: Vec<char>)
    ensures
        r@ == strip_step_number(s@),
{
    let mut a: usize = 0;
    assert(s@.subrange(0, s.len() as int) =~= s@);
    while a < s.len() && (char_is_digit(s[a]) || s[a] == '.' || char_is_ws(s[a]))
        invariant
            a <= s.len(),
            strip_step_number(s@) == strip_step_number(s@.subrange(a as int, s.len() as int)),
        decreases s.len() - a,
    {
        assert(s@.subrange(a as int, s.len() as int).drop_first() =~= s@.subrange(a + 1, s.len() as int));
        a += 1;
    }
    slice_to_vec(s, a, s.len())
}

/// The first test to run: by the missing sensors, the causes and signatures
/// (lowercased, joined), and the log; else the first step of the action
/// plan; else a second log.
pub open spec fn next_best_test(
    device: Seq<char>,
    causes: Seq<Seq<char>>,
    sigs: Seq<Seq<char>>,
    action_plan: Seq<Seq<char>>,
    missing: Seq<Seq<char>>,
    log_lc: Seq<char>,
) -> Seq<char> {
    let pack = join(lowered(causes) + lowered(sigs), " | "@);
    if missing.contains("mic2"@) && eq_ci(device, "iphone12,1"@) {
        "Tester une nappe bouton power/volume iPhone 11 OEM connue bonne (micro c\u{c3}\u{b4}t\u{c3}\u{a9} flash)."@
    } else if exists|j: int| 0 <= j < missing.len() && (#[trigger] missing[j] == "mic1"@ || missing[j] == "prs0"@
        || starts_with(missing[j], "prs"@)) {
        "Monter une nappe dock/charge OEM ou premium connue bonne avant toute intervention carte m\u{c3}\u{a8}re."@
    } else if (exists|j: int| 0 <= j < missing.len() && (starts_with(#[trigger] missing[j], "tg0"@) || seq_contains(
        missing[j],
        "gauge"@,
    ))) || seq_contains(pack, "gas gauge"@) {
        "Tester batterie connue bonne, puis mesurer lignes BMS/gauge au connecteur batterie."@
    } else if seq_contains(pack, "magsafe"@) || seq_contains(pack, "wireless"@) || (seq_contains(log_lc, "taop"@)
        && seq_contains(log_lc, "taoj"@)) {
        "D\u{c3}\u{a9}brancher/remplacer la nappe Qi/MagSafe puis relancer un boot d\u{e2}\u{20ac}\u{2122}observation."@
    } else if seq_contains(pack, "i2c"@) || seq_contains(log_lc, "scl"@) || seq_contains(log_lc, "sda"@) {
        "Isoler le bus I\u{c2}\u{b2}C : d\u{c3}\u{a9}brancher p\u{c3}\u{a9}riph\u{c3}\u{a9}riques un par un, puis comparer diode SCL/SDA."@
    } else if seq_contains(pack, "ans2"@) || seq_contains(pack, "nand"@) || seq_contains(pack, "no valid cfg"@) {
        "Sauvegarder/extraire les donn\u{c3}\u{a9}es avant restore ; contr\u{c3}\u{b4}ler zone NAND/stockage et interposer."@
    } else if seq_contains(pack, "baseband"@) {
        "Contr\u{c3}\u{b4}ler IMEI/baseband dans iOS, puis alimentation BB/RF avant de conclure carte m\u{c3}\u{a8}re."@
    } else if action_plan.len() > 0 {
        strip_step_number(action_plan[0])
    } else {
        "Importer un second panic-full r\u{c3}\u{a9}cent et refaire l\u{e2}\u{20ac}\u{2122}analyse avec le mod\u{c3}\u{a8}le exact."@
    }
}

fn any_dock_sensor(missing: &[String]) -> (r: bool)
    ensures
        r == exists|j: int| 0 <= j < strs(missing@).len() && (#[trigger] strs(missing@)[j] == "mic1"@
            || strs(missing@)[j] == "prs0"@ || starts_with(strs(missing@)[j], "prs"@)),
{
    let mut i: usize = 0;
    while i < missing.len()
        invariant
            i <= missing.len(),
            forall|j: int| 0 <= j < i ==> !(#[trigger] strs(missing@)[j] == "mic1"@ || strs(missing@)[j] == "prs0"@
                || starts_with(strs(missing@)[j], "prs"@)),
        decreases missing.len() - i,
    {
        let c = chars_of(missing[i].as_str());
        assert(c@ == strs(missing@)[i as int]);
        if eq_str(&c, "mic1") || eq_str(&c, "prs0") || starts_with_str(&c, "prs") {
            return true;
        }
        i += 1;
    }
    false
}

fn any_gauge_sensor(missing: &[String]) -> (r: bool)
    ensures
        r == exists|j: int| 0 <= j < strs(missing@).len() && (starts_with(#[trigger] strs(missing@)[j], "tg0"@)
            || seq_contains(strs(missing@)[j], "gauge"@)),
{
    let mut i: usize = 0;
    while i < missing.len()
        invariant
            i <= missing.len(),
            forall|j: int| 0 <= j < i ==> !(starts_with(#[trigger] strs(missing@)[j], "tg0"@) || seq_contains(
                strs(missing@)[j],
                "gauge"@,
            )),
        decreases missing.len() - i,
    {
        let c = chars_of(missing[i].as_str());
        assert(c@ == strs(missing@)[i as int]);
        if starts_with_str(&c, "tg0") || contains_str(&c, "gauge") {
            return true;
        }
        i += 1;
    }
    false
}

pub fn choose_next_best_test(
    device: &str,
    cause_names: &[String],
    signatures: &[String],
    action_plan: &[String],
    missing_sensors: &[String],
    log_lc: &str,
) -> (r: String)
    ensures
        r@ == next_best_test(
            device@,
            strs(cause_names@),
            strs(signatures@),
            strs(action_plan@),
            strs(missing_sensors@),
            log_lc@,
        ),
{
    let mut all = lowered_exec(cause_names);
    let sl = lowered_exec(signatures);
    let ghost cv = views(all@);
    let mut k: usize = 0;
    while k < sl.len()
        invariant
            k <= sl.len(),
            views(all@) == cv + views(sl@).take(k as int),
        decreases sl.len() - k,
    {
        let ghost before = views(all@);
        let item = slice_to_vec(&sl[k], 0, sl[k].len());
        assert(item@ =~= sl@[k as int]@);
        all.push(item);
        assert(views(all@) =~= before.push(item@));
        assert(views(sl@).take(k + 1) =~= views(sl@).take(k as int).push(sl@[k as int]@));
        assert(views(all@) =~= cv + views(sl@).take(k + 1));
        k += 1;
    }
    assert(views(sl@).take(sl.len() as int) =~= views(sl@));
    let sep = chars_of(" | ");
    let pack = join_exec(&all, &sep);
    let lg = chars_of(log_lc);
    let dc = chars_of(device);
    if missing_has(missing_sensors, "mic2") && eq_ci_str(&dc, "iphone12,1") {
        return owned("Tester une nappe bouton power/volume iPhone 11 OEM connue bonne (micro c\u{c3}\u{b4}t\u{c3}\u{a9} flash).");
    }
    if any_dock_sensor(missing_sensors) {
        return owned("Monter une nappe dock/charge OEM ou premium connue bonne avant toute intervention carte m\u{c3}\u{a8}re.");
    }
    if any_gauge_sensor(missing_sensors) || contains_str(&pack, "gas gauge") {
        return owned("Tester batterie connue bonne, puis mesurer lignes BMS/gauge au connecteur batterie.");
    }
    if contains_str(&pack, "magsafe") || contains_str(&pack, "wireless") || (contains_str(&lg, "taop") && contains_str(
        &lg,
        "taoj",
    )) {
        return owned("D\u{c3}\u{a9}brancher/remplacer la nappe Qi/MagSafe puis relancer un boot d\u{e2}\u{20ac}\u{2122}observation.");
    }
    if contains_str(&pack, "i2c") || contains_str(&lg, "scl") || contains_str(&lg, "sda") {
        return owned("Isoler le bus I\u{c2}\u{b2}C : d\u{c3}\u{a9}brancher p\u{c3}\u{a9}riph\u{c3}\u{a9}riques un par un, puis comparer diode SCL/SDA.");
    }
    if contains_str(&pack, "ans2") || contains_str(&pack, "nand") || contains_str(&pack, "no valid cfg") {
        return owned("Sauvegarder/extraire les donn\u{c3}\u{a9}es avant restore ; contr\u{c3}\u{b4}ler zone NAND/stockage et interposer.");
    }
    if contains_str(&pack, "baseband") {
        return owned("Contr\u{c3}\u{b4}ler IMEI/baseband dans iOS, puis alimentation BB/RF avant de conclure carte m\u{c3}\u{a8}re.");
    }
    if action_plan.len() > 0 {
        let f = chars_of(action_plan[0].as_str());
        let t = strip_step_number_exec(&f);
        return string_of(&t);
    }
    owned("Importer un second panic-full r\u{c3}\u{a9}cent et refaire l\u{e2}\u{20ac}\u{2122}analyse avec le mod\u{c3}\u{a8}le exact.")
}

/// The first step of every action plan: save the customer's data.
pub open spec fn backup_step() -> Seq<char> {
    "0. Sauvegarde client si l\u{e2}\u{20ac}\u{2122}iPhone tient."@
}

/// No list of the plan holds an item twice, and the action plan opens with
/// the backup step.
pub open spec fn plan_sound(pl: PlanView) -> bool {
    &&& pl.a.no_duplicates()
    &&& pl.d.no_duplicates()
    &&& pl.i.no_duplicates()
    &&& pl.p.no_duplicates()
    &&& pl.a.len() > 0
    &&& pl.a[0] == backup_step()
}

proof fn lemma_push_unique_first(s: Seq<Seq<char>>, x: Seq<char>)
    requires
        s.len() > 0,
    ensures
        push_unique(s, x).len() > 0,
        push_unique(s, x)[0] == s[0],
{
}

broadcast proof fn lemma_add_to_sound(pl: PlanView, which: int, x: Seq<char>)
    requires
        plan_sound(pl),
    ensures
        #[trigger] plan_sound(add_to(pl, which, x)),
{
    lemma_push_unique_distinct(pl.a, x);
    lemma_push_unique_distinct(pl.d, x);
    lemma_push_unique_distinct(pl.i, x);
    lemma_push_unique_distinct(pl.p, x);
    lemma_push_unique_first(pl.a, x);
}

proof fn lemma_first_n_distinct(s: Seq<Seq<char>>, n: nat)
    requires
        s.no_duplicates(),
    ensures
        first_n(s, n).no_duplicates(),
        first_n(s, n).len() <= n,
{
    if s.len() > n {
        let t = s.take(n as int);
        assert forall|i: int, j: int| 0 <= i < t.len() && 0 <= j < t.len() && i != j implies t[i] != t[j] by {
            assert(t[i] == s[i] && t[j] == s[j]);
        }
    }
}

proof fn lemma_rule_sensors_sound(pl: PlanView, pack: Seq<char>, chassis: bool, th: bool, ms: bool)
    requires
        plan_sound(pl),
    ensures
        plan_sound(rule_sensors(pl, pack, chassis, th, ms)),
{
    broadcast use lemma_add_to_sound;
}

proof fn lemma_rule_dock_sound(pl: PlanView, pack: Seq<char>, chassis: bool, th: bool, ms: bool)
    requires
        plan_sound(pl),
    ensures
        plan_sound(rule_dock(pl, pack, chassis, th, ms)),
{
    broadcast use lemma_add_to_sound;
}

proof fn lemma_rule_earpiece_sound(pl: PlanView, pack: Seq<char>, chassis: bool, th: bool, ms: bool)
    requires
        plan_sound(pl),
    ensures
        plan_sound(rule_earpiece(pl, pack, chassis, th, ms)),
{
    broadcast use lemma_add_to_sound;
}

proof fn lemma_rule_battery_sound(pl: PlanView, pack: Seq<char>, chassis: bool, th: bool, ms: bool)
    requires
        plan_sound(pl),
    ensures
        plan_sound(rule_battery(pl, pack, chassis, th, ms)),
{
    broadcast use lemma_add_to_sound;
}

proof fn lemma_rule_i2c_sound(pl: PlanView, pack: Seq<char>, chassis: bool, th: bool, ms: bool)
    requires
        plan_sound(pl),
    ensures
        plan_sound(rule_i2c(pl, pack, chassis, th, ms)),
{
    broadcast use lemma_add_to_sound;
}

proof fn lemma_rule_smc_sound(pl: PlanView, pack: Seq<char>, chassis: bool, th: bool, ms: bool)
    requires
        plan_sound(pl),
    ensures
        plan_sound(rule_smc(pl, pack, chassis, th, ms)),
{
    broadcast use lemma_add_to_sound;
}

proof fn lemma_rule_wireless_sound(pl: PlanView, pack: Seq<char>, chassis: bool, th: bool, ms: bool)
    requires
        plan_sound(pl),
    ensures
        plan_sound(rule_wireless(pl, pack, chassis, th, ms)),
{
    broadcast use lemma_add_to_sound;
}

proof fn lemma_rule_nand_sound(pl: PlanView, pack: Seq<char>, chassis: bool, th: bool, ms: bool)
    requires
        plan_sound(pl),
    ensures
        plan_sound(rule_nand(pl, pack, chassis, th, ms)),
{
    broadcast use lemma_add_to_sound;
}

proof fn lemma_rule_baseband_sound(pl: PlanView, pack: Seq<char>, chassis: bool, th: bool, ms: bool)
    requires
        plan_sound(pl),
    ensures
        plan_sound(rule_baseband(pl, pack, chassis, th, ms)),
{
    broadcast use lemma_add_to_sound;
}

proof fn lemma_rule_aop_sound(pl: PlanView, pack: Seq<char>, chassis: bool, th: bool, ms: bool)
    requires
        plan_sound(pl),
    ensures
        plan_sound(rule_aop(pl, pack, chassis, th, ms)),
{
    broadcast use lemma_add_to_sound;
}

proof fn lemma_rule_chassis_sound(pl: PlanView, pack: Seq<char>, chassis: bool, mic2: bool, th: bool, ms: bool)
    requires
        plan_sound(pl),
    ensures
        plan_sound(rule_chassis(pl, pack, chassis, mic2, th, ms)),
{
    broadcast use lemma_add_to_sound;
}

proof fn lemma_rule_band_sound(pl: PlanView, band: ConfidenceBand)
    requires
        plan_sound(pl),
    ensures
        plan_sound(rule_band(pl, band)),
{
    broadcast use lemma_add_to_sound;
}

proof fn lemma_rule_fallback_sound(pl: PlanView)
    requires
        plan_sound(pl),
    ensures
        plan_sound(rule_fallback(pl)),
{
    broadcast use lemma_add_to_sound;
}

/// The repair workflow lists at most ten actions and at most eight danger
/// flags, isolation steps and parts, none of them twice, and its action plan
/// always opens with the backup of the customer's data.
#[verifier::spinoff_prover]
pub proof fn law_workflow_bounded_distinct(
    device: Seq<char>,
    marketing: Option<Seq<char>>,
    causes: Seq<Seq<char>>,
    sigs: Seq<Seq<char>>,
    band: ConfidenceBand,
    log_lc: Seq<char>,
    missing: Seq<Seq<char>>,
)
    ensures
        workflow(device, marketing, causes, sigs, band, log_lc, missing).a.len() <= 10,
        workflow(device, marketing, causes, sigs, band, log_lc, missing).d.len() <= 8,
        workflow(device, marketing, causes, sigs, band, log_lc, missing).i.len() <= 8,
        workflow(device, marketing, causes, sigs, band, log_lc, missing).p.len() <= 8,
        plan_sound(workflow(device, marketing, causes, sigs, band, log_lc, missing)),
{
    let pack = workflow_pack(log_lc, causes, sigs);
    let chassis = iphone11_chassis(device, marketing);
    let mic2 = exists|j: int| 0 <= j < missing.len() && eq_ci(#[trigger] missing[j], "mic2"@);
    let th = seq_contains(pack, "thermalmonitord"@) || seq_contains(pack, "no successful checkins"@);
    let ms = missing.len() > 0 || seq_contains(pack, "missing sensor"@);
    let s0 = PlanView { a: Seq::empty(), d: Seq::empty(), i: Seq::empty(), p: Seq::empty() };
    let s1 = rule_start(s0);
    let e: Seq<Seq<char>> = Seq::empty();
    let a1 = push_unique(e, backup_step());
    assert(!e.contains(backup_step()));
    assert(a1 =~= seq![backup_step()]);
    lemma_push_unique_distinct(a1, "1. Utiliser le panic-full le plus r\u{c3}\u{a9}cent."@);
    lemma_push_unique_first(a1, "1. Utiliser le panic-full le plus r\u{c3}\u{a9}cent."@);
    assert(plan_sound(s1)) by {
        broadcast use lemma_add_to_sound;
    }
    let s2 = rule_sensors(s1, pack, chassis, th, ms);
    lemma_rule_sensors_sound(s1, pack, chassis, th, ms);
    let s3 = rule_dock(s2, pack, chassis, th, ms);
    lemma_rule_dock_sound(s2, pack, chassis, th, ms);
    let s4 = rule_chassis(s3, pack, chassis, mic2, th, ms);
    lemma_rule_chassis_sound(s3, pack, chassis, mic2, th, ms);
    let s5 = rule_earpiece(s4, pack, chassis, th, ms);
    lemma_rule_earpiece_sound(s4, pack, chassis, th, ms);
    let s6 = rule_battery(s5, pack, chassis, th, ms);
    lemma_rule_battery_sound(s5, pack, chassis, th, ms);
    let s7 = rule_i2c(s6, pack, chassis, th, ms);
    lemma_rule_i2c_sound(s6, pack, chassis, th, ms);
    let s8 = rule_smc(s7, pack, chassis, th, ms);
    lemma_rule_smc_sound(s7, pack, chassis, th, ms);
    let s9 = rule_wireless(s8, pack, chassis, th, ms);
    lemma_rule_wireless_sound(s8, pack, chassis, th, ms);
    let s10 = rule_nand(s9, pack, chassis, th, ms);
    lemma_rule_nand_sound(s9, pack, chassis, th, ms);
    let s11 = rule_baseband(s10, pack, chassis, th, ms);
    lemma_rule_baseband_sound(s10, pack, chassis, th, ms);
    let s12 = rule_aop(s11, pack, chassis, th, ms);
    lemma_rule_aop_sound(s11, pack, chassis, th, ms);
    let s13 = rule_band(s12, band);
    lemma_rule_band_sound(s12, band);
    let s14 = rule_fallback(s13);
    lemma_rule_fallback_sound(s13);
    assert(plan_sound(s14));
    lemma_first_n_distinct(s14.a, 10);
    lemma_first_n_distinct(s14.d, 8);
    lemma_first_n_distinct(s14.i, 8);
    lemma_first_n_distinct(s14.p, 8);
    assert(first_n(s14.a, 10)[0] == s14.a[0]);
}

// ---------------------------------------------------------------------------
// Cause names that repeat one another
// ---------------------------------------------------------------------------
/// Whether an incoming cause name repeats a kept one: the shorter name (by
/// bytes; the incoming one on a tie), lowercased, is at least 32 bytes long
/// and the other name, lowercased, contains it.
pub open spec fn names_redundant(incoming: Seq<char>, kept: Seq<char>) -> bool {
    let il = unicode_lower(incoming);
    let kl = unicode_lower(kept);
    if byte_len(incoming) <= byte_len(kept) {
        byte_len(il) >= 32 && seq_contains(kl, il)
    } else {
        byte_len(kl) >= 32 && seq_contains(il, kl)
    }
}

/// The first kept name, from `j` on, that `c` repeats.
pub open spec fn first_redundant(kept: Seq<Seq<char>>, c: Seq<char>, j: int) -> Option<int>
    decreases kept.len() - j,
{
    if j < 0 || j >= kept.len() {
        None
    } else if names_redundant(c, kept[j]) {
        Some(j)
    } else {
        first_redundant(kept, c, j + 1)
    }
}

/// Names taken in order (highest confidence first): each one that repeats a
/// kept name merges into the first such name, which takes the longer text;
/// any other is kept. With, for each name, the index of the kept name it
/// merged into, or none when it was kept.
pub open spec fn merged_names(names: Seq<Seq<char>>) -> (Seq<Seq<char>>, Seq<Option<int>>)
    decreases names.len(),
{
    if names.len() == 0 {
        (Seq::empty(), Seq::empty())
    } else {
        let (kept, t) = merged_names(names.drop_last());
        let c = names.last();
        match first_redundant(kept, c, 0) {
            Some(j) => (
                if byte_len(c) > byte_len(kept[j]) {
                    kept.update(j, c)
                } else {
                    kept
                },
                t.push(Some(j)),
            ),
            None => (kept.push(c), t.push(None)),
        }
    }
}

pub open spec fn target_views(v: Seq<Option<usize>>) -> Seq<Option<int>> {
    v.map_values(|o: Option<usize>| match o {
        Some(x) => Some(x as int),
        None => None,
    })
}

fn byte_count(s: &[char]) -> (r: u128)
    ensures
        r == byte_len(s@),
{
    let mut acc: u128 = 0;
    let mut i: usize = 0;
    assert(s@.take(0) =~= Seq::<char>::empty());
    while i < s.len()
        invariant
            i <= s.len(),
            acc == byte_len(s@.take(i as int)),
            acc <= 4 * i,
        decreases s.len() - i,
    {
        assert(s@.take(i + 1).drop_last() =~= s@.take(i as int));
        let c = s[i] as u32;
        let w: u128 = if c < 0x80 {
            1
        } else if c < 0x800 {
            2
        } else if c < 0x10000 {
            3
        } else {
            4
        };
        acc = acc + w;
        i += 1;
    }
    assert(s@.take(s.len() as int) =~= s@);
    acc
}

/// Whether `incoming` repeats `kept` (`names_redundant`).
pub fn cause_names_redundant(incoming: &str, kept: &str) -> (r: bool)
    ensures
        r == names_redundant(incoming@, kept@),
{
    let ic = chars_of(incoming);
    let kc = chars_of(kept);
    let il = to_lowercase(incoming);
    let kl = to_lowercase(kept);
    if byte_count(&ic) <= byte_count(&kc) {
        !byte_len_below(&il, 32) && contains(&kl, &il)
    } else {
        !byte_len_below(&kl, 32) && contains(&il, &kl)
    }
}

/// The merge of cause names that repeat one another (`merged_names`): the
/// names kept, and for each name the index of the kept name it merged
/// into, or none when it was kept.
pub fn merge_redundant_names(names: &[String]) -> (r: (Vec<String>, Vec<Option<usize>>))
    ensures
        strs(r.0@) == merged_names(strs(names@)).0,
        target_views(r.1@) == merged_names(strs(names@)).1,
{
    let mut kept: Vec<String> = Vec::new();
    let mut targets: Vec<Option<usize>> = Vec::new();
    let mut i: usize = 0;
    assert(strs(names@).take(0) =~= Seq::<Seq<char>>::empty());
    while i < names.len()
        invariant
            i <= names.len(),
            strs(kept@) == merged_names(strs(names@).take(i as int)).0,
            target_views(targets@) == merged_names(strs(names@).take(i as int)).1,
            kept@.len() <= i,
        decreases names.len() - i,
    {
        let ghost pre = strs(names@).take(i as int);
        assert(strs(names@).take(i + 1).drop_last() =~= pre);
        assert(strs(names@).take(i + 1).last() == names@[i as int]@);
        let c = names[i].as_str();
        let mut j: usize = 0;
        let mut found: Option<usize> = None;
        while j < kept.len()
            invariant_except_break
                found is None,
            invariant
                j <= kept.len(),
                first_redundant(strs(kept@), c@, 0) == first_redundant(strs(kept@), c@, j as int),
            ensures
                match found {
                    Some(x) => x < kept.len() && first_redundant(strs(kept@), c@, 0) == Some(x as int),
                    None => first_redundant(strs(kept@), c@, 0) is None,
                },
            decreases kept.len() - j,
        {
            if cause_names_redundant(c, kept[j].as_str()) {
                found = Some(j);
                break;
            }
            j += 1;
        }
        let ghost k0 = strs(kept@);
        let ghost t0 = target_views(targets@);
        match found {
            Some(j) => {
                assert(first_redundant(k0, c@, 0) == Some(j as int));
                let longer = byte_count(&chars_of(c)) > byte_count(&chars_of(kept[j].as_str()));
                if longer {
                    kept.set(j, owned(c));
                    assert(strs(kept@) =~= k0.update(j as int, c@));
                }
                targets.push(Some(j));
                assert(target_views(targets@) =~= t0.push(Some(j as int)));
            },
            None => {
                assert(first_redundant(k0, c@, 0) is None);
                kept.push(owned(c));
                assert(strs(kept@) =~= k0.push(c@));
                targets.push(None);
                assert(target_views(targets@) =~= t0.push(None));
            },
        }
        i += 1;
    }
    assert(strs(names@).take(names.len() as int) =~= strs(names@));
    (kept, targets)
}

proof fn lemma_first_family(pack: Seq<char>, rules: Seq<(Seq<char>, Seq<char>)>, k: int)
    requires
        0 <= k <= rules.len(),
        forall|j: int| 0 <= j < k ==> !seq_contains(pack, #[trigger] rules[j].0),
    ensures
        k < rules.len() && seq_contains(pack, rules[k].0) ==> first_family(pack, rules) == Some(rules[k].1),
        k == rules.len() ==> first_family(pack, rules) is None,
    decreases k,
{
    if k > 0 {
        let t = rules.drop_first();
        assert forall|j: int| 0 <= j < k - 1 implies !seq_contains(pack, #[trigger] t[j].0) by {
            assert(t[j] == rules[j + 1]);
        }
        assert(!seq_contains(pack, rules[0].0));
        lemma_first_family(pack, t, k - 1);
        if k < rules.len() {
            assert(t[k - 1] == rules[k]);
        }
    }
}

/// The family of a panic comes first from the signatures: when a family
/// needle occurs in them (lowercased, joined by spaces), the family is that
/// of the first rule whose needle occurs, whatever the `bug_type` code.
pub proof fn law_family_from_first_needle(f: FieldsView, normalized: Seq<Seq<char>>, k: int)
    requires
        0 <= k < family_rules().len(),
        seq_contains(join(lowered(normalized), " "@), family_rules()[k].0),
        forall|j: int| 0 <= j < k ==> !seq_contains(join(lowered(normalized), " "@), #[trigger] family_rules()[j].0),
    ensures
        panic_family(f, normalized) == family_rules()[k].1,
{
    lemma_first_family(join(lowered(normalized), " "@), family_rules(), k);
}

/// When no family needle occurs in the signatures and the `bug_type` code
/// has a label, the family is `bug_`, the code, `_` and the label with its
/// spaces as underscores, whatever the signatures are.
pub proof fn law_family_from_bug_type(f: FieldsView, normalized: Seq<Seq<char>>, code: Seq<char>, label: Seq<char>)
    requires
        forall|j: int| 0 <= j < family_rules().len() ==> !seq_contains(join(lowered(normalized), " "@), #[trigger] family_rules()[j].0),
        f.bug_type == Some(code),
        bug_type_name(code) == Some(label),
    ensures
        panic_family(f, normalized) == "bug_"@ + code + "_"@ + label.map_values(|c: char| if c == ' ' { '_' } else { c }),
{
    lemma_first_family(join(lowered(normalized), " "@), family_rules(), family_rules().len() as int);
    assert(underscored(label, false) =~= label.map_values(|c: char| if c == ' ' { '_' } else { c }));
}

/// Without a family needle in the signatures and without a labelled
/// `bug_type` code, the family is the first signature lowercased with its
/// spaces, slashes and dashes as underscores; without signatures, an
/// unclassified panic string when a preview was read, else unknown.
pub proof fn law_family_fallbacks(f: FieldsView, normalized: Seq<Seq<char>>)
    requires
        forall|j: int| 0 <= j < family_rules().len() ==> !seq_contains(join(lowered(normalized), " "@), #[trigger] family_rules()[j].0),
        !(f.bug_type is Some && bug_type_name(f.bug_type.unwrap()) is Some),
    ensures
        normalized.len() > 0 ==> panic_family(f, normalized) == unicode_lower(
            normalized[0].map_values(|c: char| if c == ' ' || c == '/' || c == '-' { '_' } else { c }),
        ),
        normalized.len() == 0 && f.preview is Some ==> panic_family(f, normalized) == "unclassified_panicstring"@,
        normalized.len() == 0 && f.preview is None ==> panic_family(f, normalized) == "unknown"@,
{
    lemma_first_family(join(lowered(normalized), " "@), family_rules(), family_rules().len() as int);
    if normalized.len() > 0 {
        assert(underscored(normalized[0], true) =~= normalized[0].map_values(
            |c: char| if c == ' ' || c == '/' || c == '-' { '_' } else { c },
        ));
    }
}

} // verus!
