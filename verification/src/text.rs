//! Character-level text toolkit: the model of a string is its `Seq<char>`.
use vstd::prelude::*;

verus! {

broadcast use vstd::string::group_string_axioms;

// ---------------------------------------------------------------------------
// Character classes
// ---------------------------------------------------------------------------
/// ASCII lowercase of one character.
pub open spec fn lower_ascii(c: char) -> char {
    if 'A' <= c && c <= 'Z' {
        ((c as u32) + 32) as char
    } else {
        c
    }
}

/// The Unicode `White_Space` property (what `char::is_whitespace` tests).
pub open spec fn is_ws(c: char) -> bool {
    ||| ('\t' <= c && c <= '\r')
    ||| c == ' '
    ||| c == '\u{85}'
    ||| c == '\u{a0}'
    ||| c == '\u{1680}'
    ||| ('\u{2000}' <= c && c <= '\u{200a}')
    ||| c == '\u{2028}'
    ||| c == '\u{2029}'
    ||| c == '\u{202f}'
    ||| c == '\u{205f}'
    ||| c == '\u{3000}'
}

pub open spec fn is_digit(c: char) -> bool {
    '0' <= c && c <= '9'
}

pub open spec fn is_hex_digit(c: char) -> bool {
    is_digit(c) || ('a' <= c && c <= 'f') || ('A' <= c && c <= 'F')
}

pub open spec fn is_alnum(c: char) -> bool {
    is_digit(c) || ('a' <= c && c <= 'z') || ('A' <= c && c <= 'Z')
}

pub fn char_lower_ascii(c: char) -> (r: char)
    ensures
        r == lower_ascii(c),
{
    match c {
        'A' => 'a',
        'B' => 'b',
        'C' => 'c',
        'D' => 'd',
        'E' => 'e',
        'F' => 'f',
        'G' => 'g',
        'H' => 'h',
        'I' => 'i',
        'J' => 'j',
        'K' => 'k',
        'L' => 'l',
        'M' => 'm',
        'N' => 'n',
        'O' => 'o',
        'P' => 'p',
        'Q' => 'q',
        'R' => 'r',
        'S' => 's',
        'T' => 't',
        'U' => 'u',
        'V' => 'v',
        'W' => 'w',
        'X' => 'x',
        'Y' => 'y',
        'Z' => 'z',
        _ => c,
    }
}

pub fn char_is_ws(c: char) -> (r: bool)
    ensures
        r == is_ws(c),
{
    ('\t' <= c && c <= '\r') || c == ' ' || c == '\u{85}' || c == '\u{a0}' || c == '\u{1680}' || (
    '\u{2000}' <= c && c <= '\u{200a}') || c == '\u{2028}' || c == '\u{2029}' || c == '\u{202f}'
        || c == '\u{205f}' || c == '\u{3000}'
}

pub fn char_is_digit(c: char) -> (r: bool)
    ensures
        r == is_digit(c),
{
    '0' <= c && c <= '9'
}

pub fn char_is_hex_digit(c: char) -> (r: bool)
    ensures
        r == is_hex_digit(c),
{
    ('0' <= c && c <= '9') || ('a' <= c && c <= 'f') || ('A' <= c && c <= 'F')
}

pub fn char_is_alnum(c: char) -> (r: bool)
    ensures
        r == is_alnum(c),
{
    ('0' <= c && c <= '9') || ('a' <= c && c <= 'z') || ('A' <= c && c <= 'Z')
}

// ---------------------------------------------------------------------------
// Strings as character sequences
// ---------------------------------------------------------------------------
/// The characters of a string, in order.
pub fn chars_of(s: &str) -> (v: Vec<char>)
    ensures
        v@ == s@,
{
    let mut v: Vec<char> = Vec::new();
    for c in it: s.chars()
        invariant
            v@ == it.seq().take(it.index() as int),
            it.seq() == s@,
    {
        v.push(c);
    }
    v
}

/// Appends one character to a string.
#[verifier::external_body]
pub fn push_char(s: &mut String, c: char)
    ensures
        final(s)@ == old(s)@.push(c),
{
    s.push(c);
}

/// A string holding exactly the given characters.
pub fn string_of(v: &[char]) -> (s: String)
    ensures
        s@ == v@,
{
    let mut s = String::new();
    let mut i: usize = 0;
    while i < v.len()
        invariant
            i <= v.len(),
            s@ == v@.subrange(0, i as int),
        decreases v.len() - i,
    {
        push_char(&mut s, v[i]);
        assert(v@.subrange(0, i + 1) == v@.subrange(0, i as int).push(v@[i as int]));
        i += 1;
    }
    assert(v@.subrange(0, v.len() as int) == v@);
    s
}

/// A string holding exactly the characters of a literal.
pub fn owned(s: &str) -> (r: String)
    ensures
        r@ == s@,
{
    let v = chars_of(s);
    string_of(&v)
}

/// Appends the characters of `t` to `s`.
pub fn push_str(s: &mut String, t: &str)
    ensures
        final(s)@ == old(s)@ + t@,
{
    let v = chars_of(t);
    push_chars(s, &v);
}

/// Appends characters to `s`.
pub fn push_chars(s: &mut String, v: &[char])
    ensures
        final(s)@ == old(s)@ + v@,
{
    let ghost s0 = s@;
    let mut i: usize = 0;
    while i < v.len()
        invariant
            i <= v.len(),
            s@ == s0 + v@.subrange(0, i as int),
        decreases v.len() - i,
    {
        push_char(s, v[i]);
        assert(v@.subrange(0, i + 1) == v@.subrange(0, i as int).push(v@[i as int]));
        i += 1;
    }
    assert(v@.subrange(0, v.len() as int) == v@);
}

/// Unicode lowercasing as `str::to_lowercase` performs it.
pub uninterp spec fn unicode_lower(s: Seq<char>) -> Seq<char>;

/// Calls `str::to_lowercase`; the result is named by `unicode_lower`.
#[verifier::external_body]
pub fn to_lowercase(s: &str) -> (r: Vec<char>)
    ensures
        r@ == unicode_lower(s@),
{
    s.to_lowercase().chars().collect()
}

// ---------------------------------------------------------------------------
// ASCII lowercasing
// ---------------------------------------------------------------------------
pub open spec fn lower_seq(s: Seq<char>) -> Seq<char> {
    s.map_values(|c: char| lower_ascii(c))
}

pub fn lower_chars(s: &[char]) -> (r: Vec<char>)
    ensures
        r@ == lower_seq(s@),
{
    let mut r: Vec<char> = Vec::new();
    let mut i: usize = 0;
    while i < s.len()
        invariant
            i <= s.len(),
            r@ == lower_seq(s@.subrange(0, i as int)),
        decreases s.len() - i,
    {
        let c = char_lower_ascii(s[i]);
        r.push(c);
        assert(lower_seq(s@.subrange(0, i + 1)) == lower_seq(s@.subrange(0, i as int)).push(
            lower_ascii(s@[i as int]),
        ));
        i += 1;
    }
    assert(s@.subrange(0, s.len() as int) == s@);
    r
}

/// ASCII-case-insensitive equality (`eq_ignore_ascii_case`).
pub open spec fn eq_ci(a: Seq<char>, b: Seq<char>) -> bool {
    lower_seq(a) == lower_seq(b)
}

pub fn chars_eq_ci(a: &[char], b: &[char]) -> (r: bool)
    ensures
        r == eq_ci(a@, b@),
{
    if a.len() != b.len() {
        assert(lower_seq(a@).len() != lower_seq(b@).len());
        return false;
    }
    let mut i: usize = 0;
    while i < a.len()
        invariant
            a.len() == b.len(),
            i <= a.len(),
            forall|j: int| 0 <= j < i ==> lower_ascii(#[trigger] a@[j]) == lower_ascii(b@[j]),
        decreases a.len() - i,
    {
        if char_lower_ascii(a[i]) != char_lower_ascii(b[i]) {
            assert(lower_seq(a@)[i as int] != lower_seq(b@)[i as int]);
            return false;
        }
        i += 1;
    }
    assert(lower_seq(a@) =~= lower_seq(b@));
    true
}

pub fn chars_eq(a: &[char], b: &[char]) -> (r: bool)
    ensures
        r == (a@ == b@),
{
    if a.len() != b.len() {
        return false;
    }
    let mut i: usize = 0;
    while i < a.len()
        invariant
            a.len() == b.len(),
            i <= a.len(),
            forall|j: int| 0 <= j < i ==> #[trigger] a@[j] == b@[j],
        decreases a.len() - i,
    {
        if a[i] != b[i] {
            return false;
        }
        i += 1;
    }
    assert(a@ =~= b@);
    true
}

// ---------------------------------------------------------------------------
// Substring search
// ---------------------------------------------------------------------------
/// `needle` occurs in `hay` starting at index `i`.
pub open spec fn occurs_at(hay: Seq<char>, needle: Seq<char>, i: int) -> bool {
    0 <= i && i + needle.len() <= hay.len() && hay.subrange(i, i + needle.len()) == needle
}

/// `needle` occurs somewhere in `hay` (`str::contains`).
pub open spec fn seq_contains(hay: Seq<char>, needle: Seq<char>) -> bool {
    exists|i: int| occurs_at(hay, needle, i)
}

pub open spec fn starts_with(s: Seq<char>, p: Seq<char>) -> bool {
    occurs_at(s, p, 0)
}

pub open spec fn ends_with(s: Seq<char>, p: Seq<char>) -> bool {
    p.len() <= s.len() && occurs_at(s, p, s.len() - p.len())
}

pub fn occurs_at_exec(hay: &[char], needle: &[char], i: usize) -> (r: bool)
    ensures
        r == occurs_at(hay@, needle@, i as int),
{
    if i > hay.len() || needle.len() > hay.len() - i {
        return false;
    }
    let mut k: usize = 0;
    while k < needle.len()
        invariant
            i + needle.len() <= hay.len(),
            k <= needle.len(),
            forall|j: int| 0 <= j < k ==> #[trigger] needle@[j] == hay@[i + j],
        decreases needle.len() - k,
    {
        if hay[i + k] != needle[k] {
            assert(hay@.subrange(i as int, i + needle.len())[k as int] != needle@[k as int]);
            return false;
        }
        k += 1;
    }
    assert(hay@.subrange(i as int, i + needle.len()) =~= needle@);
    true
}

/// First occurrence of `needle` in `hay` at an index `>= from`.
pub fn find_from(hay: &[char], needle: &[char], from: usize) -> (r: Option<usize>)
    ensures
        match r {
            Some(i) => from <= i && occurs_at(hay@, needle@, i as int) && forall|j: int|
                from <= j < i ==> !occurs_at(hay@, needle@, j),
            None => forall|j: int| from <= j ==> !occurs_at(hay@, needle@, j),
        },
{
    if needle.len() > hay.len() {
        return None;
    }
    let last = hay.len() - needle.len();
    let mut i = from;
    while i <= last
        invariant
            last == hay.len() - needle.len(),
            from <= i,
            forall|j: int| from <= j < i ==> !occurs_at(hay@, needle@, j),
        decreases last + 1 - i,
    {
        if occurs_at_exec(hay, needle, i) {
            return Some(i);
        }
        if i == last {
            assert forall|j: int| from <= j implies !occurs_at(hay@, needle@, j) by {
                if j > last {
                    assert(j + needle.len() > hay.len());
                }
            }
            return None;
        }
        i += 1;
    }
    None
}

pub fn contains(hay: &[char], needle: &[char]) -> (r: bool)
    ensures
        r == seq_contains(hay@, needle@),
{
    match find_from(hay, needle, 0) {
        Some(i) => true,
        None => false,
    }
}

/// `contains` with a string literal as needle.
pub fn contains_str(hay: &[char], needle: &str) -> (r: bool)
    ensures
        r == seq_contains(hay@, needle@),
{
    let n = chars_of(needle);
    contains(hay, &n)
}

pub fn starts_with_str(s: &[char], p: &str) -> (r: bool)
    ensures
        r == starts_with(s@, p@),
{
    let n = chars_of(p);
    occurs_at_exec(s, &n, 0)
}

pub fn ends_with_str(s: &[char], p: &str) -> (r: bool)
    ensures
        r == ends_with(s@, p@),
{
    let n = chars_of(p);
    if n.len() > s.len() {
        return false;
    }
    occurs_at_exec(s, &n, s.len() - n.len())
}

pub fn eq_str(s: &[char], t: &str) -> (r: bool)
    ensures
        r == (s@ == t@),
{
    let n = chars_of(t);
    chars_eq(s, &n)
}

pub fn eq_ci_str(s: &[char], t: &str) -> (r: bool)
    ensures
        r == eq_ci(s@, t@),
{
    let n = chars_of(t);
    chars_eq_ci(s, &n)
}

// ---------------------------------------------------------------------------
// Trimming
// ---------------------------------------------------------------------------
pub open spec fn trim_start(s: Seq<char>) -> Seq<char>
    decreases s.len(),
{
    if s.len() > 0 && is_ws(s[0]) {
        trim_start(s.drop_first())
    } else {
        s
    }
}

pub open spec fn trim_end(s: Seq<char>) -> Seq<char>
    decreases s.len(),
{
    if s.len() > 0 && is_ws(s.last()) {
        trim_end(s.drop_last())
    } else {
        s
    }
}

/// What `str::trim` leaves.
pub open spec fn trim(s: Seq<char>) -> Seq<char> {
    trim_end(trim_start(s))
}

/// Bounds `(a, b)` of `trim(s)` within `s`.
pub fn trim_bounds(s: &[char]) -> (r: (usize, usize))
    ensures
        r.0 <= r.1 <= s.len(),
        s@.subrange(r.0 as int, r.1 as int) == trim(s@),
{
    let mut a: usize = 0;
    assert(s@.subrange(0, s.len() as int) =~= s@);
    while a < s.len() && char_is_ws(s[a])
        invariant
            a <= s.len(),
            trim_start(s@) == trim_start(s@.subrange(a as int, s.len() as int)),
        decreases s.len() - a,
    {
        assert(s@.subrange(a as int, s.len() as int).drop_first() =~= s@.subrange(
            a + 1,
            s.len() as int,
        ));
        a += 1;
    }
    assert(s@.subrange(0, s.len() as int) =~= s@);
    let ghost ts = s@.subrange(a as int, s.len() as int);
    assert(trim_start(ts) == ts);
    let mut b: usize = s.len();
    while b > a && char_is_ws(s[b - 1])
        invariant
            a <= b <= s.len(),
            trim_end(ts) == trim_end(s@.subrange(a as int, b as int)),
        decreases b - a,
    {
        assert(s@.subrange(a as int, b as int).drop_last() =~= s@.subrange(a as int, b - 1));
        b -= 1;
    }
    (a, b)
}

pub fn trim_chars(s: &[char]) -> (r: Vec<char>)
    ensures
        r@ == trim(s@),
{
    let (a, b) = trim_bounds(s);
    slice_to_vec(s, a, b)
}

/// A copy of `s[a..b]`.
pub fn slice_to_vec(s: &[char], a: usize, b: usize) -> (r: Vec<char>)
    requires
        a <= b <= s.len(),
    ensures
        r@ == s@.subrange(a as int, b as int),
{
    let mut r: Vec<char> = Vec::new();
    let mut i = a;
    while i < b
        invariant
            a <= i <= b <= s.len(),
            r@ == s@.subrange(a as int, i as int),
        decreases b - i,
    {
        r.push(s[i]);
        assert(s@.subrange(a as int, i + 1) == s@.subrange(a as int, i as int).push(s@[i as int]));
        i += 1;
    }
    r
}

// ---------------------------------------------------------------------------
// Lines (`str::lines`)
// ---------------------------------------------------------------------------
/// Index of the first `'\n'` at or after `i`, or `s.len()`.
pub open spec fn next_nl(s: Seq<char>, i: int) -> int
    decreases s.len() - i,
{
    if i >= s.len() {
        s.len() as int
    } else if s[i] == '\n' {
        i
    } else {
        next_nl(s, i + 1)
    }
}

pub open spec fn strip_cr(p: Seq<char>) -> Seq<char> {
    if p.len() > 0 && p.last() == '\r' {
        p.drop_last()
    } else {
        p
    }
}

/// The lines of `s` from index `i` on.
pub open spec fn lines_from(s: Seq<char>, i: int) -> Seq<Seq<char>>
    decreases s.len() - i,
{
    if i < 0 || i >= s.len() {
        Seq::empty()
    } else {
        proof {
            lemma_next_nl_bounds(s, i);
        }
        let j = next_nl(s, i);
        if j < s.len() {
            seq![strip_cr(s.subrange(i, j))] + lines_from(s, j + 1)
        } else {
            seq![s.subrange(i, s.len() as int)]
        }
    }
}

/// What `str::lines` yields.
pub open spec fn lines(s: Seq<char>) -> Seq<Seq<char>> {
    lines_from(s, 0)
}

pub proof fn lemma_next_nl_bounds(s: Seq<char>, i: int)
    requires
        0 <= i,
    ensures
        i <= next_nl(s, i) || i >= s.len(),
        next_nl(s, i) <= s.len(),
        next_nl(s, i) < s.len() ==> s[next_nl(s, i)] == '\n',
        forall|k: int| i <= k < next_nl(s, i) ==> s[k] != '\n',
    decreases s.len() - i,
{
    if i < s.len() && s[i] != '\n' {
        lemma_next_nl_bounds(s, i + 1);
    }
}

pub open spec fn views(v: Seq<Vec<char>>) -> Seq<Seq<char>> {
    v.map_values(|x: Vec<char>| x@)
}

pub fn split_lines(s: &[char]) -> (r: Vec<Vec<char>>)
    ensures
        views(r@) == lines(s@),
{
    let mut out: Vec<Vec<char>> = Vec::new();
    let mut i: usize = 0;
    while i < s.len()
        invariant
            i <= s.len(),
            views(out@) + lines_from(s@, i as int) == lines(s@),
        decreases s.len() - i,
    {
        let mut j = i;
        while j < s.len() && s[j] != '\n'
            invariant
                i <= j <= s.len(),
                next_nl(s@, i as int) == next_nl(s@, j as int),
            decreases s.len() - j,
        {
            j += 1;
        }
        let ghost old_out = out@;
        if j < s.len() {
            let mut piece = slice_to_vec(s, i, j);
            if piece.len() > 0 && piece[piece.len() - 1] == '\r' {
                piece.pop();
            }
            out.push(piece);
            assert(views(out@) == views(old_out).push(strip_cr(s@.subrange(i as int, j as int))));
            i = j + 1;
        } else {
            let piece = slice_to_vec(s, i, j);
            out.push(piece);
            assert(views(out@) == views(old_out).push(s@.subrange(i as int, s.len() as int)));
            i = j;
        }
    }
    assert(views(out@) + lines_from(s@, i as int) == views(out@));
    out
}

// ---------------------------------------------------------------------------
// Numbers
// ---------------------------------------------------------------------------
pub open spec fn digit_value(c: char) -> nat {
    if is_digit(c) {
        ((c as u32) - ('0' as u32)) as nat
    } else if 'a' <= c && c <= 'f' {
        ((c as u32) - ('a' as u32) + 10) as nat
    } else if 'A' <= c && c <= 'F' {
        ((c as u32) - ('A' as u32) + 10) as nat
    } else {
        0
    }
}

/// Value of a digit string read in base `b`.
pub open spec fn num_value(s: Seq<char>, b: nat) -> nat
    decreases s.len(),
{
    if s.len() == 0 {
        0
    } else {
        num_value(s.drop_last(), b) * b + digit_value(s.last())
    }
}

pub open spec fn all_digits(s: Seq<char>) -> bool {
    forall|i: int| 0 <= i < s.len() ==> is_digit(#[trigger] s[i])
}

pub open spec fn all_hex_digits(s: Seq<char>) -> bool {
    forall|i: int| 0 <= i < s.len() ==> is_hex_digit(#[trigger] s[i])
}

/// What `str::parse::<u64>` accepts and returns: an optional `+`, then one or
/// more ASCII digits whose value fits in 64 bits.
pub open spec fn parse_u64_spec(s: Seq<char>) -> Option<u64> {
    let d = if s.len() > 0 && s[0] == '+' {
        s.drop_first()
    } else {
        s
    };
    if d.len() > 0 && all_digits(d) && num_value(d, 10) <= u64::MAX {
        Some(num_value(d, 10) as u64)
    } else {
        None
    }
}

/// What `u64::from_str_radix(_, 16)` returns: an optional `+`, then one or
/// more hexadecimal digits whose value fits in 64 bits.
pub open spec fn parse_hex_u64_spec(s: Seq<char>) -> Option<u64> {
    let d = if s.len() > 0 && s[0] == '+' {
        s.drop_first()
    } else {
        s
    };
    if d.len() > 0 && all_hex_digits(d) && num_value(d, 16) <= u64::MAX {
        Some(num_value(d, 16) as u64)
    } else {
        None
    }
}

pub proof fn lemma_num_value_monotone(s: Seq<char>, b: nat, i: int)
    requires
        0 <= i <= s.len(),
        b >= 1,
    ensures
        num_value(s.subrange(0, i), b) <= num_value(s, b),
    decreases s.len() - i,
{
    if i < s.len() {
        lemma_num_value_monotone(s, b, i + 1);
        let t = s.subrange(0, i + 1);
        assert(t.drop_last() == s.subrange(0, i));
        let x = num_value(s.subrange(0, i), b);
        assert(x * b >= x) by (nonlinear_arith)
            requires
                b >= 1,
        ;
    } else {
        assert(s.subrange(0, i) == s);
    }
}

/// Reads digits of base `b` (10 or 16); `None` when the value exceeds 64 bits.
fn read_digits(d: &[char], b: u64) -> (r: Option<u64>)
    requires
        b == 10 || b == 16,
    ensures
        r == (if num_value(d@, b as nat) <= u64::MAX {
            Some(num_value(d@, b as nat) as u64)
        } else {
            None::<u64>
        }),
{
    let mut acc: u64 = 0;
    let mut i: usize = 0;
    while i < d.len()
        invariant
            b == 10 || b == 16,
            i <= d.len(),
            acc as nat == num_value(d@.subrange(0, i as int), b as nat),
        decreases d.len() - i,
    {
        let ghost pre = d@.subrange(0, i as int);
        assert(d@.subrange(0, i + 1).drop_last() == pre);
        let dv: u64 = digit_value_exec(d[i]);
        let lim: u64 = (u64::MAX - dv) / b;
        if acc > lim {
            proof {
                assert(acc * b + dv > u64::MAX) by (nonlinear_arith)
                    requires
                        acc > lim,
                        lim as int == (u64::MAX as int - dv as int) / (b as int),
                        b >= 10,
                        dv <= 15,
                ;
                lemma_num_value_monotone(d@, b as nat, i + 1);
            }
            return None;
        }
        proof {
            assert(acc * b + dv <= u64::MAX) by (nonlinear_arith)
                requires
                    acc <= lim,
                    lim as int == (u64::MAX as int - dv as int) / (b as int),
                    b >= 10,
                    dv <= 15,
            ;
        }
        acc = acc * b + dv;
        i += 1;
    }
    assert(d@.subrange(0, d.len() as int) == d@);
    Some(acc)
}

pub(crate) fn digit_value_exec(c: char) -> (r: u64)
    ensures
        r == digit_value(c),
        r <= 15,
{
    if '0' <= c && c <= '9' {
        (c as u64) - ('0' as u64)
    } else if 'a' <= c && c <= 'f' {
        (c as u64) - ('a' as u64) + 10
    } else if 'A' <= c && c <= 'F' {
        (c as u64) - ('A' as u64) + 10
    } else {
        0
    }
}

/// `str::parse::<u64>`.
pub fn parse_u64(s: &[char]) -> (r: Option<u64>)
    ensures
        r == parse_u64_spec(s@),
{
    let start: usize = if s.len() > 0 && s[0] == '+' {
        1
    } else {
        0
    };
    let d = slice_to_vec(s, start, s.len());
    assert(start == 1 ==> d@ == s@.drop_first());
    assert(start == 0 ==> d@ == s@);
    if d.len() == 0 {
        return None;
    }
    let mut i: usize = 0;
    while i < d.len()
        invariant
            i <= d.len(),
            d@ == (if s@.len() > 0 && s@[0] == '+' {
                s@.drop_first()
            } else {
                s@
            }),
            forall|j: int| 0 <= j < i ==> is_digit(#[trigger] d@[j]),
        decreases d.len() - i,
    {
        if !char_is_digit(d[i]) {
            assert(!is_digit(d@[i as int]));
            assert(!all_digits(d@));
            return None;
        }
        i += 1;
    }
    read_digits(&d, 10)
}

/// `u64::from_str_radix(_, 16)`.
pub fn parse_hex_u64(s: &[char]) -> (r: Option<u64>)
    ensures
        r == parse_hex_u64_spec(s@),
{
    let start: usize = if s.len() > 0 && s[0] == '+' {
        1
    } else {
        0
    };
    let d = slice_to_vec(s, start, s.len());
    assert(start == 1 ==> d@ == s@.drop_first());
    assert(start == 0 ==> d@ == s@);
    if d.len() == 0 {
        return None;
    }
    let mut i: usize = 0;
    while i < d.len()
        invariant
            i <= d.len(),
            d@ == (if s@.len() > 0 && s@[0] == '+' {
                s@.drop_first()
            } else {
                s@
            }),
            forall|j: int| 0 <= j < i ==> is_hex_digit(#[trigger] d@[j]),
        decreases d.len() - i,
    {
        if !char_is_hex_digit(d[i]) {
            assert(!is_hex_digit(d@[i as int]));
            assert(!all_hex_digits(d@));
            return None;
        }
        i += 1;
    }
    read_digits(&d, 16)
}

// ---------------------------------------------------------------------------
// Case-insensitive matching as the `(?i)` flag of a regular expression does
// ---------------------------------------------------------------------------
/// `c` matches the ASCII literal character `lit` under Unicode simple case
/// folding (`k` also folds with U+212A, `s` with U+017F).
pub open spec fn ci_char(c: char, lit: char) -> bool {
    ||| lower_ascii(c) == lower_ascii(lit)
    ||| (lower_ascii(lit) == 's' && c == '\u{17f}')
    ||| (lower_ascii(lit) == 'k' && c == '\u{212a}')
}

/// The literal `lit` matches case-insensitively at index `p` of `s`.
pub open spec fn ci_at(s: Seq<char>, lit: Seq<char>, p: int) -> bool {
    &&& 0 <= p
    &&& p + lit.len() <= s.len()
    &&& forall|k: int| 0 <= k < lit.len() ==> ci_char(#[trigger] s[p + k], lit[k])
}

pub fn ci_char_exec(c: char, lit: char) -> (r: bool)
    ensures
        r == ci_char(c, lit),
{
    let a = char_lower_ascii(c);
    let b = char_lower_ascii(lit);
    a == b || (b == 's' && c == '\u{17f}') || (b == 'k' && c == '\u{212a}')
}

pub fn ci_at_exec(s: &[char], lit: &[char], p: usize) -> (r: bool)
    ensures
        r == ci_at(s@, lit@, p as int),
{
    if p > s.len() || lit.len() > s.len() - p {
        return false;
    }
    let mut k: usize = 0;
    while k < lit.len()
        invariant
            p + lit.len() <= s.len(),
            k <= lit.len(),
            forall|j: int| 0 <= j < k ==> ci_char(#[trigger] s@[p + j], lit@[j]),
        decreases lit.len() - k,
    {
        if !ci_char_exec(s[p + k], lit[k]) {
            return false;
        }
        k += 1;
    }
    true
}

/// End of the run of whitespace of `s` that starts at `i`.
pub open spec fn ws_run_end(s: Seq<char>, i: int) -> int
    decreases s.len() - i,
{
    if 0 <= i < s.len() && is_ws(s[i]) {
        ws_run_end(s, i + 1)
    } else {
        i
    }
}

pub proof fn lemma_ws_run_end(s: Seq<char>, i: int)
    requires
        0 <= i <= s.len(),
    ensures
        i <= ws_run_end(s, i) <= s.len(),
        forall|k: int| i <= k < ws_run_end(s, i) ==> is_ws(#[trigger] s[k]),
        ws_run_end(s, i) < s.len() ==> !is_ws(s[ws_run_end(s, i)]),
    decreases s.len() - i,
{
    if i < s.len() && is_ws(s[i]) {
        lemma_ws_run_end(s, i + 1);
    }
}

pub fn ws_run_end_exec(s: &[char], i: usize) -> (r: usize)
    requires
        i <= s.len(),
    ensures
        r as int == ws_run_end(s@, i as int),
        i <= r <= s.len(),
{
    let mut j = i;
    while j < s.len() && char_is_ws(s[j])
        invariant
            i <= j <= s.len(),
            ws_run_end(s@, i as int) == ws_run_end(s@, j as int),
        decreases s.len() - j,
    {
        j += 1;
    }
    j
}

// ---------------------------------------------------------------------------
// Sequences of strings
// ---------------------------------------------------------------------------
pub open spec fn strs(v: Seq<String>) -> Seq<Seq<char>> {
    v.map_values(|x: String| x@)
}

pub open spec fn push_unique(acc: Seq<Seq<char>>, x: Seq<char>) -> Seq<Seq<char>> {
    if acc.contains(x) {
        acc
    } else {
        acc.push(x)
    }
}

/// `acc` extended by the items of `xs` that it does not hold yet, first
/// occurrence first.
pub open spec fn add_unique(acc: Seq<Seq<char>>, xs: Seq<Seq<char>>) -> Seq<Seq<char>> {
    xs.fold_left(acc, |a: Seq<Seq<char>>, x: Seq<char>| push_unique(a, x))
}

pub fn vec_contains_chars(v: &Vec<Vec<char>>, x: &[char]) -> (r: bool)
    ensures
        r == views(v@).contains(x@),
{
    let mut i: usize = 0;
    while i < v.len()
        invariant
            i <= v.len(),
            forall|j: int| 0 <= j < i ==> views(v@)[j] != x@,
        decreases v.len() - i,
    {
        if chars_eq(&v[i], x) {
            assert(views(v@)[i as int] == x@);
            return true;
        }
        i += 1;
    }
    false
}

pub fn push_unique_exec(v: &mut Vec<Vec<char>>, x: Vec<char>)
    ensures
        views(final(v)@) == push_unique(views(old(v)@), x@),
{
    if !vec_contains_chars(v, &x) {
        let ghost old_v = v@;
        v.push(x);
        assert(views(v@) == views(old_v).push(x@));
    }
}

pub fn add_unique_exec(v: &mut Vec<Vec<char>>, xs: &Vec<Vec<char>>)
    ensures
        views(final(v)@) == add_unique(views(old(v)@), views(xs@)),
{
    let ghost v0 = views(v@);
    let mut i: usize = 0;
    while i < xs.len()
        invariant
            i <= xs.len(),
            views(v@) == add_unique(v0, views(xs@).take(i as int)),
        decreases xs.len() - i,
    {
        assert(views(xs@).take(i + 1).drop_last() == views(xs@).take(i as int));
        push_unique_exec(v, xs[i].clone());
        i += 1;
    }
    assert(views(xs@).take(xs.len() as int) == views(xs@));
}

pub fn strings_of(v: &Vec<Vec<char>>) -> (r: Vec<String>)
    ensures
        strs(r@) == views(v@),
{
    let mut r: Vec<String> = Vec::new();
    let mut i: usize = 0;
    while i < v.len()
        invariant
            i <= v.len(),
            strs(r@) == views(v@).take(i as int),
        decreases v.len() - i,
    {
        let s = string_of(&v[i]);
        let ghost old_r = r@;
        r.push(s);
        assert(strs(r@) == strs(old_r).push(v@[i as int]@));
        assert(views(v@).take(i + 1) == views(v@).take(i as int).push(v@[i as int]@));
        i += 1;
    }
    assert(views(v@).take(v.len() as int) == views(v@));
    r
}

pub fn chars_of_strings(v: &[String]) -> (r: Vec<Vec<char>>)
    ensures
        views(r@) == strs(v@),
{
    let mut r: Vec<Vec<char>> = Vec::new();
    let mut i: usize = 0;
    while i < v.len()
        invariant
            i <= v.len(),
            views(r@) == strs(v@).take(i as int),
        decreases v.len() - i,
    {
        let c = chars_of(v[i].as_str());
        let ghost old_r = r@;
        r.push(c);
        assert(views(r@) == views(old_r).push(v@[i as int]@));
        assert(strs(v@).take(i + 1) == strs(v@).take(i as int).push(v@[i as int]@));
        i += 1;
    }
    assert(strs(v@).take(v.len() as int) == strs(v@));
    r
}

/// The Unicode `Decimal_Number` category (what `\\d` matches in a regular
/// expression with Unicode enabled).
pub open spec fn is_unicode_digit(c: char) -> bool {
    ||| ('\u{30}' <= c && c <= '\u{39}')
    ||| ('\u{660}' <= c && c <= '\u{669}')
    ||| ('\u{6f0}' <= c && c <= '\u{6f9}')
    ||| ('\u{7c0}' <= c && c <= '\u{7c9}')
    ||| ('\u{966}' <= c && c <= '\u{96f}')
    ||| ('\u{9e6}' <= c && c <= '\u{9ef}')
    ||| ('\u{a66}' <= c && c <= '\u{a6f}')
    ||| ('\u{ae6}' <= c && c <= '\u{aef}')
    ||| ('\u{b66}' <= c && c <= '\u{b6f}')
    ||| ('\u{be6}' <= c && c <= '\u{bef}')
    ||| ('\u{c66}' <= c && c <= '\u{c6f}')
    ||| ('\u{ce6}' <= c && c <= '\u{cef}')
    ||| ('\u{d66}' <= c && c <= '\u{d6f}')
    ||| ('\u{de6}' <= c && c <= '\u{def}')
    ||| ('\u{e50}' <= c && c <= '\u{e59}')
    ||| ('\u{ed0}' <= c && c <= '\u{ed9}')
    ||| ('\u{f20}' <= c && c <= '\u{f29}')
    ||| ('\u{1040}' <= c && c <= '\u{1049}')
    ||| ('\u{1090}' <= c && c <= '\u{1099}')
    ||| ('\u{17e0}' <= c && c <= '\u{17e9}')
    ||| ('\u{1810}' <= c && c <= '\u{1819}')
    ||| ('\u{1946}' <= c && c <= '\u{194f}')
    ||| ('\u{19d0}' <= c && c <= '\u{19d9}')
    ||| ('\u{1a80}' <= c && c <= '\u{1a89}')
    ||| ('\u{1a90}' <= c && c <= '\u{1a99}')
    ||| ('\u{1b50}' <= c && c <= '\u{1b59}')
    ||| ('\u{1bb0}' <= c && c <= '\u{1bb9}')
    ||| ('\u{1c40}' <= c && c <= '\u{1c49}')
    ||| ('\u{1c50}' <= c && c <= '\u{1c59}')
    ||| ('\u{a620}' <= c && c <= '\u{a629}')
    ||| ('\u{a8d0}' <= c && c <= '\u{a8d9}')
    ||| ('\u{a900}' <= c && c <= '\u{a909}')
    ||| ('\u{a9d0}' <= c && c <= '\u{a9d9}')
    ||| ('\u{a9f0}' <= c && c <= '\u{a9f9}')
    ||| ('\u{aa50}' <= c && c <= '\u{aa59}')
    ||| ('\u{abf0}' <= c && c <= '\u{abf9}')
    ||| ('\u{ff10}' <= c && c <= '\u{ff19}')
    ||| ('\u{104a0}' <= c && c <= '\u{104a9}')
    ||| ('\u{10d30}' <= c && c <= '\u{10d39}')
    ||| ('\u{10d40}' <= c && c <= '\u{10d49}')
    ||| ('\u{11066}' <= c && c <= '\u{1106f}')
    ||| ('\u{110f0}' <= c && c <= '\u{110f9}')
    ||| ('\u{11136}' <= c && c <= '\u{1113f}')
    ||| ('\u{111d0}' <= c && c <= '\u{111d9}')
    ||| ('\u{112f0}' <= c && c <= '\u{112f9}')
    ||| ('\u{11450}' <= c && c <= '\u{11459}')
    ||| ('\u{114d0}' <= c && c <= '\u{114d9}')
    ||| ('\u{11650}' <= c && c <= '\u{11659}')
    ||| ('\u{116c0}' <= c && c <= '\u{116c9}')
    ||| ('\u{116d0}' <= c && c <= '\u{116e3}')
    ||| ('\u{11730}' <= c && c <= '\u{11739}')
    ||| ('\u{118e0}' <= c && c <= '\u{118e9}')
    ||| ('\u{11950}' <= c && c <= '\u{11959}')
    ||| ('\u{11bf0}' <= c && c <= '\u{11bf9}')
    ||| ('\u{11c50}' <= c && c <= '\u{11c59}')
    ||| ('\u{11d50}' <= c && c <= '\u{11d59}')
    ||| ('\u{11da0}' <= c && c <= '\u{11da9}')
    ||| ('\u{11f50}' <= c && c <= '\u{11f59}')
    ||| ('\u{16130}' <= c && c <= '\u{16139}')
    ||| ('\u{16a60}' <= c && c <= '\u{16a69}')
    ||| ('\u{16ac0}' <= c && c <= '\u{16ac9}')
    ||| ('\u{16b50}' <= c && c <= '\u{16b59}')
    ||| ('\u{16d70}' <= c && c <= '\u{16d79}')
    ||| ('\u{1ccf0}' <= c && c <= '\u{1ccf9}')
    ||| ('\u{1d7ce}' <= c && c <= '\u{1d7ff}')
    ||| ('\u{1e140}' <= c && c <= '\u{1e149}')
    ||| ('\u{1e2f0}' <= c && c <= '\u{1e2f9}')
    ||| ('\u{1e4f0}' <= c && c <= '\u{1e4f9}')
    ||| ('\u{1e5f1}' <= c && c <= '\u{1e5fa}')
    ||| ('\u{1e950}' <= c && c <= '\u{1e959}')
    ||| ('\u{1fbf0}' <= c && c <= '\u{1fbf9}')
}

pub fn char_is_unicode_digit(c: char) -> (r: bool)
    ensures
        r == is_unicode_digit(c),
{
    ('\u{30}' <= c && c <= '\u{39}') ||
    ('\u{660}' <= c && c <= '\u{669}') ||
    ('\u{6f0}' <= c && c <= '\u{6f9}') ||
    ('\u{7c0}' <= c && c <= '\u{7c9}') ||
    ('\u{966}' <= c && c <= '\u{96f}') ||
    ('\u{9e6}' <= c && c <= '\u{9ef}') ||
    ('\u{a66}' <= c && c <= '\u{a6f}') ||
    ('\u{ae6}' <= c && c <= '\u{aef}') ||
    ('\u{b66}' <= c && c <= '\u{b6f}') ||
    ('\u{be6}' <= c && c <= '\u{bef}') ||
    ('\u{c66}' <= c && c <= '\u{c6f}') ||
    ('\u{ce6}' <= c && c <= '\u{cef}') ||
    ('\u{d66}' <= c && c <= '\u{d6f}') ||
    ('\u{de6}' <= c && c <= '\u{def}') ||
    ('\u{e50}' <= c && c <= '\u{e59}') ||
    ('\u{ed0}' <= c && c <= '\u{ed9}') ||
    ('\u{f20}' <= c && c <= '\u{f29}') ||
    ('\u{1040}' <= c && c <= '\u{1049}') ||
    ('\u{1090}' <= c && c <= '\u{1099}') ||
    ('\u{17e0}' <= c && c <= '\u{17e9}') ||
    ('\u{1810}' <= c && c <= '\u{1819}') ||
    ('\u{1946}' <= c && c <= '\u{194f}') ||
    ('\u{19d0}' <= c && c <= '\u{19d9}') ||
    ('\u{1a80}' <= c && c <= '\u{1a89}') ||
    ('\u{1a90}' <= c && c <= '\u{1a99}') ||
    ('\u{1b50}' <= c && c <= '\u{1b59}') ||
    ('\u{1bb0}' <= c && c <= '\u{1bb9}') ||
    ('\u{1c40}' <= c && c <= '\u{1c49}') ||
    ('\u{1c50}' <= c && c <= '\u{1c59}') ||
    ('\u{a620}' <= c && c <= '\u{a629}') ||
    ('\u{a8d0}' <= c && c <= '\u{a8d9}') ||
    ('\u{a900}' <= c && c <= '\u{a909}') ||
    ('\u{a9d0}' <= c && c <= '\u{a9d9}') ||
    ('\u{a9f0}' <= c && c <= '\u{a9f9}') ||
    ('\u{aa50}' <= c && c <= '\u{aa59}') ||
    ('\u{abf0}' <= c && c <= '\u{abf9}') ||
    ('\u{ff10}' <= c && c <= '\u{ff19}') ||
    ('\u{104a0}' <= c && c <= '\u{104a9}') ||
    ('\u{10d30}' <= c && c <= '\u{10d39}') ||
    ('\u{10d40}' <= c && c <= '\u{10d49}') ||
    ('\u{11066}' <= c && c <= '\u{1106f}') ||
    ('\u{110f0}' <= c && c <= '\u{110f9}') ||
    ('\u{11136}' <= c && c <= '\u{1113f}') ||
    ('\u{111d0}' <= c && c <= '\u{111d9}') ||
    ('\u{112f0}' <= c && c <= '\u{112f9}') ||
    ('\u{11450}' <= c && c <= '\u{11459}') ||
    ('\u{114d0}' <= c && c <= '\u{114d9}') ||
    ('\u{11650}' <= c && c <= '\u{11659}') ||
    ('\u{116c0}' <= c && c <= '\u{116c9}') ||
    ('\u{116d0}' <= c && c <= '\u{116e3}') ||
    ('\u{11730}' <= c && c <= '\u{11739}') ||
    ('\u{118e0}' <= c && c <= '\u{118e9}') ||
    ('\u{11950}' <= c && c <= '\u{11959}') ||
    ('\u{11bf0}' <= c && c <= '\u{11bf9}') ||
    ('\u{11c50}' <= c && c <= '\u{11c59}') ||
    ('\u{11d50}' <= c && c <= '\u{11d59}') ||
    ('\u{11da0}' <= c && c <= '\u{11da9}') ||
    ('\u{11f50}' <= c && c <= '\u{11f59}') ||
    ('\u{16130}' <= c && c <= '\u{16139}') ||
    ('\u{16a60}' <= c && c <= '\u{16a69}') ||
    ('\u{16ac0}' <= c && c <= '\u{16ac9}') ||
    ('\u{16b50}' <= c && c <= '\u{16b59}') ||
    ('\u{16d70}' <= c && c <= '\u{16d79}') ||
    ('\u{1ccf0}' <= c && c <= '\u{1ccf9}') ||
    ('\u{1d7ce}' <= c && c <= '\u{1d7ff}') ||
    ('\u{1e140}' <= c && c <= '\u{1e149}') ||
    ('\u{1e2f0}' <= c && c <= '\u{1e2f9}') ||
    ('\u{1e4f0}' <= c && c <= '\u{1e4f9}') ||
    ('\u{1e5f1}' <= c && c <= '\u{1e5fa}') ||
    ('\u{1e950}' <= c && c <= '\u{1e959}') ||
    ('\u{1fbf0}' <= c && c <= '\u{1fbf9}')
}

/// Items joined with a separator between consecutive items.
pub open spec fn join(parts: Seq<Seq<char>>, sep: Seq<char>) -> Seq<char>
    decreases parts.len(),
{
    if parts.len() == 0 {
        Seq::empty()
    } else if parts.len() == 1 {
        parts[0]
    } else {
        join(parts.drop_last(), sep) + sep + parts.last()
    }
}

pub fn join_exec(parts: &Vec<Vec<char>>, sep: &[char]) -> (r: Vec<char>)
    ensures
        r@ == join(views(parts@), sep@),
{
    let mut r: Vec<char> = Vec::new();
    let mut i: usize = 0;
    while i < parts.len()
        invariant
            i <= parts.len(),
            r@ == join(views(parts@).take(i as int), sep@),
        decreases parts.len() - i,
    {
        let ghost ps = views(parts@).take(i + 1);
        assert(ps.drop_last() =~= views(parts@).take(i as int));
        if i > 0 {
            r.extend_from_slice(sep);
        }
        r.extend_from_slice(&parts[i]);
        assert(i == 0 ==> r@ =~= ps[0]);
        i += 1;
    }
    assert(views(parts@).take(parts.len() as int) =~= views(parts@));
    r
}


/// Strings joined with a separator.
pub fn join_strings(parts: &[String], sep: &str) -> (r: Vec<char>)
    ensures
        r@ == join(strs(parts@), sep@),
{
    let ps = chars_of_strings(parts);
    let sp = chars_of(sep);
    join_exec(&ps, &sp)
}

/// Hexadecimal digit for a value below 16 (`{:x}` style).
pub open spec fn hex_digit(n: nat) -> char {
    if n < 10 {
        ((n as u32) + ('0' as u32)) as char
    } else {
        ((n as u32) - 10 + ('a' as u32)) as char
    }
}

/// `{:x}` of a number: lowercase hexadecimal without leading zeros.
pub open spec fn hex_text(n: nat) -> Seq<char>
    decreases n,
{
    if n < 16 {
        seq![hex_digit(n)]
    } else {
        hex_text(n / 16) + seq![hex_digit(n % 16)]
    }
}

/// `{}` of a number: decimal without leading zeros.
pub open spec fn dec_text(n: nat) -> Seq<char>
    decreases n,
{
    if n < 10 {
        seq![hex_digit(n)]
    } else {
        dec_text(n / 10) + seq![hex_digit(n % 10)]
    }
}

pub fn hex_digit_exec(n: u64) -> (c: char)
    requires
        n < 16,
    ensures
        c == hex_digit(n as nat),
{
    match n {
        0 => '0',
        1 => '1',
        2 => '2',
        3 => '3',
        4 => '4',
        5 => '5',
        6 => '6',
        7 => '7',
        8 => '8',
        9 => '9',
        10 => 'a',
        11 => 'b',
        12 => 'c',
        13 => 'd',
        14 => 'e',
        _ => 'f',
    }
}

/// Digits of `n` in base `b` (10 or 16), most significant first.
fn base_text(n: u64, b: u64) -> (r: Vec<char>)
    requires
        b == 10 || b == 16,
    ensures
        b == 16 ==> r@ == hex_text(n as nat),
        b == 10 ==> r@ == dec_text(n as nat),
    decreases n,
{
    if n < b {
        let c = hex_digit_exec(n);
        let mut v: Vec<char> = Vec::new();
        v.push(c);
        v
    } else {
        let mut v = base_text(n / b, b);
        let c = hex_digit_exec(n % b);
        v.push(c);
        v
    }
}

pub fn hex_text_exec(n: u64) -> (r: Vec<char>)
    ensures
        r@ == hex_text(n as nat),
{
    base_text(n, 16)
}

pub fn dec_text_exec(n: u64) -> (r: Vec<char>)
    ensures
        r@ == dec_text(n as nat),
{
    base_text(n, 10)
}

/// Appends the characters of a string literal.
pub fn append_str(v: &mut Vec<char>, s: &str)
    ensures
        final(v)@ == old(v)@ + s@,
{
    let c = chars_of(s);
    v.extend_from_slice(&c);
}

/// Appends characters.
pub fn append_chars(v: &mut Vec<char>, s: &[char])
    ensures
        final(v)@ == old(v)@ + s@,
{
    v.extend_from_slice(s);
}

/// Number of bytes that a character takes in UTF-8.
pub open spec fn utf8_width(c: char) -> nat {
    if (c as u32) < 0x80 {
        1
    } else if (c as u32) < 0x800 {
        2
    } else if (c as u32) < 0x10000 {
        3
    } else {
        4
    }
}

/// Number of bytes of the UTF-8 encoding (`str::len`).
pub open spec fn byte_len(s: Seq<char>) -> nat
    decreases s.len(),
{
    if s.len() == 0 {
        0
    } else {
        byte_len(s.drop_last()) + utf8_width(s.last())
    }
}

pub proof fn lemma_byte_len_prefix(s: Seq<char>, i: int)
    requires
        0 <= i <= s.len(),
    ensures
        byte_len(s.take(i)) <= byte_len(s),
    decreases s.len() - i,
{
    if i < s.len() {
        lemma_byte_len_prefix(s, i + 1);
        assert(s.take(i + 1).drop_last() =~= s.take(i));
    } else {
        assert(s.take(i) =~= s);
    }
}

/// `byte_len(s) < limit`, stopping early.
pub fn byte_len_below(s: &[char], limit: usize) -> (r: bool)
    ensures
        r == (byte_len(s@) < limit),
{
    if limit == 0 {
        return false;
    }
    let mut acc: usize = 0;
    let mut i: usize = 0;
    assert(s@.take(0) =~= Seq::<char>::empty());
    while i < s.len()
        invariant
            i <= s.len(),
            acc as nat == byte_len(s@.take(i as int)),
            acc < limit,
        decreases s.len() - i,
    {
        assert(s@.take(i + 1).drop_last() =~= s@.take(i as int));
        let c = s[i] as u32;
        let w: usize = if c < 0x80 {
            1
        } else if c < 0x800 {
            2
        } else if c < 0x10000 {
            3
        } else {
            4
        };
        if w >= limit - acc {
            proof {
                lemma_byte_len_prefix(s@, i + 1);
            }
            return false;
        }
        acc = acc + w;
        i += 1;
    }
    assert(s@.take(s.len() as int) =~= s@);
    true
}

pub open spec fn opt_view(o: Option<String>) -> Option<Seq<char>> {
    match o {
        Some(s) => Some(s@),
        None => None,
    }
}

pub open spec fn opt_strs(o: Option<Vec<String>>) -> Option<Seq<Seq<char>>> {
    match o {
        Some(v) => Some(strs(v@)),
        None => None,
    }
}

/// Some list with at least one item.
pub open spec fn nonempty_list(o: Option<Seq<Seq<char>>>) -> bool {
    o is Some && o.unwrap().len() > 0
}

/// Uppercasing as `str::to_uppercase` performs it.
pub uninterp spec fn unicode_upper(s: Seq<char>) -> Seq<char>;

/// Calls `str::to_uppercase`; the result is named by `unicode_upper`.
#[verifier::external_body]
pub fn to_uppercase(s: &str) -> (r: Vec<char>)
    ensures
        r@ == unicode_upper(s@),
{
    s.to_uppercase().chars().collect()
}

/// `s` without its leading copies of `c` (`trim_start_matches(c)`).
pub open spec fn strip_leading(s: Seq<char>, c: char) -> Seq<char>
    decreases s.len(),
{
    if s.len() > 0 && s[0] == c {
        strip_leading(s.drop_first(), c)
    } else {
        s
    }
}

pub fn strip_leading_exec(s: &[char], c: char) -> (r: Vec<char>)
    ensures
        r@ == strip_leading(s@, c),
{
    let mut a: usize = 0;
    assert(s@.subrange(0, s.len() as int) =~= s@);
    while a < s.len() && s[a] == c
        invariant
            a <= s.len(),
            strip_leading(s@, c) == strip_leading(s@.subrange(a as int, s.len() as int), c),
        decreases s.len() - a,
    {
        assert(s@.subrange(a as int, s.len() as int).drop_first() =~= s@.subrange(a + 1, s.len() as int));
        a += 1;
    }
    slice_to_vec(s, a, s.len())
}

/// End of the word of `s` that starts at `i` (first whitespace or the end).
pub open spec fn word_end(s: Seq<char>, i: int) -> int
    decreases s.len() - i,
{
    if i < 0 || i >= s.len() || is_ws(s[i]) {
        i
    } else {
        word_end(s, i + 1)
    }
}

pub proof fn lemma_word_end(s: Seq<char>, i: int)
    requires
        0 <= i <= s.len(),
    ensures
        i <= word_end(s, i) <= s.len(),
        i < s.len() && !is_ws(s[i]) ==> i < word_end(s, i),
    decreases s.len() - i,
{
    if i < s.len() && !is_ws(s[i]) {
        lemma_word_end(s, i + 1);
    }
}

/// The words of `s` from index `i` on (`split_whitespace`).
pub open spec fn words_from(s: Seq<char>, i: int) -> Seq<Seq<char>>
    decreases s.len() - i, 1int,
{
    if i < 0 || i >= s.len() {
        Seq::empty()
    } else if is_ws(s[i]) {
        words_from(s, i + 1)
    } else {
        proof {
            lemma_word_end(s, i);
        }
        seq![s.subrange(i, word_end(s, i))] + words_from(s, word_end(s, i))
    }
}

pub open spec fn words(s: Seq<char>) -> Seq<Seq<char>> {
    words_from(s, 0)
}

pub fn split_words(s: &[char]) -> (r: Vec<Vec<char>>)
    ensures
        views(r@) == words(s@),
{
    let mut out: Vec<Vec<char>> = Vec::new();
    let mut i: usize = 0;
    while i < s.len()
        invariant
            i <= s.len(),
            views(out@) + words_from(s@, i as int) == words(s@),
        decreases s.len() - i,
    {
        if char_is_ws(s[i]) {
            i += 1;
        } else {
            let mut j = i;
            while j < s.len() && !char_is_ws(s[j])
                invariant
                    i <= j <= s.len(),
                    word_end(s@, i as int) == word_end(s@, j as int),
                decreases s.len() - j,
            {
                j += 1;
            }
            proof {
                lemma_word_end(s@, i as int);
            }
            let w = slice_to_vec(s, i, j);
            let ghost old_out = views(out@);
            out.push(w);
            assert(views(out@) == old_out.push(s@.subrange(i as int, j as int)));
            i = j;
        }
    }
    assert(views(out@) + words_from(s@, i as int) == views(out@));
    out
}

/// Index of the first occurrence of `c` in `s`.
pub open spec fn first_index_of(s: Seq<char>, c: char, i: int) -> Option<int>
    decreases s.len() - i,
{
    if i < 0 || i >= s.len() {
        None
    } else if s[i] == c {
        Some(i)
    } else {
        first_index_of(s, c, i + 1)
    }
}

pub fn first_index_of_exec(s: &[char], c: char) -> (r: Option<usize>)
    ensures
        match r {
            Some(i) => first_index_of(s@, c, 0) == Some(i as int) && i < s.len(),
            None => first_index_of(s@, c, 0) is None,
        },
{
    let mut i: usize = 0;
    while i < s.len()
        invariant
            i <= s.len(),
            first_index_of(s@, c, 0) == first_index_of(s@, c, i as int),
        decreases s.len() - i,
    {
        if s[i] == c {
            return Some(i);
        }
        i += 1;
    }
    None
}

pub open spec fn lit_views(v: Seq<&str>) -> Seq<Seq<char>> {
    v.map_values(|s: &str| s@)
}

/// Some item of `needles` occurs in `hay`.
pub open spec fn contains_any(hay: Seq<char>, needles: Seq<Seq<char>>) -> bool {
    exists|i: int| 0 <= i < needles.len() && seq_contains(hay, #[trigger] needles[i])
}

pub fn contains_any_exec(hay: &[char], needles: &Vec<&str>) -> (r: bool)
    ensures
        r == contains_any(hay@, lit_views(needles@)),
{
    let mut i: usize = 0;
    while i < needles.len()
        invariant
            i <= needles.len(),
            forall|j: int| 0 <= j < i ==> !seq_contains(hay@, #[trigger] lit_views(needles@)[j]),
        decreases needles.len() - i,
    {
        if contains_str(hay, needles[i]) {
            assert(seq_contains(hay@, lit_views(needles@)[i as int]));
            return true;
        }
        i += 1;
    }
    false
}

/// End of the run of characters satisfying `f` that starts at `i`.
pub open spec fn run_end(s: Seq<char>, i: int, f: spec_fn(char) -> bool) -> int
    decreases s.len() - i,
{
    if 0 <= i < s.len() && f(s[i]) {
        run_end(s, i + 1, f)
    } else {
        i
    }
}

pub proof fn lemma_run_end(s: Seq<char>, i: int, f: spec_fn(char) -> bool)
    requires
        0 <= i <= s.len(),
    ensures
        i <= run_end(s, i, f) <= s.len(),
    decreases s.len() - i,
{
    if i < s.len() && f(s[i]) {
        lemma_run_end(s, i + 1, f);
    }
}



/// ASCII uppercase of one character.
pub open spec fn upper_ascii(c: char) -> char {
    if 'a' <= c && c <= 'z' {
        ((c as u32) - 32) as char
    } else {
        c
    }
}

pub open spec fn upper_seq(s: Seq<char>) -> Seq<char> {
    s.map_values(|c: char| upper_ascii(c))
}

pub fn char_upper_ascii(c: char) -> (r: char)
    ensures
        r == upper_ascii(c),
{
    match c {
        'a' => 'A',
        'b' => 'B',
        'c' => 'C',
        'd' => 'D',
        'e' => 'E',
        'f' => 'F',
        'g' => 'G',
        'h' => 'H',
        'i' => 'I',
        'j' => 'J',
        'k' => 'K',
        'l' => 'L',
        'm' => 'M',
        'n' => 'N',
        'o' => 'O',
        'p' => 'P',
        'q' => 'Q',
        'r' => 'R',
        's' => 'S',
        't' => 'T',
        'u' => 'U',
        'v' => 'V',
        'w' => 'W',
        'x' => 'X',
        'y' => 'Y',
        'z' => 'Z',
        _ => c,
    }
}

/// `str::to_ascii_uppercase`.
pub fn upper_chars(s: &[char]) -> (r: Vec<char>)
    ensures
        r@ == upper_seq(s@),
{
    let mut r: Vec<char> = Vec::new();
    let mut i: usize = 0;
    while i < s.len()
        invariant
            i <= s.len(),
            r@ == upper_seq(s@.take(i as int)),
        decreases s.len() - i,
    {
        r.push(char_upper_ascii(s[i]));
        assert(upper_seq(s@.take(i + 1)) =~= upper_seq(s@.take(i as int)).push(upper_ascii(s@[i as int])));
        i += 1;
    }
    assert(s@.take(s.len() as int) =~= s@);
    r
}

} // verus!
