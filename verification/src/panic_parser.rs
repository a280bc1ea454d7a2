//! First reading of a panic log: known keywords, the panic family and the
//! sensors that the log declares missing.
use crate::text::{add_unique, add_unique_exec, push_unique, char_is_alnum, char_is_ws, char_lower_ascii, chars_of, ci_at, ci_at_exec, contains, contains_str, is_alnum, is_ws, lower_ascii, owned, seq_contains, slice_to_vec, strings_of, strs, to_lowercase, unicode_lower, views, ws_run_end, ws_run_end_exec};
use vstd::prelude::*;

verus! {

#[derive(Debug, Clone)]
pub struct ParsedPanicLog {
    pub panic_type: String,
    pub keywords: Vec<String>,
    pub missing_sensors: Vec<String>,
}

// ---------------------------------------------------------------------------
// The "missing sensor(s): ..." declaration
// ---------------------------------------------------------------------------
pub open spec fn is_nl(c: char) -> bool {
    c == '\n' || c == '\r'
}

/// Greatest start `k` in `[q, k0]` of a non-empty line run (`k < len`,
/// `s[k]` not a line break).
pub open spec fn back_start(s: Seq<char>, q: int, k: int) -> Option<int>
    decreases k - q + 1,
{
    if k < q {
        None
    } else if 0 <= k < s.len() && !is_nl(s[k]) {
        Some(k)
    } else {
        back_start(s, q, k - 1)
    }
}

/// First line break at or after `k`, or the end.
pub open spec fn line_end(s: Seq<char>, k: int) -> int
    decreases s.len() - k,
{
    if k < 0 || k >= s.len() || is_nl(s[k]) {
        k
    } else {
        line_end(s, k + 1)
    }
}

/// `\s*([^\n\r]+)` at `q`: the span of the captured rest of the line, after
/// the longest run of whitespace that still leaves one character of it.
pub open spec fn ws_then_line(s: Seq<char>, q: int) -> Option<(int, int)> {
    match back_start(s, q, ws_run_end(s, q)) {
        Some(k) => Some((k, line_end(s, k))),
        None => None,
    }
}

/// `:?` then `\s*([^\n\r]+)` at `q`.
pub open spec fn colon_then_line(s: Seq<char>, q: int) -> Option<(int, int)> {
    if 0 <= q < s.len() && s[q] == ':' && ws_then_line(s, q + 1) is Some {
        ws_then_line(s, q + 1)
    } else {
        ws_then_line(s, q)
    }
}

/// `\)?:?\s*([^\n\r]+)` at `q`.
pub open spec fn paren_then_line(s: Seq<char>, q: int) -> Option<(int, int)> {
    if 0 <= q < s.len() && s[q] == ')' && colon_then_line(s, q + 1) is Some {
        colon_then_line(s, q + 1)
    } else {
        colon_then_line(s, q)
    }
}

pub open spec fn missing_prefix() -> Seq<char> {
    "missing sensor(s"@
}

/// `(?i)missing sensor\(s\)?:?\s*([^\n\r]+)` matched at `p`: the captured span.
pub open spec fn missing_match_at(s: Seq<char>, p: int) -> Option<(int, int)> {
    if ci_at(s, missing_prefix(), p) {
        paren_then_line(s, p + missing_prefix().len())
    } else {
        None
    }
}

/// Leftmost match at or after `i`.
pub open spec fn first_missing_from(s: Seq<char>, i: int) -> Option<(int, int)>
    decreases s.len() + 1 - i,
{
    if i < 0 || i > s.len() {
        None
    } else if missing_match_at(s, i) is Some {
        missing_match_at(s, i)
    } else {
        first_missing_from(s, i + 1)
    }
}

/// Spans captured by successive non-overlapping matches from `i` on.
pub open spec fn missing_spans_from(s: Seq<char>, i: int) -> Seq<(int, int)>
    decreases s.len() + 1 - i,
{
    if i < 0 || i > s.len() {
        Seq::empty()
    } else {
        match first_missing_from(s, i) {
            Some(sp) => {
                if i < sp.1 <= s.len() {
                    seq![sp] + missing_spans_from(s, sp.1)
                } else {
                    seq![sp]
                }
            },
            None => Seq::empty(),
        }
    }
}

/// The texts captured after every "missing sensor(s)" declaration.
pub open spec fn missing_groups(s: Seq<char>) -> Seq<Seq<char>> {
    missing_spans_from(s, 0).map_values(|sp: (int, int)| s.subrange(sp.0, sp.1))
}

// ---------------------------------------------------------------------------
// Sensor tokens
// ---------------------------------------------------------------------------
pub open spec fn is_token_sep(c: char) -> bool {
    c == ',' || c == ';' || is_ws(c)
}

pub open spec fn emit_token(cur: Seq<char>) -> Seq<Seq<char>> {
    if 2 <= cur.len() <= 24 {
        seq![cur]
    } else {
        Seq::empty()
    }
}

/// The pieces of `g` between separators, each reduced to its ASCII letters
/// and digits in lowercase, kept when 2 to 24 characters long.
pub open spec fn tok_scan(g: Seq<char>, i: int, cur: Seq<char>) -> Seq<Seq<char>>
    decreases g.len() - i,
{
    if i < 0 || i >= g.len() {
        emit_token(cur)
    } else if is_token_sep(g[i]) {
        emit_token(cur) + tok_scan(g, i + 1, Seq::empty())
    } else if is_alnum(g[i]) {
        tok_scan(g, i + 1, cur.push(lower_ascii(g[i])))
    } else {
        tok_scan(g, i + 1, cur)
    }
}

pub open spec fn sensor_tokens(g: Seq<char>) -> Seq<Seq<char>> {
    tok_scan(g, 0, Seq::empty())
}

/// Sensor names of all groups, without repeats, first occurrence first.
pub open spec fn sensors_of_groups(gs: Seq<Seq<char>>) -> Seq<Seq<char>> {
    gs.fold_left(
        Seq::<Seq<char>>::empty(),
        |acc: Seq<Seq<char>>, g: Seq<char>| add_unique(acc, sensor_tokens(g)),
    )
}

pub open spec fn missing_sensors_spec(log: Seq<char>) -> Seq<Seq<char>> {
    sensors_of_groups(missing_groups(log))
}

/// Only the last "missing sensor(s)" declaration of the log.
pub open spec fn missing_sensors_last_spec(log: Seq<char>) -> Seq<Seq<char>> {
    let gs = missing_groups(log);
    if gs.len() == 0 {
        Seq::empty()
    } else {
        add_unique(Seq::empty(), sensor_tokens(gs.last()))
    }
}

// ---------------------------------------------------------------------------
// Keywords and panic family
// ---------------------------------------------------------------------------
pub open spec fn known_keywords() -> Seq<Seq<char>> {
    seq![
        "thermalmonitord"@,
        "watchdog"@,
        "mic1"@,
        "mic2"@,
        "prs0"@,
        "tg0b"@,
        "tg0v"@,
        "ans2"@,
        "baseband"@,
        "applebcmwlan"@,
        "smc panic"@,
        "aop panic"@,
    ]
}

/// The items of `ks` that occur in `lower`, in order.
pub open spec fn present_in(lower: Seq<char>, ks: Seq<Seq<char>>) -> Seq<Seq<char>>
    decreases ks.len(),
{
    if ks.len() == 0 {
        Seq::empty()
    } else {
        present_in(lower, ks.drop_last()) + (if seq_contains(lower, ks.last()) {
            seq![ks.last()]
        } else {
            Seq::empty()
        })
    }
}

pub open spec fn panic_type_of(lower: Seq<char>) -> Seq<char> {
    if seq_contains(lower, "thermalmonitord"@) {
        "thermalmonitord"@
    } else if seq_contains(lower, "watchdog"@) {
        "userspace_watchdog"@
    } else if seq_contains(lower, "smc panic"@) {
        "smc_panic"@
    } else if seq_contains(lower, "aop panic"@) {
        "aop_panic"@
    } else if seq_contains(lower, "baseband"@) {
        "baseband"@
    } else {
        "unknown"@
    }
}

// ---------------------------------------------------------------------------
// Matching
// ---------------------------------------------------------------------------
fn back_start_exec(s: &[char], q: usize, k0: usize) -> (r: Option<usize>)
    requires
        q <= k0 <= s.len(),
    ensures
        match r {
            Some(k) => back_start(s@, q as int, k0 as int) == Some(k as int),
            None => back_start(s@, q as int, k0 as int) is None,
        },
{
    let mut k = k0;
    loop
        invariant
            q <= k <= k0 <= s.len(),
            back_start(s@, q as int, k0 as int) == back_start(s@, q as int, k as int),
        decreases k,
    {
        if k < s.len() && s[k] != '\n' && s[k] != '\r' {
            return Some(k);
        }
        if k == q {
            assert(back_start(s@, q as int, (k - 1) as int) is None);
            return None;
        }
        k -= 1;
    }
}

fn line_end_exec(s: &[char], k: usize) -> (r: usize)
    requires
        k <= s.len(),
    ensures
        r as int == line_end(s@, k as int),
        k <= r <= s.len(),
        (k < s.len() && !is_nl(s@[k as int])) ==> r > k,
{
    let mut j = k;
    if j < s.len() && s[j] != '\n' && s[j] != '\r' {
        j += 1;
    }
    while j < s.len() && s[j] != '\n' && s[j] != '\r'
        invariant
            k <= j <= s.len(),
            line_end(s@, k as int) == line_end(s@, j as int),
            (k < s.len() && !is_nl(s@[k as int])) ==> j > k,
        decreases s.len() - j,
    {
        j += 1;
    }
    j
}

fn ws_then_line_exec(s: &[char], q: usize) -> (r: Option<(usize, usize)>)
    requires
        q <= s.len(),
    ensures
        match r {
            Some(sp) => ws_then_line(s@, q as int) == Some((sp.0 as int, sp.1 as int)) && q <= sp.0
                < sp.1 <= s.len(),
            None => ws_then_line(s@, q as int) is None,
        },
{
    let e = ws_run_end_exec(s, q);
    match back_start_exec(s, q, e) {
        Some(k) => {
            proof {
                lemma_back_start(s@, q as int, e as int);
            }
            let end = line_end_exec(s, k);
            Some((k, end))
        },
        None => None,
    }
}

proof fn lemma_back_start(s: Seq<char>, q: int, k: int)
    ensures
        back_start(s, q, k) matches Some(r) ==> q <= r <= k && 0 <= r < s.len() && !is_nl(s[r]),
    decreases k - q + 1,
{
    if k >= q && !(0 <= k < s.len() && !is_nl(s[k])) {
        lemma_back_start(s, q, k - 1);
    }
}

fn colon_then_line_exec(s: &[char], q: usize) -> (r: Option<(usize, usize)>)
    requires
        q <= s.len(),
    ensures
        match r {
            Some(sp) => colon_then_line(s@, q as int) == Some((sp.0 as int, sp.1 as int)) && q
                <= sp.0 < sp.1 <= s.len(),
            None => colon_then_line(s@, q as int) is None,
        },
{
    if q < s.len() && s[q] == ':' {
        match ws_then_line_exec(s, q + 1) {
            Some(sp) => return Some(sp),
            None => {},
        }
    }
    ws_then_line_exec(s, q)
}

fn paren_then_line_exec(s: &[char], q: usize) -> (r: Option<(usize, usize)>)
    requires
        q <= s.len(),
    ensures
        match r {
            Some(sp) => paren_then_line(s@, q as int) == Some((sp.0 as int, sp.1 as int)) && q
                <= sp.0 < sp.1 <= s.len(),
            None => paren_then_line(s@, q as int) is None,
        },
{
    if q < s.len() && s[q] == ')' {
        match colon_then_line_exec(s, q + 1) {
            Some(sp) => return Some(sp),
            None => {},
        }
    }
    colon_then_line_exec(s, q)
}

fn missing_match_at_exec(s: &[char], prefix: &[char], p: usize) -> (r: Option<(usize, usize)>)
    requires
        prefix@ == missing_prefix(),
        p <= s.len(),
    ensures
        match r {
            Some(sp) => missing_match_at(s@, p as int) == Some((sp.0 as int, sp.1 as int)) && p
                < sp.0 < sp.1 <= s.len(),
            None => missing_match_at(s@, p as int) is None,
        },
{
    proof {
        reveal_strlit("missing sensor(s");
    }
    if ci_at_exec(s, prefix, p) {
        paren_then_line_exec(s, p + prefix.len())
    } else {
        None
    }
}

/// Spans captured by all matches of the missing-sensor declaration.
fn missing_spans(s: &[char]) -> (r: Vec<(usize, usize)>)
    ensures
        r@.map_values(|sp: (usize, usize)| (sp.0 as int, sp.1 as int)) == missing_spans_from(
            s@,
            0,
        ),
        forall|j: int| #![trigger r@[j]] 0 <= j < r@.len() ==> r@[j].0 < r@[j].1 && r@[j].1 <= s.len(),
{
    let prefix = chars_of("missing sensor(s");
    proof {
        reveal_strlit("missing sensor(s");
    }
    let mut out: Vec<(usize, usize)> = Vec::new();
    let mut i: usize = 0;
    let mut p: usize = 0;
    while p < s.len()
        invariant
            prefix@ == missing_prefix(),
            missing_prefix().len() == 16,
            i <= p <= s.len(),
            out@.map_values(|sp: (usize, usize)| (sp.0 as int, sp.1 as int)) + missing_spans_from(
                s@,
                i as int,
            ) == missing_spans_from(s@, 0),
            first_missing_from(s@, i as int) == first_missing_from(s@, p as int),
            forall|j: int| #![trigger out@[j]] 0 <= j < out@.len() ==> out@[j].0 < out@[j].1 && out@[j].1 <= s.len(),
        decreases s.len() - p,
    {
        match missing_match_at_exec(s, &prefix, p) {
            Some(sp) => {
                let ghost old_out = out@;
                out.push(sp);
                assert(out@.map_values(|sp: (usize, usize)| (sp.0 as int, sp.1 as int))
                    == old_out.map_values(|sp: (usize, usize)| (sp.0 as int, sp.1 as int)).push(
                    (sp.0 as int, sp.1 as int),
                ));
                i = sp.1;
                p = sp.1;
            },
            None => {
                p += 1;
            },
        }
    }
    assert(missing_match_at(s@, p as int) is None);
    assert(first_missing_from(s@, p + 1) is None);
    assert(missing_spans_from(s@, i as int) == Seq::<(int, int)>::empty());
    assert(out@.map_values(|sp: (usize, usize)| (sp.0 as int, sp.1 as int)) + Seq::<
        (int, int),
    >::empty() == out@.map_values(|sp: (usize, usize)| (sp.0 as int, sp.1 as int)));
    out
}

/// Sensor tokens of one captured group.
fn sensor_tokens_exec(g: &[char]) -> (r: Vec<Vec<char>>)
    ensures
        views(r@) == sensor_tokens(g@),
{
    let mut out: Vec<Vec<char>> = Vec::new();
    let mut cur: Vec<char> = Vec::new();
    let mut i: usize = 0;
    while i < g.len()
        invariant
            i <= g.len(),
            views(out@) + tok_scan(g@, i as int, cur@) == sensor_tokens(g@),
        decreases g.len() - i,
    {
        let c = g[i];
        if c == ',' || c == ';' || char_is_ws(c) {
            let ghost old_out = views(out@);
            let ghost cur0 = cur@;
            if cur.len() >= 2 && cur.len() <= 24 {
                out.push(cur);
                assert(views(out@) == old_out.push(cur0));
            }
            assert(views(out@) == old_out + emit_token(cur0));
            assert(views(out@) + tok_scan(g@, i + 1, Seq::empty()) == old_out + (emit_token(cur0)
                + tok_scan(g@, i + 1, Seq::empty())));
            cur = Vec::new();
        } else if char_is_alnum(c) {
            let l = char_lower_ascii(c);
            cur.push(l);
        }
        i += 1;
    }
    let ghost old_out = views(out@);
    let ghost cur0 = cur@;
    if cur.len() >= 2 && cur.len() <= 24 {
        out.push(cur);
        assert(views(out@) == old_out.push(cur0));
    }
    assert(views(out@) == old_out + emit_token(cur0));
    out
}

fn extract_missing_from_spans(s: &[char], spans: &Vec<(usize, usize)>) -> (r: Vec<Vec<char>>)
    requires
        forall|j: int| #![trigger spans@[j]] 0 <= j < spans@.len() ==> spans@[j].0 < spans@[j].1 && spans@[j].1 <= s.len(),
    ensures
        views(r@) == sensors_of_groups(
            spans@.map_values(|sp: (usize, usize)| s@.subrange(sp.0 as int, sp.1 as int)),
        ),
{
    let ghost gs = spans@.map_values(|sp: (usize, usize)| s@.subrange(sp.0 as int, sp.1 as int));
    let mut out: Vec<Vec<char>> = Vec::new();
    let mut i: usize = 0;
    while i < spans.len()
        invariant
            i <= spans.len(),
            gs == spans@.map_values(|sp: (usize, usize)| s@.subrange(sp.0 as int, sp.1 as int)),
            forall|j: int| #![trigger spans@[j]] 0 <= j < spans@.len() ==> spans@[j].0 < spans@[j].1 && spans@[j].1 <= s.len(),
            views(out@) == sensors_of_groups(gs.take(i as int)),
        decreases spans.len() - i,
    {
        let (a, b) = spans[i];
        let g = slice_to_vec(s, a, b);
        let toks = sensor_tokens_exec(&g);
        assert(gs.take(i + 1).drop_last() == gs.take(i as int));
        assert(gs.take(i + 1).last() == g@);
        add_unique_exec(&mut out, &toks);
        i += 1;
    }
    assert(gs.take(spans.len() as int) == gs);
    out
}

proof fn lemma_groups_of_spans(s: Seq<char>, spans: Seq<(usize, usize)>)
    requires
        spans.map_values(|sp: (usize, usize)| (sp.0 as int, sp.1 as int)) == missing_spans_from(
            s,
            0,
        ),
    ensures
        spans.map_values(|sp: (usize, usize)| s.subrange(sp.0 as int, sp.1 as int))
            == missing_groups(s),
{
    let a = spans.map_values(|sp: (usize, usize)| s.subrange(sp.0 as int, sp.1 as int));
    let b = missing_groups(s);
    assert forall|j: int| 0 <= j < a.len() implies a[j] == b[j] by {
        let m = spans.map_values(|sp: (usize, usize)| (sp.0 as int, sp.1 as int));
        assert(m[j] == missing_spans_from(s, 0)[j]);
    }
    assert(a =~= b);
}

fn extract_missing_sensors(log: &[char]) -> (r: Vec<Vec<char>>)
    ensures
        views(r@) == missing_sensors_spec(log@),
{
    let spans = missing_spans(log);
    proof {
        lemma_groups_of_spans(log@, spans@);
    }
    extract_missing_from_spans(log, &spans)
}

/// Sensors named by the last "missing sensor(s)" declaration of the log.
pub fn extract_missing_sensors_last(log: &str) -> (r: Vec<String>)
    ensures
        strs(r@) == missing_sensors_last_spec(log@),
{
    let s = chars_of(log);
    let spans = missing_spans(&s);
    proof {
        lemma_groups_of_spans(s@, spans@);
    }
    let mut out: Vec<Vec<char>> = Vec::new();
    assert(views(out@) =~= Seq::<Seq<char>>::empty());
    assert(missing_groups(s@).len() == spans@.len());
    if spans.len() > 0 {
        let (a, b) = spans[spans.len() - 1];
        let g = slice_to_vec(&s, a, b);
        assert(missing_groups(s@).len() == spans@.len());
        assert(missing_groups(s@).last() == g@);
        let toks = sensor_tokens_exec(&g);
        add_unique_exec(&mut out, &toks);
    }
    strings_of(&out)
}

/// The known keywords that occur in `lower`, in the order of the list.
fn present_keywords(lower: &[char]) -> (r: Vec<Vec<char>>)
    ensures
        views(r@) == present_in(lower@, known_keywords()),
{
    let ks: Vec<&str> = vec![
        "thermalmonitord",
        "watchdog",
        "mic1",
        "mic2",
        "prs0",
        "tg0b",
        "tg0v",
        "ans2",
        "baseband",
        "applebcmwlan",
        "smc panic",
        "aop panic",
    ];
    assert(ks@.map_values(|s: &str| s@) == known_keywords());
    let mut out: Vec<Vec<char>> = Vec::new();
    let mut i: usize = 0;
    while i < ks.len()
        invariant
            i <= ks.len(),
            ks@.map_values(|s: &str| s@) == known_keywords(),
            views(out@) == present_in(lower@, known_keywords().take(i as int)),
        decreases ks.len() - i,
    {
        let k = chars_of(ks[i]);
        assert(known_keywords().take(i + 1).drop_last() == known_keywords().take(i as int));
        assert(known_keywords().take(i + 1).last() == k@);
        if contains(lower, &k) {
            let ghost old_out = views(out@);
            out.push(k);
            assert(views(out@) == old_out.push(known_keywords()[i as int]));
        }
        i += 1;
    }
    assert(known_keywords().take(12) == known_keywords());
    out
}

/// Reads the panic family, the known keywords and the missing sensors of a log.
pub fn parse_panic_log(log: &str) -> (r: ParsedPanicLog)
    ensures
        r.panic_type@ == panic_type_of(unicode_lower(log@)),
        strs(r.missing_sensors@) == missing_sensors_spec(log@),
        strs(r.keywords@) == add_unique(
            present_in(unicode_lower(log@), known_keywords()),
            missing_sensors_spec(log@),
        ),
{
    let lower = to_lowercase(log);
    let mut keywords = present_keywords(&lower);
    let s = chars_of(log);
    let missing = extract_missing_sensors(&s);
    add_unique_exec(&mut keywords, &missing);
    let panic_type = if contains_str(&lower, "thermalmonitord") {
        owned("thermalmonitord")
    } else if contains_str(&lower, "watchdog") {
        owned("userspace_watchdog")
    } else if contains_str(&lower, "smc panic") {
        owned("smc_panic")
    } else if contains_str(&lower, "aop panic") {
        owned("aop_panic")
    } else if contains_str(&lower, "baseband") {
        owned("baseband")
    } else {
        owned("unknown")
    };
    ParsedPanicLog {
        panic_type,
        keywords: strings_of(&keywords),
        missing_sensors: strings_of(&missing),
    }
}

/// The panic type of a log follows a fixed priority over its lowercased
/// text: `thermalmonitord` wherever it occurs, whatever else the log holds;
/// then a watchdog; then an SMC panic, an AOP panic, the baseband; else
/// unknown.
pub proof fn law_panic_type_priority(log: Seq<char>)
    ensures
        seq_contains(unicode_lower(log), "thermalmonitord"@) ==> panic_type_of(unicode_lower(log))
            == "thermalmonitord"@,
        !seq_contains(unicode_lower(log), "thermalmonitord"@) && seq_contains(unicode_lower(log), "watchdog"@)
            ==> panic_type_of(unicode_lower(log)) == "userspace_watchdog"@,
        panic_type_of(unicode_lower(log)) == "userspace_watchdog"@ ==> seq_contains(unicode_lower(log), "watchdog"@)
            && !seq_contains(unicode_lower(log), "thermalmonitord"@),
        !seq_contains(unicode_lower(log), "thermalmonitord"@) && !seq_contains(unicode_lower(log), "watchdog"@)
            && seq_contains(unicode_lower(log), "smc panic"@) ==> panic_type_of(unicode_lower(log)) == "smc_panic"@,
        !seq_contains(unicode_lower(log), "thermalmonitord"@) && !seq_contains(unicode_lower(log), "watchdog"@)
            && !seq_contains(unicode_lower(log), "smc panic"@) && seq_contains(unicode_lower(log), "aop panic"@)
            ==> panic_type_of(unicode_lower(log)) == "aop_panic"@,
        !seq_contains(unicode_lower(log), "thermalmonitord"@) && !seq_contains(unicode_lower(log), "watchdog"@)
            && !seq_contains(unicode_lower(log), "smc panic"@) && !seq_contains(unicode_lower(log), "aop panic"@)
            && seq_contains(unicode_lower(log), "baseband"@) ==> panic_type_of(unicode_lower(log)) == "baseband"@,
        !seq_contains(unicode_lower(log), "thermalmonitord"@) && !seq_contains(unicode_lower(log), "watchdog"@)
            && !seq_contains(unicode_lower(log), "smc panic"@) && !seq_contains(unicode_lower(log), "aop panic"@)
            && !seq_contains(unicode_lower(log), "baseband"@) ==> panic_type_of(unicode_lower(log)) == "unknown"@,
{
    reveal_strlit("thermalmonitord");
    reveal_strlit("userspace_watchdog");
    reveal_strlit("smc_panic");
    reveal_strlit("aop_panic");
    reveal_strlit("baseband");
    reveal_strlit("unknown");
    assert("userspace_watchdog"@.len() != "thermalmonitord"@.len());
    assert("userspace_watchdog"@.len() != "smc_panic"@.len());
    assert("userspace_watchdog"@.len() != "aop_panic"@.len());
    assert("userspace_watchdog"@.len() != "baseband"@.len());
    assert("userspace_watchdog"@.len() != "unknown"@.len());
}

proof fn lemma_present_in(lower: Seq<char>, ks: Seq<Seq<char>>, x: Seq<char>)
    ensures
        present_in(lower, ks).contains(x) <==> ks.contains(x) && seq_contains(lower, x),
    decreases ks.len(),
{
    if ks.len() > 0 {
        let t = ks.drop_last();
        lemma_present_in(lower, t, x);
        let a = present_in(lower, t);
        let tail = if seq_contains(lower, ks.last()) {
            seq![ks.last()]
        } else {
            Seq::<Seq<char>>::empty()
        };
        if (a + tail).contains(x) {
            let i = choose|i: int| 0 <= i < (a + tail).len() && (a + tail)[i] == x;
            if i < a.len() {
                assert(a[i] == x);
                let j = choose|j: int| 0 <= j < t.len() && t[j] == x;
                assert(ks[j] == x);
            } else {
                assert(ks[ks.len() - 1] == x);
            }
        }
        if ks.contains(x) && seq_contains(lower, x) {
            let j = choose|j: int| 0 <= j < ks.len() && ks[j] == x;
            if j < t.len() {
                assert(t[j] == x);
                let i = choose|i: int| 0 <= i < a.len() && a[i] == x;
                assert((a + tail)[i] == x);
            } else {
                assert((a + tail)[a.len() as int] == x);
            }
        }
    }
}

proof fn lemma_add_unique_contains(acc: Seq<Seq<char>>, xs: Seq<Seq<char>>, x: Seq<char>)
    ensures
        add_unique(acc, xs).contains(x) <==> acc.contains(x) || xs.contains(x),
    decreases xs.len(),
{
    if xs.len() > 0 {
        let t = xs.drop_last();
        lemma_add_unique_contains(acc, t, x);
        let a = add_unique(acc, t);
        assert(add_unique(acc, xs) == push_unique(a, xs.last()));
        if !a.contains(xs.last()) {
            let r = a.push(xs.last());
            if a.contains(x) {
                let i = choose|i: int| 0 <= i < a.len() && a[i] == x;
                assert(r[i] == x);
            }
            if r.contains(x) {
                let i = choose|i: int| 0 <= i < r.len() && r[i] == x;
                if i < a.len() {
                    assert(a[i] == x);
                }
            }
            assert(r[a.len() as int] == xs.last());
        }
        if xs.contains(x) {
            let j = choose|j: int| 0 <= j < xs.len() && xs[j] == x;
            if j < t.len() {
                assert(t[j] == x);
            }
        }
        if t.contains(x) {
            let j = choose|j: int| 0 <= j < t.len() && t[j] == x;
            assert(xs[j] == x);
        }
    }
}

/// The keywords of a log are exactly the known keywords that occur in its
/// lowercased text, together with the sensors it declares missing.
pub proof fn law_keywords_are_present_or_missing(log: Seq<char>, x: Seq<char>)
    ensures
        add_unique(present_in(unicode_lower(log), known_keywords()), missing_sensors_spec(log)).contains(x) <==> (
        known_keywords().contains(x) && seq_contains(unicode_lower(log), x)) || missing_sensors_spec(log).contains(x),
{
    lemma_present_in(unicode_lower(log), known_keywords(), x);
    lemma_add_unique_contains(present_in(unicode_lower(log), known_keywords()), missing_sensors_spec(log), x);
}

} // verus!
