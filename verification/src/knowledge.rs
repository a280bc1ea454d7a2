//! Matching a panic log against the PanicBase knowledge base.
use crate::text::{append_chars, append_str, byte_len, byte_len_below, char_is_unicode_digit, char_is_ws, chars_eq, chars_eq_ci, chars_of, ci_at, ci_at_exec, contains, contains_str, eq_ci, eq_ci_str, hex_text, hex_text_exec, is_unicode_digit, is_ws, join, join_strings, nonempty_list, opt_strs, owned, parse_u64, parse_u64_spec, run_end, seq_contains, slice_to_vec, string_of, strs, to_lowercase, trim, trim_chars, unicode_lower};
use vstd::prelude::*;

verus! {

// ---------------------------------------------------------------------------
// The knowledge base, as plain values
// ---------------------------------------------------------------------------
/// One entry of the source registry (the registry is keyed by `id`).
pub struct SourceEntry {
    pub id: String,
    pub title: String,
    pub url: String,
    pub quality: Option<String>,
    pub notes: Option<String>,
}

/// A common panic pattern. `confidence` is in hundredths of a percent
/// (0.85 in the knowledge base is 8500 here).
pub struct Pattern {
    pub signature: String,
    pub causes: Vec<String>,
    pub confidence: u32,
    pub models: Option<Vec<String>>,
    pub reliability_note: Option<String>,
    pub evidence_level: Option<String>,
    pub source_ids: Option<Vec<String>>,
    pub require_all_substrings: Option<Vec<String>>,
    pub require_any_substrings: Option<Vec<String>>,
    pub symptoms: Option<Vec<String>>,
    pub repair_priority: Option<Vec<String>>,
    pub aftermarket_part_risk: Option<bool>,
    pub false_positive_common: Option<String>,
    pub requires_known_good_test: Option<bool>,
    pub confirmed_by_repair: Option<bool>,
    pub repair_notes: Option<String>,
    pub kb_source_line: Option<String>,
}

pub struct ModelPanicMatch {
    pub panic_contains: Option<Vec<String>>,
    pub missing_sensor_any: Option<Vec<String>>,
    pub smc_sensor_array_any: Option<Vec<String>>,
}

/// A rule for given models. `confidence` is in hundredths of a percent.
pub struct ModelPanicRule {
    pub models: Vec<String>,
    pub match_spec: ModelPanicMatch,
    pub likely_component: String,
    pub confidence: u32,
    pub repair_order: Option<Vec<String>>,
    pub source_ids: Option<Vec<String>>,
    pub evidence_level: Option<String>,
    pub note: Option<String>,
}

/// Failures often cited for one marketing model.
pub struct ModelFailures {
    pub model: String,
    pub failures: Vec<String>,
}

/// Label of one `bug_type` code.
pub struct BugTypeLabel {
    pub code: String,
    pub label: String,
}

pub struct KnowledgeBase {
    pub common_panic_patterns: Vec<Pattern>,
    pub model_specific_failures: Vec<ModelFailures>,
    pub bug_type_mapping: Vec<BugTypeLabel>,
    pub source_registry: Option<Vec<SourceEntry>>,
    pub model_panic_rules: Option<Vec<ModelPanicRule>>,
}

#[derive(Debug, Clone)]
pub struct KbMatch {
    pub probable_cause: String,
    pub confidence: u8,
    pub explanation: String,
    pub matched_signature: String,
}

/// What a match says, as sequences of characters.
pub struct MatchView {
    pub probable_cause: Seq<char>,
    pub confidence: u8,
    pub explanation: Seq<char>,
    pub matched_signature: Seq<char>,
}

impl View for KbMatch {
    type V = MatchView;

    open spec fn view(&self) -> MatchView {
        MatchView {
            probable_cause: self.probable_cause@,
            confidence: self.confidence,
            explanation: self.explanation@,
            matched_signature: self.matched_signature@,
        }
    }
}

pub open spec fn opt_match_view(o: Option<KbMatch>) -> Option<MatchView> {
    match o {
        Some(m) => Some(m@),
        None => None,
    }
}

// ---------------------------------------------------------------------------
// Small predicates
// ---------------------------------------------------------------------------
/// Percent shown for a confidence in hundredths of a percent: rounded, then
/// kept within 1..=99.
pub open spec fn confidence_pct(c: u32) -> u8 {
    let v = (c as int + 50) / 100;
    if v < 1 {
        1
    } else if v > 99 {
        99
    } else {
        v as u8
    }
}

pub fn confidence_to_u8(c: u32) -> (r: u8)
    ensures
        r == confidence_pct(c),
{
    let v: u64 = (c as u64 + 50) / 100;
    if v < 1 {
        1
    } else if v > 99 {
        99
    } else {
        v as u8
    }
}

/// The (trimmed) marketing name is the (trimmed) key, or starts with the key
/// followed by a space, ignoring ASCII case.
pub open spec fn marketing_matches(marketing: Seq<char>, key: Seq<char>) -> bool {
    let m = trim(marketing);
    let k = trim(key);
    eq_ci(m, k) || (m.len() >= k.len() + 1 && eq_ci(m.take(k.len() + 1 as int), k.push(' ')))
}

pub fn marketing_matches_key(marketing: &str, key: &str) -> (r: bool)
    ensures
        r == marketing_matches(marketing@, key@),
{
    let mc = chars_of(marketing);
    let kc = chars_of(key);
    let m = trim_chars(&mc);
    let k = trim_chars(&kc);
    if chars_eq_ci(&m, &k) {
        return true;
    }
    let mut pref = k.clone();
    pref.push(' ');
    if m.len() < pref.len() {
        return false;
    }
    let head = slice_to_vec(&m, 0, pref.len());
    assert(head@ == m@.take(k@.len() + 1 as int));
    chars_eq_ci(&head, &pref)
}

pub open spec fn contains_signature(log_lc: Seq<char>, sig: Seq<char>) -> bool {
    let s = unicode_lower(sig);
    if seq_contains(s, "missing sensor"@) {
        seq_contains(log_lc, "missing sensor"@)
    } else {
        seq_contains(log_lc, s)
    }
}

fn log_contains_signature(log_lc: &[char], sig: &str) -> (r: bool)
    ensures
        r == contains_signature(log_lc@, sig@),
{
    let s = to_lowercase(sig);
    if contains_str(&s, "missing sensor") {
        return contains_str(log_lc, "missing sensor");
    }
    contains(log_lc, &s)
}

pub open spec fn meets_all(log_lc: Seq<char>, parts: Seq<Seq<char>>) -> bool {
    forall|i: int| 0 <= i < parts.len() ==> seq_contains(log_lc, #[trigger] unicode_lower(parts[i]))
}

pub open spec fn meets_any(log_lc: Seq<char>, parts: Seq<Seq<char>>) -> bool {
    exists|i: int| 0 <= i < parts.len() && seq_contains(log_lc, #[trigger] unicode_lower(parts[i]))
}

fn log_meets_all_substrings(log_lc: &[char], parts: &[String]) -> (r: bool)
    ensures
        r == meets_all(log_lc@, strs(parts@)),
{
    let mut i: usize = 0;
    while i < parts.len()
        invariant
            i <= parts.len(),
            forall|j: int| 0 <= j < i ==> seq_contains(log_lc@, #[trigger] unicode_lower(strs(parts@)[j])),
        decreases parts.len() - i,
    {
        let p = to_lowercase(parts[i].as_str());
        if !contains(log_lc, &p) {
            assert(!seq_contains(log_lc@, unicode_lower(strs(parts@)[i as int])));
            return false;
        }
        i += 1;
    }
    true
}

fn log_meets_any_substrings(log_lc: &[char], parts: &[String]) -> (r: bool)
    ensures
        r == meets_any(log_lc@, strs(parts@)),
{
    let mut i: usize = 0;
    while i < parts.len()
        invariant
            i <= parts.len(),
            forall|j: int| 0 <= j < i ==> !seq_contains(log_lc@, #[trigger] unicode_lower(strs(parts@)[j])),
        decreases parts.len() - i,
    {
        let p = to_lowercase(parts[i].as_str());
        if contains(log_lc, &p) {
            assert(seq_contains(log_lc@, unicode_lower(strs(parts@)[i as int])));
            return true;
        }
        i += 1;
    }
    false
}

pub open spec fn has_items(o: Option<Vec<String>>) -> bool {
    nonempty_list(opt_strs(o))
}

pub open spec fn items(o: Option<Vec<String>>) -> Seq<Seq<char>> {
    strs(o.unwrap()@)
}

fn has_items_exec(o: &Option<Vec<String>>) -> (r: bool)
    ensures
        r == has_items(*o),
{
    match o {
        Some(v) => v.len() > 0,
        None => false,
    }
}

/// The pattern's required substrings and its signature all occur in the
/// lowercased log.
pub open spec fn pattern_matches(log_lc: Seq<char>, p: Pattern) -> bool {
    &&& !(has_items(p.require_all_substrings) && !meets_all(log_lc, items(p.require_all_substrings)))
    &&& !(has_items(p.require_any_substrings) && !meets_any(log_lc, items(p.require_any_substrings)))
    &&& if trim(p.signature@).len() == 0 {
        has_items(p.require_all_substrings)
    } else {
        contains_signature(log_lc, trim(p.signature@))
    }
}

fn pattern_matches_log(log_lc: &[char], pat: &Pattern) -> (r: bool)
    ensures
        r == pattern_matches(log_lc@, *pat),
{
    if has_items_exec(&pat.require_all_substrings) {
        let req = pat.require_all_substrings.as_ref().unwrap();
        if !log_meets_all_substrings(log_lc, req.as_slice()) {
            return false;
        }
    }
    if has_items_exec(&pat.require_any_substrings) {
        let req = pat.require_any_substrings.as_ref().unwrap();
        if !log_meets_any_substrings(log_lc, req.as_slice()) {
            return false;
        }
    }
    let sc = chars_of(pat.signature.as_str());
    let sig = trim_chars(&sc);
    if sig.len() == 0 {
        return has_items_exec(&pat.require_all_substrings);
    }
    let sig_s = string_of(&sig);
    log_contains_signature(log_lc, sig_s.as_str())
}

/// Rank of a pattern: its signature length, plus 500 when it requires
/// substrings (saturating at `usize::MAX`).
pub open spec fn sort_len(p: Pattern) -> int {
    let n = p.signature@.len() as int;
    if has_items(p.require_all_substrings) {
        if n + 500 > usize::MAX {
            usize::MAX as int
        } else {
            n + 500
        }
    } else {
        n
    }
}

fn pattern_sort_len(pat: &Pattern) -> (r: usize)
    ensures
        r as int == sort_len(*pat),
{
    let n = chars_of(pat.signature.as_str()).len();
    if has_items_exec(&pat.require_all_substrings) {
        n.saturating_add(500)
    } else {
        n
    }
}

/// Label of the matched pattern in the result.
pub open spec fn signature_label(p: Pattern) -> Seq<char> {
    let sig = trim(p.signature@);
    if has_items(p.require_all_substrings) {
        if sig.len() == 0 {
            "req:"@ + join(items(p.require_all_substrings), "+"@)
        } else {
            sig + "+"@ + join(items(p.require_all_substrings), "+"@)
        }
    } else {
        p.signature@
    }
}

fn matched_signature_label(pat: &Pattern) -> (r: Vec<char>)
    ensures
        r@ == signature_label(*pat),
{
    let sc = chars_of(pat.signature.as_str());
    let sig = trim_chars(&sc);
    if has_items_exec(&pat.require_all_substrings) {
        let req = pat.require_all_substrings.as_ref().unwrap();
        let joined = join_strings(req.as_slice(), "+");
        let mut out: Vec<char> = Vec::new();
        if sig.len() == 0 {
            append_str(&mut out, "req:");
        } else {
            append_chars(&mut out, &sig);
            append_str(&mut out, "+");
        }
        append_chars(&mut out, &joined);
        out
    } else {
        sc
    }
}

pub open spec fn model_allowed_spec(p: Pattern, marketing: Option<Seq<char>>) -> bool {
    p.models is None || marketing is None || exists|i: int|
        0 <= i < p.models.unwrap()@.len() && seq_contains(
            unicode_lower(marketing.unwrap()),
            #[trigger] unicode_lower(p.models.unwrap()@[i]@),
        )
}

pub open spec fn opt_str_view(o: Option<&str>) -> Option<Seq<char>> {
    match o {
        Some(s) => Some(s@),
        None => None,
    }
}

fn any_model_in(ml: &[char], models: &Vec<String>) -> (r: bool)
    ensures
        r == exists|i: int| 0 <= i < models@.len() && seq_contains(ml@, #[trigger] unicode_lower(models@[i]@)),
{
    let mut i: usize = 0;
    while i < models.len()
        invariant
            i <= models.len(),
            forall|j: int| 0 <= j < i ==> !seq_contains(ml@, #[trigger] unicode_lower(models@[j]@)),
        decreases models.len() - i,
    {
        let mo = to_lowercase(models[i].as_str());
        if contains(ml, &mo) {
            assert(seq_contains(ml@, unicode_lower(models@[i as int]@)));
            return true;
        }
        i += 1;
    }
    false
}

fn model_allowed(pat: &Pattern, marketing: Option<&str>) -> (r: bool)
    ensures
        r == model_allowed_spec(*pat, opt_str_view(marketing)),
{
    match &pat.models {
        None => true,
        Some(models) => {
            match marketing {
                None => true,
                Some(mkt) => {
                    let ml = to_lowercase(mkt);
                    any_model_in(&ml, models)
                },
            }
        },
    }
}

// ---------------------------------------------------------------------------
// The bug_type line: `(?i)bug[_\s-]*type["'\s:=]+(\d{2,})`
// ---------------------------------------------------------------------------
pub open spec fn is_bug_sep(c: char) -> bool {
    c == '_' || c == '-' || is_ws(c)
}

pub open spec fn is_bug_assign(c: char) -> bool {
    c == '"' || c == '\'' || c == ':' || c == '=' || is_ws(c)
}

/// Span of the code captured when the pattern matches at `p`.
pub open spec fn bug_type_at(s: Seq<char>, p: int) -> Option<(int, int)> {
    if !ci_at(s, "bug"@, p) {
        None
    } else {
        let q1 = run_end(s, p + 3, |c: char| is_bug_sep(c));
        if !ci_at(s, "type"@, q1) {
            None
        } else {
            let q3 = run_end(s, q1 + 4, |c: char| is_bug_assign(c));
            let d = run_end(s, q3, |c: char| is_unicode_digit(c));
            if q3 > q1 + 4 && d >= 2 && d - 2 >= q3 {
                Some((q3, d))
            } else {
                None
            }
        }
    }
}

pub open spec fn bug_type_from(s: Seq<char>, i: int) -> Option<(int, int)>
    decreases s.len() + 1 - i,
{
    if i < 0 || i > s.len() {
        None
    } else if bug_type_at(s, i) is Some {
        bug_type_at(s, i)
    } else {
        bug_type_from(s, i + 1)
    }
}

/// The code of the first `bug_type` line of the log.
pub open spec fn bug_type_code(s: Seq<char>) -> Option<Seq<char>> {
    match bug_type_from(s, 0) {
        Some(sp) => Some(s.subrange(sp.0, sp.1)),
        None => None,
    }
}

fn bug_type_at_exec(s: &[char], p: usize) -> (r: Option<(usize, usize)>)
    requires
        p <= s.len(),
    ensures
        match r {
            Some(sp) => bug_type_at(s@, p as int) == Some((sp.0 as int, sp.1 as int)) && sp.0 <= sp.1
                <= s.len(),
            None => bug_type_at(s@, p as int) is None,
        },
{
    proof {
        reveal_strlit("bug");
        reveal_strlit("type");
    }
    let bug = chars_of("bug");
    if !ci_at_exec(s, &bug, p) {
        return None;
    }
    let mut q1 = p + 3;
    while q1 < s.len() && (s[q1] == '_' || s[q1] == '-' || char_is_ws(s[q1]))
        invariant
            p + 3 <= q1 <= s.len(),
            run_end(s@, p + 3, |c: char| is_bug_sep(c)) == run_end(s@, q1 as int, |c: char| is_bug_sep(c)),
        decreases s.len() - q1,
    {
        q1 += 1;
    }
    let ty = chars_of("type");
    if !ci_at_exec(s, &ty, q1) {
        return None;
    }
    let mut q3 = q1 + 4;
    while q3 < s.len() && (s[q3] == '"' || s[q3] == '\'' || s[q3] == ':' || s[q3] == '=' || char_is_ws(s[q3]))
        invariant
            q1 + 4 <= q3 <= s.len(),
            run_end(s@, q1 + 4, |c: char| is_bug_assign(c)) == run_end(s@, q3 as int, |c: char| is_bug_assign(c)),
        decreases s.len() - q3,
    {
        q3 += 1;
    }
    let mut d = q3;
    while d < s.len() && char_is_unicode_digit(s[d])
        invariant
            q3 <= d <= s.len(),
            run_end(s@, q3 as int, |c: char| is_unicode_digit(c)) == run_end(s@, d as int, |c: char| is_unicode_digit(c)),
        decreases s.len() - d,
    {
        d += 1;
    }
    if q3 > q1 + 4 && d >= 2 && d - 2 >= q3 {
        Some((q3, d))
    } else {
        None
    }
}

fn bug_type_code_exec(s: &[char]) -> (r: Option<Vec<char>>)
    ensures
        match r {
            Some(c) => bug_type_code(s@) == Some(c@),
            None => bug_type_code(s@) is None,
        },
{
    let mut p: usize = 0;
    while p < s.len()
        invariant
            p <= s.len(),
            bug_type_from(s@, 0) == bug_type_from(s@, p as int),
        decreases s.len() - p,
    {
        match bug_type_at_exec(s, p) {
            Some(sp) => {
                assert(bug_type_from(s@, p as int) == bug_type_at(s@, p as int));
                return Some(slice_to_vec(s, sp.0, sp.1));
            },
            None => {},
        }
        p += 1;
    }
    proof {
        reveal_strlit("bug");
    }
    assert(bug_type_at(s@, p as int) is None);
    assert(bug_type_from(s@, p + 1) is None);
    assert(bug_type_from(s@, p as int) is None);
    None
}

pub open spec fn lookup_label(mapping: Seq<BugTypeLabel>, code: Seq<char>) -> Option<Seq<char>>
    decreases mapping.len(),
{
    if mapping.len() == 0 {
        None
    } else if mapping[0].code@ == code {
        Some(mapping[0].label@)
    } else {
        lookup_label(mapping.drop_first(), code)
    }
}

fn lookup_label_exec(mapping: &Vec<BugTypeLabel>, code: &[char]) -> (r: Option<Vec<char>>)
    ensures
        match r {
            Some(l) => lookup_label(mapping@, code@) == Some(l@),
            None => lookup_label(mapping@, code@) is None,
        },
{
    let mut i: usize = 0;
    assert(mapping@.skip(0) =~= mapping@);
    while i < mapping.len()
        invariant
            i <= mapping.len(),
            lookup_label(mapping@, code@) == lookup_label(mapping@.skip(i as int), code@),
        decreases mapping.len() - i,
    {
        assert(mapping@.skip(i as int).drop_first() =~= mapping@.skip(i + 1));
        let k = chars_of(mapping[i].code.as_str());
        if chars_eq(&k, code) {
            return Some(chars_of(mapping[i].label.as_str()));
        }
        i += 1;
    }
    None
}

/// Sentence on the `bug_type` of the log, when its code has a label.
pub open spec fn bug_type_sentence(log: Seq<char>, mapping: Seq<BugTypeLabel>) -> Option<Seq<char>> {
    match bug_type_code(log) {
        None => None,
        Some(code) => match lookup_label(mapping, code) {
            None => None,
            Some(label) => Some(
                "Type bug systÃ¨me signalÃ© : "@ + code + " ("@ + label + ")."@,
            ),
        },
    }
}

fn bug_type_line(log: &[char], mapping: &Vec<BugTypeLabel>) -> (r: Option<Vec<char>>)
    ensures
        match r {
            Some(t) => bug_type_sentence(log@, mapping@) == Some(t@),
            None => bug_type_sentence(log@, mapping@) is None,
        },
{
    let code = match bug_type_code_exec(log) {
        Some(c) => c,
        None => return None,
    };
    let label = match lookup_label_exec(mapping, &code) {
        Some(l) => l,
        None => return None,
    };
    let mut out: Vec<char> = Vec::new();
    append_str(&mut out, "Type bug systÃ¨me signalÃ© : ");
    append_chars(&mut out, &code);
    append_str(&mut out, " (");
    append_chars(&mut out, &label);
    append_str(&mut out, ").");
    Some(out)
}

// ---------------------------------------------------------------------------
// Model rules
// ---------------------------------------------------------------------------
/// A sensor token occurs in the lowercased log, as text or, when it is a
/// decimal number, as `0x` followed by its hexadecimal digits.
pub open spec fn sensor_token_in(log_lc: Seq<char>, token: Seq<char>) -> bool {
    let t = trim(token);
    if t.len() == 0 {
        false
    } else if seq_contains(log_lc, unicode_lower(t)) {
        true
    } else {
        match parse_u64_spec(t) {
            Some(n) => seq_contains(log_lc, "0x"@ + hex_text(n as nat)) || seq_contains(log_lc, t),
            None => false,
        }
    }
}

fn sensor_token_in_log(log_lc: &[char], token: &str) -> (r: bool)
    ensures
        r == sensor_token_in(log_lc@, token@),
{
    let tc = chars_of(token);
    let t = trim_chars(&tc);
    if t.len() == 0 {
        return false;
    }
    let ts = string_of(&t);
    let tl = to_lowercase(ts.as_str());
    if contains(log_lc, &tl) {
        return true;
    }
    match parse_u64(&t) {
        Some(n) => {
            let mut hex = chars_of("0x");
            let digits = hex_text_exec(n);
            append_chars(&mut hex, &digits);
            if contains(log_lc, &hex) {
                return true;
            }
            contains(log_lc, &t)
        },
        None => false,
    }
}

pub open spec fn rule_model_ok(mkt: Seq<char>, models: Seq<Seq<char>>) -> bool {
    exists|i: int|
        0 <= i < models.len() && (eq_ci(trim(#[trigger] models[i]), "all"@) || marketing_matches(
            mkt,
            trim(models[i]),
        ))
}

pub open spec fn any_token_in(log_lc: Seq<char>, toks: Seq<Seq<char>>) -> bool {
    exists|i: int| 0 <= i < toks.len() && sensor_token_in(log_lc, #[trigger] toks[i])
}

/// The rule names the marketing model (or `all`), its conditions hold in
/// the lowercased log, and it has at least one condition.
pub open spec fn rule_applies(log_lc: Seq<char>, marketing: Option<Seq<char>>, rule: ModelPanicRule) -> bool {
    match marketing {
        None => false,
        Some(mkt) => {
            let spec_ = rule.match_spec;
            &&& rule_model_ok(mkt, strs(rule.models@))
            &&& !(has_items(spec_.panic_contains) && !meets_all(log_lc, items(spec_.panic_contains)))
            &&& !(has_items(spec_.missing_sensor_any) && !meets_any(log_lc, items(spec_.missing_sensor_any)))
            &&& !(has_items(spec_.smc_sensor_array_any) && !any_token_in(log_lc, items(spec_.smc_sensor_array_any)))
            &&& (has_items(spec_.panic_contains) || has_items(spec_.missing_sensor_any) || has_items(
                spec_.smc_sensor_array_any,
            ))
        },
    }
}

fn rule_model_ok_exec(mkt: &str, models: &Vec<String>) -> (r: bool)
    ensures
        r == rule_model_ok(mkt@, strs(models@)),
{
    let mut i: usize = 0;
    while i < models.len()
        invariant
            i <= models.len(),
            forall|j: int|
                0 <= j < i ==> !(eq_ci(trim(#[trigger] strs(models@)[j]), "all"@) || marketing_matches(
                    mkt@,
                    trim(strs(models@)[j]),
                )),
        decreases models.len() - i,
    {
        let mc = chars_of(models[i].as_str());
        let m = trim_chars(&mc);
        let ms = string_of(&m);
        if eq_ci_str(&m, "all") || marketing_matches_key(mkt, ms.as_str()) {
            assert(strs(models@)[i as int] == models@[i as int]@);
            return true;
        }
        i += 1;
    }
    false
}

fn any_token_in_exec(log_lc: &[char], toks: &Vec<String>) -> (r: bool)
    ensures
        r == any_token_in(log_lc@, strs(toks@)),
{
    let mut i: usize = 0;
    while i < toks.len()
        invariant
            i <= toks.len(),
            forall|j: int| 0 <= j < i ==> !sensor_token_in(log_lc@, #[trigger] strs(toks@)[j]),
        decreases toks.len() - i,
    {
        if sensor_token_in_log(log_lc, toks[i].as_str()) {
            assert(sensor_token_in(log_lc@, strs(toks@)[i as int]));
            return true;
        }
        i += 1;
    }
    false
}

fn model_panic_rule_applies(log_lc: &[char], marketing: Option<&str>, rule: &ModelPanicRule) -> (r: bool)
    ensures
        r == rule_applies(log_lc@, opt_str_view(marketing), *rule),
{
    let mkt = match marketing {
        Some(m) => m,
        None => return false,
    };
    if !rule_model_ok_exec(mkt, &rule.models) {
        return false;
    }
    let sp = &rule.match_spec;
    let mut used = false;
    if has_items_exec(&sp.panic_contains) {
        used = true;
        if !log_meets_all_substrings(log_lc, sp.panic_contains.as_ref().unwrap().as_slice()) {
            return false;
        }
    }
    if has_items_exec(&sp.missing_sensor_any) {
        used = true;
        if !log_meets_any_substrings(log_lc, sp.missing_sensor_any.as_ref().unwrap().as_slice()) {
            return false;
        }
    }
    if has_items_exec(&sp.smc_sensor_array_any) {
        used = true;
        if !any_token_in_exec(log_lc, sp.smc_sensor_array_any.as_ref().unwrap()) {
            return false;
        }
    }
    used
}

/// Score of a rule: its confidence plus one percent per sensor-array token.
pub open spec fn rule_score(rule: ModelPanicRule) -> int {
    rule.confidence as int + 100 * match rule.match_spec.smc_sensor_array_any {
        Some(v) => v@.len() as int,
        None => 0,
    }
}

fn rule_score_exec(rule: &ModelPanicRule) -> (r: u128)
    ensures
        r as int == rule_score(*rule),
{
    let n: usize = match &rule.match_spec.smc_sensor_array_any {
        Some(v) => v.len(),
        None => 0,
    };
    rule.confidence as u128 + 100 * (n as u128)
}

/// Index of the first applying rule of the highest score among the first `n`.
pub open spec fn best_rule(
    rules: Seq<ModelPanicRule>,
    log_lc: Seq<char>,
    marketing: Option<Seq<char>>,
    n: int,
) -> Option<int>
    decreases n,
{
    if n <= 0 {
        None
    } else {
        let b = best_rule(rules, log_lc, marketing, n - 1);
        if rule_applies(log_lc, marketing, rules[n - 1]) && (b is None || rule_score(rules[n - 1])
            > rule_score(rules[b.unwrap()])) {
            Some(n - 1)
        } else {
            b
        }
    }
}

// ---------------------------------------------------------------------------
// Explanation texts
// ---------------------------------------------------------------------------
pub open spec fn lookup_source(reg: Seq<SourceEntry>, id: Seq<char>) -> Option<SourceEntry>
    decreases reg.len(),
{
    if reg.len() == 0 {
        None
    } else if reg[0].id@ == id {
        Some(reg[0])
    } else {
        lookup_source(reg.drop_first(), id)
    }
}

/// `title [quality] url`, with ` (notes)` when asked for and the trimmed
/// notes are non-empty and under 200 bytes.
pub open spec fn source_text(e: SourceEntry, with_notes: bool) -> Seq<char> {
    let q = match e.quality {
        Some(q) => q@,
        None => "?"@,
    };
    let base = e.title@ + " ["@ + q + "] "@ + e.url@;
    match e.notes {
        Some(n) => if with_notes && trim(n@).len() > 0 && byte_len(trim(n@)) < 200 {
            base + " ("@ + trim(n@) + ")"@
        } else {
            base
        },
        None => base,
    }
}

/// The registered sources of the given ids, separated by ` · `.
pub open spec fn sources_text(reg: Seq<SourceEntry>, ids: Seq<Seq<char>>, with_notes: bool) -> Seq<char>
    decreases ids.len(),
{
    if ids.len() == 0 {
        Seq::empty()
    } else {
        let prev = sources_text(reg, ids.drop_last(), with_notes);
        match lookup_source(reg, ids.last()) {
            None => prev,
            Some(e) => prev + (if prev.len() == 0 {
                Seq::empty()
            } else {
                " Â· "@
            }) + source_text(e, with_notes),
        }
    }
}

fn lookup_source_exec(reg: &Vec<SourceEntry>, id: &[char]) -> (r: Option<usize>)
    ensures
        match r {
            Some(i) => i < reg.len() && lookup_source(reg@, id@) == Some(reg@[i as int]),
            None => lookup_source(reg@, id@) is None,
        },
{
    let mut i: usize = 0;
    assert(reg@.skip(0) =~= reg@);
    while i < reg.len()
        invariant
            i <= reg.len(),
            lookup_source(reg@, id@) == lookup_source(reg@.skip(i as int), id@),
        decreases reg.len() - i,
    {
        assert(reg@.skip(i as int).drop_first() =~= reg@.skip(i + 1));
        let k = chars_of(reg[i].id.as_str());
        if chars_eq(&k, id) {
            return Some(i);
        }
        i += 1;
    }
    None
}

fn source_text_exec(e: &SourceEntry, with_notes: bool) -> (r: Vec<char>)
    ensures
        r@ == source_text(*e, with_notes),
{
    let mut out = chars_of(e.title.as_str());
    append_str(&mut out, " [");
    match &e.quality {
        Some(q) => append_str(&mut out, q.as_str()),
        None => append_str(&mut out, "?"),
    }
    append_str(&mut out, "] ");
    append_str(&mut out, e.url.as_str());
    match &e.notes {
        Some(n) => {
            if with_notes {
                let nc = chars_of(n.as_str());
                let t = trim_chars(&nc);
                if t.len() > 0 && byte_len_below(&t, 200) {
                    append_str(&mut out, " (");
                    append_chars(&mut out, &t);
                    append_str(&mut out, ")");
                }
            }
        },
        None => {},
    }
    out
}

fn sources_text_exec(reg: &Vec<SourceEntry>, ids: &[String], take: usize, with_notes: bool) -> (r: Vec<char>)
    ensures
        r@ == sources_text(reg@, strs(ids@).take(if take < ids.len() { take as int } else { ids.len() as int }), with_notes),
{
    let n = if take < ids.len() {
        take
    } else {
        ids.len()
    };
    let ghost all = strs(ids@).take(n as int);
    let mut out: Vec<char> = Vec::new();
    let mut i: usize = 0;
    while i < n
        invariant
            i <= n <= ids.len(),
            all == strs(ids@).take(n as int),
            out@ == sources_text(reg@, all.take(i as int), with_notes),
        decreases n - i,
    {
        assert(all.take(i + 1).drop_last() =~= all.take(i as int));
        assert(all.take(i + 1).last() == ids@[i as int]@);
        let idc = chars_of(ids[i].as_str());
        match lookup_source_exec(reg, &idc) {
            Some(k) => {
                if out.len() > 0 {
                    append_str(&mut out, " Â· ");
                }
                let t = source_text_exec(&reg[k], with_notes);
                append_chars(&mut out, &t);
            },
            None => {},
        }
        i += 1;
    }
    assert(all.take(n as int) =~= all);
    out
}

/// Reliability note, evidence level and sources of a pattern.
pub open spec fn provenance_text(p: Pattern, reg: Option<Seq<SourceEntry>>) -> Seq<char> {
    let a = match p.reliability_note {
        Some(n) => " "@ + trim(n@),
        None => Seq::empty(),
    };
    let b = match p.evidence_level {
        Some(e) => " â€” Niveau de preuve (KB) : "@ + trim(e@),
        None => Seq::empty(),
    };
    let c = match reg {
        Some(r) => if has_items(p.source_ids) {
            " â€” Sources : "@ + sources_text(r, items(p.source_ids).take(
                if items(p.source_ids).len() < 8 { items(p.source_ids).len() as int } else { 8 },
            ), true)
        } else {
            Seq::empty()
        },
        None => Seq::empty(),
    };
    a + b + c
}

pub open spec fn opt_reg(o: Option<Vec<SourceEntry>>) -> Option<Seq<SourceEntry>> {
    match o {
        Some(v) => Some(v@),
        None => None,
    }
}

fn append_pattern_provenance(expl: &mut Vec<char>, pat: &Pattern, reg: &Option<Vec<SourceEntry>>)
    ensures
        final(expl)@ == old(expl)@ + provenance_text(*pat, opt_reg(*reg)),
{
    let ghost e0 = expl@;
    if let Some(note) = &pat.reliability_note {
        append_str(expl, " ");
        let nc = chars_of(note.as_str());
        let t = trim_chars(&nc);
        append_chars(expl, &t);
    }
    if let Some(ev) = &pat.evidence_level {
        append_str(expl, " â€” Niveau de preuve (KB) : ");
        let ec = chars_of(ev.as_str());
        let t = trim_chars(&ec);
        append_chars(expl, &t);
    }
    let ghost e1 = expl@;
    match reg {
        Some(map) => {
            if has_items_exec(&pat.source_ids) {
                let ids = pat.source_ids.as_ref().unwrap();
                append_str(expl, " â€” Sources : ");
                let t = sources_text_exec(map, ids.as_slice(), 8, true);
                append_chars(expl, &t);
            }
        },
        None => {},
    }
    assert(expl@ =~= e0 + provenance_text(*pat, opt_reg(*reg)));
}

pub open spec fn clinical_lists(p: Pattern) -> Seq<char> {
    let a = if has_items(p.symptoms) {
        " â€” SymptÃ´mes KB : "@ + join(items(p.symptoms), " ; "@)
    } else {
        Seq::empty()
    };
    let b = if has_items(p.repair_priority) {
        " â€” Ordre atelier : "@ + join(items(p.repair_priority), " â†’ "@)
    } else {
        Seq::empty()
    };
    a + b
}

pub open spec fn clinical_flags(p: Pattern) -> Seq<char> {
    let c = if p.aftermarket_part_risk == Some(true) {
        " â€” Risque piÃ¨ce aftermarket : Ã©levÃ© (capteurs faux / array incomplet / panics erratiques)."@
    } else {
        Seq::empty()
    };
    let d = if p.requires_known_good_test == Some(true) {
        " â€” Requiert test avec flex OEM ou connu bon avant diagnostic plaque."@
    } else {
        Seq::empty()
    };
    c + d
}

pub open spec fn clinical_tail(p: Pattern) -> Seq<char> {
    let e = match p.false_positive_common {
        Some(f) => if trim(f@).len() > 0 {
            " â€” Faux positifs frÃ©quents : "@ + trim(f@)
        } else {
            Seq::empty()
        },
        None => Seq::empty(),
    };
    let f = if p.confirmed_by_repair == Some(true) {
        " â€” CorrÃ©lation confirmÃ©e atelier (niveau KB)."@
    } else {
        Seq::empty()
    };
    e + f
}

/// Symptoms, workshop order, risks and confirmations of a pattern.
pub open spec fn clinical_text(p: Pattern) -> Seq<char> {
    clinical_lists(p) + clinical_flags(p) + clinical_tail(p)
}

fn clinical_lists_exec(pat: &Pattern) -> (r: Vec<char>)
    ensures
        r@ == clinical_lists(*pat),
{
    let mut out: Vec<char> = Vec::new();
    if has_items_exec(&pat.symptoms) {
        append_str(&mut out, " â€” SymptÃ´mes KB : ");
        let j = join_strings(pat.symptoms.as_ref().unwrap().as_slice(), " ; ");
        append_chars(&mut out, &j);
    }
    let ghost a = out@;
    if has_items_exec(&pat.repair_priority) {
        append_str(&mut out, " â€” Ordre atelier : ");
        let j = join_strings(pat.repair_priority.as_ref().unwrap().as_slice(), " â†’ ");
        append_chars(&mut out, &j);
    }
    assert(out@ =~= clinical_lists(*pat));
    out
}

fn clinical_flags_exec(pat: &Pattern) -> (r: Vec<char>)
    ensures
        r@ == clinical_flags(*pat),
{
    let mut out: Vec<char> = Vec::new();
    if pat.aftermarket_part_risk == Some(true) {
        append_str(&mut out, " â€” Risque piÃ¨ce aftermarket : Ã©levÃ© (capteurs faux / array incomplet / panics erratiques).");
    }
    if pat.requires_known_good_test == Some(true) {
        append_str(&mut out, " â€” Requiert test avec flex OEM ou connu bon avant diagnostic plaque.");
    }
    assert(out@ =~= clinical_flags(*pat));
    out
}

fn clinical_tail_exec(pat: &Pattern) -> (r: Vec<char>)
    ensures
        r@ == clinical_tail(*pat),
{
    let mut out: Vec<char> = Vec::new();
    if let Some(fp) = &pat.false_positive_common {
        let fc = chars_of(fp.as_str());
        let t = trim_chars(&fc);
        if t.len() > 0 {
            append_str(&mut out, " â€” Faux positifs frÃ©quents : ");
            append_chars(&mut out, &t);
        }
    }
    let ghost e = out@;
    if pat.confirmed_by_repair == Some(true) {
        append_str(&mut out, " â€” CorrÃ©lation confirmÃ©e atelier (niveau KB).");
    }
    assert(out@ =~= clinical_tail(*pat));
    out
}

fn append_pattern_clinical(expl: &mut Vec<char>, pat: &Pattern)
    ensures
        final(expl)@ == old(expl)@ + clinical_text(*pat),
{
    let ghost e0 = expl@;
    let a = clinical_lists_exec(pat);
    let b = clinical_flags_exec(pat);
    let c = clinical_tail_exec(pat);
    append_chars(expl, &a);
    append_chars(expl, &b);
    append_chars(expl, &c);
    assert(expl@ =~= e0 + clinical_text(*pat));
}

/// Workshop note and textual source line of a pattern.
pub open spec fn repair_notes_text(p: Pattern) -> Seq<char> {
    let a = match p.repair_notes {
        Some(n) => if trim(n@).len() > 0 {
            " â€” Note atelier (KB) : "@ + trim(n@)
        } else {
            Seq::empty()
        },
        None => Seq::empty(),
    };
    let b = match p.kb_source_line {
        Some(s) => if trim(s@).len() > 0 {
            " â€” Sources (KB texte) : "@ + trim(s@)
        } else {
            Seq::empty()
        },
        None => Seq::empty(),
    };
    a + b
}

fn append_pattern_repair_notes(expl: &mut Vec<char>, pat: &Pattern)
    ensures
        final(expl)@ == old(expl)@ + repair_notes_text(*pat),
{
    let ghost e0 = expl@;
    if let Some(n) = &pat.repair_notes {
        let nc = chars_of(n.as_str());
        let t = trim_chars(&nc);
        if t.len() > 0 {
            append_str(expl, " â€” Note atelier (KB) : ");
            append_chars(expl, &t);
        }
    }
    if let Some(s) = &pat.kb_source_line {
        let sc = chars_of(s.as_str());
        let t = trim_chars(&sc);
        if t.len() > 0 {
            append_str(expl, " â€” Sources (KB texte) : ");
            append_chars(expl, &t);
        }
    }
    assert(expl@ =~= e0 + repair_notes_text(*pat));
}

/// Explanation of a model rule.
pub open spec fn rule_explanation(rule: ModelPanicRule, reg: Option<Seq<SourceEntry>>) -> Seq<char> {
    let order = match rule.repair_order {
        Some(v) => if join(strs(v@), " â†’ "@).len() > 0 {
            join(strs(v@), " â†’ "@)
        } else {
            "voir ordre atelier dans la KB"@
        },
        None => "voir ordre atelier dans la KB"@,
    };
    let head = "Base PanicBase â€” rÃ¨gle modÃ¨le Â« "@ + trim(rule.likely_component@)
        + " Â» : "@ + order + "."@;
    let note = match rule.note {
        Some(n) => if trim(n@).len() > 0 {
            " â€” "@ + trim(n@)
        } else {
            Seq::empty()
        },
        None => Seq::empty(),
    };
    let ev = match rule.evidence_level {
        Some(e) => " â€” Niveau de preuve (KB) : "@ + trim(e@),
        None => Seq::empty(),
    };
    let src = if has_items(rule.source_ids) {
        " â€” Sources : "@ + match reg {
            Some(r) => sources_text(r, items(rule.source_ids).take(
                if items(rule.source_ids).len() < 6 { items(rule.source_ids).len() as int } else { 6 },
            ), false),
            None => Seq::empty(),
        }
    } else {
        Seq::empty()
    };
    head + note + ev + src
}

pub open spec fn rule_match(rule: ModelPanicRule, reg: Option<Seq<SourceEntry>>) -> MatchView {
    MatchView {
        probable_cause: trim(rule.likely_component@),
        confidence: confidence_pct(rule.confidence),
        explanation: rule_explanation(rule, reg),
        matched_signature: "model_rule:"@ + trim(rule.likely_component@),
    }
}

/// Match given by the model rules alone.
pub open spec fn rules_match(kb: KnowledgeBase, log_lc: Seq<char>, marketing: Option<Seq<char>>) -> Option<MatchView> {
    match kb.model_panic_rules {
        None => None,
        Some(rules) => match best_rule(rules@, log_lc, marketing, rules@.len() as int) {
            None => None,
            Some(b) => Some(rule_match(rules@[b], opt_reg(kb.source_registry))),
        },
    }
}

fn rule_explanation_exec(rule: &ModelPanicRule, reg: &Option<Vec<SourceEntry>>) -> (r: Vec<char>)
    ensures
        r@ == rule_explanation(*rule, opt_reg(*reg)),
{
    let lc = chars_of(rule.likely_component.as_str());
    let likely = trim_chars(&lc);
    let mut out: Vec<char> = Vec::new();
    append_str(&mut out, "Base PanicBase â€” rÃ¨gle modÃ¨le Â« ");
    append_chars(&mut out, &likely);
    append_str(&mut out, " Â» : ");
    let mut order_done = false;
    if let Some(v) = &rule.repair_order {
        let j = join_strings(v.as_slice(), " â†’ ");
        if j.len() > 0 {
            append_chars(&mut out, &j);
            order_done = true;
        }
    }
    if !order_done {
        append_str(&mut out, "voir ordre atelier dans la KB");
    }
    append_str(&mut out, ".");
    let ghost head = out@;
    if let Some(n) = &rule.note {
        let nc = chars_of(n.as_str());
        let t = trim_chars(&nc);
        if t.len() > 0 {
            append_str(&mut out, " â€” ");
            append_chars(&mut out, &t);
        }
    }
    if let Some(ev) = &rule.evidence_level {
        append_str(&mut out, " â€” Niveau de preuve (KB) : ");
        let ec = chars_of(ev.as_str());
        let t = trim_chars(&ec);
        append_chars(&mut out, &t);
    }
    if has_items_exec(&rule.source_ids) {
        let ids = rule.source_ids.as_ref().unwrap();
        append_str(&mut out, " â€” Sources : ");
        if let Some(map) = reg {
            let t = sources_text_exec(map, ids.as_slice(), 6, false);
            append_chars(&mut out, &t);
        }
    }
    assert(out@ =~= rule_explanation(*rule, opt_reg(*reg)));
    out
}

fn match_from_model_panic_rules(kb: &KnowledgeBase, log_lc: &[char], marketing: Option<&str>) -> (r: Option<KbMatch>)
    ensures
        opt_match_view(r) == rules_match(*kb, log_lc@, opt_str_view(marketing)),
{
    let rules = match &kb.model_panic_rules {
        Some(rules) => rules,
        None => return None,
    };
    let ghost mkt = opt_str_view(marketing);
    let mut best: Option<usize> = None;
    let mut best_score: u128 = 0;
    let mut i: usize = 0;
    while i < rules.len()
        invariant
            i <= rules.len(),
            mkt == opt_str_view(marketing),
            match best {
                Some(b) => best_rule(rules@, log_lc@, mkt, i as int) == Some(b as int) && b < i
                    && best_score as int == rule_score(rules@[b as int]),
                None => best_rule(rules@, log_lc@, mkt, i as int) is None,
            },
        decreases rules.len() - i,
    {
        let ghost prev = best_rule(rules@, log_lc@, mkt, i as int);
        assert(best_rule(rules@, log_lc@, mkt, i + 1) == if rule_applies(log_lc@, mkt, rules@[i as int])
            && (prev is None || rule_score(rules@[i as int]) > rule_score(rules@[prev.unwrap()])) {
            Some(i as int)
        } else {
            prev
        });
        if model_panic_rule_applies(log_lc, marketing, &rules[i]) {
            let sc = rule_score_exec(&rules[i]);
            match best {
                None => {
                    best = Some(i);
                    best_score = sc;
                },
                Some(_) => {
                    if sc > best_score {
                        best = Some(i);
                        best_score = sc;
                    }
                },
            }
        }
        i += 1;
    }
    let b = match best {
        Some(b) => b,
        None => return None,
    };
    let rule = &rules[b];
    let lc = chars_of(rule.likely_component.as_str());
    let likely = trim_chars(&lc);
    let expl = rule_explanation_exec(rule, &kb.source_registry);
    let mut sig = chars_of("model_rule:");
    append_chars(&mut sig, &likely);
    let m = KbMatch {
        probable_cause: string_of(&likely),
        confidence: confidence_to_u8(rule.confidence),
        explanation: string_of(&expl),
        matched_signature: string_of(&sig),
    };
    assert(m@ == rule_match(rules@[b as int], opt_reg(kb.source_registry)));
    Some(m)
}

// ---------------------------------------------------------------------------
// Failures often cited for the model
// ---------------------------------------------------------------------------
/// Index of the longest (in bytes) key that the marketing name matches, the
/// first one among keys of equal length, among the first `n`.
pub open spec fn best_key(fs: Seq<ModelFailures>, m: Seq<char>, n: int) -> Option<int>
    decreases n,
{
    if n <= 0 {
        None
    } else {
        let b = best_key(fs, m, n - 1);
        if marketing_matches(m, fs[n - 1].model@) && (b is None || byte_len(fs[n - 1].model@)
            > byte_len(fs[b.unwrap()].model@)) {
            Some(n - 1)
        } else {
            b
        }
    }
}

pub open spec fn failures_text(f: ModelFailures) -> Seq<char> {
    " Sur "@ + f.model@ + ", failles souvent citÃ©es : "@ + join(strs(f.failures@), ", "@) + "."@
}

pub open spec fn failures_addon(kb: KnowledgeBase, marketing: Option<Seq<char>>) -> Option<Seq<char>> {
    match marketing {
        None => None,
        Some(m) => match best_key(kb.model_specific_failures@, m, kb.model_specific_failures@.len() as int) {
            None => None,
            Some(b) => Some(failures_text(kb.model_specific_failures@[b])),
        },
    }
}

/// Number of bytes of the UTF-8 encoding.
fn byte_len_exec(s: &[char]) -> (r: u128)
    ensures
        r as nat == byte_len(s@),
{
    let mut acc: u128 = 0;
    let mut i: usize = 0;
    assert(s@.take(0) =~= Seq::<char>::empty());
    while i < s.len()
        invariant
            i <= s.len(),
            acc as nat == byte_len(s@.take(i as int)),
            acc <= 4 * i,
        decreases s.len() - i,
    {
        assert(s@.take(i + 1).drop_last() =~= s@.take(i as int));
        let c = s[i] as u32;
        let w: u128 = if c < 0x80 {
            1
        } else if c < 0x800 {
            2
        } else if c < 0x10000 {
            3
        } else {
            4
        };
        acc = acc + w;
        i += 1;
    }
    assert(s@.take(s.len() as int) =~= s@);
    acc
}

fn model_failures_addon(kb: &KnowledgeBase, marketing: Option<&str>) -> (r: Option<Vec<char>>)
    ensures
        match r {
            Some(t) => failures_addon(*kb, opt_str_view(marketing)) == Some(t@),
            None => failures_addon(*kb, opt_str_view(marketing)) is None,
        },
{
    let m = match marketing {
        Some(m) => m,
        None => return None,
    };
    let fs = &kb.model_specific_failures;
    let mut best: Option<usize> = None;
    let mut best_len: u128 = 0;
    let mut i: usize = 0;
    while i < fs.len()
        invariant
            i <= fs.len(),
            match best {
                Some(b) => best_key(fs@, m@, i as int) == Some(b as int) && b < i && best_len as nat
                    == byte_len(fs@[b as int].model@),
                None => best_key(fs@, m@, i as int) is None,
            },
        decreases fs.len() - i,
    {
        if marketing_matches_key(m, fs[i].model.as_str()) {
            let kc = chars_of(fs[i].model.as_str());
            let bl = byte_len_exec(&kc);
            match best {
                None => {
                    best = Some(i);
                    best_len = bl;
                },
                Some(_) => {
                    if bl > best_len {
                        best = Some(i);
                        best_len = bl;
                    }
                },
            }
        }
        i += 1;
    }
    let b = match best {
        Some(b) => b,
        None => return None,
    };
    let f = &fs[b];
    let mut out: Vec<char> = Vec::new();
    append_str(&mut out, " Sur ");
    append_str(&mut out, f.model.as_str());
    append_str(&mut out, ", failles souvent citÃ©es : ");
    let j = join_strings(f.failures.as_slice(), ", ");
    append_chars(&mut out, &j);
    append_str(&mut out, ".");
    Some(out)
}

// ---------------------------------------------------------------------------
// Patterns
// ---------------------------------------------------------------------------
/// A pattern that can be chosen: it has a cause and a signature or required
/// substrings, it matches the lowercased log and allows the model.
pub open spec fn is_hit(p: Pattern, log_lc: Seq<char>, marketing: Option<Seq<char>>) -> bool {
    &&& p.causes@.len() > 0
    &&& (trim(p.signature@).len() > 0 || has_items(p.require_all_substrings))
    &&& pattern_matches(log_lc, p)
    &&& model_allowed_spec(p, marketing)
}

/// `a` ranks before `b`: longer rank, then higher confidence.
pub open spec fn ranks_before(a: Pattern, b: Pattern) -> bool {
    sort_len(a) > sort_len(b) || (sort_len(a) == sort_len(b) && a.confidence > b.confidence)
}

/// Index of the first best hit among the first `n` patterns.
pub open spec fn best_hit(ps: Seq<Pattern>, log_lc: Seq<char>, marketing: Option<Seq<char>>, n: int) -> Option<int>
    decreases n,
{
    if n <= 0 {
        None
    } else {
        let b = best_hit(ps, log_lc, marketing, n - 1);
        if is_hit(ps[n - 1], log_lc, marketing) && (b is None || ranks_before(ps[n - 1], ps[b.unwrap()])) {
            Some(n - 1)
        } else {
            b
        }
    }
}

proof fn lemma_best_hit(ps: Seq<Pattern>, log_lc: Seq<char>, marketing: Option<Seq<char>>, n: int)
    ensures
        best_hit(ps, log_lc, marketing, n) matches Some(h) ==> 0 <= h < n && is_hit(ps[h], log_lc, marketing),
    decreases n,
{
    if n > 0 {
        lemma_best_hit(ps, log_lc, marketing, n - 1);
    }
}

pub open spec fn opt_text(o: Option<Seq<char>>) -> Seq<char> {
    match o {
        Some(t) => t,
        None => Seq::empty(),
    }
}

pub open spec fn spaced_text(o: Option<Seq<char>>) -> Seq<char> {
    match o {
        Some(t) => " "@ + t,
        None => Seq::empty(),
    }
}

/// Explanation of a pattern match.
pub open spec fn pattern_explanation(
    p: Pattern,
    reg: Option<Seq<SourceEntry>>,
    model_txt: Option<Seq<char>>,
    bug_txt: Option<Seq<char>>,
) -> Seq<char> {
    "Base PanicBase â€” motif Â« "@ + signature_label(p) + " Â» : "@ + join(strs(p.causes@), ", "@)
        + "."@ + provenance_text(p, reg) + clinical_text(p) + repair_notes_text(p) + opt_text(
        model_txt,
    ) + spaced_text(bug_txt)
}

/// Hints text when neither a pattern nor a rule matched.
pub open spec fn hints_text(bug_txt: Option<Seq<char>>, model_txt: Option<Seq<char>>) -> Seq<char> {
    match (bug_txt, model_txt) {
        (Some(b), Some(m)) => b + " "@ + m,
        (Some(b), None) => b,
        (None, Some(m)) => m,
        (None, None) => Seq::empty(),
    }
}

/// What `match_panic_kb` answers.
pub open spec fn kb_match(kb: KnowledgeBase, log: Seq<char>, marketing: Option<Seq<char>>) -> Option<MatchView> {
    let log_lc = unicode_lower(log);
    let ps = kb.common_panic_patterns@;
    let bug_txt = bug_type_sentence(log, kb.bug_type_mapping@);
    let model_txt = failures_addon(kb, marketing);
    match best_hit(ps, log_lc, marketing, ps.len() as int) {
        Some(h) => Some(
            MatchView {
                probable_cause: ps[h].causes@[0]@,
                confidence: confidence_pct(ps[h].confidence),
                explanation: pattern_explanation(ps[h], opt_reg(kb.source_registry), model_txt, bug_txt),
                matched_signature: signature_label(ps[h]),
            },
        ),
        None => match rules_match(kb, log_lc, marketing) {
            Some(mr) => Some(
                MatchView {
                    probable_cause: mr.probable_cause,
                    confidence: mr.confidence,
                    explanation: mr.explanation + opt_text(model_txt) + spaced_text(bug_txt),
                    matched_signature: mr.matched_signature,
                },
            ),
            None => if bug_txt is None && model_txt is None {
                None
            } else {
                Some(
                    MatchView {
                        probable_cause: "Voir dÃ©tails systÃ¨me"@,
                        confidence: 42,
                        explanation: hints_text(bug_txt, model_txt),
                        matched_signature: "bug_type_or_model_hints"@,
                    },
                )
            },
        },
    }
}

pub open spec fn opt_chars(o: Option<Vec<char>>) -> Option<Seq<char>> {
    match o {
        Some(v) => Some(v@),
        None => None,
    }
}

/// Matches a panic log against the knowledge base: the best pattern, else
/// the best model rule, else the bug_type and model hints.
pub fn match_panic_kb(kb: &KnowledgeBase, log: &str, marketing: Option<&str>) -> (r: Option<KbMatch>)
    ensures
        opt_match_view(r) == kb_match(*kb, log@, opt_str_view(marketing)),
{
    let log_lc = to_lowercase(log);
    let logc = chars_of(log);
    let ghost mkt = opt_str_view(marketing);
    let ps = &kb.common_panic_patterns;
    let mut best: Option<usize> = None;
    let mut i: usize = 0;
    while i < ps.len()
        invariant
            i <= ps.len(),
            mkt == opt_str_view(marketing),
            log_lc@ == unicode_lower(log@),
            match best {
                Some(b) => best_hit(ps@, log_lc@, mkt, i as int) == Some(b as int) && b < i,
                None => best_hit(ps@, log_lc@, mkt, i as int) is None,
            },
        decreases ps.len() - i,
    {
        let p = &ps[i];
        let sc = chars_of(p.signature.as_str());
        let sig = trim_chars(&sc);
        let hit = p.causes.len() > 0 && (sig.len() > 0 || has_items_exec(&p.require_all_substrings))
            && pattern_matches_log(&log_lc, p) && model_allowed(p, marketing);
        let ghost prev = best_hit(ps@, log_lc@, mkt, i as int);
        assert(hit == is_hit(ps@[i as int], log_lc@, mkt));
        assert(best_hit(ps@, log_lc@, mkt, i + 1) == if is_hit(ps@[i as int], log_lc@, mkt) && (prev is None
            || ranks_before(ps@[i as int], ps@[prev.unwrap()])) {
            Some(i as int)
        } else {
            prev
        });
        if hit {
            match best {
                None => {
                    best = Some(i);
                },
                Some(b) => {
                    let la = pattern_sort_len(p);
                    let lb = pattern_sort_len(&ps[b]);
                    if la > lb || (la == lb && p.confidence > ps[b].confidence) {
                        best = Some(i);
                    }
                },
            }
        }
        i += 1;
    }
    let bug_txt = bug_type_line(&logc, &kb.bug_type_mapping);
    let model_txt = model_failures_addon(kb, marketing);
    let ghost bug_g = opt_chars(bug_txt);
    let ghost model_g = opt_chars(model_txt);
    assert(bug_g == bug_type_sentence(log@, kb.bug_type_mapping@));
    assert(model_g == failures_addon(*kb, mkt));
    match best {
        Some(h) => {
            proof {
                lemma_best_hit(ps@, log_lc@, mkt, ps@.len() as int);
            }
            let pat = &ps[h];
            let label = matched_signature_label(pat);
            let mut expl: Vec<char> = Vec::new();
            append_str(&mut expl, "Base PanicBase â€” motif Â« ");
            append_chars(&mut expl, &label);
            append_str(&mut expl, " Â» : ");
            let causes = join_strings(pat.causes.as_slice(), ", ");
            append_chars(&mut expl, &causes);
            append_str(&mut expl, ".");
            append_pattern_provenance(&mut expl, pat, &kb.source_registry);
            append_pattern_clinical(&mut expl, pat);
            append_pattern_repair_notes(&mut expl, pat);
            if let Some(s) = &model_txt {
                append_chars(&mut expl, s);
            }
            if let Some(b) = &bug_txt {
                append_str(&mut expl, " ");
                append_chars(&mut expl, b);
            }
            let m = KbMatch {
                probable_cause: pat.causes[0].clone(),
                confidence: confidence_to_u8(pat.confidence),
                explanation: string_of(&expl),
                matched_signature: string_of(&label),
            };
            assert(expl@ =~= pattern_explanation(*pat, opt_reg(kb.source_registry), model_g, bug_g));
            Some(m)
        },
        None => {
            match match_from_model_panic_rules(kb, &log_lc, marketing) {
                Some(mr) => {
                    let mut expl = chars_of(mr.explanation.as_str());
                    if let Some(s) = &model_txt {
                        append_chars(&mut expl, s);
                    }
                    if let Some(b) = &bug_txt {
                        append_str(&mut expl, " ");
                        append_chars(&mut expl, b);
                    }
                    assert(expl@ =~= mr.explanation@ + opt_text(model_g) + spaced_text(bug_g));
                    Some(
                        KbMatch {
                            probable_cause: mr.probable_cause,
                            confidence: mr.confidence,
                            explanation: string_of(&expl),
                            matched_signature: mr.matched_signature,
                        },
                    )
                },
                None => {
                    if bug_txt.is_none() && model_txt.is_none() {
                        return None;
                    }
                    let mut tail: Vec<char> = Vec::new();
                    if let Some(b) = &bug_txt {
                        append_chars(&mut tail, b);
                    }
                    if let Some(s) = &model_txt {
                        if bug_txt.is_some() {
                            append_str(&mut tail, " ");
                        }
                        append_chars(&mut tail, s);
                    }
                    assert(tail@ =~= hints_text(bug_g, model_g));
                    Some(
                        KbMatch {
                            probable_cause: owned("Voir dÃ©tails systÃ¨me"),
                            confidence: 42,
                            explanation: string_of(&tail),
                            matched_signature: owned("bug_type_or_model_hints"),
                        },
                    )
                },
            }
        },
    }
}

/// The hit chosen among the first `n` patterns has the greatest rank of all
/// hits there (signature length, plus 500 with required substrings); among
/// hits of that rank, the highest confidence; among those, the first.
proof fn lemma_best_hit_is_greatest(ps: Seq<Pattern>, log_lc: Seq<char>, marketing: Option<Seq<char>>, n: int)
    requires
        n <= ps.len(),
    ensures
        match best_hit(ps, log_lc, marketing, n) {
            Some(h) => {
                &&& 0 <= h < n
                &&& is_hit(ps[h], log_lc, marketing)
                &&& forall|j: int| 0 <= j < n && is_hit(#[trigger] ps[j], log_lc, marketing) ==> sort_len(ps[j]) <= sort_len(ps[h])
                    && (sort_len(ps[j]) == sort_len(ps[h]) ==> ps[j].confidence <= ps[h].confidence)
                    && (j < h ==> sort_len(ps[j]) < sort_len(ps[h]) || ps[j].confidence < ps[h].confidence)
            },
            None => forall|j: int| 0 <= j < n ==> !is_hit(#[trigger] ps[j], log_lc, marketing),
        },
    decreases n,
{
    if n > 0 {
        lemma_best_hit_is_greatest(ps, log_lc, marketing, n - 1);
    }
}

/// Knowledge-base matching: when some pattern matches, the answer is the
/// cause and label of a matching pattern whose rank (signature length, plus
/// 500 with required substrings) no other matching pattern exceeds;
/// confidence only breaks ties of rank, and among equals the first listed
/// wins. When no pattern matches, no pattern's cause is chosen through this
/// path.
pub proof fn law_match_prefers_greatest_rank(kb: KnowledgeBase, log: Seq<char>, marketing: Option<Seq<char>>)
    ensures
        ({
            let ps = kb.common_panic_patterns@;
            let l = unicode_lower(log);
            (exists|j: int| 0 <= j < ps.len() && is_hit(#[trigger] ps[j], l, marketing)) ==> exists|h: int|
                {
                    &&& 0 <= h < ps.len()
                    &&& is_hit(#[trigger] ps[h], l, marketing)
                    &&& kb_match(kb, log, marketing) matches Some(m)
                    &&& m.probable_cause == ps[h].causes@[0]@
                    &&& m.matched_signature == signature_label(ps[h])
                    &&& forall|j: int| 0 <= j < ps.len() && is_hit(#[trigger] ps[j], l, marketing) ==> sort_len(ps[j])
                        <= sort_len(ps[h]) && (sort_len(ps[j]) == sort_len(ps[h]) ==> ps[j].confidence
                        <= ps[h].confidence) && (j < h ==> sort_len(ps[j]) < sort_len(ps[h]) || ps[j].confidence
                        < ps[h].confidence)
                }
        }),
{
    let ps = kb.common_panic_patterns@;
    let l = unicode_lower(log);
    lemma_best_hit_is_greatest(ps, l, marketing, ps.len() as int);
    if exists|j: int| 0 <= j < ps.len() && is_hit(#[trigger] ps[j], l, marketing) {
        let h = best_hit(ps, l, marketing, ps.len() as int).unwrap();
        assert(is_hit(ps[h], l, marketing));
    }
}

/// The rank of a pattern is the length of its signature, plus 500 when it
/// requires substrings (kept within `usize`).
pub proof fn law_rank_is_length_plus_requirement(p: Pattern)
    ensures
        !has_items(p.require_all_substrings) ==> sort_len(p) == p.signature@.len(),
        has_items(p.require_all_substrings) && p.signature@.len() + 500 <= usize::MAX ==> sort_len(p)
            == p.signature@.len() + 500,
        has_items(p.require_all_substrings) ==> sort_len(p) > p.signature@.len() || sort_len(p) == usize::MAX,
{
}

} // verus!
