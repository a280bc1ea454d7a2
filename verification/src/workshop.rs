//! Community statistics, the local panic store, and the reference sections
//! of the repair guide.
use crate::text::{starts_with, starts_with_str, append_str, chars_eq_ci, chars_of, contains, contains_str, dec_text, dec_text_exec, eq_ci, eq_str, join, join_exec, lower_chars, lower_seq, opt_view, owned, seq_contains, slice_to_vec, split_words, string_of, to_lowercase, trim, trim_chars, unicode_lower, words};
use crate::knowledge::{opt_str_view};
use crate::iphone::{ellipsis};
use crate::gallery_afc::{name_cleaned, name_cleaned_chars};
use vstd::prelude::*;

verus! {

// ---------------------------------------------------------------------------
// Community statistics (not served yet)
// ---------------------------------------------------------------------------
pub struct RepairBucket {
    pub label: String,
    pub count: u32,
    pub percent: u8,
}

pub struct CommunityStats {
    pub available: bool,
    pub similar_count: u64,
    pub message: String,
    pub buckets: Vec<RepairBucket>,
}

/// Community statistics for a signature: the service is not open, so none.
pub fn get_community_stats(signature_hash: &str, model: Option<&str>) -> (r: CommunityStats)
    ensures
        !r.available,
        r.similar_count == 0,
        r.message@ == Seq::<char>::empty(),
        r.buckets@.len() == 0,
{
    CommunityStats { available: false, similar_count: 0, message: String::new(), buckets: Vec::new() }
}

// ---------------------------------------------------------------------------
// The local panic store
// ---------------------------------------------------------------------------
pub struct PanicLogSummary {
    pub id: i64,
    pub device_model: Option<String>,
    pub ios_version: Option<String>,
    pub panic_date: Option<String>,
    pub signature_hash: Option<String>,
    pub created_at: String,
}

/// `{}` of a signed number.
pub open spec fn int_text(v: int) -> Seq<char> {
    if v < 0 {
        seq!['-'] + dec_text((-v) as nat)
    } else {
        dec_text(v as nat)
    }
}

pub fn int_text_exec(v: i64) -> (r: Vec<char>)
    ensures
        r@ == int_text(v as int),
{
    if v < 0 {
        let u: u64 = ((-(v + 1)) as u64) + 1;
        let mut r: Vec<char> = vec!['-'];
        let d = dec_text_exec(u);
        r.extend_from_slice(&d);
        r
    } else {
        dec_text_exec(v as u64)
    }
}

/// The stored text of a panic log, or the error that no record holds one.
pub open spec fn stored_text_outcome(log_id: i64, text: Option<Seq<char>>) -> Result<Seq<char>, Seq<char>> {
    match text {
        Some(t) => if t.len() > 0 {
            Ok(t)
        } else {
            Err("Aucun enregistrement PanicBase #"@ + int_text(log_id as int) + " dans la base locale (MVP 0.2 : importer / enregistrer un log)."@)
        },
        None => Err("Aucun enregistrement PanicBase #"@ + int_text(log_id as int) + " dans la base locale (MVP 0.2 : importer / enregistrer un log)."@),
    }
}

pub open spec fn text_outcome_view(r: Result<String, String>) -> Result<Seq<char>, Seq<char>> {
    match r {
        Ok(s) => Ok(s@),
        Err(e) => Err(e@),
    }
}

/// The outcome of reading the anonymized text of record `log_id`, given what
/// the store returned for it.
pub fn read_panic_log_text(log_id: i64, text: Option<String>) -> (r: Result<String, String>)
    ensures
        text_outcome_view(r) == stored_text_outcome(log_id, opt_view(text)),
{
    match text {
        Some(t) => {
            if !t.as_str().is_empty() {
                return Ok(t);
            }
        },
        None => {},
    }
    let mut m = chars_of("Aucun enregistrement PanicBase #");
    let n = int_text_exec(log_id);
    m.extend_from_slice(&n);
    append_str(&mut m, " dans la base locale (MVP 0.2 : importer / enregistrer un log).");
    assert(m@ =~= "Aucun enregistrement PanicBase #"@ + int_text(log_id as int)
        + " dans la base locale (MVP 0.2 : importer / enregistrer un log)."@);
    Err(string_of(&m))
}

// ---------------------------------------------------------------------------
// Reference sections of the repair guide
// ---------------------------------------------------------------------------
pub open spec fn section_rows() -> Seq<(Seq<char>, Seq<char>)> {
    seq![
        ("iphone8,1"@, "iphone-6s"@),
        ("iphone8,2"@, "iphone-6s"@),
        ("iphone8,4"@, "iphone-se1"@),
        ("iphone9,1"@, "iphone-7"@),
        ("iphone9,2"@, "iphone-7"@),
        ("iphone9,3"@, "iphone-7"@),
        ("iphone9,4"@, "iphone-7"@),
        ("iphone10,1"@, "iphone-8"@),
        ("iphone10,2"@, "iphone-8"@),
        ("iphone10,4"@, "iphone-8"@),
        ("iphone10,5"@, "iphone-8"@),
        ("iphone10,3"@, "iphone-x"@),
        ("iphone10,6"@, "iphone-x"@),
        ("iphone11,2"@, "iphone-xs"@),
        ("iphone11,4"@, "iphone-xs"@),
        ("iphone11,6"@, "iphone-xs"@),
        ("iphone11,8"@, "iphone-xr"@),
        ("iphone12,8"@, "iphone-se2"@),
        ("iphone12,1"@, "iphone-11"@),
        ("iphone12,3"@, "iphone-11"@),
        ("iphone12,5"@, "iphone-11"@),
        ("iphone13,1"@, "iphone-12"@),
        ("iphone13,2"@, "iphone-12"@),
        ("iphone13,3"@, "iphone-12-pro"@),
        ("iphone13,4"@, "iphone-12-pro"@),
        ("iphone14,4"@, "iphone-13"@),
        ("iphone14,5"@, "iphone-13"@),
        ("iphone14,2"@, "iphone-13-pro"@),
        ("iphone14,3"@, "iphone-13-pro"@),
        ("iphone14,6"@, "iphone-se3"@),
        ("iphone14,7"@, "iphone-14"@),
        ("iphone14,8"@, "iphone-14"@),
        ("iphone15,2"@, "iphone-14-pro"@),
        ("iphone15,3"@, "iphone-14-pro"@),
        ("iphone15,4"@, "iphone-15"@),
        ("iphone15,5"@, "iphone-15"@),
        ("iphone16,1"@, "iphone-15-pro"@),
        ("iphone16,2"@, "iphone-15-pro"@),
        ("iphone17,1"@, "iphone-16-pro"@),
        ("iphone17,2"@, "iphone-16-pro"@),
        ("iphone17,3"@, "iphone-16"@),
        ("iphone17,4"@, "iphone-16"@),
        ("iphone18,1"@, "iphone-17-pro"@),
        ("iphone18,2"@, "iphone-17-pro"@),
        ("iphone18,3"@, "iphone-17"@),
        ("iphone18,4"@, "iphone-17"@),
    ]
}

/// The section of the first row whose key is `k`.
pub open spec fn row_lookup(rows: Seq<(Seq<char>, Seq<char>)>, k: Seq<char>) -> Option<Seq<char>>
    decreases rows.len(),
{
    if rows.len() == 0 {
        None
    } else if rows[0].0 == k {
        Some(rows[0].1)
    } else {
        row_lookup(rows.drop_first(), k)
    }
}

/// The guide section of a product type (trimmed, ASCII-lowercased).
pub open spec fn section_of_product(pt: Seq<char>) -> Option<Seq<char>> {
    row_lookup(section_rows(), lower_seq(trim(pt)))
}

fn rows_lookup_exec(rows: &Vec<(&'static str, &'static str)>, k: &[char]) -> (r: Option<&'static str>)
    ensures
        opt_str_view(r) == row_lookup(rows@.map_values(|p: (&str, &str)| (p.0@, p.1@)), k@),
{
    let ghost rv = rows@.map_values(|p: (&str, &str)| (p.0@, p.1@));
    let mut i: usize = 0;
    assert(rv.skip(0) =~= rv);
    while i < rows.len()
        invariant
            i <= rows.len(),
            rv == rows@.map_values(|p: (&str, &str)| (p.0@, p.1@)),
            row_lookup(rv, k@) == row_lookup(rv.skip(i as int), k@),
        decreases rows.len() - i,
    {
        assert(rv.skip(i as int)[0] == rv[i as int]);
        assert(rv.skip(i as int).drop_first() =~= rv.skip(i + 1));
        let (key, sec) = rows[i];
        assert(rv[i as int] == (key@, sec@));
        if eq_str(k, key) {
            return Some(sec);
        }
        i += 1;
    }
    None
}

pub fn product_type_section(pt: &str) -> (r: Option<&'static str>)
    ensures
        opt_str_view(r) == section_of_product(pt@),
{
    let c = chars_of(pt);
    let t = trim_chars(&c);
    let l = lower_chars(&t);
    let rows: Vec<(&'static str, &'static str)> = vec![
        ("iphone8,1", "iphone-6s"),
        ("iphone8,2", "iphone-6s"),
        ("iphone8,4", "iphone-se1"),
        ("iphone9,1", "iphone-7"),
        ("iphone9,2", "iphone-7"),
        ("iphone9,3", "iphone-7"),
        ("iphone9,4", "iphone-7"),
        ("iphone10,1", "iphone-8"),
        ("iphone10,2", "iphone-8"),
        ("iphone10,4", "iphone-8"),
        ("iphone10,5", "iphone-8"),
        ("iphone10,3", "iphone-x"),
        ("iphone10,6", "iphone-x"),
        ("iphone11,2", "iphone-xs"),
        ("iphone11,4", "iphone-xs"),
        ("iphone11,6", "iphone-xs"),
        ("iphone11,8", "iphone-xr"),
        ("iphone12,8", "iphone-se2"),
        ("iphone12,1", "iphone-11"),
        ("iphone12,3", "iphone-11"),
        ("iphone12,5", "iphone-11"),
        ("iphone13,1", "iphone-12"),
        ("iphone13,2", "iphone-12"),
        ("iphone13,3", "iphone-12-pro"),
        ("iphone13,4", "iphone-12-pro"),
        ("iphone14,4", "iphone-13"),
        ("iphone14,5", "iphone-13"),
        ("iphone14,2", "iphone-13-pro"),
        ("iphone14,3", "iphone-13-pro"),
        ("iphone14,6", "iphone-se3"),
        ("iphone14,7", "iphone-14"),
        ("iphone14,8", "iphone-14"),
        ("iphone15,2", "iphone-14-pro"),
        ("iphone15,3", "iphone-14-pro"),
        ("iphone15,4", "iphone-15"),
        ("iphone15,5", "iphone-15"),
        ("iphone16,1", "iphone-15-pro"),
        ("iphone16,2", "iphone-15-pro"),
        ("iphone17,1", "iphone-16-pro"),
        ("iphone17,2", "iphone-16-pro"),
        ("iphone17,3", "iphone-16"),
        ("iphone17,4", "iphone-16"),
        ("iphone18,1", "iphone-17-pro"),
        ("iphone18,2", "iphone-17-pro"),
        ("iphone18,3", "iphone-17"),
        ("iphone18,4", "iphone-17"),
    ];
    assert(rows@.map_values(|p: (&str, &str)| (p.0@, p.1@)) == section_rows());
    rows_lookup_exec(&rows, &l)
}

/// Marketing names and their sections, in the order they are tried: the
/// first whose phrase the normalized name contains wins.
pub open spec fn marketing_rows() -> Seq<(Seq<char>, Seq<char>)> {
    seq![
        ("iphone 17 pro"@, "iphone-17-pro"@),
        ("iphone 17"@, "iphone-17"@),
        ("iphone 16 pro"@, "iphone-16-pro"@),
        ("iphone 16"@, "iphone-16"@),
        ("iphone 15 pro"@, "iphone-15-pro"@),
        ("iphone 15 plus"@, "iphone-15"@),
        ("iphone 15"@, "iphone-15"@),
        ("iphone 14 pro"@, "iphone-14-pro"@),
        ("iphone 14 plus"@, "iphone-14"@),
        ("iphone 14"@, "iphone-14"@),
        ("iphone 13 pro"@, "iphone-13-pro"@),
        ("iphone 13 mini"@, "iphone-13"@),
        ("iphone 13"@, "iphone-13"@),
        ("iphone 12 pro"@, "iphone-12-pro"@),
        ("iphone 12 mini"@, "iphone-12"@),
        ("iphone 12"@, "iphone-12"@),
        ("iphone 11 pro"@, "iphone-11"@),
        ("iphone 11"@, "iphone-11"@),
    ]
}

pub open spec fn phrase_lookup(rows: Seq<(Seq<char>, Seq<char>)>, n: Seq<char>) -> Option<Seq<char>>
    decreases rows.len(),
{
    if rows.len() == 0 {
        None
    } else if seq_contains(n, rows[0].0) {
        Some(rows[0].1)
    } else {
        phrase_lookup(rows.drop_first(), n)
    }
}

/// The guide section of a marketing name: the name ASCII-lowercased with
/// its words joined by single spaces, then matched phrase by phrase.
pub open spec fn section_of_marketing(name: Seq<char>) -> Option<Seq<char>> {
    let n = join(words(lower_seq(name)), seq![' ']);
    if phrase_lookup(marketing_rows(), n) is Some {
        phrase_lookup(marketing_rows(), n)
    } else if seq_contains(n, "iphone se"@) {
        if seq_contains(n, "3rd"@) {
            Some("iphone-se3"@)
        } else {
            Some("iphone-se2"@)
        }
    } else if seq_contains(n, "iphone xr"@) {
        Some("iphone-xr"@)
    } else if seq_contains(n, "iphone xs"@) {
        Some("iphone-xs"@)
    } else if seq_contains(n, "iphone x"@) {
        Some("iphone-x"@)
    } else if seq_contains(n, "iphone 8"@) {
        Some("iphone-8"@)
    } else if seq_contains(n, "iphone 7"@) {
        Some("iphone-7"@)
    } else {
        None
    }
}

pub fn section_from_marketing_name(name: &str) -> (r: Option<&'static str>)
    ensures
        opt_str_view(r) == section_of_marketing(name@),
{
    let c = chars_of(name);
    let l = lower_chars(&c);
    let ws = split_words(&l);
    let sp: Vec<char> = vec![' '];
    assert(sp@ == seq![' ']);
    let n = join_exec(&ws, &sp);
    let rows: Vec<(&'static str, &'static str)> = vec![
        ("iphone 17 pro", "iphone-17-pro"),
        ("iphone 17", "iphone-17"),
        ("iphone 16 pro", "iphone-16-pro"),
        ("iphone 16", "iphone-16"),
        ("iphone 15 pro", "iphone-15-pro"),
        ("iphone 15 plus", "iphone-15"),
        ("iphone 15", "iphone-15"),
        ("iphone 14 pro", "iphone-14-pro"),
        ("iphone 14 plus", "iphone-14"),
        ("iphone 14", "iphone-14"),
        ("iphone 13 pro", "iphone-13-pro"),
        ("iphone 13 mini", "iphone-13"),
        ("iphone 13", "iphone-13"),
        ("iphone 12 pro", "iphone-12-pro"),
        ("iphone 12 mini", "iphone-12"),
        ("iphone 12", "iphone-12"),
        ("iphone 11 pro", "iphone-11"),
        ("iphone 11", "iphone-11"),
    ];
    let ghost rv = rows@.map_values(|p: (&str, &str)| (p.0@, p.1@));
    assert(rv == marketing_rows());
    let mut i: usize = 0;
    assert(rv.skip(0) =~= rv);
    while i < rows.len()
        invariant
            i <= rows.len(),
            rv == rows@.map_values(|p: (&str, &str)| (p.0@, p.1@)),
            n@ == join(words(lower_seq(name@)), seq![' ']),
            rv == marketing_rows(),
            phrase_lookup(rv, n@) == phrase_lookup(rv.skip(i as int), n@),
        decreases rows.len() - i,
    {
        assert(rv.skip(i as int)[0] == rv[i as int]);
        assert(rv.skip(i as int).drop_first() =~= rv.skip(i + 1));
        let (phrase, sec) = rows[i];
        assert(rv[i as int] == (phrase@, sec@));
        if contains_str(&n, phrase) {
            return Some(sec);
        }
        i += 1;
    }
    assert(rv.skip(rows.len() as int) =~= Seq::<(Seq<char>, Seq<char>)>::empty());
    if contains_str(&n, "iphone se") {
        if contains_str(&n, "3rd") {
            return Some("iphone-se3");
        }
        return Some("iphone-se2");
    }
    if contains_str(&n, "iphone xr") {
        return Some("iphone-xr");
    }
    if contains_str(&n, "iphone xs") {
        return Some("iphone-xs");
    }
    if contains_str(&n, "iphone x") {
        return Some("iphone-x");
    }
    if contains_str(&n, "iphone 8") {
        return Some("iphone-8");
    }
    if contains_str(&n, "iphone 7") {
        return Some("iphone-7");
    }
    None
}


/// An Apple product identifier such as `iPhone12,1` or `iPad8,1`: it starts
/// with `iphone` or `ipad` (ASCII case aside, once trimmed) and holds a comma.
pub open spec fn apple_internal_token(dev: Seq<char>) -> bool {
    let lc = lower_seq(trim(dev));
    (starts_with(lc, "iphone"@) || starts_with(lc, "ipad"@)) && seq_contains(lc, seq![','])
}

pub fn is_apple_internal_product_token(dev: &str) -> (r: bool)
    ensures
        r == apple_internal_token(dev@),
{
    let c = chars_of(dev);
    let t = trim_chars(&c);
    let lc = lower_chars(&t);
    let comma: Vec<char> = vec![','];
    assert(comma@ == seq![',']);
    (starts_with_str(&lc, "iphone") || starts_with_str(&lc, "ipad")) && contains(&lc, &comma)
}

} // verus!
