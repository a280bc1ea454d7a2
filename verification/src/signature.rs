//! The signature of a panic: model, family and sorted keywords, and its
//! SHA-256 fingerprint.
use crate::text::{join, join_exec, add_unique, chars_eq, chars_of, chars_of_strings, contains, owned, push_chars, push_str, string_of, strs, trim, trim_chars, unicode_lower, views};
use crate::panic_parser::{ParsedPanicLog, known_keywords, missing_sensors_spec, panic_type_of, parse_panic_log, present_in};
use vstd::prelude::*;

verus! {

pub struct SignatureBundle {
    pub signature: String,
    pub signature_hash: String,
    pub panic_type: String,
    pub keywords: Vec<String>,
}

// ---------------------------------------------------------------------------
// Order of strings (byte order of UTF-8, i.e. order of code points)
// ---------------------------------------------------------------------------
pub open spec fn lex_lt(a: Seq<char>, b: Seq<char>) -> bool
    decreases a.len(),
{
    if a.len() == 0 {
        b.len() > 0
    } else if b.len() == 0 {
        false
    } else if a[0] != b[0] {
        a[0] < b[0]
    } else {
        lex_lt(a.drop_first(), b.drop_first())
    }
}

pub proof fn lemma_lex_irreflexive(a: Seq<char>)
    ensures
        !lex_lt(a, a),
    decreases a.len(),
{
    if a.len() > 0 {
        lemma_lex_irreflexive(a.drop_first());
    }
}

pub proof fn lemma_lex_total(a: Seq<char>, b: Seq<char>)
    ensures
        a == b || lex_lt(a, b) || lex_lt(b, a),
    decreases a.len(),
{
    if a.len() > 0 && b.len() > 0 {
        if a[0] == b[0] {
            lemma_lex_total(a.drop_first(), b.drop_first());
            if a.drop_first() == b.drop_first() {
                assert(a =~= seq![a[0]] + a.drop_first());
                assert(b =~= seq![b[0]] + b.drop_first());
            }
        }
    } else if a.len() == 0 && b.len() == 0 {
        assert(a =~= b);
    }
}

pub proof fn lemma_lex_trans(a: Seq<char>, b: Seq<char>, c: Seq<char>)
    requires
        lex_lt(a, b),
        lex_lt(b, c),
    ensures
        lex_lt(a, c),
    decreases a.len(),
{
    if a.len() > 0 && b.len() > 0 && c.len() > 0 {
        if a[0] == b[0] && b[0] == c[0] {
            lemma_lex_trans(a.drop_first(), b.drop_first(), c.drop_first());
        }
    }
}

pub proof fn lemma_lex_asym(a: Seq<char>, b: Seq<char>)
    requires
        lex_lt(a, b),
    ensures
        !lex_lt(b, a),
{
    if lex_lt(b, a) {
        lemma_lex_trans(a, b, a);
        lemma_lex_irreflexive(a);
    }
}

/// `lex_lt` computed.
pub fn chars_lt(a: &[char], b: &[char]) -> (r: bool)
    ensures
        r == lex_lt(a@, b@),
{
    let mut i: usize = 0;
    assert(a@.subrange(0, a.len() as int) =~= a@);
    assert(b@.subrange(0, b.len() as int) =~= b@);
    while i < a.len() && i < b.len() && a[i] == b[i]
        invariant
            i <= a.len(),
            i <= b.len(),
            lex_lt(a@, b@) == lex_lt(a@.subrange(i as int, a.len() as int), b@.subrange(i as int, b.len() as int)),
        decreases a.len() - i,
    {
        assert(a@.subrange(i as int, a.len() as int).drop_first() =~= a@.subrange(i + 1, a.len() as int));
        assert(b@.subrange(i as int, b.len() as int).drop_first() =~= b@.subrange(i + 1, b.len() as int));
        i += 1;
    }
    proof {
        assert(a@.subrange(0, a.len() as int) =~= a@);
        assert(b@.subrange(0, b.len() as int) =~= b@);
    }
    if i == a.len() {
        i < b.len()
    } else if i == b.len() {
        false
    } else {
        a[i] < b[i]
    }
}

pub open spec fn strictly_sorted(r: Seq<Seq<char>>) -> bool {
    forall|i: int, j: int| 0 <= i < j < r.len() ==> lex_lt(#[trigger] r[i], #[trigger] r[j])
}

/// `r` holds exactly the distinct items of `ks`, in increasing order.
pub open spec fn sorted_distinct_of(r: Seq<Seq<char>>, ks: Seq<Seq<char>>) -> bool {
    strictly_sorted(r) && r.to_set() == ks.to_set()
}

/// The signature `model|type|k1|k2|...` for sorted distinct keywords `r`.
pub open spec fn signature_text(model: Seq<char>, panic_type: Seq<char>, r: Seq<Seq<char>>) -> Seq<char> {
    model + "|"@ + panic_type + "|"@ + join(r, "|"@)
}

/// `sig` is the signature of the model, family and keywords: the keywords
/// appear sorted and without repeats.
pub open spec fn is_signature_of(
    sig: Seq<char>,
    model: Seq<char>,
    panic_type: Seq<char>,
    ks: Seq<Seq<char>>,
) -> bool {
    exists|r: Seq<Seq<char>>| sorted_distinct_of(r, ks) && sig == signature_text(model, panic_type, r)
}

proof fn lemma_sorted_unique(a: Seq<Seq<char>>, b: Seq<Seq<char>>)
    requires
        strictly_sorted(a),
        strictly_sorted(b),
        a.to_set() == b.to_set(),
    ensures
        a == b,
    decreases a.len(),
{
    if a.len() == 0 {
        if b.len() > 0 {
            assert(b.to_set().contains(b[0]));
        }
        assert(a =~= b);
    } else {
        assert(a.to_set().contains(a[0]));
        assert(b.to_set().contains(a[0]));
        let j = choose|j: int| 0 <= j < b.len() && b[j] == a[0];
        assert(a.to_set().contains(b[0]));
        let i = choose|i: int| 0 <= i < a.len() && a[i] == b[0];
        if j > 0 {
            assert(lex_lt(b[0], b[j]));
            if i == 0 {
                lemma_lex_irreflexive(a[0]);
            } else {
                assert(lex_lt(a[0], a[i]));
                lemma_lex_asym(a[0], a[i]);
            }
        }
        assert(a[0] == b[0]);
        let a1 = a.drop_first();
        let b1 = b.drop_first();
        assert forall|x: Seq<char>| a1.to_set().contains(x) implies b1.to_set().contains(x) by {
            let k = choose|k: int| 0 <= k < a1.len() && a1[k] == x;
            assert(a[k + 1] == x);
            assert(b.to_set().contains(x));
            let m = choose|m: int| 0 <= m < b.len() && b[m] == x;
            if m == 0 {
                assert(lex_lt(a[0], a[k + 1]));
                lemma_lex_irreflexive(x);
            }
            assert(b1[m - 1] == x);
        }
        assert forall|x: Seq<char>| b1.to_set().contains(x) implies a1.to_set().contains(x) by {
            let k = choose|k: int| 0 <= k < b1.len() && b1[k] == x;
            assert(b[k + 1] == x);
            assert(a.to_set().contains(x));
            let m = choose|m: int| 0 <= m < a.len() && a[m] == x;
            if m == 0 {
                assert(lex_lt(b[0], b[k + 1]));
                lemma_lex_irreflexive(x);
            }
            assert(a1[m - 1] == x);
        }
        assert(a1.to_set() =~= b1.to_set());
        lemma_sorted_unique(a1, b1);
        assert(a =~= seq![a[0]] + a1);
        assert(b =~= seq![b[0]] + b1);
    }
}

/// Law: the signature does not depend on the order of the keywords nor on
/// repeated keywords; two keyword lists with the same items give the same
/// signature.
pub proof fn law_signature_ignores_keyword_order(
    s1: Seq<char>,
    s2: Seq<char>,
    model: Seq<char>,
    panic_type: Seq<char>,
    ks1: Seq<Seq<char>>,
    ks2: Seq<Seq<char>>,
)
    requires
        is_signature_of(s1, model, panic_type, ks1),
        is_signature_of(s2, model, panic_type, ks2),
        ks1.to_set() == ks2.to_set(),
    ensures
        s1 == s2,
{
    let r1 = choose|r: Seq<Seq<char>>| sorted_distinct_of(r, ks1) && s1 == signature_text(model, panic_type, r);
    let r2 = choose|r: Seq<Seq<char>>| sorted_distinct_of(r, ks2) && s2 == signature_text(model, panic_type, r);
    lemma_sorted_unique(r1, r2);
}

/// Inserts `x` into the strictly sorted `v` unless already present.
fn insert_sorted(v: &mut Vec<Vec<char>>, x: Vec<char>)
    requires
        strictly_sorted(views(old(v)@)),
    ensures
        strictly_sorted(views(final(v)@)),
        views(final(v)@).to_set() == views(old(v)@).to_set().insert(x@),
{
    let ghost v0 = views(v@);
    let mut k: usize = 0;
    while k < v.len() && chars_lt(&v[k], &x)
        invariant
            k <= v.len(),
            v0 == views(v@),
            forall|j: int| 0 <= j < k ==> lex_lt(#[trigger] v0[j], x@),
        decreases v.len() - k,
    {
        k += 1;
    }
    if k < v.len() && chars_eq(&v[k], &x) {
        assert(v0[k as int] == x@);
        assert(v0.to_set().contains(x@));
        assert(v0.to_set().insert(x@) =~= v0.to_set());
        return;
    }
    proof {
        if k < v.len() {
            lemma_lex_total(v0[k as int], x@);
        }
    }
    v.insert(k, x);
    let ghost v1 = views(v@);
    assert(v1 =~= v0.insert(k as int, x@));
    assert forall|i: int, j: int| 0 <= i < j < v1.len() implies lex_lt(#[trigger] v1[i], #[trigger] v1[j]) by {
        if j < k {
            assert(v1[i] == v0[i] && v1[j] == v0[j]);
        } else if j == k {
            assert(v1[i] == v0[i]);
        } else if i == k {
            assert(v1[j] == v0[j - 1]);
            if j - 1 > k {
                lemma_lex_trans(x@, v0[k as int], v0[j - 1]);
            }
        } else if i < k {
            assert(v1[i] == v0[i] && v1[j] == v0[j - 1]);
        } else {
            assert(v1[i] == v0[i - 1] && v1[j] == v0[j - 1]);
        }
    }
    assert(v1.to_set() =~= v0.to_set().insert(x@)) by {
        assert forall|y: Seq<char>| v1.to_set().contains(y) <==> v0.to_set().insert(x@).contains(y) by {
            if v1.to_set().contains(y) {
                let i = choose|i: int| 0 <= i < v1.len() && v1[i] == y;
                if i < k {
                    assert(v0[i] == y);
                } else if i > k {
                    assert(v0[i - 1] == y);
                }
            }
            if v0.to_set().contains(y) {
                let i = choose|i: int| 0 <= i < v0.len() && v0[i] == y;
                if i < k {
                    assert(v1[i] == y);
                } else {
                    assert(v1[i + 1] == y);
                }
            }
            if y == x@ {
                assert(v1[k as int] == y);
            }
        }
    }
}

/// The keywords sorted, without repeats.
fn sorted_distinct(ks: &Vec<Vec<char>>) -> (r: Vec<Vec<char>>)
    ensures
        sorted_distinct_of(views(r@), views(ks@)),
{
    let mut r: Vec<Vec<char>> = Vec::new();
    let mut i: usize = 0;
    assert(views(r@) =~= Seq::<Seq<char>>::empty());
    assert(views(ks@).take(0).to_set() =~= Set::<Seq<char>>::empty());
    while i < ks.len()
        invariant
            i <= ks.len(),
            strictly_sorted(views(r@)),
            views(r@).to_set() == views(ks@).take(i as int).to_set(),
        decreases ks.len() - i,
    {
        insert_sorted(&mut r, ks[i].clone());
        assert(views(ks@).take(i + 1) =~= views(ks@).take(i as int).push(ks@[i as int]@));
        proof {
            views(ks@).take(i as int).lemma_push_to_set_commute(ks@[i as int]@);
        }
        i += 1;
    }
    assert(views(ks@).take(ks.len() as int) =~= views(ks@));
    r
}

/// `model|type|k1|k2|...` with the keywords sorted and without repeats.
pub fn build_signature(device_model: &str, panic_type: &str, keywords: &[String]) -> (r: String)
    ensures
        is_signature_of(r@, device_model@, panic_type@, strs(keywords@)),
{
    let ks = chars_of_strings(keywords);
    let sorted = sorted_distinct(&ks);
    let bar = chars_of("|");
    let joined = join_exec(&sorted, &bar);
    let mut out = String::new();
    push_str(&mut out, device_model);
    push_str(&mut out, "|");
    push_str(&mut out, panic_type);
    push_str(&mut out, "|");
    push_chars(&mut out, &joined);
    assert(out@ == signature_text(device_model@, panic_type@, views(sorted@)));
    out
}

// ---------------------------------------------------------------------------
// Fingerprint
// ---------------------------------------------------------------------------
/// The SHA-256 digest of a byte sequence.
pub uninterp spec fn sha256(data: Seq<u8>) -> Seq<u8>;

/// Calls `sha2::Sha256::digest`: the result is named by `sha256`, and a
/// SHA-256 digest is 32 bytes long.
#[verifier::external_body]
fn sha256_digest(data: &[u8]) -> (r: Vec<u8>)
    ensures
        r@ == sha256(data@),
        r@.len() == 32,
{
    <sha2::Sha256 as sha2::Digest>::digest(data).to_vec()
}

pub open spec fn hex_char(n: u8) -> char {
    if n < 10 {
        ((n as u32) + ('0' as u32)) as char
    } else {
        ((n as u32) - 10 + ('a' as u32)) as char
    }
}

/// Lowercase hexadecimal text of bytes, two digits per byte (`{:x}`).
pub open spec fn hex_lower(b: Seq<u8>) -> Seq<char>
    decreases b.len(),
{
    if b.len() == 0 {
        Seq::empty()
    } else {
        hex_lower(b.drop_last()) + seq![hex_char(b.last() / 16), hex_char(b.last() % 16)]
    }
}

pub fn hex_char_exec(n: u8) -> (c: char)
    requires
        n < 16,
    ensures
        c == hex_char(n),
{
    match n {
        0 => '0',
        1 => '1',
        2 => '2',
        3 => '3',
        4 => '4',
        5 => '5',
        6 => '6',
        7 => '7',
        8 => '8',
        9 => '9',
        10 => 'a',
        11 => 'b',
        12 => 'c',
        13 => 'd',
        14 => 'e',
        _ => 'f',
    }
}

pub fn hex_lower_exec(b: &[u8]) -> (r: Vec<char>)
    ensures
        r@ == hex_lower(b@),
{
    let mut r: Vec<char> = Vec::new();
    let mut i: usize = 0;
    while i < b.len()
        invariant
            i <= b.len(),
            r@ == hex_lower(b@.take(i as int)),
        decreases b.len() - i,
    {
        assert(b@.take(i + 1).drop_last() =~= b@.take(i as int));
        let hi = hex_char_exec(b[i] / 16);
        let lo = hex_char_exec(b[i] % 16);
        r.push(hi);
        r.push(lo);
        i += 1;
    }
    assert(b@.take(b.len() as int) =~= b@);
    r
}

/// SHA-256 of the UTF-8 bytes of the signature, in lowercase hexadecimal.
pub fn hash_signature(signature: &str) -> (r: String)
    ensures
        r@ == hex_lower(sha256(vstd::utf8::encode_utf8(signature@))),
        r@.len() == 64,
{
    let digest = sha256_digest(signature.as_bytes());
    let h = hex_lower_exec(&digest);
    proof {
        lemma_hex_len(digest@);
    }
    string_of(&h)
}

proof fn lemma_hex_len(b: Seq<u8>)
    ensures
        hex_lower(b).len() == 2 * b.len(),
    decreases b.len(),
{
    if b.len() > 0 {
        lemma_hex_len(b.drop_last());
    }
}

/// Signature and fingerprint of a log, outside the full analysis.
pub fn bundle_from_log(log: &str, device_model_arg: String) -> (r: SignatureBundle)
    ensures
        ({
            let t = trim(device_model_arg@);
            let model = if t.len() == 0 {
                "unknown_model"@
            } else {
                t
            };
            let lower = unicode_lower(log@);
            &&& r.panic_type@ == panic_type_of(lower)
            &&& strs(r.keywords@) == add_unique(
                present_in(lower, known_keywords()),
                missing_sensors_spec(log@),
            )
            &&& is_signature_of(r.signature@, model, r.panic_type@, strs(r.keywords@))
            &&& r.signature_hash@ == hex_lower(sha256(vstd::utf8::encode_utf8(r.signature@)))
        }),
{
    let parsed: ParsedPanicLog = parse_panic_log(log);
    let mc = chars_of(device_model_arg.as_str());
    let t = trim_chars(&mc);
    let model: String = if t.len() == 0 {
        owned("unknown_model")
    } else {
        string_of(&t)
    };
    let signature = build_signature(model.as_str(), parsed.panic_type.as_str(), parsed.keywords.as_slice());
    let signature_hash = hash_signature(signature.as_str());
    SignatureBundle {
        signature,
        signature_hash,
        panic_type: parsed.panic_type,
        keywords: parsed.keywords,
    }
}

} // verus!
