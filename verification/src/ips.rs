//! Reading `.ips` crash report files: the panic text they carry, from a
//! JSON document, an XML property list, or plain text.
use crate::text::{ci_at, ci_at_exec, chars_of, contains_str, opt_view, seq_contains, starts_with, starts_with_str, string_of, slice_to_vec, strip_leading, strip_leading_exec, to_lowercase, trim, trim_chars, unicode_lower, ws_run_end, ws_run_end_exec, lemma_ws_run_end, chars_eq};
use vstd::prelude::*;

verus! {

/// A binary property list starts with the ASCII magic `bplist`. The magic
/// is ASCII, so its bytes and its characters agree.
pub fn ips_is_binary_plist(raw: &str) -> (r: bool)
    ensures
        r == starts_with(raw@, "bplist"@),
{
    let c = chars_of(raw);
    starts_with_str(&c, "bplist")
}

// ---------------------------------------------------------------------------
// JSON documents
// ---------------------------------------------------------------------------
/// A JSON document as plain values; the members of an object come in the
/// order in which the parser hands them out.
pub enum JsonValue {
    Null,
    Bool(bool),
    Number(String),
    Text(String),
    Array(Vec<JsonValue>),
    Object(Vec<(String, JsonValue)>),
}

pub enum JsonView {
    Null,
    Bool(bool),
    Number(Seq<char>),
    Text(Seq<char>),
    Array(Seq<JsonView>),
    Object(Seq<(Seq<char>, JsonView)>),
}

pub open spec fn json_view(v: JsonValue) -> JsonView
    decreases v, 0nat,
{
    match v {
        JsonValue::Null => JsonView::Null,
        JsonValue::Bool(b) => JsonView::Bool(b),
        JsonValue::Number(n) => JsonView::Number(n@),
        JsonValue::Text(s) => JsonView::Text(s@),
        JsonValue::Array(items) => JsonView::Array(json_views(items@, items@.len())),
        JsonValue::Object(ps) => JsonView::Object(member_views(ps@, ps@.len())),
    }
}

pub open spec fn json_views(s: Seq<JsonValue>, n: nat) -> Seq<JsonView>
    decreases s, n,
{
    if n == 0 || n > s.len() {
        Seq::empty()
    } else {
        json_views(s, (n - 1) as nat).push(json_view(s[n - 1]))
    }
}

pub open spec fn member_views(s: Seq<(String, JsonValue)>, n: nat) -> Seq<(Seq<char>, JsonView)>
    decreases s, n,
{
    if n == 0 || n > s.len() {
        Seq::empty()
    } else {
        member_views(s, (n - 1) as nat).push((s[n - 1].0@, json_view(s[n - 1].1)))
    }
}

impl View for JsonValue {
    type V = JsonView;

    open spec fn view(&self) -> JsonView {
        json_view(*self)
    }
}

pub open spec fn opt_json_view(o: Option<JsonValue>) -> Option<JsonView> {
    match o {
        Some(v) => Some(v@),
        None => None,
    }
}


/// Index of the first member named `key` at or after `i`.
pub open spec fn member_index(ps: Seq<(Seq<char>, JsonView)>, key: Seq<char>, i: int) -> Option<int>
    decreases ps.len() - i,
{
    if i < 0 || i >= ps.len() {
        None
    } else if ps[i].0 == key {
        Some(i)
    } else {
        member_index(ps, key, i + 1)
    }
}

/// The text of member `key`, when the object has it and it is a string.
pub open spec fn text_member(ps: Seq<(Seq<char>, JsonView)>, key: Seq<char>) -> Option<Seq<char>> {
    match member_index(ps, key, 0) {
        Some(i) => match ps[i].1 {
            JsonView::Text(s) => Some(s),
            _ => None,
        },
        None => None,
    }
}

/// `panicString`, else `panic_string`, of an object when it is a string
/// that is not blank.
pub open spec fn panic_member(ps: Seq<(Seq<char>, JsonView)>) -> Option<Seq<char>> {
    match text_member(ps, "panicString"@) {
        Some(s) if trim(s).len() > 0 => Some(s),
        _ => match text_member(ps, "panic_string"@) {
            Some(s) if trim(s).len() > 0 => Some(s),
            _ => None,
        },
    }
}

/// The first panic text of a document, depth first: an object's own
/// member before those of its values, in order.
pub open spec fn find_panic(v: JsonView) -> Option<Seq<char>>
    decreases v, 0nat,
{
    match v {
        JsonView::Object(ps) => match panic_member(ps) {
            Some(s) => Some(s),
            None => find_panic_members(ps, 0),
        },
        JsonView::Array(items) => find_panic_items(items, 0),
        _ => None,
    }
}

pub open spec fn find_panic_items(items: Seq<JsonView>, i: nat) -> Option<Seq<char>>
    decreases items, items.len() - i,
{
    if i >= items.len() {
        None
    } else {
        match find_panic(items[i as int]) {
            Some(s) => Some(s),
            None => find_panic_items(items, i + 1),
        }
    }
}

pub open spec fn find_panic_members(ps: Seq<(Seq<char>, JsonView)>, i: nat) -> Option<Seq<char>>
    decreases ps, ps.len() - i,
{
    if i >= ps.len() {
        None
    } else {
        match find_panic(ps[i as int].1) {
            Some(s) => Some(s),
            None => find_panic_members(ps, i + 1),
        }
    }
}

/// The keys read, in order, for the device of a report.
pub open spec fn hint_keys() -> Seq<Seq<char>> {
    seq!["product"@, "hardwareModel"@, "model"@, "machine_name"@, "build"@]
}

/// The first of `keys[i..]` whose member is a string that is not blank,
/// trimmed.
pub open spec fn hint_from_keys(ps: Seq<(Seq<char>, JsonView)>, keys: Seq<Seq<char>>, i: nat) -> Option<Seq<char>>
    decreases keys.len() - i,
{
    if i >= keys.len() {
        None
    } else {
        match text_member(ps, keys[i as int]) {
            Some(s) if trim(s).len() > 0 => Some(trim(s)),
            _ => hint_from_keys(ps, keys, i + 1),
        }
    }
}

/// The first device hint of a document, depth first.
pub open spec fn find_hint(v: JsonView) -> Option<Seq<char>>
    decreases v, 0nat,
{
    match v {
        JsonView::Object(ps) => match hint_from_keys(ps, hint_keys(), 0) {
            Some(h) => Some(h),
            None => find_hint_members(ps, 0),
        },
        JsonView::Array(items) => find_hint_items(items, 0),
        _ => None,
    }
}

pub open spec fn find_hint_items(items: Seq<JsonView>, i: nat) -> Option<Seq<char>>
    decreases items, items.len() - i,
{
    if i >= items.len() {
        None
    } else {
        match find_hint(items[i as int]) {
            Some(s) => Some(s),
            None => find_hint_items(items, i + 1),
        }
    }
}

pub open spec fn find_hint_members(ps: Seq<(Seq<char>, JsonView)>, i: nat) -> Option<Seq<char>>
    decreases ps, ps.len() - i,
{
    if i >= ps.len() {
        None
    } else {
        match find_hint(ps[i as int].1) {
            Some(s) => Some(s),
            None => find_hint_members(ps, i + 1),
        }
    }
}


pub proof fn lemma_json_views(s: Seq<JsonValue>, n: nat)
    requires
        n <= s.len(),
    ensures
        json_views(s, n).len() == n,
        forall|i: int| 0 <= i < n ==> #[trigger] json_views(s, n)[i] == json_view(s[i]),
    decreases n,
{
    if n > 0 {
        lemma_json_views(s, (n - 1) as nat);
    }
}

pub proof fn lemma_member_views(s: Seq<(String, JsonValue)>, n: nat)
    requires
        n <= s.len(),
    ensures
        member_views(s, n).len() == n,
        forall|i: int| 0 <= i < n ==> #[trigger] member_views(s, n)[i] == (s[i].0@, json_view(s[i].1)),
    decreases n,
{
    if n > 0 {
        lemma_member_views(s, (n - 1) as nat);
    }
}

fn text_member_exec(ps: &Vec<(String, JsonValue)>, key: &str) -> (r: Option<String>)
    ensures
        opt_view(r) == text_member(member_views(ps@, ps@.len()), key@),
{
    let ghost mv = member_views(ps@, ps@.len());
    proof {
        lemma_member_views(ps@, ps@.len());
    }
    let k = chars_of(key);
    let mut i: usize = 0;
    while i < ps.len()
        invariant
            i <= ps.len(),
            k@ == key@,
            mv == member_views(ps@, ps@.len()),
            mv.len() == ps.len(),
            forall|j: int| 0 <= j < ps.len() ==> #[trigger] mv[j] == (ps@[j].0@, json_view(ps@[j].1)),
            member_index(mv, key@, 0) == member_index(mv, key@, i as int),
        decreases ps.len() - i,
    {
        let name = chars_of(ps[i].0.as_str());
        if chars_eq(&name, &k) {
            assert(mv[i as int].0 == key@);
            return match &ps[i].1 {
                JsonValue::Text(t) => Some(t.clone()),
                _ => None,
            };
        }
        assert(mv[i as int].0 != key@);
        i += 1;
    }
    None
}

fn nonblank_text(o: Option<String>) -> (r: Option<String>)
    ensures
        match opt_view(o) {
            Some(s) if trim(s).len() > 0 => opt_view(r) == Some(s),
            _ => r is None,
        },
{
    match o {
        Some(s) => {
            let c = chars_of(s.as_str());
            let t = trim_chars(&c);
            if t.len() > 0 {
                Some(s)
            } else {
                None
            }
        },
        None => None,
    }
}

fn panic_member_exec(ps: &Vec<(String, JsonValue)>) -> (r: Option<String>)
    ensures
        opt_view(r) == panic_member(member_views(ps@, ps@.len())),
{
    let a = nonblank_text(text_member_exec(ps, "panicString"));
    if a.is_some() {
        return a;
    }
    nonblank_text(text_member_exec(ps, "panic_string"))
}

fn find_panic_exec(v: &JsonValue) -> (r: Option<String>)
    ensures
        opt_view(r) == find_panic(v@),
    decreases v,
{
    match v {
        JsonValue::Object(ps) => {
            let own = panic_member_exec(ps);
            if own.is_some() {
                return own;
            }
            let ghost mv = member_views(ps@, ps@.len());
            proof {
                lemma_member_views(ps@, ps@.len());
            }
            let mut i: usize = 0;
            while i < ps.len()
                invariant
                    i <= ps.len(),
                    mv == member_views(ps@, ps@.len()),
                    mv.len() == ps.len(),
                    forall|j: int| 0 <= j < ps.len() ==> #[trigger] mv[j] == (ps@[j].0@, json_view(ps@[j].1)),
                    *v == JsonValue::Object(*ps),
                    find_panic(v@) == find_panic_members(mv, i as nat),
                decreases ps.len() - i,
            {
                assert(mv[i as int].1 == json_view(ps@[i as int].1));
                proof {
                    assert(decreases_to!(*v => *ps));
                    assert(decreases_to!(*ps => ps@));
                    assert(decreases_to!(ps@ => ps@[i as int]));
                    assert(decreases_to!(ps@[i as int] => ps@[i as int].1));
                }
                let r = find_panic_exec(&ps[i].1);
                if r.is_some() {
                    return r;
                }
                i += 1;
            }
            None
        },
        JsonValue::Array(items) => {
            let ghost iv = json_views(items@, items@.len());
            proof {
                lemma_json_views(items@, items@.len());
            }
            let mut i: usize = 0;
            while i < items.len()
                invariant
                    i <= items.len(),
                    iv == json_views(items@, items@.len()),
                    iv.len() == items.len(),
                    forall|j: int| 0 <= j < items.len() ==> #[trigger] iv[j] == json_view(items@[j]),
                    *v == JsonValue::Array(*items),
                    find_panic(v@) == find_panic_items(iv, i as nat),
                decreases items.len() - i,
            {
                assert(iv[i as int] == json_view(items@[i as int]));
                proof {
                    assert(decreases_to!(*v => *items));
                    assert(decreases_to!(*items => items@));
                    assert(decreases_to!(items@ => items@[i as int]));
                }
                let r = find_panic_exec(&items[i]);
                if r.is_some() {
                    return r;
                }
                i += 1;
            }
            None
        },
        _ => None,
    }
}


fn hint_from_keys_exec(ps: &Vec<(String, JsonValue)>) -> (r: Option<String>)
    ensures
        opt_view(r) == hint_from_keys(member_views(ps@, ps@.len()), hint_keys(), 0),
{
    let keys: Vec<&str> = vec!["product", "hardwareModel", "model", "machine_name", "build"];
    assert(keys@.map_values(|k: &str| k@) =~= hint_keys());
    let ghost mv = member_views(ps@, ps@.len());
    let mut i: usize = 0;
    while i < keys.len()
        invariant
            i <= keys.len(),
            keys@.map_values(|k: &str| k@) == hint_keys(),
            mv == member_views(ps@, ps@.len()),
            hint_from_keys(mv, hint_keys(), 0) == hint_from_keys(mv, hint_keys(), i as nat),
        decreases keys.len() - i,
    {
        assert(hint_keys()[i as int] == keys@[i as int]@);
        match text_member_exec(ps, keys[i]) {
            Some(t) => {
                let c = chars_of(t.as_str());
                let tt = trim_chars(&c);
                if tt.len() > 0 {
                    return Some(string_of(&tt));
                }
            },
            None => {},
        }
        i += 1;
    }
    None
}

fn find_hint_exec(v: &JsonValue) -> (r: Option<String>)
    ensures
        opt_view(r) == find_hint(v@),
    decreases v,
{
    match v {
        JsonValue::Object(ps) => {
            let own = hint_from_keys_exec(ps);
            if own.is_some() {
                return own;
            }
            let ghost mv = member_views(ps@, ps@.len());
            proof {
                lemma_member_views(ps@, ps@.len());
            }
            let mut i: usize = 0;
            while i < ps.len()
                invariant
                    i <= ps.len(),
                    mv == member_views(ps@, ps@.len()),
                    mv.len() == ps.len(),
                    forall|j: int| 0 <= j < ps.len() ==> #[trigger] mv[j] == (ps@[j].0@, json_view(ps@[j].1)),
                    *v == JsonValue::Object(*ps),
                    find_hint(v@) == find_hint_members(mv, i as nat),
                decreases ps.len() - i,
            {
                assert(mv[i as int].1 == json_view(ps@[i as int].1));
                proof {
                    assert(decreases_to!(*v => *ps));
                    assert(decreases_to!(*ps => ps@));
                    assert(decreases_to!(ps@ => ps@[i as int]));
                    assert(decreases_to!(ps@[i as int] => ps@[i as int].1));
                }
                let r = find_hint_exec(&ps[i].1);
                if r.is_some() {
                    return r;
                }
                i += 1;
            }
            None
        },
        JsonValue::Array(items) => {
            let ghost iv = json_views(items@, items@.len());
            proof {
                lemma_json_views(items@, items@.len());
            }
            let mut i: usize = 0;
            while i < items.len()
                invariant
                    i <= items.len(),
                    iv == json_views(items@, items@.len()),
                    iv.len() == items.len(),
                    forall|j: int| 0 <= j < items.len() ==> #[trigger] iv[j] == json_view(items@[j]),
                    *v == JsonValue::Array(*items),
                    find_hint(v@) == find_hint_items(iv, i as nat),
                decreases items.len() - i,
            {
                assert(iv[i as int] == json_view(items@[i as int]));
                proof {
                    assert(decreases_to!(*v => *items));
                    assert(decreases_to!(*items => items@));
                    assert(decreases_to!(items@ => items@[i as int]));
                }
                let r = find_hint_exec(&items[i]);
                if r.is_some() {
                    return r;
                }
                i += 1;
            }
            None
        },
        _ => None,
    }
}

/// The panic text and device hint of a parsed document, when it has a
/// panic text.
pub open spec fn json_extract(parsed: Option<JsonView>) -> Option<(Seq<char>, Option<Seq<char>>)> {
    match parsed {
        Some(v) => match find_panic(v) {
            Some(p) => Some((p, find_hint(v))),
            None => None,
        },
        None => None,
    }
}

// ---------------------------------------------------------------------------
// XML property lists: `(?is)<key>\s*panicString\s*</key>\s*(?:<string>|!\[CDATA\[)(.*?)(?:\]\]>|</string>)`
// ---------------------------------------------------------------------------
/// The first index at or after `i` where `]]>` or `</string>` starts.
pub open spec fn plist_value_end(s: Seq<char>, i: int) -> Option<int>
    decreases s.len() - i,
{
    if i < 0 || i >= s.len() {
        None
    } else if ci_at(s, "]]>"@, i) || ci_at(s, "</string>"@, i) {
        Some(i)
    } else {
        plist_value_end(s, i + 1)
    }
}

/// Where the pattern matches at `p`: the bounds of the value.
pub open spec fn plist_match_at(s: Seq<char>, p: int) -> Option<(int, int)> {
    if !ci_at(s, "<key>"@, p) {
        None
    } else {
        let a = ws_run_end(s, p + 5);
        if !ci_at(s, "panicstring"@, a) {
            None
        } else {
            let b = ws_run_end(s, a + 11);
            if !ci_at(s, "</key>"@, b) {
                None
            } else {
                let c = ws_run_end(s, b + 6);
                if ci_at(s, "<string>"@, c) || ci_at(s, "![cdata["@, c) {
                    match plist_value_end(s, c + 8) {
                        Some(e) => Some((c + 8, e)),
                        None => None,
                    }
                } else {
                    None
                }
            }
        }
    }
}

/// The leftmost match at or after `i`.
pub open spec fn plist_first_match(s: Seq<char>, i: int) -> Option<(int, int)>
    decreases s.len() + 1 - i,
{
    if i < 0 || i > s.len() {
        None
    } else if plist_match_at(s, i) is Some {
        plist_match_at(s, i)
    } else {
        plist_first_match(s, i + 1)
    }
}

/// The trimmed value of the first match, when it is not blank.
pub open spec fn plist_panic_text(s: Seq<char>) -> Option<Seq<char>> {
    match plist_first_match(s, 0) {
        Some((a, e)) => if trim(s.subrange(a, e)).len() > 0 {
            Some(trim(s.subrange(a, e)))
        } else {
            None
        },
        None => None,
    }
}

proof fn lemma_plist_value_end(s: Seq<char>, i: int)
    requires
        0 <= i,
    ensures
        plist_value_end(s, i) matches Some(e) ==> i <= e < s.len(),
    decreases s.len() - i,
{
    if i < s.len() && !(ci_at(s, "]]>"@, i) || ci_at(s, "</string>"@, i)) {
        lemma_plist_value_end(s, i + 1);
    }
}

proof fn lemma_plist_match_at(s: Seq<char>, p: int)
    ensures
        plist_match_at(s, p) matches Some((a, e)) ==> 0 <= a <= e <= s.len(),
{
    reveal_strlit("<key>");
    reveal_strlit("panicstring");
    reveal_strlit("</key>");
    reveal_strlit("<string>");
    reveal_strlit("![cdata[");
    if ci_at(s, "<key>"@, p) {
        lemma_ws_run_end(s, p + 5);
        let a = ws_run_end(s, p + 5);
        if ci_at(s, "panicstring"@, a) {
            lemma_ws_run_end(s, a + 11);
            let b = ws_run_end(s, a + 11);
            if ci_at(s, "</key>"@, b) {
                lemma_ws_run_end(s, b + 6);
                let c = ws_run_end(s, b + 6);
                if ci_at(s, "<string>"@, c) || ci_at(s, "![cdata["@, c) {
                    lemma_plist_value_end(s, c + 8);
                }
            }
        }
    }
}

proof fn lemma_plist_first_match(s: Seq<char>, i: int)
    ensures
        plist_first_match(s, i) matches Some((a, e)) ==> 0 <= a <= e <= s.len(),
    decreases s.len() + 1 - i,
{
    if 0 <= i <= s.len() {
        lemma_plist_match_at(s, i);
        if plist_match_at(s, i) is None {
            lemma_plist_first_match(s, i + 1);
        }
    }
}

fn plist_value_end_exec(s: &[char], i: usize) -> (r: Option<usize>)
    ensures
        match r {
            Some(e) => plist_value_end(s@, i as int) == Some(e as int),
            None => plist_value_end(s@, i as int) is None,
        },
{
    let close1 = chars_of("]]>");
    let close2 = chars_of("</string>");
    let mut k: usize = i;
    if k > s.len() {
        return None;
    }
    while k < s.len()
        invariant
            i <= k <= s.len(),
            close1@ == "]]>"@,
            close2@ == "</string>"@,
            plist_value_end(s@, i as int) == plist_value_end(s@, k as int),
        decreases s.len() - k,
    {
        if ci_at_exec(s, &close1, k) || ci_at_exec(s, &close2, k) {
            return Some(k);
        }
        k += 1;
    }
    None
}

fn plist_match_at_exec(s: &[char], p: usize) -> (r: Option<(usize, usize)>)
    requires
        p <= s.len(),
    ensures
        match r {
            Some((a, e)) => plist_match_at(s@, p as int) == Some((a as int, e as int)),
            None => plist_match_at(s@, p as int) is None,
        },
{
    let key_o = chars_of("<key>");
    if !ci_at_exec(s, &key_o, p) {
        return None;
    }
    proof {
        reveal_strlit("<key>");
    }
    let a = ws_run_end_exec(s, p + 5);
    let name = chars_of("panicstring");
    if !ci_at_exec(s, &name, a) {
        return None;
    }
    proof {
        reveal_strlit("panicstring");
    }
    let b = ws_run_end_exec(s, a + 11);
    let key_c = chars_of("</key>");
    if !ci_at_exec(s, &key_c, b) {
        return None;
    }
    proof {
        reveal_strlit("</key>");
    }
    let c = ws_run_end_exec(s, b + 6);
    let open1 = chars_of("<string>");
    let open2 = chars_of("![cdata[");
    if ci_at_exec(s, &open1, c) || ci_at_exec(s, &open2, c) {
        proof {
            reveal_strlit("<string>");
            reveal_strlit("![cdata[");
        }
        match plist_value_end_exec(s, c + 8) {
            Some(e) => Some((c + 8, e)),
            None => None,
        }
    } else {
        None
    }
}

/// The panic text of an XML property list (`plist_panic_text`).
pub fn extract_from_plist_xml(raw: &str) -> (r: Option<String>)
    ensures
        opt_view(r) == plist_panic_text(raw@),
{
    let s = chars_of(raw);
    let mut i: usize = 0;
    while i < s.len()
        invariant
            i <= s.len(),
            s@ == raw@,
            plist_first_match(s@, 0) == plist_first_match(s@, i as int),
        decreases s.len() + 1 - i,
    {
        match plist_match_at_exec(&s, i) {
            Some((a, e)) => {
                proof {
                    lemma_plist_match_at(s@, i as int);
                }
                let body = slice_to_vec(&s, a, e);
                let t = trim_chars(&body);
                if t.len() > 0 {
                    return Some(string_of(&t));
                }
                return None;
            },
            None => {},
        }
        i += 1;
    }
    proof {
        reveal_strlit("<key>");
        assert(plist_match_at(s@, s.len() as int) is None);
        assert(plist_first_match(s@, s.len() + 1) is None);
    }
    None
}


// ---------------------------------------------------------------------------
// The panic text of a report
// ---------------------------------------------------------------------------
#[verifier::external_type_specification]
#[verifier::external_body]
pub struct ExJsonDocument(serde_json::Value);

/// What `serde_json::from_str` makes of a text: the document, or `None`
/// when the text is not JSON.
pub uninterp spec fn json_parse(text: Seq<char>) -> Option<JsonView>;

/// `serde_json::from_str::<serde_json::Value>`, its document converted node
/// for node (an object's members in the order of serde_json's map). Which
/// texts parse, and to what, is left to serde_json: the result depends on
/// the text alone.
#[verifier::external_body]
fn parse_json_document(text: &str) -> (r: Option<JsonValue>)
    ensures
        opt_json_view(r) == json_parse(text@),
{
    match serde_json::from_str::<serde_json::Value>(text) {
        Ok(v) => Some(json_value_from(v)),
        Err(_) => None,
    }
}

/// Converts a `serde_json::Value` node for node.
#[verifier::external_body]
fn json_value_from(v: serde_json::Value) -> JsonValue {
    match v {
        serde_json::Value::Null => JsonValue::Null,
        serde_json::Value::Bool(b) => JsonValue::Bool(b),
        serde_json::Value::Number(n) => JsonValue::Number(n.to_string()),
        serde_json::Value::String(t) => JsonValue::Text(t),
        serde_json::Value::Array(a) => JsonValue::Array(a.into_iter().map(json_value_from).collect()),
        serde_json::Value::Object(m) => JsonValue::Object(m.into_iter().map(|(k, x)| (k, json_value_from(x))).collect()),
    }
}

/// The text of a report without its byte-order marks and surrounding
/// whitespace.
pub open spec fn ips_trimmed(raw: Seq<char>) -> Seq<char> {
    trim(strip_leading(raw, '\u{feff}'))
}

/// The panic text, the device hint and how they were found: from the JSON
/// document when it holds a panic text, else from a property list, else the
/// whole text (`plaintext` when it looks like a panic, `raw` otherwise).
pub open spec fn ips_body(t: Seq<char>, parsed: Option<JsonView>) -> (Seq<char>, Option<Seq<char>>, Seq<char>) {
    match json_extract(parsed) {
        Some((p, d)) => (p, d, "json"@),
        None => match plist_panic_text(t) {
            Some(b) => (b, None, "plist-xml"@),
            None => if seq_contains(unicode_lower(t), "panicstring"@) || seq_contains(t, "panic(cpu"@) {
                (t, None, "plaintext"@)
            } else {
                (t, None, "raw"@)
            },
        },
    }
}

pub open spec fn body_view(r: (String, Option<String>, &str)) -> (Seq<char>, Option<Seq<char>>, Seq<char>) {
    (r.0@, opt_view(r.1), r.2@)
}

/// What `extract_ips_body` does once the trimmed text went through the JSON
/// parser.
pub fn ips_body_from(trimmed: &str, parsed: Option<JsonValue>) -> (r: (String, Option<String>, &'static str))
    ensures
        body_view(r) == ips_body(trimmed@, opt_json_view(parsed)),
{
    match &parsed {
        Some(v) => match find_panic_exec(v) {
            Some(p) => {
                let d = find_hint_exec(v);
                return (p, d, "json");
            },
            None => {},
        },
        None => {},
    }
    match extract_from_plist_xml(trimmed) {
        Some(b) => return (b, None, "plist-xml"),
        None => {},
    }
    let t = chars_of(trimmed);
    let lower = to_lowercase(trimmed);
    if contains_str(&lower, "panicstring") || contains_str(&t, "panic(cpu") {
        (string_of(&t), None, "plaintext")
    } else {
        (string_of(&t), None, "raw")
    }
}

/// The panic text to analyse in a `.ips` file (JSON, XML property list or
/// plain text), the device hint when the JSON names one, and how the text
/// was found.
pub fn extract_ips_body(raw: &str) -> (r: (String, Option<String>, &'static str))
    ensures
        body_view(r) == ips_body(ips_trimmed(raw@), json_parse(ips_trimmed(raw@))),
{
    let c = chars_of(raw);
    let stripped = strip_leading_exec(&c, '\u{feff}');
    let t = trim_chars(&stripped);
    let ts = string_of(&t);
    let parsed = parse_json_document(ts.as_str());
    ips_body_from(ts.as_str(), parsed)
}

} // verus!
