//! iCloud session records, the cookies that prove a sign-in, and responses
//! that the web bridge delivers in numbered chunks.
use crate::icloud_photos::{get, get_exec, member, member_exec, text_exec, text_of};
use crate::ips::{lemma_member_views, member_views, JsonValue, JsonView};
use crate::text::{join, join_exec, string_of, views, chars_of, contains_str, seq_contains, eq_ci, eq_ci_str, eq_str, lit_views, opt_view, parse_u64, parse_u64_spec, push_str};
use vstd::prelude::*;
use std::collections::HashMap;

verus! {

broadcast use vstd::std_specs::hash::group_hash_axioms;

/// A signed-in iCloud session. `webservices` maps a service name to its URL.
pub struct ICloudSession {
    pub cookie_header: String,
    pub dsid: String,
    pub apple_id: Option<String>,
    pub full_name: Option<String>,
    pub webservices: Vec<(String, String)>,
    pub client_id: String,
}

pub struct CookiePair {
    pub name: String,
    pub value: String,
}

pub struct ICloudSessionPublic {
    pub apple_id: Option<String>,
    pub full_name: Option<String>,
    pub photos_url: Option<String>,
    pub authenticated_at_ms: i64,
}

pub open spec fn service_views(v: Seq<(String, String)>) -> Seq<(Seq<char>, Seq<char>)> {
    v.map_values(|p: (String, String)| (p.0@, p.1@))
}

/// The URL of the first service of that name.
pub open spec fn service_url(ws: Seq<(Seq<char>, Seq<char>)>, name: Seq<char>) -> Option<Seq<char>>
    decreases ws.len(),
{
    if ws.len() == 0 {
        None
    } else if ws[0].0 == name {
        Some(ws[0].1)
    } else {
        service_url(ws.drop_first(), name)
    }
}

pub(crate) fn service_url_exec(ws: &Vec<(String, String)>, name: &str) -> (r: Option<String>)
    ensures
        opt_view(r) == service_url(service_views(ws@), name@),
{
    let mut i: usize = 0;
    assert(service_views(ws@).skip(0) =~= service_views(ws@));
    while i < ws.len()
        invariant
            i <= ws.len(),
            service_url(service_views(ws@), name@) == service_url(service_views(ws@).skip(i as int), name@),
        decreases ws.len() - i,
    {
        assert(service_views(ws@).skip(i as int)[0] == service_views(ws@)[i as int]);
        assert(service_views(ws@).skip(i as int).drop_first() =~= service_views(ws@).skip(i + 1));
        let c = chars_of(ws[i].0.as_str());
        if eq_str(&c, name) {
            return Some(ws[i].1.clone());
        }
        i += 1;
    }
    None
}

/// The photos endpoint of a session: `ckdatabasews`, else `photos`.
pub open spec fn photos_url_of(ws: Seq<(Seq<char>, Seq<char>)>) -> Option<Seq<char>> {
    if service_url(ws, "ckdatabasews"@) is Some {
        service_url(ws, "ckdatabasews"@)
    } else {
        service_url(ws, "photos"@)
    }
}

impl ICloudSession {
    /// What the interface may see of a session, stamped with the time of the
    /// sign-in.
    pub fn to_public(&self, authenticated_at_ms: i64) -> (r: ICloudSessionPublic)
        ensures
            opt_view(r.apple_id) == opt_view(self.apple_id),
            opt_view(r.full_name) == opt_view(self.full_name),
            opt_view(r.photos_url) == photos_url_of(service_views(self.webservices@)),
            r.authenticated_at_ms == authenticated_at_ms,
    {
        let ck = service_url_exec(&self.webservices, "ckdatabasews");
        let photos_url = if ck.is_some() {
            ck
        } else {
            service_url_exec(&self.webservices, "photos")
        };
        ICloudSessionPublic {
            apple_id: self.apple_id.clone(),
            full_name: self.full_name.clone(),
            photos_url,
            authenticated_at_ms,
        }
    }
}

/// The cookies that only a signed-in session carries.
pub open spec fn token_names() -> Seq<Seq<char>> {
    seq![
        "X-APPLE-WEBAUTH-TOKEN"@,
        "X-APPLE-DS-WEB-SESSION-TOKEN"@,
        "X-APPLE-WEBAUTH-HSA-TRUST"@,
        "X-APPLE-WEBAUTH-PCS-Cloudkit"@,
        "X-APPLE-WEBAUTH-PCS-Photos"@,
    ]
}

pub open spec fn is_token_cookie(name: Seq<char>, value: Seq<char>) -> bool {
    value.len() > 0 && exists|k: int| 0 <= k < token_names().len() && eq_ci(name, #[trigger] token_names()[k])
}

/// Some cookie with a value is one of the sign-in tokens (names compared
/// without regard to ASCII case).
pub fn is_authenticated(cookies: &[CookiePair]) -> (r: bool)
    ensures
        r == exists|i: int| 0 <= i < cookies@.len() && is_token_cookie(#[trigger] cookies@[i].name@, cookies@[i].value@),
{
    let names: Vec<&str> = vec![
        "X-APPLE-WEBAUTH-TOKEN",
        "X-APPLE-DS-WEB-SESSION-TOKEN",
        "X-APPLE-WEBAUTH-HSA-TRUST",
        "X-APPLE-WEBAUTH-PCS-Cloudkit",
        "X-APPLE-WEBAUTH-PCS-Photos",
    ];
    assert(lit_views(names@) == token_names());
    let mut i: usize = 0;
    while i < cookies.len()
        invariant
            i <= cookies.len(),
            lit_views(names@) == token_names(),
            forall|j: int| 0 <= j < i ==> !is_token_cookie(#[trigger] cookies@[j].name@, cookies@[j].value@),
        decreases cookies.len() - i,
    {
        if !cookies[i].value.as_str().is_empty() {
            let nc = chars_of(cookies[i].name.as_str());
            let mut k: usize = 0;
            while k < names.len()
                invariant
                    k <= names.len(),
                    i < cookies.len(),
                    nc@ == cookies@[i as int].name@,
                    cookies@[i as int].value@.len() > 0,
                    lit_views(names@) == token_names(),
                    forall|m: int| 0 <= m < k ==> !eq_ci(nc@, #[trigger] token_names()[m]),
                decreases names.len() - k,
            {
                if eq_ci_str(&nc, names[k]) {
                    assert(eq_ci(nc@, token_names()[k as int]));
                    assert(is_token_cookie(cookies@[i as int].name@, cookies@[i as int].value@));
                    return true;
                }
                k += 1;
            }
        }
        i += 1;
    }
    false
}

// ---------------------------------------------------------------------------
// Responses delivered in chunks
// ---------------------------------------------------------------------------
/// A response of the web bridge: its status, the number of chunks, and the
/// chunks received so far by index.
pub struct PendingResp {
    pub status: u16,
    pub total: usize,
    pub chunks: HashMap<usize, String>,
}

impl PendingResp {
    pub fn new() -> (r: PendingResp)
        ensures
            r.status == 0,
            r.total == 0,
            r.chunks@ == Map::<usize, String>::empty(),
    {
        PendingResp { status: 0, total: 0, chunks: HashMap::new() }
    }

    /// Every chunk has come.
    pub fn is_complete(&self) -> (r: bool)
        ensures
            r == (self.total > 0 && self.chunks@.len() == self.total),
    {
        self.total > 0 && self.chunks.len() == self.total
    }

    /// The chunks `0 .. total` that came, in order.
    pub fn assemble(&self) -> (r: String)
        ensures
            r@ == assembled(self.chunks@, self.total as nat),
    {
        let mut out = String::new();
        let mut i: usize = 0;
        while i < self.total
            invariant
                i <= self.total,
                out@ == assembled(self.chunks@, i as nat),
            decreases self.total - i,
        {
            match self.chunks.get(&i) {
                Some(c) => {
                    push_str(&mut out, c.as_str());
                },
                None => {},
            }
            i += 1;
        }
        out
    }
}

/// The chunks of index below `n` that are present, in order.
pub open spec fn assembled(m: Map<usize, String>, n: nat) -> Seq<char>
    decreases n,
{
    if n == 0 {
        Seq::empty()
    } else {
        let k = (n - 1) as usize;
        assembled(m, (n - 1) as nat) + if m.contains_key(k) {
            m[k]@
        } else {
            Seq::empty()
        }
    }
}


// ---------------------------------------------------------------------------
// A chunk that the web bridge reports through a navigation
// ---------------------------------------------------------------------------
/// A chunk of a response: which request it answers, its HTTP status, its
/// index among `total` chunks, and its text.
pub struct BridgeChunk {
    pub marker: String,
    pub status: u16,
    pub body: String,
    pub seq: usize,
    pub total: usize,
}

/// The last value given to `key` among the query pairs.
pub open spec fn last_value(pairs: Seq<(Seq<char>, Seq<char>)>, key: Seq<char>) -> Option<Seq<char>>
    decreases pairs.len(),
{
    if pairs.len() == 0 {
        None
    } else if pairs.last().0 == key {
        Some(pairs.last().1)
    } else {
        last_value(pairs.drop_last(), key)
    }
}

/// `str::parse` into an integer of at most `max`, else `default`.
pub open spec fn parsed_or(v: Option<Seq<char>>, max: nat, default: nat) -> nat {
    match v {
        Some(t) => match parse_u64_spec(t) {
            Some(n) => if n <= max {
                n as nat
            } else {
                default
            },
            None => default,
        },
        None => default,
    }
}

pub struct ChunkView {
    pub marker: Seq<char>,
    pub status: nat,
    pub body: Seq<char>,
    pub seq: nat,
    pub total: nat,
}

/// The chunk that a bridge navigation carries: the last `marker`,
/// `status`, `body`, `seq` and `total` of its query, the numbers read as
/// integers (0 when they do not read, and `total` at least 1); none without
/// a marker.
pub open spec fn bridge_chunk_of(pairs: Seq<(Seq<char>, Seq<char>)>) -> Option<ChunkView> {
    let marker = match last_value(pairs, "marker"@) {
        Some(m) => m,
        None => Seq::empty(),
    };
    if marker.len() == 0 {
        None
    } else {
        let total = parsed_or(last_value(pairs, "total"@), usize::MAX as nat, 1);
        Some(
            ChunkView {
                marker,
                status: parsed_or(last_value(pairs, "status"@), u16::MAX as nat, 0),
                body: match last_value(pairs, "body"@) {
                    Some(b) => b,
                    None => Seq::empty(),
                },
                seq: parsed_or(last_value(pairs, "seq"@), usize::MAX as nat, 0),
                total: if total == 0 { 1 } else { total },
            },
        )
    }
}

pub open spec fn pair_views(v: Seq<(String, String)>) -> Seq<(Seq<char>, Seq<char>)> {
    v.map_values(|p: (String, String)| (p.0@, p.1@))
}

pub open spec fn chunk_view(c: BridgeChunk) -> ChunkView {
    ChunkView { marker: c.marker@, status: c.status as nat, body: c.body@, seq: c.seq as nat, total: c.total as nat }
}

fn last_value_exec(pairs: &Vec<(String, String)>, key: &str) -> (r: Option<String>)
    ensures
        opt_view(r) == last_value(pair_views(pairs@), key@),
{
    let mut k: usize = pairs.len();
    assert(pair_views(pairs@).take(k as int) =~= pair_views(pairs@));
    while k > 0
        invariant
            k <= pairs.len(),
            last_value(pair_views(pairs@), key@) == last_value(pair_views(pairs@).take(k as int), key@),
        decreases k,
    {
        let c = chars_of(pairs[k - 1].0.as_str());
        assert(pair_views(pairs@).take(k as int).last() == (pairs@[k - 1].0@, pairs@[k - 1].1@));
        if eq_str(&c, key) {
            return Some(pairs[k - 1].1.clone());
        }
        assert(pair_views(pairs@).take(k as int).drop_last() =~= pair_views(pairs@).take(k - 1));
        k -= 1;
    }
    None
}

fn parsed_or_exec(v: Option<String>, max: u64, default: u64) -> (r: u64)
    requires
        default <= max,
    ensures
        r as nat == parsed_or(opt_view(v), max as nat, default as nat),
{
    match v {
        Some(t) => {
            let c = chars_of(t.as_str());
            match parse_u64(&c) {
                Some(n) => if n <= max {
                    n
                } else {
                    default
                },
                None => default,
            }
        },
        None => default,
    }
}

/// The chunk that a bridge navigation carries (`bridge_chunk_of`).
pub fn bridge_chunk(pairs: &Vec<(String, String)>) -> (r: Option<BridgeChunk>)
    ensures
        match r {
            Some(c) => bridge_chunk_of(pair_views(pairs@)) == Some(chunk_view(c)),
            None => bridge_chunk_of(pair_views(pairs@)) is None,
        },
{
    let marker = match last_value_exec(pairs, "marker") {
        Some(m) => m,
        None => String::new(),
    };
    if marker.as_str().is_empty() {
        return None;
    }
    let umax: u64 = usize::MAX as u64;
    let status = parsed_or_exec(last_value_exec(pairs, "status"), 65535, 0);
    let seq = parsed_or_exec(last_value_exec(pairs, "seq"), umax, 0);
    let total = parsed_or_exec(last_value_exec(pairs, "total"), umax, 1);
    let body = match last_value_exec(pairs, "body") {
        Some(b) => b,
        None => String::new(),
    };
    Some(BridgeChunk {
        marker,
        status: status as u16,
        body,
        seq: seq as usize,
        total: if total == 0 { 1 } else { total as usize },
    })
}

impl PendingResp {
    /// Records a chunk: the response takes its status and chunk count, and
    /// the chunk's text is kept under its index (replacing one of the same
    /// index).
    pub fn record(&mut self, chunk: BridgeChunk)
        ensures
            final(self).status == chunk.status,
            final(self).total == chunk.total,
            final(self).chunks@ == old(self).chunks@.insert(chunk.seq, chunk.body),
    {
        self.status = chunk.status;
        self.total = chunk.total;
        self.chunks.insert(chunk.seq, chunk.body);
    }
}

/// Once chunks `0 .. n` have all been recorded, assembling gives their
/// texts in order, whatever order they came in.
pub proof fn law_assembled_in_index_order(m: Map<usize, String>, n: nat)
    requires
        n <= usize::MAX,
        forall|k: usize| k < n ==> m.contains_key(k),
    ensures
        assembled(m, n) == Seq::new(n, |k: int| m[k as usize]@).fold_left(Seq::<char>::empty(), |acc: Seq<char>, x: Seq<char>| acc + x),
    decreases n,
{
    if n > 0 {
        law_assembled_in_index_order(m, (n - 1) as nat);
        let s = Seq::new(n, |k: int| m[k as usize]@);
        let t = Seq::new((n - 1) as nat, |k: int| m[k as usize]@);
        assert(s.drop_last() =~= t);
        assert(m.contains_key((n - 1) as usize));
    }
}


// ---------------------------------------------------------------------------
// Watching the sign-in window
// ---------------------------------------------------------------------------
/// What the watch of the sign-in window remembers between two looks.
pub struct LoginWatch {
    pub signaled: bool,
    pub auth_cycles: u32,
}

/// What the watch does after a look at the window.
#[derive(PartialEq, Eq, Structural)]
pub enum LoginStep {
    /// The window was closed before a session: report the sign-in cancelled.
    Cancelled,
    /// A session is there, or the window closed after one: stop watching.
    Stop,
    /// Look again later.
    Wait,
    /// Read the window's cookies.
    ReadCookies,
}

/// A page of iCloud other than Apple's sign-in pages.
pub open spec fn on_icloud_page(url: Seq<char>) -> bool {
    seq_contains(url, "icloud.com"@) && !seq_contains(url, "idmsa.apple.com"@)
}

/// After a look at the window: the next step, whether to report the
/// sign-in pending (the first time the window shows iCloud), and the
/// watch's new state (the run of signed-in looks restarts off iCloud).
pub open spec fn watch_url(w: (bool, u32), window_open: bool, has_session: bool, url: Seq<char>) -> (LoginStep, bool, (bool, u32)) {
    if !window_open {
        (if has_session { LoginStep::Stop } else { LoginStep::Cancelled }, false, w)
    } else if has_session {
        (LoginStep::Stop, false, w)
    } else {
        let pending = !w.0 && on_icloud_page(url);
        let signaled = w.0 || on_icloud_page(url);
        if !on_icloud_page(url) {
            (LoginStep::Wait, pending, (signaled, 0))
        } else {
            (LoginStep::ReadCookies, pending, (signaled, w.1))
        }
    }
}

/// After a look at the window (`watch_url`).
pub fn login_watch_url(w: &mut LoginWatch, window_open: bool, has_session: bool, url: &str) -> (r: (LoginStep, bool))
    ensures
        (r.0, r.1, (final(w).signaled, final(w).auth_cycles)) == watch_url(
            (old(w).signaled, old(w).auth_cycles),
            window_open,
            has_session,
            url@,
        ),
{
    if !window_open {
        return (if has_session { LoginStep::Stop } else { LoginStep::Cancelled }, false);
    }
    if has_session {
        return (LoginStep::Stop, false);
    }
    let uc = chars_of(url);
    let on_icloud = contains_str(&uc, "icloud.com") && !contains_str(&uc, "idmsa.apple.com");
    let pending = !w.signaled && on_icloud;
    if on_icloud {
        w.signaled = true;
    }
    if !on_icloud {
        w.auth_cycles = 0;
        (LoginStep::Wait, pending)
    } else {
        (LoginStep::ReadCookies, pending)
    }
}

/// After reading the cookies of an iCloud page: a signed-in look adds to
/// the run, an anonymous one restarts it; the session is checked at the
/// second signed-in look in a row.
pub open spec fn watch_cookies(auth_cycles: u32, signed_in: bool) -> (bool, u32) {
    if !signed_in {
        (false, 0)
    } else {
        ((auth_cycles + 1) >= 2, (auth_cycles + 1) as u32)
    }
}

/// After reading the cookies (`watch_cookies`): whether to check the
/// session now.
pub fn login_watch_cookies(w: &mut LoginWatch, cookies: &[CookiePair]) -> (r: bool)
    requires
        old(w).auth_cycles < u32::MAX,
    ensures
        final(w).signaled == old(w).signaled,
        (r, final(w).auth_cycles) == watch_cookies(
            old(w).auth_cycles,
            exists|i: int| 0 <= i < cookies@.len() && is_token_cookie(#[trigger] cookies@[i].name@, cookies@[i].value@),
        ),
{
    if !is_authenticated(cookies) {
        w.auth_cycles = 0;
        return false;
    }
    w.auth_cycles = w.auth_cycles + 1;
    w.auth_cycles >= 2
}


// ---------------------------------------------------------------------------
// The session that Apple's validate answer describes
// ---------------------------------------------------------------------------
/// The validate endpoint, for a client id.
pub open spec fn validate_url(client_id: Seq<char>) -> Seq<char> {
    "https://setup.icloud.com/setup/ws/1/validate?clientBuildNumber=2421Project53&clientMasteringNumber=2421B25&clientId="@ + client_id
}

/// The validate endpoint, for a client id (`validate_url`).
pub fn validate_endpoint(client_id: &str) -> (r: String)
    ensures
        r@ == validate_url(client_id@),
{
    let mut v: Vec<char> = chars_of(
        "https://setup.icloud.com/setup/ws/1/validate?clientBuildNumber=2421Project53&clientMasteringNumber=2421B25&clientId=",
    );
    let c = chars_of(client_id);
    v.extend_from_slice(&c);
    string_of(&v)
}

/// The cookie header of a window: `name=value` pairs joined with `; `.
pub open spec fn cookie_header(cookies: Seq<CookiePair>) -> Seq<char> {
    join(cookies.map_values(|c: CookiePair| c.name@ + "="@ + c.value@), "; "@)
}

/// The cookie header of a window (`cookie_header`).
pub fn cookie_header_of(cookies: &[CookiePair]) -> (r: String)
    ensures
        r@ == cookie_header(cookies@),
{
    let mut parts: Vec<Vec<char>> = Vec::new();
    let mut i: usize = 0;
    while i < cookies.len()
        invariant
            i <= cookies.len(),
            views(parts@) == cookies@.take(i as int).map_values(|c: CookiePair| c.name@ + "="@ + c.value@),
        decreases cookies.len() - i,
    {
        let mut v = chars_of(cookies[i].name.as_str());
        v.push('=');
        let w = chars_of(cookies[i].value.as_str());
        v.extend_from_slice(&w);
        proof {
            reveal_strlit("=");
            assert("="@ =~= seq!['=']);
            assert(v@ =~= cookies@[i as int].name@ + "="@ + cookies@[i as int].value@);
        }
        let ghost before = views(parts@);
        parts.push(v);
        assert(views(parts@) =~= before.push(cookies@[i as int].name@ + "="@ + cookies@[i as int].value@));
        assert(cookies@.take(i + 1) =~= cookies@.take(i as int).push(cookies@[i as int]));
        i += 1;
    }
    assert(cookies@.take(cookies.len() as int) =~= cookies@);
    let sep: Vec<char> = chars_of("; ");
    let j = join_exec(&parts, &sep);
    string_of(&j)
}

/// The services of a validate answer: each member of `webservices` whose
/// value has a `url` text, with that URL, in order.
pub open spec fn services_of(members: Seq<(Seq<char>, JsonView)>, n: int) -> Seq<(Seq<char>, Seq<char>)>
    decreases n,
{
    if n <= 0 || n > members.len() {
        Seq::empty()
    } else {
        match text_of(member(members[n - 1].1, "url"@)) {
            Some(u) => services_of(members, n - 1).push((members[n - 1].0, u)),
            None => services_of(members, n - 1),
        }
    }
}

pub open spec fn webservice_members(doc: JsonView) -> Seq<(Seq<char>, JsonView)> {
    match member(doc, "webservices"@) {
        Some(JsonView::Object(ps)) => ps,
        _ => Seq::empty(),
    }
}

/// The session that a validate answer describes: `dsInfo.dsid` (an error
/// without it), `dsInfo.appleId`, `dsInfo.fullName`, and the services.
pub open spec fn validated_session(doc: JsonView) -> Result<(Seq<char>, Option<Seq<char>>, Option<Seq<char>>, Seq<(Seq<char>, Seq<char>)>), Seq<char>> {
    let ds = member(doc, "dsInfo"@);
    match text_of(get(ds, "dsid"@)) {
        None => Err("validate response missing dsInfo.dsid \u{e2}\u{20ac}\u{201d} sign in to iCloud first."@),
        Some(dsid) => Ok(
            (
                dsid,
                text_of(get(ds, "appleId"@)),
                text_of(get(ds, "fullName"@)),
                services_of(webservice_members(doc), webservice_members(doc).len() as int),
            ),
        ),
    }
}

pub open spec fn session_result_view(r: Result<ICloudSession, String>) -> Result<(Seq<char>, Option<Seq<char>>, Option<Seq<char>>, Seq<(Seq<char>, Seq<char>)>), Seq<char>> {
    match r {
        Ok(s) => Ok((s.dsid@, opt_view(s.apple_id), opt_view(s.full_name), service_views(s.webservices@))),
        Err(e) => Err(e@),
    }
}

/// The session that a validate answer describes (`validated_session`), with
/// the window's cookie header and the client id used.
pub fn session_from_validate(doc: &JsonValue, cookie_header: String, client_id: String) -> (r: Result<ICloudSession, String>)
    ensures
        session_result_view(r) == validated_session(doc@),
        r is Ok ==> r->Ok_0.cookie_header == cookie_header && r->Ok_0.client_id == client_id,
{
    let ds = member_exec(doc, "dsInfo");
    let dsid = match text_exec(get_exec(ds, "dsid")) {
        Some(d) => d,
        None => {
            let v = chars_of("validate response missing dsInfo.dsid \u{e2}\u{20ac}\u{201d} sign in to iCloud first.");
            return Err(string_of(&v));
        },
    };
    let apple_id = text_exec(get_exec(ds, "appleId"));
    let full_name = text_exec(get_exec(ds, "fullName"));
    let mut webservices: Vec<(String, String)> = Vec::new();
    match member_exec(doc, "webservices") {
        Some(JsonValue::Object(ps)) => {
            let ghost mv = member_views(ps@, ps@.len());
            proof {
                lemma_member_views(ps@, ps@.len());
            }
            assert(webservice_members(doc@) == mv);
            let mut i: usize = 0;
            while i < ps.len()
                invariant
                    i <= ps.len(),
                    mv == member_views(ps@, ps@.len()),
                    mv.len() == ps.len(),
                    forall|j: int| 0 <= j < ps.len() ==> #[trigger] mv[j] == (ps@[j].0@, ps@[j].1@),
                    service_views(webservices@) == services_of(mv, i as int),
                decreases ps.len() - i,
            {
                match text_exec(member_exec(&ps[i].1, "url")) {
                    Some(u) => {
                        let ghost before = service_views(webservices@);
                        let k = ps[i].0.clone();
                        webservices.push((k, u));
                        assert(service_views(webservices@) =~= before.push((mv[i as int].0, u@)));
                    },
                    None => {},
                }
                i += 1;
            }
        },
        _ => {
            assert(webservice_members(doc@) == Seq::<(Seq<char>, JsonView)>::empty());
            assert(service_views(webservices@) =~= Seq::<(Seq<char>, Seq<char>)>::empty());
        },
    }
    Ok(ICloudSession { cookie_header, dsid, apple_id, full_name, webservices, client_id })
}

} // verus!
