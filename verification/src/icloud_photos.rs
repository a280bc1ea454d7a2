//! The records of an iCloud Photos library, as CloudKit returns them in
//! JSON: what an asset record and its master record say of a photo or a
//! video (its name, its kind, its date, where its thumbnail and original
//! are fetched from, its flags), and the album of the library that it
//! falls in.
use crate::encoding::{base64_decode, base64_decoded, utf8_decoded, utf8_text};
use crate::gallery_afc::after_last_dot;
use crate::icloud::{service_url, service_url_exec, service_views, ICloudSession};
use crate::ips::{json_views, lemma_json_views, lemma_member_views, member_index, member_views, JsonValue, JsonView};
use crate::panic_diagnostic::{byte_cut, byte_window, byte_window_exec};
use crate::text::{
    all_digits, append_chars, append_str, byte_len, byte_len_below, chars_eq, chars_of, num_value, occurs_at, occurs_at_exec, opt_view,
    parse_u64, parse_u64_spec, seq_contains, contains_str, slice_to_vec, string_of, to_lowercase, unicode_lower, starts_with,
    starts_with_str, eq_str, dec_text, dec_text_exec, strs,
};
use vstd::prelude::*;

verus! {

// ---------------------------------------------------------------------------
// Reading a record
// ---------------------------------------------------------------------------
/// Member `key` of an object.
pub open spec fn member(v: JsonView, key: Seq<char>) -> Option<JsonView> {
    match v {
        JsonView::Object(ps) => match member_index(ps, key, 0) {
            Some(i) => Some(ps[i].1),
            None => None,
        },
        _ => None,
    }
}

/// Member `key` of an optional value.
pub open spec fn get(v: Option<JsonView>, key: Seq<char>) -> Option<JsonView> {
    match v {
        Some(x) => member(x, key),
        None => None,
    }
}

/// The text of a string value.
pub open spec fn text_of(v: Option<JsonView>) -> Option<Seq<char>> {
    match v {
        Some(JsonView::Text(s)) => Some(s),
        _ => None,
    }
}

/// What `str::parse::<i64>` returns: an optional sign, then ASCII digits
/// whose value fits.
pub open spec fn parse_i64_spec(s: Seq<char>) -> Option<i64> {
    if s.len() > 0 && s[0] == '-' {
        let d = s.drop_first();
        if d.len() > 0 && all_digits(d) && num_value(d, 10) <= 9223372036854775808 {
            Some((0 - num_value(d, 10)) as i64)
        } else {
            None
        }
    } else {
        match parse_u64_spec(s) {
            Some(v) => if v <= 9223372036854775807 {
                Some(v as i64)
            } else {
                None
            },
            None => None,
        }
    }
}

/// A number as a signed integer. The parser writes an integer as its
/// decimal digits and any other number with a point or an exponent, so the
/// text reads as an `i64` exactly when the number is an integer that fits.
pub open spec fn i64_of(v: Option<JsonView>) -> Option<i64> {
    match v {
        Some(JsonView::Number(t)) => parse_i64_spec(t),
        _ => None,
    }
}

/// A number as an unsigned integer (see `i64_of`).
pub open spec fn u64_of(v: Option<JsonView>) -> Option<u64> {
    match v {
        Some(JsonView::Number(t)) => parse_u64_spec(t),
        _ => None,
    }
}

/// The members of a record's `fields` object.
pub open spec fn fields_of(record: Option<JsonView>) -> Option<Seq<(Seq<char>, JsonView)>> {
    match get(record, "fields"@) {
        Some(JsonView::Object(ps)) => Some(ps),
        _ => None,
    }
}

/// Field `key` among optional fields.
pub open spec fn field_in(fs: Option<Seq<(Seq<char>, JsonView)>>, key: Seq<char>) -> Option<JsonView> {
    match fs {
        Some(ps) => match member_index(ps, key, 0) {
            Some(i) => Some(ps[i].1),
            None => None,
        },
        None => None,
    }
}

/// Field `key` of the master record, else of the asset record.
pub open spec fn either_field(
    master_fs: Option<Seq<(Seq<char>, JsonView)>>,
    asset_fs: Option<Seq<(Seq<char>, JsonView)>>,
    key: Seq<char>,
) -> Option<JsonView> {
    match field_in(master_fs, key) {
        Some(x) => Some(x),
        None => field_in(asset_fs, key),
    }
}

/// Member `key` of an object value.
pub fn member_exec<'a>(v: &'a JsonValue, key: &str) -> (r: Option<&'a JsonValue>)
    ensures
        match r {
            Some(x) => member(v@, key@) == Some(x@),
            None => member(v@, key@) is None,
        },
{
    match v {
        JsonValue::Object(ps) => {
            let ghost mv = member_views(ps@, ps@.len());
            assert(v@ == JsonView::Object(mv));
            proof {
                lemma_member_views(ps@, ps@.len());
            }
            let k = chars_of(key);
            let mut i: usize = 0;
            while i < ps.len()
                invariant
                    i <= ps.len(),
                    k@ == key@,
                    mv == member_views(ps@, ps@.len()),
                    v@ == JsonView::Object(mv),
                    mv.len() == ps.len(),
                    forall|j: int| 0 <= j < ps.len() ==> #[trigger] mv[j] == (ps@[j].0@, ps@[j].1@),
                    member_index(mv, key@, 0) == member_index(mv, key@, i as int),
                decreases ps.len() - i,
            {
                let name = chars_of(ps[i].0.as_str());
                if chars_eq(&name, &k) {
                    assert(mv[i as int].0 == key@);
                    assert(member_index(mv, key@, i as int) == Some(i as int));
                    assert(mv[i as int].1 == ps@[i as int].1@);
                    return Some(&ps[i].1);
                }
                i += 1;
            }
            assert(member_index(mv, key@, i as int) is None);
            None
        },
        _ => None,
    }
}

/// Member `key` of an optional value.
pub fn get_exec<'a>(v: Option<&'a JsonValue>, key: &str) -> (r: Option<&'a JsonValue>)
    ensures
        opt_ref_view(r) == get(opt_ref_view(v), key@),
{
    match v {
        Some(x) => member_exec(x, key),
        None => None,
    }
}

pub open spec fn opt_ref_view(o: Option<&JsonValue>) -> Option<JsonView> {
    match o {
        Some(x) => Some(x@),
        None => None,
    }
}

/// The text of a string value.
pub fn text_exec(v: Option<&JsonValue>) -> (r: Option<String>)
    ensures
        opt_view(r) == text_of(opt_ref_view(v)),
{
    match v {
        Some(JsonValue::Text(s)) => Some(s.clone()),
        _ => None,
    }
}

fn parse_i64_text(s: &str) -> (r: Option<i64>)
    ensures
        r == parse_i64_spec(s@),
{
    let c = chars_of(s);
    if c.len() > 0 && c[0] == '-' {
        let d = slice_to_vec(&c, 1, c.len());
        assert(d@ == s@.drop_first());
        if d.len() > 0 && d[0] == '+' {
            assert(!all_digits(d@));
            return None;
        }
        match parse_u64(&d) {
            Some(v) => {
                if v <= 9223372036854775807 {
                    Some(0 - (v as i64))
                } else if v == 9223372036854775808 {
                    Some(i64::MIN)
                } else {
                    None
                }
            },
            None => None,
        }
    } else {
        match parse_u64(&c) {
            Some(v) => if v <= 9223372036854775807 {
                Some(v as i64)
            } else {
                None
            },
            None => None,
        }
    }
}

/// A number as a signed integer (`i64_of`).
pub fn i64_exec(v: Option<&JsonValue>) -> (r: Option<i64>)
    ensures
        r == i64_of(opt_ref_view(v)),
{
    match v {
        Some(JsonValue::Number(t)) => parse_i64_text(t.as_str()),
        _ => None,
    }
}

/// A number as an unsigned integer (`u64_of`).
pub fn u64_exec(v: Option<&JsonValue>) -> (r: Option<u64>)
    ensures
        r == u64_of(opt_ref_view(v)),
{
    match v {
        Some(JsonValue::Number(t)) => {
            let c = chars_of(t.as_str());
            parse_u64(&c)
        },
        _ => None,
    }
}

/// The members of a record's `fields` object.
pub fn fields_exec(record: Option<&JsonValue>) -> (r: Option<&Vec<(String, JsonValue)>>)
    ensures
        match r {
            Some(ps) => fields_of(opt_ref_view(record)) == Some(member_views(ps@, ps@.len())),
            None => fields_of(opt_ref_view(record)) is None,
        },
{
    match get_exec(record, "fields") {
        Some(JsonValue::Object(ps)) => Some(ps),
        _ => None,
    }
}

pub open spec fn opt_members(o: Option<&Vec<(String, JsonValue)>>) -> Option<Seq<(Seq<char>, JsonView)>> {
    match o {
        Some(ps) => Some(member_views(ps@, ps@.len())),
        None => None,
    }
}

/// Field `key` among optional fields.
pub fn field_exec<'a>(fs: Option<&'a Vec<(String, JsonValue)>>, key: &str) -> (r: Option<&'a JsonValue>)
    ensures
        opt_ref_view(r) == field_in(opt_members(fs), key@),
{
    match fs {
        Some(ps) => {
            let ghost mv = member_views(ps@, ps@.len());
            proof {
                lemma_member_views(ps@, ps@.len());
            }
            let k = chars_of(key);
            let mut i: usize = 0;
            while i < ps.len()
                invariant
                    i <= ps.len(),
                    k@ == key@,
                    mv == member_views(ps@, ps@.len()),
                    opt_members(fs) == Some(mv),
                    mv.len() == ps.len(),
                    forall|j: int| 0 <= j < ps.len() ==> #[trigger] mv[j] == (ps@[j].0@, ps@[j].1@),
                    member_index(mv, key@, 0) == member_index(mv, key@, i as int),
                decreases ps.len() - i,
            {
                let name = chars_of(ps[i].0.as_str());
                if chars_eq(&name, &k) {
                    assert(mv[i as int].0 == key@);
                    assert(member_index(mv, key@, i as int) == Some(i as int));
                    assert(mv[i as int].1 == ps@[i as int].1@);
                    return Some(&ps[i].1);
                }
                i += 1;
            }
            assert(member_index(mv, key@, i as int) is None);
            None
        },
        None => None,
    }
}

/// Field `key` of the master record, else of the asset record.
pub fn either_field_exec<'a>(
    master_fs: Option<&'a Vec<(String, JsonValue)>>,
    asset_fs: Option<&'a Vec<(String, JsonValue)>>,
    key: &str,
) -> (r: Option<&'a JsonValue>)
    ensures
        opt_ref_view(r) == either_field(opt_members(master_fs), opt_members(asset_fs), key@),
{
    match field_exec(master_fs, key) {
        Some(x) => Some(x),
        None => field_exec(asset_fs, key),
    }
}


// ---------------------------------------------------------------------------
// The album an asset falls in
// ---------------------------------------------------------------------------
/// The album of an asset: first by the PhotoKit subtype bits (portrait,
/// panorama, slow motion, time-lapse, screenshot, live photo), then by its
/// lowercased name and extension (WhatsApp, screen recording, GIF), then
/// by its shape (`wide_aspect`: one side at least 2.2 times the other) and
/// frame rate (`fast_frame_rate`: at least 100 per second), then PNG
/// screenshots, FaceTime, HEIC live photos, videos and photos.
pub open spec fn folder_of(
    filename: Seq<char>,
    extension: Seq<char>,
    is_video: bool,
    has_live_video: bool,
    subtype: Option<i64>,
    wide_aspect: bool,
    fast_frame_rate: bool,
) -> Seq<char> {
    let lower = unicode_lower(filename);
    let ext = unicode_lower(extension);
    let sub = match subtype {
        Some(x) => x,
        None => 0,
    };
    if subtype is Some && sub & 16 != 0 {
        "Portraits"@
    } else if subtype is Some && sub & 1 != 0 {
        "Panoramas"@
    } else if subtype is Some && sub & 131072 != 0 {
        "Ralentis"@
    } else if subtype is Some && sub & 262144 != 0 {
        "Time-lapse"@
    } else if subtype is Some && sub & 4 != 0 {
        "Captures d'\u{c3}\u{a9}cran"@
    } else if subtype is Some && sub & 8 != 0 && !is_video {
        "Live Photos"@
    } else if (starts_with(lower, "img-"@) || starts_with(lower, "vid-"@)) && seq_contains(lower, "-wa"@) {
        "WhatsApp"@
    } else if starts_with(lower, "rpreplay"@) || starts_with(lower, "screen recording"@) {
        "Enregistrements d'\u{c3}\u{a9}cran"@
    } else if ext == "gif"@ {
        "Animations"@
    } else if wide_aspect && !is_video {
        "Panoramas"@
    } else if is_video && fast_frame_rate {
        "Ralentis"@
    } else if ext == "png"@ {
        "Captures d'\u{c3}\u{a9}cran"@
    } else if starts_with(lower, "photo on "@) || starts_with(lower, "facetime"@) {
        "FaceTime"@
    } else if ext == "heic"@ && has_live_video {
        "Live Photos"@
    } else if is_video {
        "Vid\u{c3}\u{a9}os cam\u{c3}\u{a9}ra"@
    } else {
        "Cam\u{c3}\u{a9}ra"@
    }
}

fn lit(s: &str) -> (r: String)
    ensures
        r@ == s@,
{
    let v = chars_of(s);
    string_of(&v)
}

/// The album of an asset (`folder_of`).
pub fn classify_folder(
    filename: &str,
    extension: &str,
    is_video: bool,
    has_live_video: bool,
    subtype: Option<i64>,
    wide_aspect: bool,
    fast_frame_rate: bool,
) -> (r: String)
    ensures
        r@ == folder_of(filename@, extension@, is_video, has_live_video, subtype, wide_aspect, fast_frame_rate),
{
    let lower = to_lowercase(filename);
    let ext = to_lowercase(extension);
    match subtype {
        Some(sub) => {
            if sub & 16 != 0 {
                return lit("Portraits");
            }
            if sub & 1 != 0 {
                return lit("Panoramas");
            }
            if sub & 131072 != 0 {
                return lit("Ralentis");
            }
            if sub & 262144 != 0 {
                return lit("Time-lapse");
            }
            if sub & 4 != 0 {
                return lit("Captures d'\u{c3}\u{a9}cran");
            }
            if sub & 8 != 0 && !is_video {
                return lit("Live Photos");
            }
        },
        None => {},
    }
    if (starts_with_str(&lower, "img-") || starts_with_str(&lower, "vid-")) && contains_str(&lower, "-wa") {
        return lit("WhatsApp");
    }
    if starts_with_str(&lower, "rpreplay") || starts_with_str(&lower, "screen recording") {
        return lit("Enregistrements d'\u{c3}\u{a9}cran");
    }
    if eq_str(&ext, "gif") {
        return lit("Animations");
    }
    if wide_aspect && !is_video {
        return lit("Panoramas");
    }
    if is_video && fast_frame_rate {
        return lit("Ralentis");
    }
    if eq_str(&ext, "png") {
        return lit("Captures d'\u{c3}\u{a9}cran");
    }
    if starts_with_str(&lower, "photo on ") || starts_with_str(&lower, "facetime") {
        return lit("FaceTime");
    }
    if eq_str(&ext, "heic") && has_live_video {
        return lit("Live Photos");
    }
    if is_video {
        return lit("Vid\u{c3}\u{a9}os cam\u{c3}\u{a9}ra");
    }
    lit("Cam\u{c3}\u{a9}ra")
}


// ---------------------------------------------------------------------------
// Where a rendition is downloaded from
// ---------------------------------------------------------------------------
/// `s` from index `i` with each occurrence of `pat` (left to right, not
/// overlapping) replaced by `rep`.
pub open spec fn replaced_from(s: Seq<char>, pat: Seq<char>, rep: Seq<char>, i: int) -> Seq<char>
    decreases s.len() - i,
{
    if i < 0 || i >= s.len() {
        Seq::empty()
    } else if pat.len() > 0 && occurs_at(s, pat, i) {
        rep + replaced_from(s, pat, rep, i + pat.len())
    } else {
        seq![s[i]] + replaced_from(s, pat, rep, i + 1)
    }
}

/// `str::replace` with a non-empty pattern.
pub open spec fn replace_all(s: Seq<char>, pat: Seq<char>, rep: Seq<char>) -> Seq<char> {
    replaced_from(s, pat, rep, 0)
}

fn replace_all_exec(s: &[char], pat: &[char], rep: &[char]) -> (r: Vec<char>)
    requires
        pat.len() > 0,
    ensures
        r@ == replace_all(s@, pat@, rep@),
{
    let mut out: Vec<char> = Vec::new();
    let mut i: usize = 0;
    while i < s.len()
        invariant
            pat.len() > 0,
            i <= s.len(),
            out@ + replaced_from(s@, pat@, rep@, i as int) == replaced_from(s@, pat@, rep@, 0),
        decreases s.len() - i,
    {
        let ghost before = out@;
        if occurs_at_exec(s, pat, i) {
            append_chars(&mut out, rep);
            assert(replaced_from(s@, pat@, rep@, i as int) == rep@ + replaced_from(s@, pat@, rep@, i + pat.len()));
            assert(out@ + replaced_from(s@, pat@, rep@, i + pat.len()) =~= before + replaced_from(s@, pat@, rep@, i as int));
            i = i + pat.len();
        } else {
            out.push(s[i]);
            assert(replaced_from(s@, pat@, rep@, i as int) == seq![s@[i as int]] + replaced_from(s@, pat@, rep@, i + 1));
            assert(out@ + replaced_from(s@, pat@, rep@, i + 1) =~= before + replaced_from(s@, pat@, rep@, i as int));
            i = i + 1;
        }
    }
    assert(replaced_from(s@, pat@, rep@, i as int) == Seq::<char>::empty());
    assert(out@ + Seq::<char>::empty() =~= out@);
    out
}

/// A checksum character made safe for a URL: `/` to `_`, `+` to `-`.
pub open spec fn url_safe_char(c: char) -> char {
    if c == '/' {
        '_'
    } else if c == '+' {
        '-'
    } else {
        c
    }
}

/// `s` without its trailing `=`.
pub open spec fn trim_end_eq(s: Seq<char>) -> Seq<char>
    decreases s.len(),
{
    if s.len() > 0 && s.last() == '=' {
        trim_end_eq(s.drop_last())
    } else {
        s
    }
}

/// The token that stands for `${f}`: the checksum made URL-safe, without
/// its padding.
pub open spec fn url_token(raw: Seq<char>) -> Seq<char> {
    trim_end_eq(raw.map_values(|c: char| url_safe_char(c)))
}

fn url_token_exec(raw: &str) -> (r: Vec<char>)
    ensures
        r@ == url_token(raw@),
{
    let c = chars_of(raw);
    let mut m: Vec<char> = Vec::new();
    let mut i: usize = 0;
    while i < c.len()
        invariant
            i <= c.len(),
            m@ == c@.take(i as int).map_values(|c: char| url_safe_char(c)),
        decreases c.len() - i,
    {
        let x = c[i];
        m.push(if x == '/' { '_' } else if x == '+' { '-' } else { x });
        assert(c@.take(i + 1) =~= c@.take(i as int).push(x));
        assert(m@ =~= c@.take(i + 1).map_values(|c: char| url_safe_char(c)));
        i += 1;
    }
    assert(c@.take(c.len() as int) =~= c@);
    let mut k: usize = m.len();
    assert(m@.take(k as int) =~= m@);
    while k > 0 && m[k - 1] == '='
        invariant
            k <= m.len(),
            trim_end_eq(m@) == trim_end_eq(m@.take(k as int)),
        decreases k,
    {
        assert(m@.take(k as int).drop_last() =~= m@.take(k - 1));
        k -= 1;
    }
    assert(m@.take(m.len() as int) =~= m@);
    let r = slice_to_vec(&m, 0, k);
    assert(r@ =~= m@.take(k as int));
    r
}

/// The checksum of a rendition's value: `fileChecksum`, else
/// `referenceChecksum`, else `wrappingKey`, whichever is there first.
pub open spec fn checksum_of(value: Option<JsonView>) -> Option<JsonView> {
    match get(value, "fileChecksum"@) {
        Some(x) => Some(x),
        None => match get(value, "referenceChecksum"@) {
            Some(x) => Some(x),
            None => get(value, "wrappingKey"@),
        },
    }
}

/// The URL a rendition is downloaded from: its `downloadURL`, with each
/// `${f}` replaced by the URL-safe checksum when it has one.
pub open spec fn download_url(rendition: JsonView) -> Option<Seq<char>> {
    let value = member(rendition, "value"@);
    match text_of(get(value, "downloadURL"@)) {
        None => None,
        Some(url) => if !seq_contains(url, "${f}"@) {
            Some(url)
        } else {
            match text_of(checksum_of(value)) {
                Some(raw) => Some(replace_all(url, "${f}"@, url_token(raw))),
                None => None,
            }
        },
    }
}

/// The URL a rendition is downloaded from (`download_url`).
pub fn resolve_download_url(rendition: &JsonValue) -> (r: Option<String>)
    ensures
        opt_view(r) == download_url(rendition@),
{
    let value = member_exec(rendition, "value");
    let url = match text_exec(get_exec(value, "downloadURL")) {
        Some(u) => u,
        None => {
            return None;
        },
    };
    let uc = chars_of(url.as_str());
    if !contains_str(&uc, "${f}") {
        return Some(url);
    }
    let ck = match get_exec(value, "fileChecksum") {
        Some(x) => Some(x),
        None => match get_exec(value, "referenceChecksum") {
            Some(x) => Some(x),
            None => get_exec(value, "wrappingKey"),
        },
    };
    match text_exec(ck) {
        Some(raw) => {
            let token = url_token_exec(raw.as_str());
            let pat = chars_of("${f}");
            proof {
                reveal_strlit("${f}");
            }
            let out = replace_all_exec(&uc, &pat, &token);
            Some(string_of(&out))
        },
        None => None,
    }
}


// ---------------------------------------------------------------------------
// The name of an asset
// ---------------------------------------------------------------------------
/// The file name that `filenameEnc` carries: base64 of UTF-8, not empty.
pub open spec fn decoded_name(enc: Option<Seq<char>>) -> Option<Seq<char>> {
    match enc {
        Some(t) => match base64_decoded(t) {
            Some(b) => match utf8_decoded(b) {
                Some(n) => if n.len() > 0 {
                    Some(n)
                } else {
                    None
                },
                None => None,
            },
            None => None,
        },
        None => None,
    }
}

/// The file name of an asset, else `ICLD_` and the first eight bytes of
/// its record name (all of it when they do not end on a character).
pub open spec fn asset_filename(record_name: Seq<char>, enc: Option<Seq<char>>) -> Seq<char> {
    match decoded_name(enc) {
        Some(n) => n,
        None => "ICLD_"@ + byte_window(record_name, 8) + ".unknown"@,
    }
}

fn asset_filename_exec(record_name: &str, enc: Option<String>) -> (r: String)
    ensures
        r@ == asset_filename(record_name@, opt_view(enc)),
{
    let decoded: Option<String> = match enc {
        Some(t) => match base64_decode(t.as_str()) {
            Some(b) => match utf8_text(b) {
                Some(n) => if n.as_str().is_empty() {
                    None
                } else {
                    Some(n)
                },
                None => None,
            },
            None => None,
        },
        None => None,
    };
    match decoded {
        Some(n) => n,
        None => {
            let rc = chars_of(record_name);
            let head = byte_window_exec(&rc, 8);
            let mut v = chars_of("ICLD_");
            append_chars(&mut v, &head);
            append_str(&mut v, ".unknown");
            string_of(&v)
        },
    }
}

/// The extension of a file name: what follows its last dot when that is
/// one to five bytes long, lowercased (`str::to_lowercase`).
pub open spec fn asset_extension(filename: Seq<char>) -> Seq<char> {
    let e = after_last_dot(filename);
    unicode_lower(if byte_len(e) <= 5 && e.len() > 0 { e } else { Seq::empty() })
}

fn asset_extension_exec(filename: &str) -> (r: String)
    ensures
        r@ == asset_extension(filename@),
{
    let c = chars_of(filename);
    let mut k: usize = c.len();
    assert(c@.take(c.len() as int) =~= c@);
    assert(c@.skip(c.len() as int) =~= Seq::<char>::empty());
    assert(c@ + Seq::<char>::empty() =~= c@);
    while k > 0 && c[k - 1] != '.'
        invariant
            k <= c.len(),
            after_last_dot(c@) == after_last_dot(c@.take(k as int)) + c@.skip(k as int),
        decreases k,
    {
        assert(c@.take(k as int).drop_last() == c@.take(k - 1));
        assert(c@.skip(k - 1) == seq![c@[k - 1]] + c@.skip(k as int));
        k -= 1;
    }
    proof {
        if k == 0 {
            assert(c@.take(0) =~= Seq::<char>::empty());
        } else {
            assert(c@.take(k as int).last() == '.');
        }
        assert(after_last_dot(c@.take(k as int)) =~= Seq::<char>::empty());
        assert(after_last_dot(c@) =~= c@.skip(k as int));
    }
    let e = slice_to_vec(&c, k, c.len());
    assert(e@ =~= c@.skip(k as int));
    let chosen = if e.len() > 0 && byte_len_below(&e, 6) {
        string_of(&e)
    } else {
        string_of(&Vec::new())
    };
    let l = to_lowercase(chosen.as_str());
    string_of(&l)
}


// ---------------------------------------------------------------------------
// An asset record and its master record
// ---------------------------------------------------------------------------
/// What an asset record and its master record say of a photo or a video.
/// `frame_rate` is the number text of its frame rate, left for the caller
/// to compare as a floating-point number.
pub struct AssetRecord {
    pub record_name: String,
    pub master_ref: Option<String>,
    pub filename: String,
    pub extension: String,
    pub is_video: bool,
    pub date_created_ms: i64,
    pub duration_ms: i64,
    pub size_bytes: u64,
    pub thumb_url: Option<String>,
    pub original_url: Option<String>,
    pub is_hidden: bool,
    pub is_favorite: bool,
    pub is_in_trash: bool,
    pub has_live_video: bool,
    pub subtype: Option<i64>,
    pub image_width: Option<i64>,
    pub image_height: Option<i64>,
    pub frame_rate: Option<String>,
}

pub type Fields = Option<Seq<(Seq<char>, JsonView)>>;

/// The creation time: the asset's `assetDate`, else its `addedDate`, else
/// the `originalCreationDate` of either record, whichever is there first,
/// read as an integer (0 when it is not one).
pub open spec fn created_ms(m: Fields, a: Fields) -> i64 {
    let d = match field_in(a, "assetDate"@) {
        Some(x) => Some(x),
        None => match field_in(a, "addedDate"@) {
            Some(x) => Some(x),
            None => either_field(m, a, "originalCreationDate"@),
        },
    };
    match i64_of(get(d, "value"@)) {
        Some(n) => n,
        None => 0,
    }
}

/// A video rendition is on the master (`resOriginalVidComplRes`) or the
/// asset (`resVidFullRes`).
pub open spec fn has_video_res(m: Fields, a: Fields) -> bool {
    field_in(m, "resOriginalVidComplRes"@) is Some || field_in(a, "resVidFullRes"@) is Some
}

pub open spec fn video_exts() -> Seq<Seq<char>> {
    seq!["mov"@, "mp4"@, "m4v"@, "avi"@, "hevc"@]
}

/// A video: by its item type, a video rendition, or its extension.
pub open spec fn asset_is_video(item_type: Seq<char>, has_video: bool, extension: Seq<char>) -> bool {
    seq_contains(item_type, "movie"@) || seq_contains(item_type, "video"@) || seq_contains(item_type, "mpeg"@)
        || seq_contains(item_type, "quicktime"@) || has_video || video_exts().contains(extension)
}

/// The URL of a rendition field, when the field is there and resolves.
pub open spec fn rendition_url(f: Option<JsonView>) -> Option<Seq<char>> {
    match f {
        Some(x) => download_url(x),
        None => None,
    }
}

/// The thumbnail: the first JPEG rendition that resolves, small to large.
pub open spec fn thumb_of(m: Fields, a: Fields) -> Option<Seq<char>> {
    match rendition_url(either_field(m, a, "resJPEGThumbRes"@)) {
        Some(u) => Some(u),
        None => match rendition_url(either_field(m, a, "resJPEGMedRes"@)) {
            Some(u) => Some(u),
            None => rendition_url(either_field(m, a, "resJPEGFullRes"@)),
        },
    }
}

/// The size a rendition declares, 0 when it declares none.
pub open spec fn rendition_size(r: JsonView) -> u64 {
    match u64_of(get(member(r, "value"@), "size"@)) {
        Some(n) => n,
        None => 0,
    }
}

/// Where the original is fetched from and its size: for a video the
/// master's complete video, else the asset's full video, else the
/// original; for a photo the original, else no URL and the declared
/// `originalAssetSize`.
pub open spec fn original_of(m: Fields, a: Fields, is_video: bool) -> (Option<Seq<char>>, u64) {
    if is_video {
        let source = match either_field(m, a, "resOriginalVidComplRes"@) {
            Some(x) => Some(x),
            None => match field_in(a, "resVidFullRes"@) {
                Some(x) => Some(x),
                None => either_field(m, a, "resOriginalRes"@),
            },
        };
        match source {
            Some(x) => (download_url(x), rendition_size(x)),
            None => (None, 0),
        }
    } else {
        match either_field(m, a, "resOriginalRes"@) {
            Some(x) => (download_url(x), rendition_size(x)),
            None => (
                None,
                match u64_of(get(either_field(m, a, "originalAssetSize"@), "value"@)) {
                    Some(n) => n,
                    None => 0,
                },
            ),
        }
    }
}

/// A flag of the asset record: its value is a non-zero integer.
pub open spec fn flag_of(a: Fields, key: Seq<char>) -> bool {
    match i64_of(get(field_in(a, key), "value"@)) {
        Some(n) => n != 0,
        None => false,
    }
}

/// An integer field of either record.
pub open spec fn int_field(m: Fields, a: Fields, key: Seq<char>) -> Option<i64> {
    i64_of(get(either_field(m, a, key), "value"@))
}

/// The first of `keys` whose integer field is there.
pub open spec fn first_int(m: Fields, a: Fields, keys: Seq<Seq<char>>) -> Option<i64>
    decreases keys.len(),
{
    if keys.len() == 0 {
        None
    } else {
        match int_field(m, a, keys[0]) {
            Some(n) => Some(n),
            None => first_int(m, a, keys.drop_first()),
        }
    }
}

pub open spec fn subtype_keys() -> Seq<Seq<char>> {
    seq!["subtype"@, "originalAssetSubtype"@, "kindSubType"@, "assetSubtype"@, "mediaSubType"@, "kindSubTypeEnum"@]
}

/// The number text of a field of either record.
pub open spec fn number_field(m: Fields, a: Fields, key: Seq<char>) -> Option<Seq<char>> {
    match get(either_field(m, a, key), "value"@) {
        Some(JsonView::Number(t)) => Some(t),
        _ => None,
    }
}

/// The frame rate: `videoFrameRate`, else `frameRate`, as number text.
pub open spec fn frame_rate_of(m: Fields, a: Fields) -> Option<Seq<char>> {
    match number_field(m, a, "videoFrameRate"@) {
        Some(t) => Some(t),
        None => number_field(m, a, "frameRate"@),
    }
}


fn number_field_exec(
    m: Option<&Vec<(String, JsonValue)>>,
    a: Option<&Vec<(String, JsonValue)>>,
    key: &str,
) -> (r: Option<String>)
    ensures
        opt_view(r) == number_field(opt_members(m), opt_members(a), key@),
{
    match get_exec(either_field_exec(m, a, key), "value") {
        Some(JsonValue::Number(t)) => Some(t.clone()),
        _ => None,
    }
}

fn int_field_exec(m: Option<&Vec<(String, JsonValue)>>, a: Option<&Vec<(String, JsonValue)>>, key: &str) -> (r: Option<i64>)
    ensures
        r == int_field(opt_members(m), opt_members(a), key@),
{
    i64_exec(get_exec(either_field_exec(m, a, key), "value"))
}

fn flag_exec(a: Option<&Vec<(String, JsonValue)>>, key: &str) -> (r: bool)
    ensures
        r == flag_of(opt_members(a), key@),
{
    match i64_exec(get_exec(field_exec(a, key), "value")) {
        Some(n) => n != 0,
        None => false,
    }
}

fn rendition_url_exec(f: Option<&JsonValue>) -> (r: Option<String>)
    ensures
        opt_view(r) == rendition_url(opt_ref_view(f)),
{
    match f {
        Some(x) => resolve_download_url(x),
        None => None,
    }
}

fn rendition_size_exec(r: &JsonValue) -> (n: u64)
    ensures
        n == rendition_size(r@),
{
    match u64_exec(get_exec(member_exec(r, "value"), "size")) {
        Some(n) => n,
        None => 0,
    }
}

pub struct AssetRecordView {
    pub record_name: Seq<char>,
    pub master_ref: Option<Seq<char>>,
    pub filename: Seq<char>,
    pub extension: Seq<char>,
    pub is_video: bool,
    pub date_created_ms: i64,
    pub duration_ms: i64,
    pub size_bytes: u64,
    pub thumb_url: Option<Seq<char>>,
    pub original_url: Option<Seq<char>>,
    pub is_hidden: bool,
    pub is_favorite: bool,
    pub is_in_trash: bool,
    pub has_live_video: bool,
    pub subtype: Option<i64>,
    pub image_width: Option<i64>,
    pub image_height: Option<i64>,
    pub frame_rate: Option<Seq<char>>,
}

pub open spec fn record_view(x: AssetRecord) -> AssetRecordView {
    AssetRecordView {
        record_name: x.record_name@,
        master_ref: opt_view(x.master_ref),
        filename: x.filename@,
        extension: x.extension@,
        is_video: x.is_video,
        date_created_ms: x.date_created_ms,
        duration_ms: x.duration_ms,
        size_bytes: x.size_bytes,
        thumb_url: opt_view(x.thumb_url),
        original_url: opt_view(x.original_url),
        is_hidden: x.is_hidden,
        is_favorite: x.is_favorite,
        is_in_trash: x.is_in_trash,
        has_live_video: x.has_live_video,
        subtype: x.subtype,
        image_width: x.image_width,
        image_height: x.image_height,
        frame_rate: opt_view(x.frame_rate),
    }
}

/// What an asset record and its master record say of an asset, each field
/// by the spec function of its subject above, over the two records'
/// `fields`; none when the asset record has no `recordName` text.
pub open spec fn asset_record(asset: JsonView, master: Option<JsonView>) -> Option<AssetRecordView> {
    let m = fields_of(master);
    let a = fields_of(Some(asset));
    match text_of(member(asset, "recordName"@)) {
        None => None,
        Some(name) => {
            let filename = asset_filename(name, text_of(get(either_field(m, a, "filenameEnc"@), "value"@)));
            let extension = asset_extension(filename);
            let item_type = match text_of(get(either_field(m, a, "itemType"@), "value"@)) {
                Some(t) => t,
                None => Seq::empty(),
            };
            let is_video = asset_is_video(item_type, has_video_res(m, a), extension);
            Some(
                AssetRecordView {
                    record_name: name,
                    master_ref: text_of(get(get(field_in(a, "masterRef"@), "value"@), "recordName"@)),
                    filename,
                    extension,
                    is_video,
                    date_created_ms: created_ms(m, a),
                    duration_ms: 0,
                    size_bytes: original_of(m, a, is_video).1,
                    thumb_url: thumb_of(m, a),
                    original_url: original_of(m, a, is_video).0,
                    is_hidden: flag_of(a, "isHidden"@),
                    is_favorite: flag_of(a, "isFavorite"@),
                    is_in_trash: flag_of(a, "isDeleted"@) || flag_of(a, "isInTrash"@),
                    has_live_video: has_video_res(m, a),
                    subtype: first_int(m, a, subtype_keys()),
                    image_width: first_int(m, a, seq!["imageWidth"@, "originalWidth"@]),
                    image_height: first_int(m, a, seq!["imageHeight"@, "originalHeight"@]),
                    frame_rate: frame_rate_of(m, a),
                },
            )
        },
    }
}

pub open spec fn opt_record_view(r: Option<AssetRecord>) -> Option<AssetRecordView> {
    match r {
        Some(x) => Some(record_view(x)),
        None => None,
    }
}

/// What an asset record and its master record say of an asset
/// (`asset_record`).
pub fn read_asset_pair(asset: &JsonValue, master: Option<&JsonValue>) -> (r: Option<AssetRecord>)
    ensures
        opt_record_view(r) == asset_record(asset@, opt_ref_view(master)),
{
    let r = read_fields(asset, master);
    proof {
        if r is Some {
            assert(record_view(r.unwrap()) == asset_record(asset@, opt_ref_view(master)).unwrap());
        }
    }
    r
}

fn read_fields(asset: &JsonValue, master: Option<&JsonValue>) -> (r: Option<AssetRecord>)
    ensures
        ({
            let m = fields_of(opt_ref_view(master));
            let a = fields_of(Some(asset@));
            match text_of(member(asset@, "recordName"@)) {
                None => r is None,
                Some(name) => r is Some && {
                    let x = r.unwrap();
                    let filename = asset_filename(name, text_of(get(either_field(m, a, "filenameEnc"@), "value"@)));
                    let extension = asset_extension(filename);
                    let item_type = match text_of(get(either_field(m, a, "itemType"@), "value"@)) {
                        Some(t) => t,
                        None => Seq::empty(),
                    };
                    let is_video = asset_is_video(item_type, has_video_res(m, a), extension);
                    &&& x.record_name@ == name
                    &&& opt_view(x.master_ref) == text_of(get(get(field_in(a, "masterRef"@), "value"@), "recordName"@))
                    &&& x.filename@ == filename
                    &&& x.extension@ == extension
                    &&& x.is_video == is_video
                    &&& x.date_created_ms == created_ms(m, a)
                    &&& x.duration_ms == 0
                    &&& opt_view(x.original_url) == original_of(m, a, is_video).0
                    &&& x.size_bytes == original_of(m, a, is_video).1
                    &&& opt_view(x.thumb_url) == thumb_of(m, a)
                    &&& x.is_hidden == flag_of(a, "isHidden"@)
                    &&& x.is_favorite == flag_of(a, "isFavorite"@)
                    &&& x.is_in_trash == (flag_of(a, "isDeleted"@) || flag_of(a, "isInTrash"@))
                    &&& x.has_live_video == has_video_res(m, a)
                    &&& x.subtype == first_int(m, a, subtype_keys())
                    &&& x.image_width == first_int(m, a, seq!["imageWidth"@, "originalWidth"@])
                    &&& x.image_height == first_int(m, a, seq!["imageHeight"@, "originalHeight"@])
                    &&& opt_view(x.frame_rate) == frame_rate_of(m, a)
                },
            }
        }),
{
    let record_name = match text_exec(member_exec(asset, "recordName")) {
        Some(n) => n,
        None => {
            return None;
        },
    };
    let a = fields_exec(Some(asset));
    let m = fields_exec(master);
    let ghost mv = opt_members(m);
    let ghost av = opt_members(a);
    assert(mv == fields_of(opt_ref_view(master)));
    assert(av == fields_of(Some(asset@)));

    let enc = text_exec(get_exec(either_field_exec(m, a, "filenameEnc"), "value"));
    let filename = asset_filename_exec(record_name.as_str(), enc);
    let extension = asset_extension_exec(filename.as_str());

    let d = match field_exec(a, "assetDate") {
        Some(x) => Some(x),
        None => match field_exec(a, "addedDate") {
            Some(x) => Some(x),
            None => either_field_exec(m, a, "originalCreationDate"),
        },
    };
    let date_created_ms = match i64_exec(get_exec(d, "value")) {
        Some(n) => n,
        None => 0,
    };

    let master_ref = text_exec(get_exec(get_exec(field_exec(a, "masterRef"), "value"), "recordName"));
    let item_type = match text_exec(get_exec(either_field_exec(m, a, "itemType"), "value")) {
        Some(t) => t,
        None => lit(""),
    };
    proof {
        reveal_strlit("");
    }
    let has_video = field_exec(m, "resOriginalVidComplRes").is_some() || field_exec(a, "resVidFullRes").is_some();
    let it = chars_of(item_type.as_str());
    let ec = chars_of(extension.as_str());
    let ghost exts = video_exts();
    let ext_video = eq_str(&ec, "mov") || eq_str(&ec, "mp4") || eq_str(&ec, "m4v") || eq_str(&ec, "avi") || eq_str(&ec, "hevc");
    proof {
        if ext_video {
            if ec@ == "mov"@ {
                assert(exts[0] == ec@);
            } else if ec@ == "mp4"@ {
                assert(exts[1] == ec@);
            } else if ec@ == "m4v"@ {
                assert(exts[2] == ec@);
            } else if ec@ == "avi"@ {
                assert(exts[3] == ec@);
            } else {
                assert(exts[4] == ec@);
            }
        } else {
            assert forall|j: int| 0 <= j < exts.len() implies exts[j] != ec@ by {}
        }
    }
    let is_video = contains_str(&it, "movie") || contains_str(&it, "video") || contains_str(&it, "mpeg")
        || contains_str(&it, "quicktime") || has_video || ext_video;
    assert(ext_video == video_exts().contains(ec@));
    assert(has_video == has_video_res(mv, av));
    assert(item_type@ == match text_of(get(either_field(mv, av, "itemType"@), "value"@)) {
        Some(t) => t,
        None => Seq::<char>::empty(),
    });

    let thumb_url = match rendition_url_exec(either_field_exec(m, a, "resJPEGThumbRes")) {
        Some(u) => Some(u),
        None => match rendition_url_exec(either_field_exec(m, a, "resJPEGMedRes")) {
            Some(u) => Some(u),
            None => rendition_url_exec(either_field_exec(m, a, "resJPEGFullRes")),
        },
    };

    let (original_url, size_bytes) = if is_video {
        let source = match either_field_exec(m, a, "resOriginalVidComplRes") {
            Some(x) => Some(x),
            None => match field_exec(a, "resVidFullRes") {
                Some(x) => Some(x),
                None => either_field_exec(m, a, "resOriginalRes"),
            },
        };
        match source {
            Some(x) => (resolve_download_url(x), rendition_size_exec(x)),
            None => (None, 0),
        }
    } else {
        match either_field_exec(m, a, "resOriginalRes") {
            Some(x) => (resolve_download_url(x), rendition_size_exec(x)),
            None => (
                None,
                match u64_exec(get_exec(either_field_exec(m, a, "originalAssetSize"), "value")) {
                    Some(n) => n,
                    None => 0,
                },
            ),
        }
    };

    let is_hidden = flag_exec(a, "isHidden");
    let is_favorite = flag_exec(a, "isFavorite");
    let is_in_trash = flag_exec(a, "isDeleted") || flag_exec(a, "isInTrash");

    let subtype = match int_field_exec(m, a, "subtype") {
        Some(n) => Some(n),
        None => match int_field_exec(m, a, "originalAssetSubtype") {
            Some(n) => Some(n),
            None => match int_field_exec(m, a, "kindSubType") {
                Some(n) => Some(n),
                None => match int_field_exec(m, a, "assetSubtype") {
                    Some(n) => Some(n),
                    None => match int_field_exec(m, a, "mediaSubType") {
                        Some(n) => Some(n),
                        None => int_field_exec(m, a, "kindSubTypeEnum"),
                    },
                },
            },
        },
    };
    proof {
        let ks = subtype_keys();
        assert(ks.drop_first() =~= seq!["originalAssetSubtype"@, "kindSubType"@, "assetSubtype"@, "mediaSubType"@, "kindSubTypeEnum"@]);
        assert(ks.drop_first().drop_first() =~= seq!["kindSubType"@, "assetSubtype"@, "mediaSubType"@, "kindSubTypeEnum"@]);
        assert(ks.drop_first().drop_first().drop_first() =~= seq!["assetSubtype"@, "mediaSubType"@, "kindSubTypeEnum"@]);
        assert(ks.drop_first().drop_first().drop_first().drop_first() =~= seq!["mediaSubType"@, "kindSubTypeEnum"@]);
        assert(ks.drop_first().drop_first().drop_first().drop_first().drop_first() =~= seq!["kindSubTypeEnum"@]);
        assert(seq!["kindSubTypeEnum"@].drop_first() =~= Seq::<Seq<char>>::empty());
        reveal_with_fuel(first_int, 7);
    }
    let image_width = match int_field_exec(m, a, "imageWidth") {
        Some(n) => Some(n),
        None => int_field_exec(m, a, "originalWidth"),
    };
    let image_height = match int_field_exec(m, a, "imageHeight") {
        Some(n) => Some(n),
        None => int_field_exec(m, a, "originalHeight"),
    };
    proof {
        assert(seq!["imageWidth"@, "originalWidth"@].drop_first() =~= seq!["originalWidth"@]);
        assert(seq!["originalWidth"@].drop_first() =~= Seq::<Seq<char>>::empty());
        assert(seq!["imageHeight"@, "originalHeight"@].drop_first() =~= seq!["originalHeight"@]);
        assert(seq!["originalHeight"@].drop_first() =~= Seq::<Seq<char>>::empty());
        reveal_with_fuel(first_int, 3);
    }
    let frame_rate = match number_field_exec(m, a, "videoFrameRate") {
        Some(t) => Some(t),
        None => number_field_exec(m, a, "frameRate"),
    };
    Some(AssetRecord {
        record_name,
        master_ref,
        filename,
        extension,
        is_video,
        date_created_ms,
        duration_ms: 0,
        size_bytes,
        thumb_url,
        original_url,
        is_hidden,
        is_favorite,
        is_in_trash,
        has_live_video: has_video,
        subtype,
        image_width,
        image_height,
        frame_rate,
    })
}


// ---------------------------------------------------------------------------
// The asset as the library lists it
// ---------------------------------------------------------------------------
pub struct ICloudAsset {
    pub record_name: String,
    pub master_ref: Option<String>,
    pub filename: String,
    pub extension: String,
    pub is_video: bool,
    pub date_created_ms: i64,
    pub duration_ms: i64,
    pub size_bytes: u64,
    pub thumb_url: Option<String>,
    pub original_url: Option<String>,
    pub is_hidden: bool,
    pub is_favorite: bool,
    pub is_in_trash: bool,
    pub folder: String,
}

/// The asset of a record, in the album that `folder_of` gives it;
/// `wide_aspect` and `fast_frame_rate` are the two comparisons of its
/// dimensions and frame rate.
pub fn asset_from_record(rec: AssetRecord, wide_aspect: bool, fast_frame_rate: bool) -> (r: ICloudAsset)
    ensures
        r.record_name == rec.record_name,
        r.master_ref == rec.master_ref,
        r.filename == rec.filename,
        r.extension == rec.extension,
        r.is_video == rec.is_video,
        r.date_created_ms == rec.date_created_ms,
        r.duration_ms == rec.duration_ms,
        r.size_bytes == rec.size_bytes,
        r.thumb_url == rec.thumb_url,
        r.original_url == rec.original_url,
        r.is_hidden == rec.is_hidden,
        r.is_favorite == rec.is_favorite,
        r.is_in_trash == rec.is_in_trash,
        r.folder@ == folder_of(
            rec.filename@,
            rec.extension@,
            rec.is_video,
            rec.has_live_video,
            rec.subtype,
            wide_aspect,
            fast_frame_rate,
        ),
{
    let folder = classify_folder(
        rec.filename.as_str(),
        rec.extension.as_str(),
        rec.is_video,
        rec.has_live_video,
        rec.subtype,
        wide_aspect,
        fast_frame_rate,
    );
    ICloudAsset {
        record_name: rec.record_name,
        master_ref: rec.master_ref,
        filename: rec.filename,
        extension: rec.extension,
        is_video: rec.is_video,
        date_created_ms: rec.date_created_ms,
        duration_ms: rec.duration_ms,
        size_bytes: rec.size_bytes,
        thumb_url: rec.thumb_url,
        original_url: rec.original_url,
        is_hidden: rec.is_hidden,
        is_favorite: rec.is_favorite,
        is_in_trash: rec.is_in_trash,
        folder,
    }
}

/// A file of the library to export: its record, its name and where it is
/// downloaded from.
pub struct ICloudFileExport {
    pub record_name: String,
    pub filename: String,
    pub download_url: String,
}

// ---------------------------------------------------------------------------
// A page of records
// ---------------------------------------------------------------------------
/// The records of a response: its `records` array, else none.
pub open spec fn records_of(doc: JsonView) -> Seq<JsonView> {
    match member(doc, "records"@) {
        Some(JsonView::Array(items)) => items,
        _ => Seq::empty(),
    }
}

/// The `recordType` of a record, empty when it has none.
pub open spec fn record_type(rec: JsonView) -> Seq<char> {
    match text_of(member(rec, "recordType"@)) {
        Some(t) => t,
        None => Seq::empty(),
    }
}

/// The master record named `name`: the last `CPLMaster` of the first `n`
/// records with that `recordName`.
pub open spec fn master_named(recs: Seq<JsonView>, name: Seq<char>, n: int) -> Option<JsonView>
    decreases n,
{
    if n <= 0 || n > recs.len() {
        None
    } else if record_type(recs[n - 1]) == "CPLMaster"@ && text_of(member(recs[n - 1], "recordName"@)) == Some(name) {
        Some(recs[n - 1])
    } else {
        master_named(recs, name, n - 1)
    }
}

/// The master reference of an asset record, empty when it has none.
pub open spec fn master_ref_of(rec: JsonView) -> Seq<char> {
    match text_of(get(get(get(member(rec, "fields"@), "masterRef"@), "value"@), "recordName"@)) {
        Some(t) => t,
        None => Seq::empty(),
    }
}


/// The asset records of the first `n` records of a page, in order: each
/// `CPLAsset` record read with its master, skipping those that do not read
/// and those in the trash.
pub open spec fn page_assets(recs: Seq<JsonView>, n: int) -> Seq<AssetRecordView>
    decreases n,
{
    if n <= 0 || n > recs.len() {
        Seq::empty()
    } else {
        let prev = page_assets(recs, n - 1);
        let rec = recs[n - 1];
        if record_type(rec) == "CPLAsset"@ {
            match asset_record(rec, master_named(recs, master_ref_of(rec), recs.len() as int)) {
                Some(x) => if x.is_in_trash {
                    prev
                } else {
                    prev.push(x)
                },
                None => prev,
            }
        } else {
            prev
        }
    }
}

/// How many of the first `n` records are `CPLAsset` records.
pub open spec fn asset_record_count(recs: Seq<JsonView>, n: int) -> nat
    decreases n,
{
    if n <= 0 || n > recs.len() {
        0
    } else if record_type(recs[n - 1]) == "CPLAsset"@ {
        asset_record_count(recs, n - 1) + 1
    } else {
        asset_record_count(recs, n - 1)
    }
}

pub open spec fn record_views(v: Seq<AssetRecord>) -> Seq<AssetRecordView> {
    v.map_values(|x: AssetRecord| record_view(x))
}

fn records_exec(doc: &JsonValue) -> (r: Option<&Vec<JsonValue>>)
    ensures
        match r {
            Some(v) => records_of(doc@) == json_views(v@, v@.len()),
            None => records_of(doc@) == Seq::<JsonView>::empty(),
        },
{
    match member_exec(doc, "records") {
        Some(JsonValue::Array(items)) => Some(items),
        _ => None,
    }
}

fn record_type_exec(rec: &JsonValue) -> (r: String)
    ensures
        r@ == record_type(rec@),
{
    proof {
        reveal_strlit("");
    }
    match text_exec(member_exec(rec, "recordType")) {
        Some(t) => t,
        None => lit(""),
    }
}

fn master_named_exec<'a>(recs: &'a Vec<JsonValue>, name: &str) -> (r: Option<&'a JsonValue>)
    ensures
        opt_ref_view(r) == master_named(json_views(recs@, recs@.len()), name@, recs@.len() as int),
{
    let ghost rv = json_views(recs@, recs@.len());
    proof {
        lemma_json_views(recs@, recs@.len());
    }
    let nc = chars_of(name);
    let mut k: usize = recs.len();
    while k > 0
        invariant
            k <= recs.len(),
            nc@ == name@,
            rv == json_views(recs@, recs@.len()),
            rv.len() == recs.len(),
            forall|j: int| 0 <= j < recs.len() ==> #[trigger] rv[j] == recs@[j]@,
            master_named(rv, name@, recs.len() as int) == master_named(rv, name@, k as int),
        decreases k,
    {
        let rec = &recs[k - 1];
        let t = record_type_exec(rec);
        let tc = chars_of(t.as_str());
        if eq_str(&tc, "CPLMaster") {
            match text_exec(member_exec(rec, "recordName")) {
                Some(n) => {
                    let ncc = chars_of(n.as_str());
                    if chars_eq(&ncc, &nc) {
                        return Some(rec);
                    }
                },
                None => {},
            }
        }
        k -= 1;
    }
    None
}

fn master_ref_exec(rec: &JsonValue) -> (r: String)
    ensures
        r@ == master_ref_of(rec@),
{
    proof {
        reveal_strlit("");
    }
    match text_exec(get_exec(get_exec(get_exec(member_exec(rec, "fields"), "masterRef"), "value"), "recordName")) {
        Some(t) => t,
        None => lit(""),
    }
}

/// The asset records of a CloudKit response page (`page_assets`) and how
/// many asset records it held.
pub fn parse_records_page(doc: &JsonValue) -> (r: (Vec<AssetRecord>, usize))
    ensures
        record_views(r.0@) == page_assets(records_of(doc@), records_of(doc@).len() as int),
        r.1 == asset_record_count(records_of(doc@), records_of(doc@).len() as int),
{
    let recs = match records_exec(doc) {
        Some(v) => v,
        None => {
            return (Vec::new(), 0);
        },
    };
    let ghost rv = json_views(recs@, recs@.len());
    proof {
        lemma_json_views(recs@, recs@.len());
    }
    let mut out: Vec<AssetRecord> = Vec::new();
    let mut count: usize = 0;
    let mut i: usize = 0;
    while i < recs.len()
        invariant
            i <= recs.len(),
            rv == json_views(recs@, recs@.len()),
            rv.len() == recs.len(),
            forall|j: int| 0 <= j < recs.len() ==> #[trigger] rv[j] == recs@[j]@,
            record_views(out@) == page_assets(rv, i as int),
            count == asset_record_count(rv, i as int),
            count <= i,
        decreases recs.len() - i,
    {
        let rec = &recs[i];
        let t = record_type_exec(rec);
        let tc = chars_of(t.as_str());
        if eq_str(&tc, "CPLAsset") {
            count += 1;
            let mr = master_ref_exec(rec);
            let master = master_named_exec(recs, mr.as_str());
            match read_asset_pair(rec, master) {
                Some(x) => {
                    if !x.is_in_trash {
                        let ghost before = out@;
                        out.push(x);
                        assert(record_views(out@) =~= record_views(before).push(record_view(x)));
                    }
                },
                None => {},
            }
        }
        i += 1;
    }
    (out, count)
}


// ---------------------------------------------------------------------------
// The CloudKit query endpoint and its errors
// ---------------------------------------------------------------------------
/// `s` without its trailing slashes.
pub open spec fn trim_end_slashes(s: Seq<char>) -> Seq<char>
    decreases s.len(),
{
    if s.len() > 0 && s.last() == '/' {
        trim_end_slashes(s.drop_last())
    } else {
        s
    }
}

/// The records query URL of a session: its `ckdatabasews` service without
/// trailing slashes, the query path, the session's `dsid` and client id,
/// and the client build numbers of the web client.
pub open spec fn query_url(ws: Seq<(Seq<char>, Seq<char>)>, dsid: Seq<char>, client_id: Seq<char>) -> Result<Seq<char>, Seq<char>> {
    match service_url(ws, "ckdatabasews"@) {
        None => Err("ckdatabasews missing from session.webservices"@),
        Some(root) => Ok(
            trim_end_slashes(root)
                + "/database/1/com.apple.photos.cloud/production/private/records/query?remapEnums=True&getCurrentSyncToken=True&dsid="@
                + dsid + "&clientId="@ + client_id
                + "&clientBuildNumber=2421Project53&clientMasteringNumber=2421B25&clientVersion=5.4&ckjsBuildVersion=2421Project53&ckjsVersion=2.6.4"@,
        ),
    }
}

pub open spec fn result_view(r: Result<String, String>) -> Result<Seq<char>, Seq<char>> {
    match r {
        Ok(s) => Ok(s@),
        Err(e) => Err(e@),
    }
}

/// The records query URL of a session (`query_url`).
pub fn ck_query_url(session: &ICloudSession) -> (r: Result<String, String>)
    ensures
        result_view(r) == query_url(service_views(session.webservices@), session.dsid@, session.client_id@),
{
    let root = match service_url_exec(&session.webservices, "ckdatabasews") {
        Some(u) => u,
        None => {
            return Err(lit("ckdatabasews missing from session.webservices"));
        },
    };
    let rc = chars_of(root.as_str());
    let mut k: usize = rc.len();
    assert(rc@.take(k as int) =~= rc@);
    while k > 0 && rc[k - 1] == '/'
        invariant
            k <= rc.len(),
            trim_end_slashes(rc@) == trim_end_slashes(rc@.take(k as int)),
        decreases k,
    {
        assert(rc@.take(k as int).drop_last() =~= rc@.take(k - 1));
        k -= 1;
    }
    let mut v = slice_to_vec(&rc, 0, k);
    assert(v@ =~= rc@.take(k as int));
    append_str(&mut v, "/database/1/com.apple.photos.cloud/production/private/records/query?remapEnums=True&getCurrentSyncToken=True&dsid=");
    append_str(&mut v, session.dsid.as_str());
    append_str(&mut v, "&clientId=");
    append_str(&mut v, session.client_id.as_str());
    append_str(
        &mut v,
        "&clientBuildNumber=2421Project53&clientMasteringNumber=2421B25&clientVersion=5.4&ckjsBuildVersion=2421Project53&ckjsVersion=2.6.4",
    );
    Ok(string_of(&v))
}

/// What to do about a refused CloudKit request, by its HTTP status.
pub open spec fn status_hint(status: u16) -> Seq<char> {
    if status == 421 {
        " \u{e2}\u{20ac}\u{201d} Apple a refus\u{c3}\u{a9} la session CloudKit. Active \u{c2}\u{ab} Acc\u{c3}\u{a9}der \u{c3}\u{a0} iCloud sur le Web \u{c2}\u{bb} sur ton iPhone (R\u{c3}\u{a9}glages \u{e2}\u{2020}\u{2019} ton nom \u{e2}\u{2020}\u{2019} iCloud \u{e2}\u{2020}\u{2019} tout en bas), reconnecte-toi puis r\u{c3}\u{a9}essaie."@
    } else if status == 401 || status == 403 {
        " \u{e2}\u{20ac}\u{201d} Session iCloud expir\u{c3}\u{a9}e ou non autoris\u{c3}\u{a9}e. D\u{c3}\u{a9}connecte puis reconnecte iCloud dans PanicBase."@
    } else if 500 <= status <= 599 {
        " \u{e2}\u{20ac}\u{201d} Erreur c\u{c3}\u{b4}t\u{c3}\u{a9} serveur Apple. R\u{c3}\u{a9}essaie dans quelques minutes."@
    } else {
        Seq::empty()
    }
}

/// The error of a refused CloudKit page: the status, the first 500
/// characters of the body, and the hint for that status.
pub open spec fn cloudkit_error(status: u16, body: Seq<char>) -> Seq<char> {
    "CloudKit HTTP "@ + dec_text(status as nat) + " \u{e2}\u{20ac}\u{201d} "@ + (if body.len() <= 500 { body } else { body.take(500) })
        + status_hint(status)
}

/// The error of a refused CloudKit page (`cloudkit_error`).
pub fn cloudkit_http_error(status: u16, body: &str) -> (r: String)
    ensures
        r@ == cloudkit_error(status, body@),
{
    let mut v = chars_of("CloudKit HTTP ");
    let d = dec_text_exec(status as u64);
    append_chars(&mut v, &d);
    append_str(&mut v, " \u{e2}\u{20ac}\u{201d} ");
    let bc = chars_of(body);
    let k: usize = if bc.len() <= 500 { bc.len() } else { 500 };
    let head = slice_to_vec(&bc, 0, k);
    assert(head@ =~= (if body@.len() <= 500 { body@ } else { body@.take(500) }));
    append_chars(&mut v, &head);
    if status == 421 {
        append_str(
            &mut v,
            " \u{e2}\u{20ac}\u{201d} Apple a refus\u{c3}\u{a9} la session CloudKit. Active \u{c2}\u{ab} Acc\u{c3}\u{a9}der \u{c3}\u{a0} iCloud sur le Web \u{c2}\u{bb} sur ton iPhone (R\u{c3}\u{a9}glages \u{e2}\u{2020}\u{2019} ton nom \u{e2}\u{2020}\u{2019} iCloud \u{e2}\u{2020}\u{2019} tout en bas), reconnecte-toi puis r\u{c3}\u{a9}essaie.",
        );
    } else if status == 401 || status == 403 {
        append_str(
            &mut v,
            " \u{e2}\u{20ac}\u{201d} Session iCloud expir\u{c3}\u{a9}e ou non autoris\u{c3}\u{a9}e. D\u{c3}\u{a9}connecte puis reconnecte iCloud dans PanicBase.",
        );
    } else if 500 <= status && status <= 599 {
        append_str(&mut v, " \u{e2}\u{20ac}\u{201d} Erreur c\u{c3}\u{b4}t\u{c3}\u{a9} serveur Apple. R\u{c3}\u{a9}essaie dans quelques minutes.");
    } else {
        assert(v@ + Seq::<char>::empty() =~= v@);
    }
    string_of(&v)
}


// ---------------------------------------------------------------------------
// Albums
// ---------------------------------------------------------------------------
pub struct ICloudAlbumAssignment {
    pub asset_record_name: String,
    pub album_name: String,
}

/// An album of the library: its record name and its display name.
pub struct AlbumMeta {
    pub record_name: String,
    pub name: String,
}

/// A record field's value.
pub open spec fn record_value(rec: JsonView, key: Seq<char>) -> Option<JsonView> {
    get(get(member(rec, "fields"@), key), "value"@)
}

/// The encoded name of an album decodes (`decoded_name`), or its record
/// name is at most eight bytes long or its first eight bytes end on a
/// character: the cases in which an album's display name can be formed.
pub open spec fn album_name_formable(rec: JsonView) -> bool {
    match text_of(member(rec, "recordName"@)) {
        None => true,
        Some(n) => decoded_name(text_of(record_value(rec, "albumNameEnc"@))) is Some || byte_len(n) <= 8 || byte_cut(n, 8, 0) is Some,
    }
}

/// A deleted album record: its `isDeleted` value is a non-zero integer.
pub open spec fn album_deleted(rec: JsonView) -> bool {
    match i64_of(record_value(rec, "isDeleted"@)) {
        Some(n) => n != 0,
        None => false,
    }
}

/// The album of a record: none without a record name or when deleted; its
/// name is the decoded `albumNameEnc`, else `Album ` and the first eight
/// bytes of its record name.
pub open spec fn album_of(rec: JsonView) -> Option<(Seq<char>, Seq<char>)> {
    match text_of(member(rec, "recordName"@)) {
        None => None,
        Some(n) => if album_deleted(rec) {
            None
        } else {
            match decoded_name(text_of(record_value(rec, "albumNameEnc"@))) {
                Some(name) => Some((n, name)),
                None => Some((n, "Album "@ + byte_window(n, 8))),
            }
        },
    }
}

pub open spec fn album_view(a: AlbumMeta) -> (Seq<char>, Seq<char>) {
    (a.record_name@, a.name@)
}

fn decoded_name_exec(enc: Option<String>) -> (r: Option<String>)
    ensures
        opt_view(r) == decoded_name(opt_view(enc)),
{
    match enc {
        Some(t) => match base64_decode(t.as_str()) {
            Some(b) => match utf8_text(b) {
                Some(n) => if n.as_str().is_empty() {
                    None
                } else {
                    Some(n)
                },
                None => None,
            },
            None => None,
        },
        None => None,
    }
}

fn byte_cut_exists(s: &[char], n: usize) -> (r: bool)
    ensures
        r == (byte_cut(s@, n as nat, 0) is Some),
{
    let mut acc: usize = 0;
    let mut i: usize = 0;
    assert(s@.take(0) =~= Seq::<char>::empty());
    while i < s.len()
        invariant
            i <= s.len(),
            acc as nat == byte_len(s@.take(i as int)),
            acc <= n,
            byte_cut(s@, n as nat, 0) == byte_cut(s@, n as nat, i as int),
        decreases s.len() - i,
    {
        if acc == n {
            return true;
        }
        assert(s@.take(i + 1).drop_last() =~= s@.take(i as int));
        let c = s[i] as u32;
        let w: usize = if c < 0x80 {
            1
        } else if c < 0x800 {
            2
        } else if c < 0x10000 {
            3
        } else {
            4
        };
        assert(byte_len(s@.take(i + 1)) == acc + w);
        if w > n - acc {
            assert(byte_cut(s@, n as nat, i + 1) is None);
            return false;
        }
        acc = acc + w;
        i += 1;
    }
    acc == n
}

/// Whether an album record's display name can be formed
/// (`album_name_formable`).
pub fn album_name_is_formable(rec: &JsonValue) -> (r: bool)
    ensures
        r == album_name_formable(rec@),
{
    match text_exec(member_exec(rec, "recordName")) {
        None => true,
        Some(n) => {
            let enc = text_exec(get_exec(get_exec(member_exec(rec, "fields"), "albumNameEnc"), "value"));
            let nc = chars_of(n.as_str());
            decoded_name_exec(enc).is_some() || byte_len_below(&nc, 9) || byte_cut_exists(&nc, 8)
        },
    }
}

/// The album of a record (`album_of`), for a record whose display name can
/// be formed.
pub fn album_meta(rec: &JsonValue) -> (r: Option<AlbumMeta>)
    requires
        album_name_formable(rec@),
    ensures
        match r {
            Some(a) => album_of(rec@) == Some(album_view(a)),
            None => album_of(rec@) is None,
        },
{
    let record_name = match text_exec(member_exec(rec, "recordName")) {
        Some(n) => n,
        None => {
            return None;
        },
    };
    let fields = member_exec(rec, "fields");
    let deleted = match i64_exec(get_exec(get_exec(fields, "isDeleted"), "value")) {
        Some(n) => n != 0,
        None => false,
    };
    if deleted {
        return None;
    }
    let enc = text_exec(get_exec(get_exec(fields, "albumNameEnc"), "value"));
    match decoded_name_exec(enc) {
        Some(name) => Some(AlbumMeta { record_name, name }),
        None => {
            let nc = chars_of(record_name.as_str());
            let head = byte_window_exec(&nc, 8);
            let mut v = chars_of("Album ");
            append_chars(&mut v, &head);
            Some(AlbumMeta { record_name, name: string_of(&v) })
        },
    }
}

pub open spec fn album_views(v: Seq<AlbumMeta>) -> Seq<(Seq<char>, Seq<char>)> {
    v.map_values(|a: AlbumMeta| album_view(a))
}

/// The albums of the first `n` records of an albums page: the records whose
/// display name can be formed, in order, without the deleted ones and
/// those without a record name.
pub open spec fn albums_upto(recs: Seq<JsonView>, n: int) -> Seq<(Seq<char>, Seq<char>)>
    decreases n,
{
    if n <= 0 || n > recs.len() {
        Seq::empty()
    } else if album_name_formable(recs[n - 1]) && album_of(recs[n - 1]) is Some {
        albums_upto(recs, n - 1).push(album_of(recs[n - 1]).unwrap())
    } else {
        albums_upto(recs, n - 1)
    }
}

/// The albums of a response page (`albums_upto`). A record whose display
/// name would cut a character of its record name in two is left out.
pub fn albums_of_page(doc: &JsonValue) -> (r: Vec<AlbumMeta>)
    ensures
        album_views(r@) == albums_upto(records_of(doc@), records_of(doc@).len() as int),
{
    let recs = match records_exec(doc) {
        Some(v) => v,
        None => {
            return Vec::new();
        },
    };
    let ghost rv = json_views(recs@, recs@.len());
    proof {
        lemma_json_views(recs@, recs@.len());
    }
    let mut out: Vec<AlbumMeta> = Vec::new();
    let mut i: usize = 0;
    while i < recs.len()
        invariant
            i <= recs.len(),
            rv == json_views(recs@, recs@.len()),
            rv.len() == recs.len(),
            forall|j: int| 0 <= j < recs.len() ==> #[trigger] rv[j] == recs@[j]@,
            album_views(out@) == albums_upto(rv, i as int),
        decreases recs.len() - i,
    {
        let rec = &recs[i];
        if album_name_is_formable(rec) {
            match album_meta(rec) {
                Some(a) => {
                    let ghost before = out@;
                    out.push(a);
                    assert(album_views(out@) =~= album_views(before).push(album_view(a)));
                },
                None => {},
            }
        }
        i += 1;
    }
    out
}

/// The asset that an album relation points at: the record name of its
/// `itemId` reference, else `itemId` itself as text.
pub open spec fn album_item(rec: JsonView) -> Option<Seq<char>> {
    let v = record_value(rec, "itemId"@);
    match text_of(get(v, "recordName"@)) {
        Some(t) => Some(t),
        None => text_of(v),
    }
}

/// The assets that the first `n` relations of a page point at, in order.
pub open spec fn album_items_upto(recs: Seq<JsonView>, n: int) -> Seq<Seq<char>>
    decreases n,
{
    if n <= 0 || n > recs.len() {
        Seq::empty()
    } else {
        match album_item(recs[n - 1]) {
            Some(t) => album_items_upto(recs, n - 1).push(t),
            None => album_items_upto(recs, n - 1),
        }
    }
}

/// The assets that an album page points at (`album_items_upto`) and how
/// many records the page held.
pub fn album_page_items(doc: &JsonValue) -> (r: (Vec<String>, usize))
    ensures
        strs(r.0@) == album_items_upto(records_of(doc@), records_of(doc@).len() as int),
        r.1 == records_of(doc@).len(),
{
    let recs = match records_exec(doc) {
        Some(v) => v,
        None => {
            return (Vec::new(), 0);
        },
    };
    let ghost rv = json_views(recs@, recs@.len());
    proof {
        lemma_json_views(recs@, recs@.len());
    }
    let mut out: Vec<String> = Vec::new();
    let mut i: usize = 0;
    while i < recs.len()
        invariant
            i <= recs.len(),
            rv == json_views(recs@, recs@.len()),
            rv.len() == recs.len(),
            forall|j: int| 0 <= j < recs.len() ==> #[trigger] rv[j] == recs@[j]@,
            strs(out@) == album_items_upto(rv, i as int),
        decreases recs.len() - i,
    {
        let v = get_exec(get_exec(member_exec(&recs[i], "fields"), "itemId"), "value");
        let item = match text_exec(get_exec(v, "recordName")) {
            Some(t) => Some(t),
            None => text_exec(v),
        };
        match item {
            Some(t) => {
                let ghost before = out@;
                out.push(t);
                assert(strs(out@) =~= strs(before).push(t@));
            },
            None => {},
        }
        i += 1;
    }
    (out, recs.len())
}


// ---------------------------------------------------------------------------
// Listing the library page by page
// ---------------------------------------------------------------------------
/// The records asked for per page.
pub const PAGE_SIZE: u32 = 500;

/// The start ranks of the pages of a library of `total` assets: 0, 500, …
/// up to the last below `total` (none when `total` does not fit an `i64`).
pub open spec fn page_offsets(total: u64) -> Seq<i64> {
    Seq::new(
        (if total == 0 || total > i64::MAX { 0 } else { ((total - 1) / 500 + 1) as nat }),
        |k: int| (k * 500) as i64,
    )
}

/// The start ranks of the pages of a library of `total` assets
/// (`page_offsets`). Past the last rank the next one would not fit an
/// `i64`, so totals within 500 of `i64::MAX` are left out.
pub fn listing_offsets(total: u64) -> (r: Vec<i64>)
    requires
        total <= 9223372036854775307 || total > 9223372036854775807,
    ensures
        r@ == page_offsets(total),
{
    let mut r: Vec<i64> = Vec::new();
    if total == 0 || total > 9223372036854775807 {
        assert(r@ =~= page_offsets(total));
        return r;
    }
    let n: u64 = (total - 1) / 500 + 1;
    let mut k: u64 = 0;
    while k < n
        invariant
            k <= n,
            n == (total - 1) / 500 + 1,
            0 < total <= 9223372036854775307,
            r.len() == k,
            forall|j: int| 0 <= j < k ==> r@[j] == (j * 500) as i64,
        decreases n - k,
    {
        assert(k * 500 <= total) by (nonlinear_arith)
            requires
                k < n,
                n == (total - 1) / 500 + 1,
                total > 0,
        ;
        r.push((k * 500) as i64);
        k += 1;
    }
    assert(r@ =~= page_offsets(total));
    r
}

pub open spec fn asset_names(v: Seq<ICloudAsset>) -> Seq<Seq<char>> {
    v.map_values(|a: ICloudAsset| a.record_name@)
}

/// The assets of a page that are new: those whose record name is neither
/// in `seen` nor earlier in the page.
pub open spec fn fresh_assets(seen: Seq<Seq<char>>, parsed: Seq<ICloudAsset>) -> Seq<ICloudAsset>
    decreases parsed.len(),
{
    if parsed.len() == 0 {
        Seq::empty()
    } else {
        let prev = fresh_assets(seen, parsed.drop_last());
        let x = parsed.last();
        if seen.contains(x.record_name@) || asset_names(prev).contains(x.record_name@) {
            prev
        } else {
            prev.push(x)
        }
    }
}

fn holds_name(seen: &Vec<String>, name: &str) -> (r: bool)
    ensures
        r == exists|k: int| 0 <= k < strs(seen@).len() && strs(seen@)[k] == name@,
{
    let nc = chars_of(name);
    let mut j: usize = 0;
    while j < seen.len()
        invariant
            j <= seen.len(),
            nc@ == name@,
            forall|k: int| 0 <= k < j ==> strs(seen@)[k] != name@,
        decreases seen.len() - j,
    {
        let sc = chars_of(seen[j].as_str());
        if chars_eq(&sc, &nc) {
            assert(strs(seen@)[j as int] == name@);
            return true;
        }
        j += 1;
    }
    false
}

/// Adds the new assets of a page to the listing (`fresh_assets`) and their
/// names to `seen`; returns how many were new.
pub fn merge_fresh(results: &mut Vec<ICloudAsset>, seen: &mut Vec<String>, parsed: Vec<ICloudAsset>) -> (n: usize)
    ensures
        final(results)@ == old(results)@ + fresh_assets(strs(old(seen)@), parsed@),
        strs(final(seen)@) == strs(old(seen)@) + asset_names(fresh_assets(strs(old(seen)@), parsed@)),
        n == fresh_assets(strs(old(seen)@), parsed@).len(),
{
    let ghost seen0 = strs(seen@);
    let ghost results0 = results@;
    let ghost all = parsed@;
    let total_len = parsed.len();
    let mut rest = parsed;
    let mut n: usize = 0;
    let mut i: usize = 0;
    while rest.len() > 0
        invariant
            i + rest.len() == all.len(),
            all.len() == total_len,
            n <= i,
            rest@ == all.skip(i as int),
            results@ == results0 + fresh_assets(seen0, all.take(i as int)),
            strs(seen@) == seen0 + asset_names(fresh_assets(seen0, all.take(i as int))),
            n == fresh_assets(seen0, all.take(i as int)).len(),
        decreases rest.len(),
    {
        let x = rest.remove(0);
        assert(x == all[i as int]);
        assert(all.take(i + 1).drop_last() =~= all.take(i as int));
        assert(all.take(i + 1).last() == x);
        let ghost prev = fresh_assets(seen0, all.take(i as int));
        let found = holds_name(seen, x.record_name.as_str());
        proof {
            let sv = strs(seen@);
            if found {
                let k = choose|k: int| 0 <= k < sv.len() && sv[k] == x.record_name@;
                if k < seen0.len() {
                    assert(seen0[k] == x.record_name@);
                    assert(seen0.contains(x.record_name@));
                } else {
                    assert(asset_names(prev)[k - seen0.len()] == x.record_name@);
                    assert(asset_names(prev).contains(x.record_name@));
                }
            } else {
                assert forall|k: int| 0 <= k < seen0.len() implies seen0[k] != x.record_name@ by {
                    assert(sv[k] == seen0[k]);
                }
                assert forall|k: int| 0 <= k < asset_names(prev).len() implies asset_names(prev)[k] != x.record_name@ by {
                    assert(sv[seen0.len() + k] == asset_names(prev)[k]);
                }
            }
        }
        if !found {
            let name = x.record_name.clone();
            let ghost before_r = results@;
            let ghost before_s = strs(seen@);
            results.push(x);
            seen.push(name);
            assert(strs(seen@) =~= before_s.push(name@));
            assert(asset_names(prev.push(x)) =~= asset_names(prev).push(x.record_name@));
            n = n + 1;
        }
        i += 1;
    }
    assert(all.take(i as int) =~= all);
    n
}

/// After a wave of four probing pages, with no total known: where the next
/// wave starts, or none when the wave held no asset record, added no new
/// asset, or the listing passed 100000 assets.
pub open spec fn probe_next(start_rank: i64, wave_asset_records: nat, new_in_wave: nat, listed: nat) -> Option<i64> {
    if wave_asset_records == 0 || new_in_wave == 0 || listed > 100000 {
        None
    } else {
        Some((start_rank + 400) as i64)
    }
}

/// Where the next probing wave starts (`probe_next`). A start rank within
/// 400 of `i64::MAX` is left out where a next wave would follow.
pub fn next_probe_wave(start_rank: i64, wave_asset_records: usize, new_in_wave: usize, listed: usize) -> (r: Option<i64>)
    requires
        wave_asset_records > 0 && new_in_wave > 0 ==> start_rank + 400 <= i64::MAX,
    ensures
        r == probe_next(start_rank, wave_asset_records as nat, new_in_wave as nat, listed as nat),
{
    if wave_asset_records == 0 || new_in_wave == 0 || listed > 100000 {
        None
    } else {
        Some(start_rank + 400)
    }
}

/// With the total known, the listing stops once it holds the total, or
/// more than 200000 assets.
pub fn paged_listing_done(listed: usize, total: u64) -> (r: bool)
    ensures
        r == (listed >= total || listed > 200000),
{
    listed as u64 >= total || listed > 200000
}

} // verus!
