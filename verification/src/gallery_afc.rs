//! Records of files, media and backups exchanged with the device, and the
//! small rules about their names.
use crate::text::{all_digits, append_str, byte_len, char_is_digit, chars_of, contains, eq_ci, eq_ci_str, eq_str, first_index_of, first_index_of_exec, is_digit, lit_views, opt_view, owned, run_end, slice_to_vec, string_of, to_lowercase, trim, trim_chars, unicode_lower, views};
use crate::iphone::{is_control};
use crate::panic_diagnostic::{byte_cut};
use vstd::prelude::*;

verus! {

// ---------------------------------------------------------------------------
// AFC file information
// ---------------------------------------------------------------------------
/// What AFC reports about a path on the device.
#[derive(Debug, Clone)]
pub struct FileInfo {
    pub size: u64,
    pub ifmt: String,
    pub mtime_ns: i64,
    pub birth_ns: i64,
}

impl FileInfo {
    /// A folder (`S_IFDIR`).
    pub fn is_dir(&self) -> (r: bool)
        ensures
            r == (self.ifmt@ == "S_IFDIR"@),
    {
        let c = chars_of(self.ifmt.as_str());
        eq_str(&c, "S_IFDIR")
    }

    /// A regular file (`S_IFREG`).
    pub fn is_file(&self) -> (r: bool)
        ensures
            r == (self.ifmt@ == "S_IFREG"@),
    {
        let c = chars_of(self.ifmt.as_str());
        eq_str(&c, "S_IFREG")
    }
}

// ---------------------------------------------------------------------------
// Media on the device and in backups
// ---------------------------------------------------------------------------
pub struct AfcMediaItem {
    pub object_id: String,
    pub filename: String,
    pub extension: String,
    pub is_video: bool,
    pub folder: String,
    pub size_bytes: u64,
    pub mtime_ns: i64,
}

pub struct AfcFileExport {
    pub object_id: String,
    pub filename: String,
}

pub struct AfcExportResult {
    pub exported: usize,
    pub icloud_only: usize,
    pub errors: usize,
    pub error_samples: Vec<String>,
    pub dest_dir: String,
}

pub struct AfcSizeEntry {
    pub object_id: String,
    pub size_bytes: u64,
    pub mtime_ns: i64,
}

pub struct MediaItem {
    pub file_id: String,
    pub relative_path: String,
    pub filename: String,
    pub extension: String,
    pub is_video: bool,
    pub folder: String,
    pub size_bytes: u64,
}

pub struct BackupStatus {
    pub exists: bool,
    pub udid: Option<String>,
    pub media_count: usize,
    pub backup_timestamp: Option<u64>,
}

pub struct BackupResult {
    pub udid: String,
    pub media_count: usize,
}

pub struct ExportResult {
    pub exported: usize,
    pub dest_dir: String,
}

pub struct MediaFileExport {
    pub file_id: String,
    pub filename: String,
}

/// The text after the last `.` of a name (the whole name when it has none).
pub open spec fn after_last_dot(s: Seq<char>) -> Seq<char>
    decreases s.len(),
{
    if s.len() == 0 {
        s
    } else if s.last() == '.' {
        Seq::empty()
    } else {
        after_last_dot(s.drop_last()).push(s.last())
    }
}

/// The extension of a file name, lowercased.
pub open spec fn extension_of(name: Seq<char>) -> Seq<char> {
    unicode_lower(after_last_dot(name))
}

pub fn ext_of(name: &str) -> (r: Vec<char>)
    ensures
        r@ == extension_of(name@),
{
    let c = chars_of(name);
    let mut k: usize = c.len();
    assert(c@.take(c.len() as int) =~= c@);
    assert(c@.skip(c.len() as int) =~= Seq::<char>::empty());
    assert(c@ + Seq::<char>::empty() =~= c@);
    while k > 0 && c[k - 1] != '.'
        invariant
            k <= c.len(),
            after_last_dot(c@) == after_last_dot(c@.take(k as int)) + c@.skip(k as int),
        decreases k,
    {
        assert(c@.take(k as int).drop_last() == c@.take(k - 1));
        assert(c@.skip(k - 1) == seq![c@[k - 1]] + c@.skip(k as int));
        k -= 1;
    }
    proof {
        if k == 0 {
            assert(c@.take(0) =~= Seq::<char>::empty());
        } else {
            assert(c@.take(k as int).last() == '.');
        }
        assert(c@.take(c.len() as int) =~= c@);
        assert(c@.skip(c.len() as int) =~= Seq::<char>::empty());
    }
    let tail = slice_to_vec(&c, k, c.len());
    assert(tail@ =~= c@.skip(k as int));
    let ts = string_of(&tail);
    to_lowercase(ts.as_str())
}

pub open spec fn media_exts() -> Seq<Seq<char>> {
    seq![
        "jpg"@,
        "jpeg"@,
        "png"@,
        "heic"@,
        "heif"@,
        "gif"@,
        "tif"@,
        "tiff"@,
        "webp"@,
        "bmp"@,
        "mov"@,
        "mp4"@,
        "m4v"@,
        "hevc"@,
        "avi"@,
        "mkv"@,
        "aae"@,
    ]
}

pub open spec fn video_exts() -> Seq<Seq<char>> {
    seq!["mov"@, "mp4"@, "m4v"@, "hevc"@, "avi"@, "mkv"@]
}

fn in_list(x: &[char], list: &Vec<&str>) -> (r: bool)
    ensures
        r == lit_views(list@).contains(x@),
{
    let mut i: usize = 0;
    while i < list.len()
        invariant
            i <= list.len(),
            forall|j: int| 0 <= j < i ==> lit_views(list@)[j] != x@,
        decreases list.len() - i,
    {
        if eq_str(x, list[i]) {
            assert(lit_views(list@)[i as int] == x@);
            return true;
        }
        i += 1;
    }
    assert(!lit_views(list@).contains(x@));
    false
}

/// A photo or video file that the gallery shows, by its extension.
pub fn is_valid_media(name: &str) -> (r: bool)
    ensures
        r == media_exts().contains(extension_of(name@)),
{
    let e = ext_of(name);
    let list: Vec<&str> = vec![
        "jpg", "jpeg", "png", "heic", "heif", "gif", "tif", "tiff", "webp", "bmp", "mov", "mp4", "m4v", "hevc", "avi", "mkv", "aae",
    ];
    assert(lit_views(list@) == media_exts());
    in_list(&e, &list)
}

/// A video extension.
pub fn is_video(ext: &str) -> (r: bool)
    ensures
        r == video_exts().contains(ext@),
{
    let e = chars_of(ext);
    let list: Vec<&str> = vec!["mov", "mp4", "m4v", "hevc", "avi", "mkv"];
    assert(lit_views(list@) == video_exts());
    in_list(&e, &list)
}

/// Camera folders (`DCIM`, `NNNAPPLE`) read as the camera roll.
pub open spec fn folder_name(raw: Seq<char>) -> Seq<char> {
    if raw.len() == 0 || eq_ci(raw, "dcim"@) {
        "Camera Roll"@
    } else if raw.len() == 8 && eq_ci(raw.skip(3), "APPLE"@) && all_digits(raw.take(3)) {
        "Camera Roll"@
    } else {
        raw
    }
}

/// The label of a folder. A name of 8 bytes is read at byte 3 (a `DCIM`
/// folder such as `100APPLE`), so such a name must have a character
/// boundary there.
pub fn folder_label(raw: &str) -> (r: String)
    requires
        byte_len(raw@) != 8 || byte_cut(raw@, 3, 0) is Some,
    ensures
        r@ == folder_name(raw@),
{
    let c = chars_of(raw);
    if c.len() == 0 || eq_ci_str(&c, "dcim") {
        return owned("Camera Roll");
    }
    if c.len() == 8 {
        let tail = slice_to_vec(&c, 3, 8);
        assert(tail@ == c@.skip(3));
        let head = slice_to_vec(&c, 0, 3);
        assert(head@ == c@.take(3));
        if eq_ci_str(&tail, "APPLE") && char_is_digit(head[0]) && char_is_digit(head[1]) && char_is_digit(head[2]) {
            assert(all_digits(head@));
            return owned("Camera Roll");
        }
        assert(!(eq_ci(c@.skip(3), "APPLE"@) && all_digits(c@.take(3)))) by {
            if eq_ci(c@.skip(3), "APPLE"@) && all_digits(c@.take(3)) {
                assert(is_digit(head@[0]) && is_digit(head@[1]) && is_digit(head@[2]));
            }
        }
    }
    owned(raw)
}

/// The parts of `s` between `sep`, empty parts included.
pub open spec fn parts_on(s: Seq<char>, sep: char) -> Seq<Seq<char>>
    decreases s.len(),
{
    match first_index_of(s, sep, 0) {
        None => seq![s],
        Some(k) => {
            proof {
                lemma_first_index_of(s, sep, 0);
            }
            seq![s.take(k)] + parts_on(s.skip(k + 1), sep)
        },
    }
}

pub proof fn lemma_first_index_of(s: Seq<char>, c: char, i: int)
    ensures
        first_index_of(s, c, i) matches Some(k) ==> i <= k < s.len() && s[k] == c,
    decreases s.len() - i,
{
    if !(i < 0 || i >= s.len()) && s[i] != c {
        lemma_first_index_of(s, c, i + 1);
    }
}

pub open spec fn nonempty_parts(ps: Seq<Seq<char>>) -> Seq<Seq<char>>
    decreases ps.len(),
{
    if ps.len() == 0 {
        Seq::empty()
    } else {
        nonempty_parts(ps.drop_last()) + if ps.last().len() > 0 {
            seq![ps.last()]
        } else {
            Seq::<Seq<char>>::empty()
        }
    }
}

/// The thumbnail that the device keeps for a `DCIM/<folder>/<file>` object.
pub open spec fn thumb_path(object_id: Seq<char>) -> Option<Seq<char>> {
    let parts = nonempty_parts(parts_on(object_id, '/'));
    if parts.len() < 3 || !eq_ci(parts[0], "DCIM"@) {
        None
    } else {
        Some("/PhotoData/Thumbnails/V2/DCIM"@ + seq!['/'] + parts[1] + seq!['/'] + parts[2] + "/5005.JPG"@)
    }
}

fn nonempty_parts_exec(s: &[char], sep: char) -> (r: Vec<Vec<char>>)
    ensures
        views(r@) == nonempty_parts(parts_on(s@, sep)),
{
    let mut out: Vec<Vec<char>> = Vec::new();
    let mut rest = slice_to_vec(s, 0, s.len());
    let ghost mut done: Seq<Seq<char>> = Seq::empty();
    assert(rest@ =~= s@);
    assert(views(out@) =~= Seq::<Seq<char>>::empty());
    assert(parts_on(s@, sep) == done + parts_on(rest@, sep));
    loop
        invariant
            parts_on(s@, sep) == done + parts_on(rest@, sep),
            views(out@) == nonempty_parts(done),
        decreases rest.len(),
    {
        match first_index_of_exec(&rest, sep) {
            None => {
                let ghost before = views(out@);
                if rest.len() > 0 {
                    out.push(slice_to_vec(&rest, 0, rest.len()));
                }
                proof {
                    lemma_nonempty_parts_push(done, rest@);
                    assert(parts_on(rest@, sep) == seq![rest@]);
                    assert(parts_on(s@, sep) == done.push(rest@));
                    assert(rest@.subrange(0, rest@.len() as int) =~= rest@);
                }
                return out;
            },
            Some(k) => {
                let piece = slice_to_vec(&rest, 0, k);
                assert(piece@ == rest@.take(k as int));
                let next = slice_to_vec(&rest, k + 1, rest.len());
                assert(next@ == rest@.skip(k + 1));
                proof {
                    lemma_nonempty_parts_push(done, piece@);
                    assert(done + parts_on(rest@, sep) =~= done.push(piece@) + parts_on(next@, sep));
                    done = done.push(piece@);
                }
                if piece.len() > 0 {
                    out.push(piece);
                }
                rest = next;
            },
        }
    }
}

proof fn lemma_nonempty_parts_push(ps: Seq<Seq<char>>, x: Seq<char>)
    ensures
        nonempty_parts(ps.push(x)) == nonempty_parts(ps) + if x.len() > 0 {
            seq![x]
        } else {
            Seq::<Seq<char>>::empty()
        },
{
    assert(ps.push(x).drop_last() == ps);
}

pub fn derive_thumb_path(object_id: &str) -> (r: Option<String>)
    ensures
        opt_view(r) == thumb_path(object_id@),
{
    let c = chars_of(object_id);
    let parts = nonempty_parts_exec(&c, '/');
    if parts.len() < 3 || !eq_ci_str(&parts[0], "DCIM") {
        return None;
    }
    let mut out = chars_of("/PhotoData/Thumbnails/V2/DCIM");
    out.push('/');
    out.extend_from_slice(&parts[1]);
    out.push('/');
    out.extend_from_slice(&parts[2]);
    append_str(&mut out, "/5005.JPG");
    Some(string_of(&out))
}

/// The bytes start like a JPEG file (`FF D8 FF`).
pub fn looks_like_jpeg(b: &[u8]) -> (r: bool)
    ensures
        r == (b@.len() >= 3 && b@[0] == 0xFF && b@[1] == 0xD8 && b@[2] == 0xFF),
{
    b.len() >= 3 && b[0] == 0xFF && b[1] == 0xD8 && b[2] == 0xFF
}

/// A character that cannot stand in a file name on Windows, or a control
/// character.
pub open spec fn unsafe_name_char(c: char) -> bool {
    c == '<' || c == '>' || c == ':' || c == '"' || c == '/' || c == '\\' || c == '|' || c == '?' || c == '*'
        || is_control(c)
}

pub open spec fn name_cleaned(s: Seq<char>) -> Seq<char> {
    s.map_values(|c: char| if unsafe_name_char(c) { '_' } else { c })
}

pub fn name_cleaned_chars(s: &[char]) -> (r: Vec<char>)
    ensures
        r@ == name_cleaned(s@),
{
    let mut r: Vec<char> = Vec::new();
    let mut i: usize = 0;
    while i < s.len()
        invariant
            i <= s.len(),
            r@ == name_cleaned(s@.take(i as int)),
        decreases s.len() - i,
    {
        let c = s[i];
        let cu = c as u32;
        let bad = c == '<' || c == '>' || c == ':' || c == '"' || c == '/' || c == '\\' || c == '|' || c == '?'
            || c == '*' || cu <= 0x1f || (0x7f <= cu && cu <= 0x9f);
        if bad {
            r.push('_');
        } else {
            r.push(c);
        }
        assert(name_cleaned(s@.take(i + 1)) =~= name_cleaned(s@.take(i as int)).push(r@.last()));
        i += 1;
    }
    assert(s@.take(s.len() as int) == s@);
    r
}

/// `s` without its leading and trailing dots.
pub open spec fn trim_dots(s: Seq<char>) -> Seq<char> {
    let a = run_end(s, 0, |c: char| c == '.');
    if a >= s.len() {
        Seq::empty()
    } else {
        strip_trailing_dots(s.skip(a))
    }
}

pub open spec fn strip_trailing_dots(s: Seq<char>) -> Seq<char>
    decreases s.len(),
{
    if s.len() > 0 && s.last() == '.' {
        strip_trailing_dots(s.drop_last())
    } else {
        s
    }
}

fn trim_dots_exec(s: &[char]) -> (r: Vec<char>)
    ensures
        r@ == trim_dots(s@),
{
    let mut a: usize = 0;
    while a < s.len() && s[a] == '.'
        invariant
            a <= s.len(),
            run_end(s@, 0, |c: char| c == '.') == run_end(s@, a as int, |c: char| c == '.'),
        decreases s.len() - a,
    {
        a += 1;
    }
    if a >= s.len() {
        return Vec::new();
    }
    let mut b: usize = s.len();
    let ghost t = s@.skip(a as int);
    assert(t =~= s@.subrange(a as int, b as int));
    while b > a && s[b - 1] == '.'
        invariant
            a <= b <= s.len(),
            strip_trailing_dots(t) == strip_trailing_dots(s@.subrange(a as int, b as int)),
        decreases b,
    {
        assert(s@.subrange(a as int, b as int).drop_last() =~= s@.subrange(a as int, b - 1));
        b -= 1;
    }
    slice_to_vec(s, a, b)
}

/// A file name safe for a preview copy: unsafe characters replaced by `_`,
/// trimmed of blanks and dots; `preview_media` when nothing is left.
pub open spec fn preview_file_name(name: Seq<char>) -> Seq<char> {
    let t = trim(trim_dots(trim(name_cleaned(name))));
    if t.len() == 0 {
        "preview_media"@
    } else {
        t
    }
}

pub fn safe_preview_filename(name: &str) -> (r: String)
    ensures
        r@ == preview_file_name(name@),
{
    let c = chars_of(name);
    let cl = name_cleaned_chars(&c);
    let t1 = trim_chars(&cl);
    let t2 = trim_dots_exec(&t1);
    let t3 = trim_chars(&t2);
    if t3.len() == 0 {
        owned("preview_media")
    } else {
        string_of(&t3)
    }
}


// ---------------------------------------------------------------------------
// Media listed in the backup manifest
// ---------------------------------------------------------------------------
/// The text after the last `/` (the whole text when it has none).
pub open spec fn after_last_slash(s: Seq<char>) -> Seq<char>
    decreases s.len(),
{
    if s.len() == 0 {
        s
    } else if s.last() == '/' {
        Seq::empty()
    } else {
        after_last_slash(s.drop_last()).push(s.last())
    }
}

fn after_last_slash_exec(c: &[char]) -> (r: Vec<char>)
    ensures
        r@ == after_last_slash(c@),
{
    let mut k: usize = c.len();
    assert(c@.take(c.len() as int) =~= c@);
    assert(c@.skip(c.len() as int) =~= Seq::<char>::empty());
    assert(c@ + Seq::<char>::empty() =~= c@);
    while k > 0 && c[k - 1] != '/'
        invariant
            k <= c.len(),
            after_last_slash(c@) == after_last_slash(c@.take(k as int)) + c@.skip(k as int),
        decreases k,
    {
        assert(c@.take(k as int).drop_last() == c@.take(k - 1));
        assert(c@.skip(k - 1) == seq![c@[k - 1]] + c@.skip(k as int));
        k -= 1;
    }
    proof {
        if k == 0 {
            assert(c@.take(0) =~= Seq::<char>::empty());
        } else {
            assert(c@.take(k as int).last() == '/');
        }
    }
    let tail = slice_to_vec(c, k, c.len());
    assert(tail@ =~= c@.skip(k as int));
    tail
}

/// Extensions of the photos and videos that the manifest listing keeps.
pub open spec fn manifest_exts() -> Seq<Seq<char>> {
    seq!["jpg"@, "jpeg"@, "png"@, "heic"@, "heif"@, "gif"@, "tif"@, "tiff"@, "mov"@, "mp4"@, "m4v"@]
}

pub open spec fn manifest_video_exts() -> Seq<Seq<char>> {
    seq!["mov"@, "mp4"@, "m4v"@]
}

/// The folder of a manifest path: its last but one non-empty segment.
pub open spec fn manifest_folder(path: Seq<char>) -> Seq<char> {
    let parts = nonempty_parts(parts_on(path, '/'));
    if parts.len() >= 2 {
        parts[parts.len() - 2]
    } else {
        "Camera Roll"@
    }
}

/// A media item as plain values: file id, relative path, file name,
/// extension, whether it is a video, folder and size.
pub type MediaItemView = (Seq<char>, Seq<char>, Seq<char>, Seq<char>, bool, Seq<char>, u64);

pub open spec fn media_item_view(m: MediaItem) -> MediaItemView {
    (m.file_id@, m.relative_path@, m.filename@, m.extension@, m.is_video, m.folder@, m.size_bytes)
}

pub open spec fn media_item_views(v: Seq<MediaItem>) -> Seq<MediaItemView> {
    v.map_values(|m: MediaItem| media_item_view(m))
}

/// The item that one manifest row (file id, relative path) describes; its
/// size is read from the disk afterwards.
pub open spec fn manifest_item(file_id: Seq<char>, path: Seq<char>) -> MediaItemView {
    let filename = after_last_slash(path);
    let ext = extension_of(filename);
    (file_id, path, filename, ext, manifest_video_exts().contains(ext), manifest_folder(path), 0u64)
}

pub open spec fn row_views(rows: Seq<(String, String)>) -> Seq<(Seq<char>, Seq<char>)> {
    rows.map_values(|r: (String, String)| (r.0@, r.1@))
}

/// The photos and videos among the manifest rows, in the order of the rows.
pub open spec fn manifest_media(rows: Seq<(Seq<char>, Seq<char>)>) -> Seq<MediaItemView>
    decreases rows.len(),
{
    if rows.len() == 0 {
        Seq::empty()
    } else {
        let prev = manifest_media(rows.drop_last());
        let it = manifest_item(rows.last().0, rows.last().1);
        if manifest_exts().contains(it.3) {
            prev.push(it)
        } else {
            prev
        }
    }
}

/// The media items of the backup manifest rows (file id, relative path)
/// under `Media/DCIM` and `Media/PhotoData`, with a size of 0.
pub fn list_media(rows: &[(String, String)]) -> (r: Vec<MediaItem>)
    ensures
        media_item_views(r@) == manifest_media(row_views(rows@)),
{
    let mut out: Vec<MediaItem> = Vec::new();
    let mut i: usize = 0;
    let ghost rv = row_views(rows@);
    while i < rows.len()
        invariant
            i <= rows.len(),
            rv == row_views(rows@),
            media_item_views(out@) == manifest_media(rv.take(i as int)),
        decreases rows.len() - i,
    {
        let path = chars_of(rows[i].1.as_str());
        let name_chars = after_last_slash_exec(&path);
        let filename = string_of(&name_chars);
        let ext = ext_of(filename.as_str());
        let exts: Vec<&str> = vec!["jpg", "jpeg", "png", "heic", "heif", "gif", "tif", "tiff", "mov", "mp4", "m4v"];
        assert(lit_views(exts@) == manifest_exts());
        let videos: Vec<&str> = vec!["mov", "mp4", "m4v"];
        assert(lit_views(videos@) == manifest_video_exts());
        let keep = in_list(&ext, &exts);
        proof {
            assert(rv.take(i + 1).drop_last() =~= rv.take(i as int));
            assert(rv.take(i + 1).last() == rv[i as int]);
        }
        if keep {
            let parts = nonempty_parts_exec(&path, '/');
            let folder = if parts.len() >= 2 {
                string_of(&parts[parts.len() - 2])
            } else {
                owned("Camera Roll")
            };
            let is_vid = in_list(&ext, &videos);
            let item = MediaItem {
                file_id: rows[i].0.clone(),
                relative_path: rows[i].1.clone(),
                filename,
                extension: string_of(&ext),
                is_video: is_vid,
                folder,
                size_bytes: 0,
            };
            let ghost before = media_item_views(out@);
            out.push(item);
            assert(media_item_views(out@) =~= before.push(media_item_view(item)));
        }
        i += 1;
    }
    assert(rv.take(rows.len() as int) =~= rv);
    out
}


// ---------------------------------------------------------------------------
// Progressive export: what each copy outcome decides
// ---------------------------------------------------------------------------
/// The counts of a progressive export so far.
pub struct ExportTally {
    pub exported: usize,
    pub failed: usize,
    pub skipped_cloud: usize,
    pub consecutive_errors: usize,
    pub completed_ids: Vec<String>,
}

/// How the copy of one file ended.
pub enum CopyEvent {
    /// The file was copied.
    Copied,
    /// The file lives in iCloud only and was skipped.
    ICloudOnly,
    /// The copy was stopped because the device went away.
    Disconnected,
    /// The export was cancelled during the copy.
    Cancelled,
    /// The copy failed; `device_alive` tells whether the device still
    /// answers.
    Failed { device_alive: bool },
}

/// What the export does next.
#[derive(PartialEq, Eq, Structural)]
pub enum ExportAction {
    /// Go on with the next file.
    Continue,
    /// Stop and report a pause with the counts so far.
    Pause,
    /// Stop and report the export as done.
    Done,
    /// Wait briefly and open a new session before going on.
    Reconnect,
}

pub struct TallyView {
    pub exported: nat,
    pub failed: nat,
    pub skipped_cloud: nat,
    pub consecutive_errors: nat,
    pub completed_ids: Seq<Seq<char>>,
}

pub open spec fn tally_view(t: ExportTally) -> TallyView {
    TallyView {
        exported: t.exported as nat,
        failed: t.failed as nat,
        skipped_cloud: t.skipped_cloud as nat,
        consecutive_errors: t.consecutive_errors as nat,
        completed_ids: t.completed_ids@.map_values(|s: String| s@),
    }
}

/// The counts and the next step after the copy of the file `object_id`:
/// a copied or iCloud-only file is counted and completed and clears the
/// error run; a lost device pauses; a cancel ends; a failure adds to the
/// error run, pauses when the device no longer answers, else counts as
/// failed and asks for a new session at the third failure in a row.
pub open spec fn after_copy(t: TallyView, object_id: Seq<char>, ev: CopyEvent) -> (TallyView, ExportAction) {
    match ev {
        CopyEvent::Copied => (
            TallyView { exported: t.exported + 1, consecutive_errors: 0, completed_ids: t.completed_ids.push(object_id), ..t },
            ExportAction::Continue,
        ),
        CopyEvent::ICloudOnly => (
            TallyView { skipped_cloud: t.skipped_cloud + 1, consecutive_errors: 0, completed_ids: t.completed_ids.push(object_id), ..t },
            ExportAction::Continue,
        ),
        CopyEvent::Disconnected => (t, ExportAction::Pause),
        CopyEvent::Cancelled => (t, ExportAction::Done),
        CopyEvent::Failed { device_alive } => if !device_alive {
            (TallyView { consecutive_errors: t.consecutive_errors + 1, ..t }, ExportAction::Pause)
        } else if t.consecutive_errors + 1 >= 3 {
            (TallyView { consecutive_errors: t.consecutive_errors + 1, failed: t.failed + 1, ..t }, ExportAction::Reconnect)
        } else {
            (TallyView { consecutive_errors: t.consecutive_errors + 1, failed: t.failed + 1, ..t }, ExportAction::Continue)
        },
    }
}

/// The counts and the next step after the copy of a file (`after_copy`).
pub fn export_after_copy(t: ExportTally, object_id: &str, ev: CopyEvent) -> (r: (ExportTally, ExportAction))
    requires
        t.exported < usize::MAX,
        t.failed < usize::MAX,
        t.skipped_cloud < usize::MAX,
        t.consecutive_errors < usize::MAX,
    ensures
        (tally_view(r.0), r.1) == after_copy(tally_view(t), object_id@, ev),
{
    let mut t = t;
    let ghost before = tally_view(t);
    match ev {
        CopyEvent::Copied => {
            t.exported = t.exported + 1;
            t.consecutive_errors = 0;
            t.completed_ids.push(object_id.to_owned());
            assert(tally_view(t).completed_ids =~= before.completed_ids.push(object_id@));
            (t, ExportAction::Continue)
        },
        CopyEvent::ICloudOnly => {
            t.skipped_cloud = t.skipped_cloud + 1;
            t.consecutive_errors = 0;
            t.completed_ids.push(object_id.to_owned());
            assert(tally_view(t).completed_ids =~= before.completed_ids.push(object_id@));
            (t, ExportAction::Continue)
        },
        CopyEvent::Disconnected => (t, ExportAction::Pause),
        CopyEvent::Cancelled => (t, ExportAction::Done),
        CopyEvent::Failed { device_alive } => {
            t.consecutive_errors = t.consecutive_errors + 1;
            if !device_alive {
                return (t, ExportAction::Pause);
            }
            t.failed = t.failed + 1;
            if t.consecutive_errors >= 3 {
                (t, ExportAction::Reconnect)
            } else {
                (t, ExportAction::Continue)
            }
        },
    }
}

/// After a new session was asked for: the error run clears and the export
/// goes on when the session opened, else it pauses.
pub open spec fn after_reconnect(t: TallyView, opened: bool) -> (TallyView, ExportAction) {
    if opened {
        (TallyView { consecutive_errors: 0, ..t }, ExportAction::Continue)
    } else {
        (t, ExportAction::Pause)
    }
}

/// The counts and the next step after a new session was asked for
/// (`after_reconnect`).
pub fn export_after_reconnect(t: ExportTally, opened: bool) -> (r: (ExportTally, ExportAction))
    ensures
        (tally_view(r.0), r.1) == after_reconnect(tally_view(t), opened),
{
    let mut t = t;
    if opened {
        t.consecutive_errors = 0;
        (t, ExportAction::Continue)
    } else {
        (t, ExportAction::Pause)
    }
}

/// The number of files handled so far: copied, skipped as iCloud-only, or
/// failed.
pub open spec fn handled(t: TallyView) -> nat {
    t.exported + t.skipped_cloud + t.failed
}

/// Each copy outcome that goes on handles exactly one more file, and only
/// copied or iCloud-only files are marked completed, so a resumed export
/// starts after them.
pub proof fn law_export_counts_each_file_once(t: TallyView, object_id: Seq<char>, ev: CopyEvent)
    ensures
        ({
            let (t2, a) = after_copy(t, object_id, ev);
            &&& a == ExportAction::Continue || a == ExportAction::Reconnect ==> handled(t2) == handled(t) + 1
            &&& a == ExportAction::Pause || a == ExportAction::Done ==> handled(t2) == handled(t)
            &&& t2.completed_ids == t.completed_ids || t2.completed_ids == t.completed_ids.push(object_id)
            &&& (t2.completed_ids.len() > t.completed_ids.len() <==> (ev is Copied || ev is ICloudOnly))
        }),
{
}

} // verus!
