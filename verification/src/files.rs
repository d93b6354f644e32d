//! File requests: where uploaded files are written, how a name that is
//! taken is varied, the headers of a served file, and which wiki pages
//! relate to a source file.
use vstd::prelude::*;
use crate::paths::{extension_of_name, is_markdown_name, join, last_index_of, path_join, rfind_char, subvec};
use crate::text::{chars_of, contains, contains_str, decimal, first_segment, first_segment_str, is_prefix,
    starts_with, str_eq, string_of, u64_to_decimal};

verus! {

/// A request naming a file to read.
#[derive(Debug)]
pub struct ReadFileQuery {
    pub path: String,
}

/// The content of a file that was read.
#[derive(Debug)]
pub struct ReadFileResponse {
    pub content: String,
}

/// A request to write a file.
#[derive(Debug)]
pub struct WriteFileBody {
    pub path: String,
    pub content: String,
}

/// A request naming a directory to list.
#[derive(Debug)]
pub struct ListDirectoryQuery {
    pub path: String,
}

/// A request to copy a file.
#[derive(Debug)]
pub struct CopyFileBody {
    pub source: String,
    pub destination: String,
}

/// A request to copy a directory.
#[derive(Debug)]
pub struct CopyDirectoryBody {
    pub source: String,
    pub destination: String,
}

/// A request to extract and cache a file's text.
#[derive(Debug)]
pub struct PreprocessFileBody {
    pub path: String,
}

/// A request to delete a file or directory.
#[derive(Debug)]
pub struct DeleteFileBody {
    pub path: String,
}

/// A request to create a directory.
#[derive(Debug)]
pub struct CreateDirectoryBody {
    pub path: String,
}

/// A request asking whether a file exists.
#[derive(Debug)]
pub struct FileExistsQuery {
    pub path: String,
}

/// A request to read a file as base64.
#[derive(Debug)]
pub struct ReadFileBase64Query {
    pub path: String,
}

/// A request to serve a file directly.
#[derive(Debug)]
pub struct ServeFileQuery {
    pub path: String,
}

/// A request to extract the images of a document.
#[derive(Debug)]
pub struct ExtractImagesBody {
    pub source_path: String,
    pub dest_dir: String,
    pub rel_to: String,
    pub is_pdf: bool,
}

/// A file that was uploaded.
#[derive(Debug)]
pub struct UploadedFile {
    pub name: String,
    pub path: String,
    pub size: u64,
}

/// The query asking for the wiki pages related to a source file.
#[derive(Debug)]
pub struct RelatedPagesQuery {
    pub project_path: String,
    pub source_name: String,
}

// ---------------------------------------------------------------------------
// Uploads
// ---------------------------------------------------------------------------

/// Where an uploaded file goes.
#[derive(Debug)]
pub struct UploadTarget {
    /// The directory the file is written to.
    pub dir: String,
    /// The file's own name.
    pub base_name: String,
    /// The file came with a relative path, so `dir` is created first.
    pub nested: bool,
}

/// A path separator of either platform.
pub open spec fn is_separator(c: char) -> bool {
    c == '/' || c == '\\'
}

/// The index of the last separator of `s`.
pub open spec fn last_separator(s: Seq<char>) -> Option<int> {
    if exists|i: int| 0 <= i < s.len() && is_separator(s[i]) {
        Some(choose|i: int| 0 <= i < s.len() && is_separator(s[i]) && forall|j: int|
            i < j < s.len() ==> !is_separator(s[j]))
    } else {
        None
    }
}

/// Where an uploaded file named `file_name` goes under `destination`: a plain
/// name goes straight there; a name with a relative path goes to
/// `<destination>/<parent>` (or `destination` when the only separator leads
/// the name), keeping the part after the last separator.
pub open spec fn spec_upload_target(destination: Seq<char>, file_name: Seq<char>) -> (Seq<char>, Seq<char>, bool) {
    match last_separator(file_name) {
        None => (destination, file_name, false),
        Some(idx) => if idx > 0 {
            (destination + "/"@ + file_name.subrange(0, idx), file_name.subrange(idx + 1, file_name.len() as int), true)
        } else {
            (destination, file_name, true)
        },
    }
}

proof fn lemma_last_separator(s: Seq<char>, i: int)
    requires
        0 <= i < s.len(),
        is_separator(s[i]),
        forall|j: int| i < j < s.len() ==> !is_separator(s[j]),
    ensures
        last_separator(s) == Some(i),
{
    let k = choose|k: int| 0 <= k < s.len() && is_separator(s[k]) && forall|j: int| k < j < s.len() ==> !is_separator(s[j]);
    assert(0 <= k < s.len() && is_separator(s[k]));
    if k < i {
        assert(!is_separator(s[i]));
    }
    if i < k {
        assert(!is_separator(s[k]));
    }
}

/// Where an uploaded file goes.
pub fn upload_target(destination: &str, file_name: &str) -> (r: UploadTarget)
    ensures
        (r.dir@, r.base_name@, r.nested) == spec_upload_target(destination@, file_name@),
{
    let fv = chars_of(file_name);
    let mut k: usize = fv.len();
    while k > 0 && !(fv[k - 1] == '/' || fv[k - 1] == '\\')
        invariant
            k <= fv@.len(),
            forall|j: int| k <= j < fv@.len() ==> !is_separator(fv@[j]),
        decreases k,
    {
        k = k - 1;
    }
    if k == 0 {
        assert(last_separator(fv@) is None);
        return UploadTarget { dir: String::from_str(destination), base_name: String::from_str(file_name), nested: false };
    }
    let idx = k - 1;
    proof {
        lemma_last_separator(fv@, idx as int);
    }
    if idx > 0 {
        let parent = string_of(&subvec(&fv, 0, idx));
        let base = string_of(&subvec(&fv, idx + 1, fv.len()));
        let mut dir = String::from_str(destination);
        dir.append("/");
        dir.append(parent.as_str());
        UploadTarget { dir, base_name: base, nested: true }
    } else {
        UploadTarget { dir: String::from_str(destination), base_name: String::from_str(file_name), nested: true }
    }
}

/// Every uploaded file is written below the upload's destination: the
/// directory it goes to begins with the destination, and the name it keeps
/// holds no separator unless the only separator leads the name.
pub proof fn lemma_upload_below_destination(destination: Seq<char>, file_name: Seq<char>)
    ensures
        is_prefix(destination, spec_upload_target(destination, file_name).0),
        spec_upload_target(destination, file_name).0 != destination ==> is_prefix(
            destination.push('/'),
            spec_upload_target(destination, file_name).0,
        ),
        forall|k: int|
            0 < k < spec_upload_target(destination, file_name).1.len() ==> !is_separator(
                #[trigger] spec_upload_target(destination, file_name).1[k],
            ),
{
    reveal_strlit("/");
    lemma_last_separator_props(file_name);
    assert(destination.subrange(0, destination.len() as int) =~= destination);
    match last_separator(file_name) {
        None => {},
        Some(idx) => {
            if idx > 0 {
                let dir = destination + "/"@ + file_name.subrange(0, idx);
                assert(dir.subrange(0, destination.len() as int) =~= destination);
                assert(dir.subrange(0, destination.len() as int + 1) =~= destination.push('/'));
            }
        },
    }
}

/// The last separator of a name that has one, found from the separator at `w`.
proof fn lemma_last_separator_from(s: Seq<char>, w: int) -> (l: int)
    requires
        0 <= w < s.len(),
        is_separator(s[w]),
    ensures
        w <= l < s.len(),
        is_separator(s[l]),
        forall|j: int| l < j < s.len() ==> !is_separator(s[j]),
    decreases s.len() - w,
{
    if exists|j: int| w < j < s.len() && is_separator(s[j]) {
        let j = choose|j: int| w < j < s.len() && is_separator(s[j]);
        lemma_last_separator_from(s, j)
    } else {
        w
    }
}

/// What `last_separator` gives: the index of a separator with none after
/// it, or nothing when the name holds no separator.
proof fn lemma_last_separator_props(s: Seq<char>)
    ensures
        last_separator(s) matches Some(i) ==> 0 <= i < s.len() && is_separator(s[i]) && forall|j: int|
            i < j < s.len() ==> !is_separator(s[j]),
        last_separator(s) is None ==> forall|k: int| 0 <= k < s.len() ==> !is_separator(s[k]),
{
    if exists|i: int| 0 <= i < s.len() && is_separator(s[i]) {
        let w = choose|i: int| 0 <= i < s.len() && is_separator(s[i]);
        let l = lemma_last_separator_from(s, w);
        lemma_last_separator(s, l);
    }
}

/// The refusal of an upload whose destination came after a file, or not at all.
pub fn missing_destination_error() -> (r: String)
    ensures
        r@ == "Missing 'destination' field in multipart upload"@,
{
    String::from_str("Missing 'destination' field in multipart upload")
}
/// What a field of an upload form is.
#[derive(Debug, PartialEq, Eq)]
pub enum FieldKind {
    /// The `destination` field: its text is the target directory.
    Destination,
    /// A file to save.
    File,
}

/// The field named `destination` sets the target directory; every other
/// field is a file.
pub fn field_kind(name: &str) -> (r: FieldKind)
    ensures
        (r == FieldKind::Destination) <==> name@ == "destination"@,
{
    if str_eq(name, "destination") {
        FieldKind::Destination
    } else {
        FieldKind::File
    }
}

/// Where a file field goes once its bytes are read: refused while no
/// destination has been given, else the target of its file name (`unknown`
/// when the field has none).
pub fn file_upload_target(destination: &str, file_name: &Option<String>) -> (r: Result<UploadTarget, String>)
    ensures
        destination@.len() == 0 ==> (r matches Err(e) && e@ == "Missing 'destination' field in multipart upload"@),
        destination@.len() > 0 ==> (r matches Ok(t) && (t.dir@, t.base_name@, t.nested) == spec_upload_target(
            destination@,
            match file_name {
                Some(n) => n@,
                None => "unknown"@,
            },
        )),
{
    if destination.unicode_len() == 0 {
        return Err(missing_destination_error());
    }
    match file_name {
        Some(n) => Ok(upload_target(destination, n.as_str())),
        None => Ok(upload_target(destination, "unknown")),
    }
}


/// The extension of a file name for renaming: from its last `.` on, or
/// nothing when it has no `.`.
pub open spec fn dot_extension(name: Seq<char>) -> Seq<char> {
    match last_index_of(name, '.') {
        Some(i) => name.subrange(i, name.len() as int),
        None => seq![],
    }
}

/// A file name without its `dot_extension`.
pub open spec fn without_dot_extension(name: Seq<char>) -> Seq<char> {
    name.subrange(0, name.len() - dot_extension(name).len())
}

/// The `attempt`-th name tried for a file in `dir`: the name itself, then
/// the name with `-<date>` before its extension, then with `-<date>-<n>`
/// for `n` from 2 up.
pub open spec fn spec_dedup_candidate(dir: Seq<char>, name: Seq<char>, date: Seq<char>, attempt: nat) -> Seq<char> {
    if attempt == 0 {
        dir + "/"@ + name
    } else if attempt == 1 {
        dir + "/"@ + without_dot_extension(name) + "-"@ + date + dot_extension(name)
    } else {
        dir + "/"@ + without_dot_extension(name) + "-"@ + date + "-"@ + decimal(attempt) + dot_extension(name)
    }
}

/// The last name tried, when all others are taken: the name with
/// `-<date>-<millis>` before its extension.
pub open spec fn spec_dedup_fallback(dir: Seq<char>, name: Seq<char>, date: Seq<char>, millis: nat) -> Seq<char> {
    dir + "/"@ + without_dot_extension(name) + "-"@ + date + "-"@ + decimal(millis) + dot_extension(name)
}

/// The number of names tried before the fallback.
pub const DEDUP_ATTEMPTS: u64 = 100;

fn split_extension(name: &str) -> (r: (String, String))
    ensures
        r.0@ == without_dot_extension(name@),
        r.1@ == dot_extension(name@),
{
    let nv = chars_of(name);
    match rfind_char(&nv, '.') {
        Some(i) => {
            let stem = subvec(&nv, 0, i);
            let ext = subvec(&nv, i, nv.len());
            (string_of(&stem), string_of(&ext))
        },
        None => {
            assert(nv@.subrange(0, nv@.len() as int) =~= nv@);
            (String::from_str(name), String::new())
        },
    }
}

/// The `attempt`-th name tried for a file (`attempt` below 100).
pub fn dedup_candidate(dir: &str, name: &str, date: &str, attempt: u64) -> (r: String)
    requires
        attempt < DEDUP_ATTEMPTS,
    ensures
        r@ == spec_dedup_candidate(dir@, name@, date@, attempt as nat),
{
    let mut out = String::from_str(dir);
    out.append("/");
    if attempt == 0 {
        out.append(name);
        return out;
    }
    let (stem, ext) = split_extension(name);
    out.append(stem.as_str());
    out.append("-");
    out.append(date);
    if attempt >= 2 {
        out.append("-");
        out.append(u64_to_decimal(attempt).as_str());
    }
    out.append(ext.as_str());
    out
}

/// What follows asking whether a candidate name is taken.
#[derive(Debug, PartialEq, Eq)]
pub enum DedupStep {
    /// The name is free: use it.
    Use,
    /// The name is taken: try the candidate of this attempt.
    Next(u64),
    /// The last candidate is taken too: use the fallback name.
    Fallback,
}

/// After the `attempt`-th candidate was found free or taken: a free name is
/// used; a taken one leads to the next attempt, and after the last of the
/// 100 attempts to the fallback.
pub fn dedup_step(attempt: u64, taken: bool) -> (r: DedupStep)
    requires
        attempt < DEDUP_ATTEMPTS,
    ensures
        !taken ==> r == DedupStep::Use,
        taken && attempt + 1 < DEDUP_ATTEMPTS ==> r == DedupStep::Next((attempt + 1) as u64),
        taken && attempt + 1 >= DEDUP_ATTEMPTS ==> r == DedupStep::Fallback,
        r matches DedupStep::Next(a) ==> a < DEDUP_ATTEMPTS,
{
    if !taken {
        DedupStep::Use
    } else if attempt + 1 < DEDUP_ATTEMPTS {
        DedupStep::Next(attempt + 1)
    } else {
        DedupStep::Fallback
    }
}

/// The last name tried, with the current time in milliseconds.
pub fn dedup_fallback(dir: &str, name: &str, date: &str, millis: u64) -> (r: String)
    ensures
        r@ == spec_dedup_fallback(dir@, name@, date@, millis as nat),
{
    let (stem, ext) = split_extension(name);
    let mut out = String::from_str(dir);
    out.append("/");
    out.append(stem.as_str());
    out.append("-");
    out.append(date);
    out.append("-");
    out.append(u64_to_decimal(millis).as_str());
    out.append(ext.as_str());
    out
}

// ---------------------------------------------------------------------------
// Serving files
// ---------------------------------------------------------------------------

/// The media type guessed from a path's extension, `application/octet-stream`
/// when none is known (what `mime_guess::from_path(..).first_or_octet_stream()`
/// gives).
pub uninterp spec fn guessed_mime(path: Seq<char>) -> Seq<char>;

/// The media type of a file, guessed from its path.
///
/// Wraps `mime_guess::from_path` and `MimeGuess::first_or_octet_stream`; the
/// table of extensions is the crate's, and its result is named
/// `guessed_mime`.
#[verifier::external_body]
fn mime_for_path(path: &str) -> (r: String)
    ensures
        r@ == guessed_mime(path@),
{
    mime_guess::from_path(path).first_or_octet_stream().to_string()
}

/// The headers a served file is sent with: its guessed media type, and
/// caching for an hour.
pub fn serve_headers(path: &str) -> (r: Vec<(String, String)>)
    ensures
        r@.len() == 2,
        r@[0].0@ == "Content-Type"@,
        r@[0].1@ == guessed_mime(path@),
        r@[1].0@ == "Cache-Control"@,
        r@[1].1@ == "public, max-age=3600"@,
{
    let mut h: Vec<(String, String)> = Vec::new();
    h.push((String::from_str("Content-Type"), mime_for_path(path)));
    h.push((String::from_str("Cache-Control"), String::from_str("public, max-age=3600")));
    h
}

// ---------------------------------------------------------------------------
// Related wiki pages
// ---------------------------------------------------------------------------

/// What to do with an entry met while walking the wiki directory.
#[derive(Debug, PartialEq, Eq)]
pub enum EntryAction {
    /// A directory: walk into it.
    Descend,
    /// A page whose name begins with the source's slug: related.
    Related,
    /// A page whose content decides: related if it mentions the source.
    CheckContent,
    /// Anything else.
    Ignore,
}

/// The slug of a source file: its name up to the first `.`.
pub fn source_slug(source_name: &str) -> (r: String)
    ensures
        r@ == first_segment(source_name@, '.'),
{
    first_segment_str(source_name, '.')
}

/// The wiki directory of a project.
pub fn wiki_dir(project_path: &str) -> (r: String)
    ensures
        r@ == path_join(project_path@, "wiki"@),
{
    join(project_path, "wiki")
}

/// Directories are walked; markdown pages are related by their name when it
/// begins with the slug, and otherwise by their content; the rest is
/// ignored.
pub fn classify_entry(file_name: &str, is_dir: bool, slug: &str) -> (r: EntryAction)
    ensures
        is_dir ==> r == EntryAction::Descend,
        !is_dir && extension_of_name(file_name@) != Some(seq!['m', 'd']) ==> r == EntryAction::Ignore,
        !is_dir && extension_of_name(file_name@) == Some(seq!['m', 'd']) && is_prefix(slug@, file_name@) ==> r
            == EntryAction::Related,
        !is_dir && extension_of_name(file_name@) == Some(seq!['m', 'd']) && !is_prefix(slug@, file_name@) ==> r
            == EntryAction::CheckContent,
{
    if is_dir {
        EntryAction::Descend
    } else if !is_markdown_name(file_name) {
        EntryAction::Ignore
    } else if starts_with(file_name, slug) {
        EntryAction::Related
    } else {
        EntryAction::CheckContent
    }
}

/// A page relates to the source when its content mentions the source's name.
pub fn mentions_source(content: &str, source_name: &str) -> (r: bool)
    ensures
        r == contains(content@, source_name@),
{
    contains_str(content, source_name)
}

// ---------------------------------------------------------------------------
// Clip server
// ---------------------------------------------------------------------------

/// The status of the clip server.
#[derive(Debug)]
pub struct ClipStatus {
    pub status: String,
}

/// The clip server runs on its own, so its status is always `running`.
pub fn clip_status() -> (r: ClipStatus)
    ensures
        r.status@ == "running"@,
{
    ClipStatus { status: String::from_str("running") }
}

} // verus!
