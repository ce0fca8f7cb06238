//! On-disk layout, the dedup-by-folder-scan rules, and the per-post
//! download decisions.
//!
//! Layout: `<root>/_<provider> <safe_tag>/<provider>_<post_id>.<ext>`. The
//! extension does not take part in dedup.

use vstd::prelude::*;

use crate::error::{error_message, CoreError};
use crate::model::Post;
use crate::sanitize::{safe_folder_segment, safe_segment};
use crate::text::{
    chars_of, decimal_digits, decimal_text, ends_with, has_prefix,
    has_suffix, int_to_decimal, lemma_decimal_digits, lower_hex, owned, parse_i64,
    parse_i64_text, starts_with, str_eq, string_from_chars, to_lower_hex,
};

verus! {

/// Final state of one post's download.
#[derive(Debug, Clone, PartialEq, Eq)]
pub enum DownloadStatus {
    Saved,
    SkippedDuplicate,
    Cancelled,
    Failed(String),
}

/// What happened to one post. `file_path` is the saved file's path text.
#[derive(Debug, Clone)]
pub struct DownloadOutcome {
    pub post_id: i64,
    pub status: DownloadStatus,
    pub file_path: Option<String>,
    pub bytes: Option<u64>,
}

// ---------------------------------------------------------------------------
// Names
// ---------------------------------------------------------------------------

/// The folder of a subscription inside the download root:
/// `_<provider> <safe_tag>`.
pub open spec fn folder_name_of(provider_id: Seq<char>, normalized_tag: Seq<char>) -> Seq<char> {
    "_"@ + provider_id + " "@ + safe_segment(normalized_tag)
}

/// The folder of a subscription inside the download root.
pub fn folder_name(provider_id: &str, normalized_tag: &str) -> (r: String)
    ensures
        r@ == folder_name_of(provider_id@, normalized_tag@),
{
    let seg = safe_folder_segment(normalized_tag);
    let mut r = String::from_str("_");
    r.append(provider_id);
    r.append(" ");
    r.append(seg.as_str());
    r
}

/// The file name of a saved post: `<provider>_<post_id>.<ext>`.
pub open spec fn file_name_of(provider_id: Seq<char>, post_id: i64, ext: Seq<char>) -> Seq<char> {
    provider_id + "_"@ + decimal_text(post_id as int) + "."@ + ext
}

/// The extension a saved post gets: that of its original's URL, or `bin`.
pub open spec fn ext_or_bin(ext: Option<Seq<char>>) -> Seq<char> {
    match ext {
        Some(e) => e,
        None => "bin"@,
    }
}

/// The file name of a saved post.
pub fn post_file_name(provider_id: &str, post_id: i64, ext: Option<&str>) -> (r: String)
    ensures
        r@ == file_name_of(
            provider_id@,
            post_id,
            ext_or_bin(
                match ext {
                    Some(e) => Some(e@),
                    None => None,
                },
            ),
        ),
{
    let mut r = owned(provider_id);
    r.append("_");
    let id = int_to_decimal(post_id);
    r.append(id.as_str());
    r.append(".");
    match ext {
        Some(e) => r.append(e),
        None => r.append("bin"),
    }
    r
}

/// A character that may follow the last component of a path: a separator
/// (`/`, or `\` on Windows) or the `.` of a current-directory component.
pub open spec fn is_path_tail_char(c: char) -> bool {
    c == '/' || c == '\\' || c == '.'
}

/// `e` follows the `.` at index `k` of `url` and ends the last component:
/// after it `url` holds only separators and `.`.
pub open spec fn ext_at(url: Seq<char>, e: Seq<char>, k: int) -> bool {
    &&& 0 <= k
    &&& k + 1 + e.len() <= url.len()
    &&& url[k] == '.'
    &&& url.subrange(k + 1, k + 1 + e.len()) == e
    &&& forall|i: int| k + 1 + e.len() <= i < url.len() ==> is_path_tail_char(#[trigger] url[i])
}

/// `e` is the text after some `.` of `url`'s last path component.
pub open spec fn is_extension_in(url: Seq<char>, e: Seq<char>) -> bool {
    exists|k: int| #[trigger] ext_at(url, e, k)
}

/// Whether `c` is an ASCII letter.
pub open spec fn is_ascii_letter(c: char) -> bool {
    ('a' <= c <= 'z') || ('A' <= c <= 'Z')
}

/// The index of the last `c` in `s`, or -1.
pub open spec fn last_index_of(s: Seq<char>, c: char) -> int
    decreases s.len(),
{
    if s.len() == 0 {
        -1
    } else if s.last() == c {
        s.len() - 1
    } else {
        last_index_of(s.drop_last(), c)
    }
}

/// A URL that Unix and Windows path rules read alike: it starts with an
/// ASCII letter (so no root, UNC, verbatim or device prefix), holds no `\`,
/// and ends in neither `/` nor `.` (so its last component is the text after
/// its last `/`, and is not `.` or `..`); and its final `.` does not follow
/// a `:` right after the last `/` (where a drive prefix could cut a Windows
/// file name).
pub open spec fn path_alike(url: Seq<char>) -> bool {
    let k = last_index_of(url, '.');
    let j = last_index_of(url, '/');
    &&& url.len() > 0
    &&& is_ascii_letter(url[0])
    &&& forall|i: int| 0 <= i < url.len() ==> #[trigger] url[i] != '\\'
    &&& url.last() != '/'
    &&& url.last() != '.'
    &&& !(k > j + 1 && url[k - 1] == ':')
}

/// The extension of a path-alike URL: the text after its final `.` when
/// that `.` lies in the last component and does not start it, else none.
pub open spec fn path_extension(url: Seq<char>) -> Option<Seq<char>> {
    let k = last_index_of(url, '.');
    let j = last_index_of(url, '/');
    if k > j + 1 {
        Some(url.subrange(k + 1, url.len() as int))
    } else {
        None
    }
}

/// The view of an optional text.
pub open spec fn text_of(s: Option<String>) -> Option<Seq<char>> {
    match s {
        Some(x) => Some(x@),
        None => None,
    }
}

/// `Path::extension` of a URL read as a path: the part of its file name
/// (its last component) after the final `.`.
///
/// Claimed of the std function, from its documentation and that of
/// `Path::file_name` and `Path::components` (trailing separators and `.`
/// components are ignored; a file name that starts with its only `.` has no
/// extension): a returned extension is text of `url` that follows a `.`,
/// holds no `.` nor `/`, and is followed only by separators and `.`; and
/// for a URL that both platforms read alike (`path_alike`) it is exactly
/// `path_extension`. For other URLs, which text it returns, or whether it
/// returns any, rests on the platform's path syntax and is not stated.
#[verifier::external_body]
fn url_extension(url: &str) -> (r: Option<String>)
    ensures
        r matches Some(e) ==> is_extension_in(url@, e@) && !e@.contains('.') && !e@.contains('/'),
        path_alike(url@) ==> text_of(r) == path_extension(url@),
{
    std::path::Path::new(url).extension().and_then(|s| s.to_str()).map(|s| s.to_string())
}

/// Whether `n` is the name a post is saved under: `<provider>_<id>.bin`,
/// or `<provider>_<id>.<e>` with `e` an extension of its original's URL; and
/// for a path-alike URL, exactly its `path_extension` (`bin` for none).
pub open spec fn is_target_name(post: Post, n: Seq<char>) -> bool {
    &&& (n == file_name_of(post.provider_id@, post.post_id, "bin"@) || exists|e: Seq<char>|
        is_extension_in(post.variants.original.url@, e) && !e.contains('.')
            && #[trigger] file_name_of(post.provider_id@, post.post_id, e) == n)
    &&& path_alike(post.variants.original.url@) ==> n == file_name_of(
        post.provider_id@,
        post.post_id,
        ext_or_bin(path_extension(post.variants.original.url@)),
    )
}

/// The file name a post is saved under: its provider, id, and the
/// extension of its original's URL (`bin` when there is none).
pub fn target_file_name(post: &Post) -> (r: String)
    ensures
        is_target_name(*post, r@),
{
    let ext = url_extension(post.variants.original.url.as_str());
    match ext {
        Some(e) => {
            let r = post_file_name(post.provider_id.as_str(), post.post_id, Some(e.as_str()));
            assert(is_extension_in(post.variants.original.url@, e@) && !e@.contains('.')
                && file_name_of(post.provider_id@, post.post_id, e@) == r@);
            r
        },
        None => post_file_name(post.provider_id.as_str(), post.post_id, None),
    }
}

/// The name of the temporary file a download is written to before it is
/// renamed into place.
pub open spec fn partial_name_of(target: Seq<char>) -> Seq<char> {
    target + ".part"@
}

/// The name of the temporary file for `target`.
pub fn partial_file_name(target: &str) -> (r: String)
    ensures
        r@ == partial_name_of(target@),
{
    let mut r = owned(target);
    r.append(".part");
    r
}

// ---------------------------------------------------------------------------
// Folder scan
// ---------------------------------------------------------------------------

/// How the folder scan reads one directory entry.
#[derive(Debug, Clone, Copy, PartialEq, Eq, Structural)]
pub enum ScanEntry {
    /// A temporary `.part` file; never counted.
    Partial,
    /// A saved post with this id.
    PostFile(i64),
    /// Anything else.
    Other,
}

/// The part of `s` before its first `.` (all of `s` when it has none).
pub open spec fn before_dot(s: Seq<char>) -> Seq<char>
    decreases s.len(),
{
    if s.len() == 0 {
        s
    } else if s[0] == '.' {
        Seq::empty()
    } else {
        seq![s[0]] + before_dot(s.drop_first())
    }
}

/// How the scan classifies the entry `name` for `provider_id`.
pub open spec fn scan_entry_of(name: Seq<char>, provider_id: Seq<char>) -> ScanEntry {
    let prefix = provider_id + "_"@;
    if has_suffix(name, ".part"@) {
        ScanEntry::Partial
    } else if has_prefix(name, prefix) {
        match parse_i64_text(before_dot(name.skip(prefix.len() as int))) {
            Some(id) => ScanEntry::PostFile(id),
            None => ScanEntry::Other,
        }
    } else {
        ScanEntry::Other
    }
}

proof fn lemma_before_dot_prefix(s: Seq<char>, i: int)
    requires
        0 <= i <= s.len(),
        forall|k: int| 0 <= k < i ==> s[k] != '.',
    ensures
        before_dot(s) == s.take(i) + before_dot(s.skip(i)),
    decreases i,
{
    if i > 0 {
        lemma_before_dot_prefix(s.drop_first(), i - 1);
        assert(s.drop_first().skip(i - 1) =~= s.skip(i));
        assert(seq![s[0]] + s.drop_first().take(i - 1) =~= s.take(i));
    } else {
        assert(s.skip(0) =~= s);
        assert(s.take(0) =~= Seq::<char>::empty());
    }
}

/// The text before the first `.` of `v[start..]`.
fn before_dot_from(v: &Vec<char>, start: usize) -> (r: String)
    requires
        start <= v@.len(),
    ensures
        r@ == before_dot(v@.skip(start as int)),
{
    let mut i: usize = start;
    while i < v.len() && v[i] != '.'
        invariant
            start <= i <= v@.len(),
            forall|k: int| start <= k < i ==> v@[k] != '.',
        decreases v.len() - i,
    {
        i = i + 1;
    }
    let ghost s = v@.skip(start as int);
    proof {
        assert forall|k: int| 0 <= k < i - start implies s[k] != '.' by {
            assert(s[k] == v@[start + k]);
        }
        lemma_before_dot_prefix(s, i - start);
        assert(s.skip(i - start) =~= v@.skip(i as int));
        if i < v.len() {
            assert(v@.skip(i as int)[0] == '.');
        }
        assert(s.take(i - start) =~= v@.subrange(start as int, i as int));
    }
    string_from_chars(v, start, i)
}

/// Classifies one directory entry of a subscription's folder.
pub fn scan_entry(name: &str, provider_id: &str) -> (r: ScanEntry)
    ensures
        r == scan_entry_of(name@, provider_id@),
{
    if ends_with(name, ".part") {
        return ScanEntry::Partial;
    }
    let mut prefix = owned(provider_id);
    prefix.append("_");
    if !starts_with(name, prefix.as_str()) {
        return ScanEntry::Other;
    }
    let v = chars_of(name);
    let plen = chars_of(prefix.as_str()).len();
    let id_text = before_dot_from(&v, plen);
    match parse_i64(id_text.as_str()) {
        Some(id) => ScanEntry::PostFile(id),
        None => ScanEntry::Other,
    }
}

/// A temporary file left behind by a crashed run is removed by the scan
/// when it is older than 24 hours and smaller than 100 KB.
pub open spec fn reap_partial(age_secs: Option<u64>, len: u64) -> bool {
    match age_secs {
        Some(a) => a > 24 * 3600 && len < 100_000,
        None => false,
    }
}

/// Whether the scan removes a `.part` file of the given age (`None` when
/// its modification time cannot be read) and length.
pub fn should_reap_partial(age_secs: Option<u64>, len: u64) -> (r: bool)
    ensures
        r == reap_partial(age_secs, len),
{
    match age_secs {
        Some(a) => a > 24 * 3600 && len < 100_000,
        None => false,
    }
}

/// The ids that the scan finds among the entry names of a folder.
pub open spec fn scanned_ids(names: Seq<Seq<char>>, provider_id: Seq<char>) -> Set<i64> {
    Set::new(
        |id: i64|
            exists|i: int|
                0 <= i < names.len() && scan_entry_of(#[trigger] names[i], provider_id)
                    == ScanEntry::PostFile(id),
    )
}

/// The set of `post_id`s already on disk, from the entry names of the
/// folder (extension-agnostic).
pub fn known_post_ids(names: &Vec<String>, provider_id: &str) -> (r: std::collections::HashSet<
    i64,
>)
    ensures
        r@ == scanned_ids(names@.map_values(|n: String| n@), provider_id@),
{
    broadcast use vstd::std_specs::hash::group_hash_axioms;

    let ghost views = names@.map_values(|n: String| n@);
    let mut ids: std::collections::HashSet<i64> = std::collections::HashSet::new();
    let mut i: usize = 0;
    while i < names.len()
        invariant
            i <= names@.len(),
            views == names@.map_values(|n: String| n@),
            ids@ == scanned_ids(views.take(i as int), provider_id@),
        decreases names.len() - i,
    {
        let e = scan_entry(names[i].as_str(), provider_id);
        let ghost before = ids@;
        match e {
            ScanEntry::PostFile(id) => {
                ids.insert(id);
            },
            _ => {},
        }
        assert(views.take(i + 1) =~= views.take(i as int).push(views[i as int]));
        assert(ids@ =~= scanned_ids(views.take(i + 1), provider_id@)) by {
            assert forall|x: i64| ids@.contains(x) implies scanned_ids(
                views.take(i + 1),
                provider_id@,
            ).contains(x) by {
                if before.contains(x) {
                    let k = choose|k: int|
                        0 <= k < i && scan_entry_of(#[trigger] views.take(i as int)[k], provider_id@)
                            == ScanEntry::PostFile(x);
                    assert(views.take(i + 1)[k] == views.take(i as int)[k]);
                } else {
                    assert(views.take(i + 1)[i as int] == views[i as int]);
                }
            }
            assert forall|x: i64|
                scanned_ids(views.take(i + 1), provider_id@).contains(x) implies ids@.contains(
                x,
            ) by {
                let k = choose|k: int|
                    0 <= k < i + 1 && scan_entry_of(#[trigger] views.take(i + 1)[k], provider_id@)
                        == ScanEntry::PostFile(x);
                if k < i {
                    assert(views.take(i as int)[k] == views.take(i + 1)[k]);
                }
            }
        }
        i = i + 1;
    }
    assert(views.take(names@.len() as int) =~= views);
    ids
}

// ---------------------------------------------------------------------------
// Laws of the layout
// ---------------------------------------------------------------------------

proof fn lemma_parse_decimal(n: i64)
    ensures
        parse_i64_text(decimal_text(n as int)) == Some(n),
        !decimal_text(n as int).contains('.'),
{
    if n < 0 {
        let m = (-(n as int)) as nat;
        lemma_decimal_digits(m);
        let d = decimal_digits(m);
        let t = seq!['-'] + d;
        assert(t.drop_first() =~= d);
        assert(t[0] == '-');
        assert(!t.contains('.')) by {
            if t.contains('.') {
                let k = choose|k: int| 0 <= k < t.len() && t[k] == '.';
                if k > 0 {
                    assert(t[k] == d[k - 1]);
                }
            }
        }
    } else {
        lemma_decimal_digits(n as nat);
        let d = decimal_digits(n as nat);
        assert(d[0] != '-' && d[0] != '+');
        assert(!d.contains('.'));
    }
}

/// Dedup-by-folder-scan: the file a post is saved under is read back by the
/// scan as that post's id, whatever its extension (an extension is never
/// `part` and holds no `.`, as `Path::extension` gives it; `bin` too).
pub proof fn law_saved_file_is_recognized(provider_id: Seq<char>, post_id: i64, ext: Seq<char>)
    requires
        !ext.contains('.'),
        ext != "part"@,
    ensures
        scan_entry_of(file_name_of(provider_id, post_id, ext), provider_id) == ScanEntry::PostFile(
            post_id,
        ),
{
    let d = decimal_text(post_id as int);
    lemma_parse_decimal(post_id);
    let prefix = provider_id + "_"@;
    let name = file_name_of(provider_id, post_id, ext);
    let rest = d + "."@ + ext;
    reveal_strlit("_");
    reveal_strlit(".");
    reveal_strlit(".part");
    assert(name =~= prefix + rest);
    assert(name.take(prefix.len() as int) =~= prefix);
    assert(name.skip(prefix.len() as int) =~= rest);
    // Not a `.part` name.
    if has_suffix(name, ".part"@) {
        let n = name.len();
        let p = ".part"@;
        assert(name.skip(n - 5) == p);
        let dot = n - ext.len() - 1;
        assert(name[dot] == '.');
        assert(p[0] == '.' && p[1] == 'p' && p[2] == 'a' && p[3] == 'r' && p[4] == 't');
        if ext.len() >= 5 {
            assert(name.skip(n - 5)[0] == name[n - 5]);
            assert(name[n - 5] == '.');
            assert(ext[ext.len() - 5] == name[n - 5]);
            assert(ext.contains('.'));
        } else if ext.len() == 4 {
            assert forall|k: int| 0 <= k < 4 implies ext[k] == p[k + 1] by {
                assert(name[n - 4 + k] == ext[k]);
                assert(name.skip(n - 5)[k + 1] == name[n - 4 + k]);
            }
            reveal_strlit("part");
            assert(ext =~= "part"@);
        } else {
            let off = dot - (n - 5);
            assert(name.skip(n - 5)[off] == name[dot]);
            assert(p[off] != '.');
        }
    }
    // The id text is the decimal text.
    assert forall|k: int| 0 <= k < d.len() implies rest[k] != '.' by {
        assert(rest[k] == d[k]);
        if d[k] == '.' {
            assert(d.contains('.'));
        }
    }
    lemma_before_dot_prefix(rest, d.len() as int);
    assert(rest.skip(d.len() as int)[0] == '.');
    assert(rest.take(d.len() as int) =~= d);
    assert(before_dot(rest.skip(d.len() as int)) =~= Seq::<char>::empty());
    assert(before_dot(rest) =~= d);
}

/// A temporary file is never counted as a saved post.
pub proof fn law_partial_file_is_never_counted(target: Seq<char>, provider_id: Seq<char>)
    ensures
        scan_entry_of(partial_name_of(target), provider_id) == ScanEntry::Partial,
{
    reveal_strlit(".part");
    let n = partial_name_of(target);
    assert(n.skip(n.len() - 5) =~= ".part"@);
}

// ---------------------------------------------------------------------------
// Per-post decisions
// ---------------------------------------------------------------------------

/// The number of downloads allowed at once: the configured concurrency,
/// at least one.
pub fn permit_count(concurrency: usize) -> (r: usize)
    ensures
        r == if concurrency >= 1 {
            concurrency
        } else {
            1
        },
{
    if concurrency >= 1 {
        concurrency
    } else {
        1
    }
}

/// The outcome decided before any network work: a cancelled job yields
/// `Cancelled`, a post already on disk `SkippedDuplicate`, anything else
/// must be downloaded (`None`).
pub fn precheck(post_id: i64, cancelled: bool, already_have: bool) -> (r: Option<DownloadOutcome>)
    ensures
        cancelled ==> (r matches Some(o) && o.status == DownloadStatus::Cancelled && o.post_id
            == post_id && o.file_path is None && o.bytes is None),
        !cancelled && already_have ==> (r matches Some(o) && o.status
            == DownloadStatus::SkippedDuplicate && o.post_id == post_id && o.file_path is None
            && o.bytes is None),
        !cancelled && !already_have ==> r is None,
{
    if cancelled {
        Some(DownloadOutcome {
            post_id,
            status: DownloadStatus::Cancelled,
            file_path: None,
            bytes: None,
        })
    } else if already_have {
        Some(DownloadOutcome {
            post_id,
            status: DownloadStatus::SkippedDuplicate,
            file_path: None,
            bytes: None,
        })
    } else {
        None
    }
}

/// The outcome of a download attempt: the saved path and size, `Cancelled`,
/// or `Failed` with the error's message.
pub fn outcome_of(post_id: i64, result: Result<(String, u64), CoreError>) -> (r: DownloadOutcome)
    ensures
        r.post_id == post_id,
        match result {
            Ok((path, bytes)) => r.status == DownloadStatus::Saved && r.file_path == Some(path)
                && r.bytes == Some(bytes),
            Err(CoreError::Cancelled) => r.status == DownloadStatus::Cancelled && r.file_path
                is None && r.bytes is None,
            Err(e) => (r.status matches DownloadStatus::Failed(m) && m@ == error_message(e))
                && r.file_path is None && r.bytes is None,
        },
{
    match result {
        Ok((path, bytes)) => DownloadOutcome {
            post_id,
            status: DownloadStatus::Saved,
            file_path: Some(path),
            bytes: Some(bytes),
        },
        Err(CoreError::Cancelled) => DownloadOutcome {
            post_id,
            status: DownloadStatus::Cancelled,
            file_path: None,
            bytes: None,
        },
        Err(e) => DownloadOutcome {
            post_id,
            status: DownloadStatus::Failed(e.message()),
            file_path: None,
            bytes: None,
        },
    }
}

/// Whether a download that failed under the standard policy is tried once
/// more under the fast one: only after an MD5 mismatch.
pub fn needs_fast_retry<T>(result: &Result<T, CoreError>) -> (r: bool)
    ensures
        r == (result matches Err(e) && e is Md5Mismatch),
{
    match result {
        Err(CoreError::Md5Mismatch { .. }) => true,
        _ => false,
    }
}

// ---------------------------------------------------------------------------
// MD5 verification
// ---------------------------------------------------------------------------

/// What `Md5::digest` returns for the given bytes.
pub uninterp spec fn md5_of(data: Seq<u8>) -> Seq<u8>;

/// `md5::Md5::digest`: the MD5 digest of `data`.
///
/// Claimed of the outside function: the result is a function of the bytes
/// alone (`md5_of`) and has 16 bytes (the hasher's output size, `U16`).
#[verifier::external_body]
fn md5_digest(data: &[u8]) -> (r: Vec<u8>)
    ensures
        r@ == md5_of(data@),
        r@.len() == 16,
{
    <md5::Md5 as md5::Digest>::digest(data).to_vec()
}

/// The lowercase hex MD5 of `data`, as `format!("{:x}", digest)` writes it.
pub open spec fn md5_hex_of(data: Seq<u8>) -> Seq<char> {
    lower_hex(md5_of(data))
}

/// The lowercase hex MD5 of `data`.
pub fn md5_hex(data: &[u8]) -> (r: String)
    ensures
        r@ == md5_hex_of(data@),
        r@.len() == 32,
{
    let d = md5_digest(data);
    proof {
        lemma_lower_hex_len(d@);
    }
    to_lower_hex(&d)
}

proof fn lemma_lower_hex_len(b: Seq<u8>)
    ensures
        lower_hex(b).len() == 2 * b.len(),
    decreases b.len(),
{
    if b.len() > 0 {
        lemma_lower_hex_len(b.drop_last());
    }
}

/// Checks downloaded bytes against the post's MD5: `Ok` when the lowercase
/// hex digest equals `expected`, else `Md5Mismatch` with both values.
pub fn verify_md5(data: &[u8], expected: &str) -> (r: Result<(), CoreError>)
    ensures
        md5_hex_of(data@) == expected@ ==> r is Ok,
        md5_hex_of(data@) != expected@ ==> (r matches Err(
            CoreError::Md5Mismatch { expected: e, actual: a },
        ) && e@ == expected@ && a@ == md5_hex_of(data@)),
{
    let computed = md5_hex(data);
    if str_eq(computed.as_str(), expected) {
        Ok(())
    } else {
        Err(CoreError::Md5Mismatch { expected: owned(expected), actual: computed })
    }
}

/// A fetched body, checked: the file name to save it under and its size
/// when its MD5 is the post's, the mismatch otherwise.
pub fn accept_body(post: &Post, data: &[u8]) -> (r: Result<(String, u64), CoreError>)
    ensures
        md5_hex_of(data@) == post.md5@ ==> (r matches Ok((name, size)) && is_target_name(
            *post,
            name@,
        ) && size == data@.len()),
        md5_hex_of(data@) != post.md5@ ==> (r matches Err(
            CoreError::Md5Mismatch { expected: e, actual: a },
        ) && e@ == post.md5@ && a@ == md5_hex_of(data@)),
{
    match verify_md5(data, post.md5.as_str()) {
        Ok(()) => {
            let name = target_file_name(post);
            Ok((name, data.len() as u64))
        },
        Err(e) => Err(e),
    }
}

} // verus!
