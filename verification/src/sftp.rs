//! The file workstation: resolving requests against the workspace root,
//! checking entry names, listing a directory in display order, and the
//! records of file operations.
//!
//! Paths are held as text; those the file system hands back are canonical.
use vstd::prelude::*;
use vstd::multiset::Multiset;
use crate::text::{
    chars_of, push_chars, push_str, string_from_chars, chars_eq_str, trim, trim_chars,
    contains_char, radix_chars, octal, copy_range,
};
use crate::paths::{join_path, join_str, join_chars, file_name, path_starts_with, file_name_chars, path_starts_with_chars};
use crate::order::{Keyed, lex_le, sort_by_key, into_items, stable_sort_by};
use crate::fresh::{timestamp_of, timestamp_from_seconds};
use crate::models::{SftpEntryNode, SftpDirectorySnapshot, SftpOperationResult};
use crate::scripts::opt_text;

verus! {

broadcast use vstd::seq_lib::group_to_multiset_ensures;

/// The lower-case form of a text, as std's `str::to_lowercase` gives it
/// (Unicode lower-case mapping).
pub uninterp spec fn lowercase(s: Seq<char>) -> Seq<char>;

/// std's `str::to_lowercase`; the result is named `lowercase`.
#[verifier::external_body]
fn to_lowercase_str(s: &str) -> (res: String)
    ensures
        res@ == lowercase(s@),
{
    s.to_lowercase()
}

/// Why a file request was refused.
#[derive(Debug)]
pub enum SftpError {
    /// The requested directory does not exist; it holds the path as resolved.
    DirectoryNotFound(String),
    /// The workspace root could not be resolved; it holds the root.
    RootUnavailable(String),
    /// The directory lies outside the workspace root.
    DirectoryEscapesRoot,
    /// The path is not a directory.
    NotADirectory,
    /// The requested entry does not exist; it holds the path as resolved.
    EntryNotFound(String),
    /// The entry lies outside the workspace root.
    EntryEscapesRoot,
    /// The entry name is empty once trimmed.
    EmptyName,
    /// The entry name is `.` or `..`.
    DotName,
    /// The entry name holds `/` or `\`.
    SeparatorInName,
    /// The upload source does not exist; it holds the requested path.
    UploadSourceNotFound(String),
    /// The upload source is not a file.
    UploadSourceNotFile,
    /// The download source is not a file.
    DownloadSourceNotFile,
}

/// A file error as plain values.
pub enum SftpErrorView {
    DirectoryNotFound(Seq<char>),
    RootUnavailable(Seq<char>),
    DirectoryEscapesRoot,
    NotADirectory,
    EntryNotFound(Seq<char>),
    EntryEscapesRoot,
    EmptyName,
    DotName,
    SeparatorInName,
    UploadSourceNotFound(Seq<char>),
    UploadSourceNotFile,
    DownloadSourceNotFile,
}

/// The plain values of a file error.
pub open spec fn sftp_error_view(e: SftpError) -> SftpErrorView {
    match e {
        SftpError::DirectoryNotFound(p) => SftpErrorView::DirectoryNotFound(p@),
        SftpError::RootUnavailable(p) => SftpErrorView::RootUnavailable(p@),
        SftpError::DirectoryEscapesRoot => SftpErrorView::DirectoryEscapesRoot,
        SftpError::NotADirectory => SftpErrorView::NotADirectory,
        SftpError::EntryNotFound(p) => SftpErrorView::EntryNotFound(p@),
        SftpError::EntryEscapesRoot => SftpErrorView::EntryEscapesRoot,
        SftpError::EmptyName => SftpErrorView::EmptyName,
        SftpError::DotName => SftpErrorView::DotName,
        SftpError::SeparatorInName => SftpErrorView::SeparatorInName,
        SftpError::UploadSourceNotFound(p) => SftpErrorView::UploadSourceNotFound(p@),
        SftpError::UploadSourceNotFile => SftpErrorView::UploadSourceNotFile,
        SftpError::DownloadSourceNotFile => SftpErrorView::DownloadSourceNotFile,
    }
}

fn prefixed(prefix: &str, tail: &str) -> (res: String)
    ensures
        res@ == prefix@ + tail@,
{
    let mut out: Vec<char> = Vec::new();
    push_str(&mut out, prefix);
    push_str(&mut out, tail);
    string_from_chars(&out)
}

impl SftpError {
    /// The message that the error is reported with.
    pub fn message(&self) -> (res: String)
        ensures
            res@ == self.spec_message(),
    {
        match self {
            SftpError::DirectoryNotFound(p) => prefixed("directory not found: ", p.as_str()),
            SftpError::RootUnavailable(p) => prefixed("failed to canonicalize sftp workspace root: ", p.as_str()),
            SftpError::DirectoryEscapesRoot => "directory escapes sftp workspace root".to_owned(),
            SftpError::NotADirectory => "target path is not a directory".to_owned(),
            SftpError::EntryNotFound(p) => prefixed("entry not found: ", p.as_str()),
            SftpError::EntryEscapesRoot => "entry escapes sftp workspace root".to_owned(),
            SftpError::EmptyName => "entry name cannot be empty".to_owned(),
            SftpError::DotName => "entry name cannot be dot path".to_owned(),
            SftpError::SeparatorInName => "entry name cannot contain path separators".to_owned(),
            SftpError::UploadSourceNotFound(p) => prefixed("upload source not found: ", p.as_str()),
            SftpError::UploadSourceNotFile => "upload source is not a file".to_owned(),
            SftpError::DownloadSourceNotFile => "download source is not a file".to_owned(),
        }
    }

    /// The message text of each error.
    pub open spec fn spec_message(&self) -> Seq<char> {
        match self {
            SftpError::DirectoryNotFound(p) => "directory not found: "@ + p@,
            SftpError::RootUnavailable(p) => "failed to canonicalize sftp workspace root: "@ + p@,
            SftpError::DirectoryEscapesRoot => "directory escapes sftp workspace root"@,
            SftpError::NotADirectory => "target path is not a directory"@,
            SftpError::EntryNotFound(p) => "entry not found: "@ + p@,
            SftpError::EntryEscapesRoot => "entry escapes sftp workspace root"@,
            SftpError::EmptyName => "entry name cannot be empty"@,
            SftpError::DotName => "entry name cannot be dot path"@,
            SftpError::SeparatorInName => "entry name cannot contain path separators"@,
            SftpError::UploadSourceNotFound(p) => "upload source not found: "@ + p@,
            SftpError::UploadSourceNotFile => "upload source is not a file"@,
            SftpError::DownloadSourceNotFile => "download source is not a file"@,
        }
    }
}

/// What an entry name is checked to: trimmed, not empty, not `.` or `..`,
/// and free of `/` and `\`.
pub open spec fn checked_entry_name(value: Seq<char>) -> Result<Seq<char>, SftpErrorView> {
    let t = trim(value);
    if t.len() == 0 {
        Err(SftpErrorView::EmptyName)
    } else if t == "."@ || t == ".."@ {
        Err(SftpErrorView::DotName)
    } else if t.contains('/') || t.contains('\\') {
        Err(SftpErrorView::SeparatorInName)
    } else {
        Ok(t)
    }
}

/// Checks a name for a new workspace entry.
pub fn sanitize_entry_name(value: &str) -> (res: Result<String, SftpError>)
    ensures
        match res {
            Ok(n) => checked_entry_name(value@) == Ok::<Seq<char>, SftpErrorView>(n@),
            Err(e) => checked_entry_name(value@) == Err::<Seq<char>, SftpErrorView>(sftp_error_view(e)),
        },
{
    let v = chars_of(value);
    let t = trim_chars(&v);
    if t.len() == 0 {
        return Err(SftpError::EmptyName);
    }
    if chars_eq_str(&t, ".") || chars_eq_str(&t, "..") {
        return Err(SftpError::DotName);
    }
    if contains_char(&t, '/') || contains_char(&t, '\\') {
        return Err(SftpError::SeparatorInName);
    }
    Ok(string_from_chars(&t))
}

/// The permission bits of a Unix file mode in octal, as `format!("{:o}",
/// mode & 0o777)` writes them.
pub fn permissions_string(mode: u32) -> (res: String)
    ensures
        res@ == octal((mode % 512) as nat),
{
    let bits = mode & 0o777u32;
    assert(mode & 0o777u32 == mode % 512) by (bit_vector);
    let digits = radix_chars(bits as u64, 8);
    string_from_chars(&digits)
}

/// One entry of a directory as the file system reports it.
pub struct SftpDirEntry {
    pub name: String,
    pub path: String,
    pub is_dir: bool,
    pub is_file: bool,
    pub len: u64,
    pub mode: u32,
    pub modified_secs: Option<u64>,
}

/// A listed entry as plain values.
pub struct SftpEntryView {
    pub name: Seq<char>,
    pub path: Seq<char>,
    pub kind: Seq<char>,
    pub size_bytes: u64,
    pub permissions: Seq<char>,
    pub modified_at: i64,
}

/// The plain values of a listed entry.
pub open spec fn node_view(n: SftpEntryNode) -> SftpEntryView {
    SftpEntryView {
        name: n.name@,
        path: n.path@,
        kind: n.kind@,
        size_bytes: n.size_bytes,
        permissions: n.permissions@,
        modified_at: n.modified_at,
    }
}

/// How a directory entry is listed: a directory or a file, the size of a
/// file (0 for anything else), its permission bits in octal and its
/// modification time.
pub open spec fn node_for(e: SftpDirEntry) -> SftpEntryView {
    SftpEntryView {
        name: e.name@,
        path: e.path@,
        kind: if e.is_dir {
            "directory"@
        } else {
            "file"@
        },
        size_bytes: if e.is_file {
            e.len
        } else {
            0
        },
        permissions: octal((e.mode % 512) as nat),
        modified_at: timestamp_of(e.modified_secs),
    }
}

/// The key a listing is ordered by: files before directories (the reverse of
/// the order of the kind names), then by lower-cased name.
pub open spec fn listing_key(kind: Seq<char>, name: Seq<char>) -> Seq<char> {
    seq![if kind == "file"@ { '0' } else { '1' }] + lowercase(name)
}

/// Two entries in listing order: a file never follows a directory, and two
/// entries of the same kind are in order of their lower-cased names.
pub proof fn lemma_listing_key_order(k1: Seq<char>, n1: Seq<char>, k2: Seq<char>, n2: Seq<char>)
    requires
        lex_le(listing_key(k1, n1), listing_key(k2, n2)),
    ensures
        k1 == "file"@ || k2 != "file"@,
        k1 == k2 ==> lex_le(lowercase(n1), lowercase(n2)),
{
    let a = listing_key(k1, n1);
    let b = listing_key(k2, n2);
    assert(a[0] == (if k1 == "file"@ { '0' } else { '1' }));
    assert(b[0] == (if k2 == "file"@ { '0' } else { '1' }));
    assert(a.drop_first() =~= lowercase(n1));
    assert(b.drop_first() =~= lowercase(n2));
}

/// A directory's listing: its entries stably sorted by listing key.
pub open spec fn directory_listing(entries: Seq<SftpDirEntry>) -> Seq<SftpEntryView> {
    stable_sort_by(listed_entries(entries), |v: SftpEntryView| listing_key(v.kind, v.name))
}

/// The listing order of the directory's entries.
pub open spec fn listed_entries(entries: Seq<SftpDirEntry>) -> Seq<SftpEntryView> {
    entries.map_values(|e: SftpDirEntry| node_for(e))
}

/// The settings of the file workspace: the directory that requests are
/// confined to.
pub struct SftpWorkspace {
    root_dir: String,
}

impl SftpWorkspace {
    /// The workspace root.
    pub closed spec fn root_view(&self) -> Seq<char> {
        self.root_dir@
    }

    /// A workspace rooted at `root_dir`.
    pub fn new(root_dir: String) -> (res: SftpWorkspace)
        ensures
            res.root_view() == root_dir@,
    {
        SftpWorkspace { root_dir }
    }

    /// The workspace root.
    pub fn root_dir(&self) -> (res: &str)
        ensures
            res@ == self.root_view(),
    {
        self.root_dir.as_str()
    }

    /// The path a directory request names before it is canonicalized: the
    /// root where no (or an empty) path is given; otherwise the path, below
    /// the root where it is relative.
    pub fn directory_candidate(&self, requested: Option<&str>) -> (res: String)
        ensures
            res@ == directory_candidate_for(self.root_view(), match requested {
                Some(r) => Some(r@),
                None => None,
            }),
    {
        match requested {
            Some(r) => {
                if r.is_empty() {
                    join_str(self.root_dir.as_str(), self.root_dir.as_str())
                } else {
                    join_str(self.root_dir.as_str(), r)
                }
            },
            None => join_str(self.root_dir.as_str(), self.root_dir.as_str()),
        }
    }

    /// Resolves a directory request, given the canonical forms of its
    /// candidate path and of the root (`None` where canonicalizing failed)
    /// and whether the canonical path is a directory.
    pub fn resolve_directory(
        &self,
        requested: Option<&str>,
        canonical: Option<String>,
        canonical_root: Option<String>,
        is_dir: bool,
    ) -> (res: Result<String, SftpError>)
        ensures
            match res {
                Ok(d) => resolved_directory(self.root_view(), match requested {
                    Some(r) => Some(r@),
                    None => None,
                }, opt_text(canonical), opt_text(canonical_root), is_dir) == Ok::<Seq<char>, SftpErrorView>(d@),
                Err(e) => resolved_directory(self.root_view(), match requested {
                    Some(r) => Some(r@),
                    None => None,
                }, opt_text(canonical), opt_text(canonical_root), is_dir) == Err::<Seq<char>, SftpErrorView>(sftp_error_view(e)),
            },
            (canonical is Some && canonical_root is Some && path_starts_with(
                canonical->Some_0@,
                canonical_root->Some_0@,
            ) && is_dir) ==> (res is Ok && res->Ok_0@ == canonical->Some_0@),
            res is Ok ==> (canonical is Some && canonical_root is Some && path_starts_with(
                res->Ok_0@,
                canonical_root->Some_0@,
            ) && is_dir && res->Ok_0@ == canonical->Some_0@),
    {
        let target = match canonical {
            None => {
                return Err(SftpError::DirectoryNotFound(self.directory_candidate(requested)));
            },
            Some(t) => t,
        };
        let root = match canonical_root {
            None => {
                return Err(SftpError::RootUnavailable(self.root_dir.clone()));
            },
            Some(r) => r,
        };
        let tc = chars_of(target.as_str());
        let rc = chars_of(root.as_str());
        if !path_starts_with_chars(&tc, &rc) {
            return Err(SftpError::DirectoryEscapesRoot);
        }
        if !is_dir {
            return Err(SftpError::NotADirectory);
        }
        Ok(target)
    }

    /// The path an entry request names before it is canonicalized.
    pub fn entry_candidate(&self, requested: &str) -> (res: String)
        ensures
            res@ == join_path(self.root_view(), requested@),
    {
        join_str(self.root_dir.as_str(), requested)
    }

    /// Resolves an entry request, given the canonical forms of its candidate
    /// path and of the root (`None` where canonicalizing failed).
    pub fn resolve_entry(
        &self,
        requested: &str,
        canonical: Option<String>,
        canonical_root: Option<String>,
    ) -> (res: Result<String, SftpError>)
        ensures
            match res {
                Ok(d) => resolved_entry(self.root_view(), requested@, opt_text(canonical), opt_text(canonical_root)) == Ok::<Seq<char>, SftpErrorView>(d@),
                Err(e) => resolved_entry(self.root_view(), requested@, opt_text(canonical), opt_text(canonical_root)) == Err::<Seq<char>, SftpErrorView>(sftp_error_view(e)),
            },
            (canonical is Some && canonical_root is Some && path_starts_with(
                canonical->Some_0@,
                canonical_root->Some_0@,
            )) ==> (res is Ok && res->Ok_0@ == canonical->Some_0@),
            res is Ok ==> (canonical is Some && canonical_root is Some && path_starts_with(
                res->Ok_0@,
                canonical_root->Some_0@,
            ) && res->Ok_0@ == canonical->Some_0@),
    {
        let target = match canonical {
            None => {
                return Err(SftpError::EntryNotFound(self.entry_candidate(requested)));
            },
            Some(t) => t,
        };
        let root = match canonical_root {
            None => {
                return Err(SftpError::RootUnavailable(self.root_dir.clone()));
            },
            Some(r) => r,
        };
        let tc = chars_of(target.as_str());
        let rc = chars_of(root.as_str());
        if !path_starts_with_chars(&tc, &rc) {
            return Err(SftpError::EntryEscapesRoot);
        }
        Ok(target)
    }
}

/// The candidate path of a directory request.
pub open spec fn directory_candidate_for(root: Seq<char>, requested: Option<Seq<char>>) -> Seq<char> {
    match requested {
        Some(r) => if r.len() == 0 {
            join_path(root, root)
        } else {
            join_path(root, r)
        },
        None => join_path(root, root),
    }
}

/// What a directory request resolves to: not found, root unavailable,
/// outside the root, not a directory, or the canonical path.
pub open spec fn resolved_directory(
    root: Seq<char>,
    requested: Option<Seq<char>>,
    canonical: Option<Seq<char>>,
    canonical_root: Option<Seq<char>>,
    is_dir: bool,
) -> Result<Seq<char>, SftpErrorView> {
    match canonical {
        None => Err(SftpErrorView::DirectoryNotFound(directory_candidate_for(root, requested))),
        Some(t) => match canonical_root {
            None => Err(SftpErrorView::RootUnavailable(root)),
            Some(r) => if !path_starts_with(t, r) {
                Err(SftpErrorView::DirectoryEscapesRoot)
            } else if !is_dir {
                Err(SftpErrorView::NotADirectory)
            } else {
                Ok(t)
            },
        },
    }
}

/// What an entry request resolves to: not found, root unavailable, outside
/// the root, or the canonical path.
pub open spec fn resolved_entry(
    root: Seq<char>,
    requested: Seq<char>,
    canonical: Option<Seq<char>>,
    canonical_root: Option<Seq<char>>,
) -> Result<Seq<char>, SftpErrorView> {
    match canonical {
        None => Err(SftpErrorView::EntryNotFound(join_path(root, requested))),
        Some(t) => match canonical_root {
            None => Err(SftpErrorView::RootUnavailable(root)),
            Some(r) => if !path_starts_with(t, r) {
                Err(SftpErrorView::EntryEscapesRoot)
            } else {
                Ok(t)
            },
        },
    }
}

/// How a directory entry is listed.
pub fn entry_node(e: &SftpDirEntry) -> (res: SftpEntryNode)
    ensures
        node_view(res) == node_for(*e),
{
    SftpEntryNode {
        name: e.name.clone(),
        path: e.path.clone(),
        kind: if e.is_dir {
            "directory".to_owned()
        } else {
            "file".to_owned()
        },
        size_bytes: if e.is_file {
            e.len
        } else {
            0
        },
        permissions: permissions_string(e.mode),
        modified_at: timestamp_from_seconds(e.modified_secs),
    }
}

/// The ordering key of a listed entry.
fn entry_key(node: &SftpEntryNode) -> (res: Vec<char>)
    ensures
        res@ == listing_key(node.kind@, node.name@),
{
    let mut key: Vec<char> = Vec::new();
    let kind = chars_of(node.kind.as_str());
    if chars_eq_str(&kind, "file") {
        key.push('0');
    } else {
        key.push('1');
    }
    let lower = to_lowercase_str(node.name.as_str());
    push_str(&mut key, lower.as_str());
    key
}

impl SftpWorkspace {
    /// The listing of the directory `current_path` from its entries as the
    /// file system reports them: every entry listed once, files before
    /// directories, each group in order of lower-cased name, entries with
    /// equal keys in the order reported.
    pub fn list_directory(&self, current_path: &str, entries: Vec<SftpDirEntry>) -> (res: SftpDirectorySnapshot)
        ensures
            res.root_path@ == self.root_view(),
            res.current_path@ == current_path@,
            res.total_entries == res.entries@.len(),
            res.entries@.map_values(|n: SftpEntryNode| node_view(n)) == stable_sort_by(
                listed_entries(entries@),
                |v: SftpEntryView| listing_key(v.kind, v.name),
            ),
            forall|i: int, j: int|
                0 <= i < j < res.entries@.len() ==> lex_le(
                    listing_key((#[trigger] res.entries@[i]).kind@, res.entries@[i].name@),
                    listing_key((#[trigger] res.entries@[j]).kind@, res.entries@[j].name@),
                ),
            forall|i: int, j: int|
                0 <= i < j < res.entries@.len() ==> (#[trigger] res.entries@[i]).kind@ == "file"@
                    || (#[trigger] res.entries@[j]).kind@ != "file"@,
            forall|i: int, j: int|
                0 <= i < j < res.entries@.len() && (#[trigger] res.entries@[i]).kind@
                    == (#[trigger] res.entries@[j]).kind@ ==> lex_le(
                    lowercase(res.entries@[i].name@),
                    lowercase(res.entries@[j].name@),
                ),
    {
        let ghost f = |k: Keyed<SftpEntryNode>| node_view(k.item);
        let mut keyed: Vec<Keyed<SftpEntryNode>> = Vec::new();
        let mut i: usize = 0;
        while i < entries.len()
            invariant
                i <= entries@.len(),
                keyed@.len() == i,
                f == (|k: Keyed<SftpEntryNode>| node_view(k.item)),
                keyed@.map_values(f) =~= listed_entries(entries@.take(i as int)),
                forall|k: int| 0 <= k < keyed@.len() ==> (#[trigger] keyed@[k]).key@ == listing_key(keyed@[k].item.kind@, keyed@[k].item.name@),
            decreases entries@.len() - i,
        {
            let node = entry_node(&entries[i]);
            let key = entry_key(&node);
            let ghost before = keyed@;
            keyed.push(Keyed { key, item: node });
            proof {
                assert(entries@.take(i + 1) =~= entries@.take(i as int).push(entries@[i as int]));
                assert(keyed@ =~= before.push(keyed@[i as int]));
                assert(keyed@.map_values(f) =~= before.map_values(f).push(f(keyed@[i as int])));
                assert(listed_entries(entries@.take(i + 1)) =~= listed_entries(entries@.take(i as int)).push(node_for(entries@[i as int])));
            }
            i = i + 1;
        }
        proof {
            assert(entries@.take(entries@.len() as int) =~= entries@);
        }
        let ghost unsorted = keyed@;
        let ghost key_of = |v: SftpEntryView| listing_key(v.kind, v.name);
        let sorted = sort_by_key::<SftpEntryNode, SftpEntryView>(keyed, Ghost(f), Ghost(key_of));
        let ghost all = sorted@;
        let nodes = into_items(sorted);
        proof {
            assert(nodes@.map_values(|n: SftpEntryNode| node_view(n)) =~= all.map_values(f));
            assert forall|i: int, j: int| 0 <= i < j < nodes@.len() implies lex_le(
                listing_key((#[trigger] nodes@[i]).kind@, nodes@[i].name@),
                listing_key((#[trigger] nodes@[j]).kind@, nodes@[j].name@),
            ) by {
                assert(lex_le(all[i].key@, all[j].key@));
                assert(all.contains(all[i]));
                assert(all.contains(all[j]));
                assert(unsorted.to_multiset().count(all[i]) > 0);
                assert(unsorted.to_multiset().count(all[j]) > 0);
                assert(unsorted.contains(all[i]));
                assert(unsorted.contains(all[j]));
            }
            assert forall|i: int, j: int| 0 <= i < j < nodes@.len() implies (#[trigger] nodes@[i]).kind@ == "file"@
                || (#[trigger] nodes@[j]).kind@ != "file"@ by {
                lemma_listing_key_order(nodes@[i].kind@, nodes@[i].name@, nodes@[j].kind@, nodes@[j].name@);
            }
            assert forall|i: int, j: int| 0 <= i < j < nodes@.len() && (#[trigger] nodes@[i]).kind@
                == (#[trigger] nodes@[j]).kind@ implies lex_le(
                lowercase(nodes@[i].name@),
                lowercase(nodes@[j].name@),
            ) by {
                lemma_listing_key_order(nodes@[i].kind@, nodes@[i].name@, nodes@[j].kind@, nodes@[j].name@);
            }
        }
        let total = nodes.len();
        SftpDirectorySnapshot {
            root_path: self.root_dir.clone(),
            current_path: current_path.to_owned(),
            entries: nodes,
            total_entries: total,
        }
    }

    /// The record of creating the directory `name` in the resolved
    /// directory `parent`, once the name is checked.
    pub fn create_directory(&self, parent: &str, name: &str) -> (res: Result<SftpOperationResult, SftpError>)
        ensures
            match res {
                Ok(r) => {
                    &&& checked_entry_name(name@) is Ok
                    &&& r.action@ == "mkdir"@
                    &&& r.source_path is None
                    &&& r.target_path@ == join_path(parent@, checked_entry_name(name@)->Ok_0)
                    &&& r.bytes_transferred == 0
                },
                Err(e) => checked_entry_name(name@) == Err::<Seq<char>, SftpErrorView>(sftp_error_view(e)),
            },
    {
        let checked = match sanitize_entry_name(name) {
            Ok(n) => n,
            Err(e) => {
                return Err(e);
            },
        };
        let target = join_str(parent, checked.as_str());
        Ok(SftpOperationResult {
            action: "mkdir".to_owned(),
            source_path: None,
            target_path: target,
            bytes_transferred: 0,
        })
    }

    /// The record of deleting the resolved entry `target`.
    pub fn delete_entry(&self, target: &str) -> (res: SftpOperationResult)
        ensures
            res.action@ == "delete"@,
            opt_text(res.source_path) == Some(target@),
            res.target_path@ == target@,
            res.bytes_transferred == 0,
    {
        SftpOperationResult {
            action: "delete".to_owned(),
            source_path: Some(target.to_owned()),
            target_path: target.to_owned(),
            bytes_transferred: 0,
        }
    }
}

/// The upload source after canonicalizing: refused where it does not exist
/// or is not a file.
pub open spec fn checked_upload_source(requested: Seq<char>, canonical: Option<Seq<char>>, is_file: bool) -> Result<Seq<char>, SftpErrorView> {
    match canonical {
        None => Err(SftpErrorView::UploadSourceNotFound(requested)),
        Some(c) => if !is_file {
            Err(SftpErrorView::UploadSourceNotFile)
        } else {
            Ok(c)
        },
    }
}

/// Checks an upload source, given its canonical form (`None` where
/// canonicalizing failed) and whether that is a file.
pub fn check_upload_source(requested: &str, canonical: Option<String>, is_file: bool) -> (res: Result<String, SftpError>)
    ensures
        match res {
            Ok(c) => checked_upload_source(requested@, opt_text(canonical), is_file) == Ok::<Seq<char>, SftpErrorView>(c@),
            Err(e) => checked_upload_source(requested@, opt_text(canonical), is_file) == Err::<Seq<char>, SftpErrorView>(sftp_error_view(e)),
        },
{
    match canonical {
        None => Err(SftpError::UploadSourceNotFound(requested.to_owned())),
        Some(c) => if !is_file {
            Err(SftpError::UploadSourceNotFile)
        } else {
            Ok(c)
        },
    }
}

/// The name an upload is stored under: the requested name, checked, where
/// one with more than white space is given; else the source's file name,
/// or `uploaded-file` where it has none.
pub open spec fn upload_name(target_name: Option<Seq<char>>, source: Seq<char>) -> Result<Seq<char>, SftpErrorView> {
    match target_name {
        Some(n) if trim(n).len() > 0 => checked_entry_name(n),
        _ => Ok(match file_name(source) {
            Some(f) => f,
            None => "uploaded-file"@,
        }),
    }
}

/// The path an upload is copied to in the resolved directory
/// `target_directory`.
pub fn upload_target(source: &str, target_directory: &str, target_name: Option<&str>) -> (res: Result<String, SftpError>)
    ensures
        match res {
            Ok(t) => upload_name(match target_name {
                Some(n) => Some(n@),
                None => None,
            }, source@) is Ok && t@ == join_path(target_directory@, upload_name(match target_name {
                Some(n) => Some(n@),
                None => None,
            }, source@)->Ok_0),
            Err(e) => upload_name(match target_name {
                Some(n) => Some(n@),
                None => None,
            }, source@) == Err::<Seq<char>, SftpErrorView>(sftp_error_view(e)),
        },
{
    let requested: Option<String> = match target_name {
        Some(n) => {
            let nc = chars_of(n);
            let t = trim_chars(&nc);
            if t.len() > 0 {
                Some(n.to_owned())
            } else {
                None
            }
        },
        None => None,
    };
    let name = match requested {
        Some(n) => match sanitize_entry_name(n.as_str()) {
            Ok(v) => v,
            Err(e) => {
                return Err(e);
            },
        },
        None => {
            let sc = chars_of(source);
            match file_name_chars(&sc) {
                Some(f) => string_from_chars(&f),
                None => "uploaded-file".to_owned(),
            }
        },
    };
    Ok(join_str(target_directory, name.as_str()))
}

/// Where a download is copied to: into the destination where it is a
/// directory or ends with `/`, under the source's file name; else to the
/// destination itself.
pub open spec fn download_destination(destination: Seq<char>, destination_is_dir: bool, source: Seq<char>) -> Seq<char> {
    if destination_is_dir || (destination.len() > 0 && destination.last() == '/') {
        join_path(destination, match file_name(source) {
            Some(f) => f,
            None => Seq::empty(),
        })
    } else {
        destination
    }
}

/// Where a download of `source` to `destination` is copied to.
pub fn download_target(destination: &str, destination_is_dir: bool, source: &str) -> (res: String)
    ensures
        res@ == download_destination(destination@, destination_is_dir, source@),
{
    let d = chars_of(destination);
    if destination_is_dir || (d.len() > 0 && d[d.len() - 1] == '/') {
        let sc = chars_of(source);
        let f = match file_name_chars(&sc) {
            Some(f) => f,
            None => Vec::new(),
        };
        let j = join_chars(&d, &f);
        string_from_chars(&j)
    } else {
        destination.to_owned()
    }
}

/// Checks that a download source is a file.
pub fn check_download_source(source_is_file: bool) -> (res: Result<(), SftpError>)
    ensures
        res is Ok <==> source_is_file,
        res matches Err(e) ==> e == SftpError::DownloadSourceNotFile,
{
    if !source_is_file {
        Err(SftpError::DownloadSourceNotFile)
    } else {
        Ok(())
    }
}

/// The record of a copy: the action, the source, the target and the bytes
/// copied.
pub fn transfer_result(action: &str, source: &str, target: &str, bytes: u64) -> (res: SftpOperationResult)
    ensures
        res.action@ == action@,
        opt_text(res.source_path) == Some(source@),
        res.target_path@ == target@,
        res.bytes_transferred == bytes,
{
    SftpOperationResult {
        action: action.to_owned(),
        source_path: Some(source.to_owned()),
        target_path: target.to_owned(),
        bytes_transferred: bytes,
    }
}

} // verus!
