//! Properties of the listings: that a listing holds exactly what was
//! walked or read, in the order the workspace shows it.
use vstd::prelude::*;
use crate::order::{lex_le, stable_sort_by};
use crate::laws::stable_sort_is_ordered_permutation;
use crate::sftp::{directory_listing, listed_entries, listing_key, lowercase, lemma_listing_key_order, SftpDirEntry, SftpEntryView, resolved_directory, resolved_entry, SftpErrorView};
use crate::paths::path_starts_with;
use crate::db::{declares_column, schema_sql};
use crate::scripts::{resolved_script, ScriptErrorView,
    is_supported, listed_scripts, script_listing, lemma_listed_scripts_sources, walked_summary,
    summary_for, ScriptFile, ScriptEntryView, from_walked_script, lists_file,
};

verus! {

/// A listed script comes from a walked script file.
proof fn lemma_listing_entry_source(root: Seq<char>, files: Seq<ScriptFile>, k: int)
    requires
        0 <= k < script_listing(root, files).len(),
    ensures
        from_walked_script(root, files, script_listing(root, files)[k]),
{
    broadcast use vstd::seq_lib::group_to_multiset_ensures;
    let key = |v: ScriptEntryView| v.relative_path;
    let listed = listed_scripts(root, files);
    let out = script_listing(root, files);
    assert(out == stable_sort_by(listed, key));
    stable_sort_is_ordered_permutation(listed, key);
    lemma_listed_scripts_sources(root, files);
    let v = out[k];
    assert(out.contains(v));
    assert(out.to_multiset().count(v) > 0);
    assert(listed.to_multiset().count(v) > 0);
    assert(listed.contains(v));
    let x = choose|x: int| 0 <= x < listed.len() && listed[x] == v;
    assert(listed[x] == v);
    let j = choose|j: int|
        0 <= j < files.len() && is_supported(files[j].path@) && #[trigger] listed[x]
            == summary_for(root, files[j].path@, files[j].size_bytes, files[j].modified_secs);
    assert(walked_summary(root, files[j], out[k]));
}

/// The script listing is exactly the walked `.py` and `.sh` files: every
/// listed summary is that of a walked script file, with the path, size and
/// modification time that the walk reported for it, and every walked script
/// file is listed.
pub proof fn listed_scripts_are_the_walked_scripts(root: Seq<char>, files: Seq<ScriptFile>)
    ensures
        forall|k: int|
            0 <= k < script_listing(root, files).len() ==> from_walked_script(
                root,
                files,
                #[trigger] script_listing(root, files)[k],
            ),
        forall|j: int|
            0 <= j < files.len() && is_supported(#[trigger] files[j].path@) ==> lists_file(
                root,
                script_listing(root, files),
                files[j],
            ),
{
    broadcast use vstd::seq_lib::group_to_multiset_ensures;
    let key = |v: ScriptEntryView| v.relative_path;
    let listed = listed_scripts(root, files);
    let out = script_listing(root, files);
    assert(out == stable_sort_by(listed, key));
    stable_sort_is_ordered_permutation(listed, key);
    lemma_listed_scripts_sources(root, files);
    assert forall|k: int| 0 <= k < out.len() implies from_walked_script(root, files, #[trigger] out[k]) by {
        lemma_listing_entry_source(root, files, k);
    }
    assert forall|j: int| 0 <= j < files.len() && is_supported(#[trigger] files[j].path@) implies lists_file(
        root,
        out,
        files[j],
    ) by {
        let f = files[j];
        let v = summary_for(root, f.path@, f.size_bytes, f.modified_secs);
        assert(listed.contains(v));
        assert(listed.to_multiset().count(v) > 0);
        assert(out.to_multiset().count(v) > 0);
        assert(out.contains(v));
        let k = choose|k: int| 0 <= k < out.len() && out[k] == v;
        assert(walked_summary(root, f, out[k]));
    }
}

/// A directory listing shows files before directories, and the entries of
/// each kind in order of their lower-cased names, for directories as for
/// files; it holds every entry once.
pub proof fn directory_listing_order(entries: Seq<SftpDirEntry>)
    ensures
        directory_listing(entries).to_multiset() == listed_entries(entries).to_multiset(),
        forall|i: int, j: int|
            0 <= i < j < directory_listing(entries).len() ==> (#[trigger] directory_listing(entries)[i]).kind
                == "file"@ || (#[trigger] directory_listing(entries)[j]).kind != "file"@,
        forall|i: int, j: int|
            0 <= i < j < directory_listing(entries).len() && (#[trigger] directory_listing(entries)[i]).kind
                == (#[trigger] directory_listing(entries)[j]).kind ==> lex_le(
                lowercase(directory_listing(entries)[i].name),
                lowercase(directory_listing(entries)[j].name),
            ),
{
    let key = |v: SftpEntryView| listing_key(v.kind, v.name);
    let out = directory_listing(entries);
    assert(out == stable_sort_by(listed_entries(entries), key));
    stable_sort_is_ordered_permutation(listed_entries(entries), key);
    assert forall|i: int, j: int| 0 <= i < j < out.len() implies (#[trigger] out[i]).kind == "file"@
        || (#[trigger] out[j]).kind != "file"@ by {
        lemma_listing_key_order(out[i].kind, out[i].name, out[j].kind, out[j].name);
    }
    assert forall|i: int, j: int| 0 <= i < j < out.len() && (#[trigger] out[i]).kind == (#[trigger] out[j]).kind
        implies lex_le(lowercase(out[i].name), lowercase(out[j].name)) by {
        lemma_listing_key_order(out[i].kind, out[i].name, out[j].kind, out[j].name);
    }
}

/// Directory resolution is complete: a canonical path at or below the
/// canonical root (the root itself included) that is a directory resolves
/// to itself, whatever was requested.
pub proof fn directory_resolution_is_complete(
    root: Seq<char>,
    requested: Option<Seq<char>>,
    t: Seq<char>,
    r: Seq<char>,
)
    requires
        path_starts_with(t, r),
    ensures
        resolved_directory(root, requested, Some(t), Some(r), true) == Ok::<Seq<char>, SftpErrorView>(t),
        resolved_directory(root, requested, Some(r), Some(r), true) == Ok::<Seq<char>, SftpErrorView>(r),
{
}

/// Entry resolution is complete: a canonical path at or below the canonical
/// root (the root itself included) resolves to itself.
pub proof fn entry_resolution_is_complete(root: Seq<char>, requested: Seq<char>, t: Seq<char>, r: Seq<char>)
    requires
        path_starts_with(t, r),
    ensures
        resolved_entry(root, requested, Some(t), Some(r)) == Ok::<Seq<char>, SftpErrorView>(t),
        resolved_entry(root, requested, Some(r), Some(r)) == Ok::<Seq<char>, SftpErrorView>(r),
{
}

/// Script resolution is complete: a canonical `.py` or `.sh` path at or
/// below the canonical root resolves to itself.
pub proof fn script_resolution_is_complete(root: Seq<char>, path: Seq<char>, t: Seq<char>, r: Seq<char>)
    requires
        path_starts_with(t, r),
        is_supported(t),
    ensures
        resolved_script(root, path, Some(t), Some(r)) == Ok::<Seq<char>, ScriptErrorView>(t),
{
}

/// The profile table takes every record that `build_profile_record` makes:
/// the name column is declared without `NOT NULL`, as a stored name may be
/// absent, and the port column takes every port but 0, which is refused
/// before a record is made.
pub proof fn profile_schema_fits_saved_records()
    ensures
        declares_column(schema_sql(), "\n    name TEXT,\n"@),
        declares_column(schema_sql(), "\n    port INTEGER NOT NULL CHECK(port > 0 AND port <= 65535),\n"@),
{
    reveal_strlit("\n    name TEXT,\n");
    reveal_strlit("\n    port INTEGER NOT NULL CHECK(port > 0 AND port <= 65535),\n");
    reveal_strlit("CREATE TABLE IF NOT EXISTS server_profiles (
    id TEXT PRIMARY KEY,
    name TEXT,
    host TEXT NOT NULL,
    port INTEGER NOT NULL CHECK(port > 0 AND port <= 65535),
    username TEXT NOT NULL,
    password_ciphertext TEXT NOT NULL,
    created_at INTEGER NOT NULL,
    updated_at INTEGER NOT NULL
);

CREATE INDEX IF NOT EXISTS idx_server_profiles_host
    ON server_profiles(host);

CREATE INDEX IF NOT EXISTS idx_server_profiles_updated_at
    ON server_profiles(updated_at DESC);
");
    let s = schema_sql();
    let name = "\n    name TEXT,\n"@;
    let port = "\n    port INTEGER NOT NULL CHECK(port > 0 AND port <= 65535),\n"@;
    assert(s.subrange(69, 69 + name.len() as int) =~= name);
    assert(s.subrange(108, 108 + port.len() as int) =~= port);
}

} // verus!
