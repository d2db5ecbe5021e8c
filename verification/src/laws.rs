//! Properties that hold across the library's operations, stated over the
//! same specifications that the operations' contracts use.
use vstd::prelude::*;
use crate::text::{replace_char, last_index_of, lemma_last_index_of, lemma_replace_concat, lemma_replace_absent, lemma_last_index_concat, trim, trim_start, trim_end, is_white_space, lemma_trim_start_first, lemma_trim_end_prefix};
use crate::paths::{path_starts_with, join_path};
use crate::scripts::{resolved_script, is_supported, ScriptErrorView, shell_word_value, shell_quoted, quote_wrapped, quote_escape, all_shell_safe, is_shell_safe, is_double_quote_special};
use crate::sftp::{checked_entry_name, resolved_directory, resolved_entry, SftpErrorView};
use crate::ssh::{
    SanitizedConnectInput, SessionRecord, connect_from, resized, max_u32,
};
use crate::models::SshConnectInput;
use crate::order::{lex_le, stable_sort_by, first_at_least, lemma_first_at_least_bounds, lemma_insert_multiset, lemma_lex_total, lemma_lex_transitive};

verus! {

/// A script request that resolves names a `.py` or `.sh` file at or below
/// the canonical workspace root.
pub proof fn resolved_script_stays_in_root(
    root: Seq<char>,
    path: Seq<char>,
    canonical_target: Option<Seq<char>>,
    canonical_root: Option<Seq<char>>,
    t: Seq<char>,
)
    requires
        resolved_script(root, path, canonical_target, canonical_root) == Ok::<Seq<char>, ScriptErrorView>(t),
    ensures
        canonical_root is Some,
        path_starts_with(t, canonical_root->Some_0),
        is_supported(t),
        canonical_target == Some(t),
{
}

/// A directory request that resolves names a directory at or below the
/// canonical workspace root.
pub proof fn resolved_directory_stays_in_root(
    root: Seq<char>,
    requested: Option<Seq<char>>,
    canonical: Option<Seq<char>>,
    canonical_root: Option<Seq<char>>,
    is_dir: bool,
    d: Seq<char>,
)
    requires
        resolved_directory(root, requested, canonical, canonical_root, is_dir) == Ok::<Seq<char>, SftpErrorView>(d),
    ensures
        canonical_root is Some,
        path_starts_with(d, canonical_root->Some_0),
        is_dir,
        canonical == Some(d),
{
}

/// An entry request that resolves names a path at or below the canonical
/// workspace root.
pub proof fn resolved_entry_stays_in_root(
    root: Seq<char>,
    requested: Seq<char>,
    canonical: Option<Seq<char>>,
    canonical_root: Option<Seq<char>>,
    e: Seq<char>,
)
    requires
        resolved_entry(root, requested, canonical, canonical_root) == Ok::<Seq<char>, SftpErrorView>(e),
    ensures
        canonical_root is Some,
        path_starts_with(e, canonical_root->Some_0),
        canonical == Some(e),
{
}

/// An accepted entry name is a single plain path component: not empty, not
/// `.` or `..`, without separators, and without surrounding white space;
/// joined to a directory it adds exactly that component.
pub proof fn checked_name_is_one_component(value: Seq<char>, name: Seq<char>, dir: Seq<char>)
    requires
        checked_entry_name(value) == Ok::<Seq<char>, SftpErrorView>(name),
        dir.len() > 0,
        dir.last() != '/',
    ensures
        name.len() > 0,
        name != "."@,
        name != ".."@,
        !name.contains('/'),
        !name.contains('\\'),
        name == trim(value),
        join_path(dir, name) == dir + seq!['/'] + name,
{
}

/// A checked connection request always asks for at least 40 columns and
/// 12 rows.
pub proof fn connect_size_has_floor(s: SanitizedConnectInput, input: SshConnectInput)
    requires
        connect_from(s, input),
    ensures
        s.cols >= 40,
        s.rows >= 12,
{
}

/// A resize never leaves a session with zero columns or rows, and keeps
/// everything but the size.
pub proof fn resize_has_floor<T>(r: SessionRecord<T>, cols: u32, rows: u32, pixel_width: u32, pixel_height: u32)
    ensures
        resized(r, cols, rows, pixel_width, pixel_height).summary.cols >= 1,
        resized(r, cols, rows, pixel_width, pixel_height).summary.rows >= 1,
        resized(r, cols, rows, pixel_width, pixel_height).summary.id == r.summary.id,
        resized(r, cols, rows, pixel_width, pixel_height).transport == r.transport,
        resized(r, cols, rows, pixel_width, pixel_height).kind == r.kind,
{
}

/// A resize gives the session exactly the requested pixel size, and the
/// requested columns and rows (at least one of each); the session's id,
/// terminal type and transport stay as they were.
pub proof fn resize_sets_the_requested_size<T>(
    r: SessionRecord<T>,
    cols: u32,
    rows: u32,
    pixel_width: u32,
    pixel_height: u32,
)
    ensures
        resized(r, cols, rows, pixel_width, pixel_height).pixel_width == pixel_width,
        resized(r, cols, rows, pixel_width, pixel_height).pixel_height == pixel_height,
        cols >= 1 ==> resized(r, cols, rows, pixel_width, pixel_height).summary.cols == cols,
        rows >= 1 ==> resized(r, cols, rows, pixel_width, pixel_height).summary.rows == rows,
        cols == 0 ==> resized(r, cols, rows, pixel_width, pixel_height).summary.cols == 1,
        rows == 0 ==> resized(r, cols, rows, pixel_width, pixel_height).summary.rows == 1,
        resized(r, cols, rows, pixel_width, pixel_height).summary.id == r.summary.id,
        resized(r, cols, rows, pixel_width, pixel_height).term_type == r.term_type,
        resized(r, cols, rows, pixel_width, pixel_height).transport == r.transport,
{
}

/// Closing a session forgets exactly that session.
pub proof fn disconnect_forgets_only_that_session<T>(
    sessions: Map<Seq<char>, SessionRecord<T>>,
    id: Seq<char>,
    other: Seq<char>,
)
    requires
        other != id,
    ensures
        !sessions.remove(id).contains_key(id),
        sessions.remove(id).contains_key(other) == sessions.contains_key(other),
        sessions.contains_key(other) ==> sessions.remove(id)[other] == sessions[other],
{
}

/// A session just opened is found under its id, and the others stay as
/// they were.
pub proof fn opened_session_is_found<T>(
    sessions: Map<Seq<char>, SessionRecord<T>>,
    record: SessionRecord<T>,
    other: Seq<char>,
)
    requires
        other != record.summary.id@,
    ensures
        sessions.insert(record.summary.id@, record).contains_key(record.summary.id@),
        sessions.insert(record.summary.id@, record)[record.summary.id@] == record,
        sessions.insert(record.summary.id@, record).contains_key(other) == sessions.contains_key(other),
        sessions.contains_key(other) ==> sessions.insert(record.summary.id@, record)[other] == sessions[other],
{
}

/// Trimming twice is trimming once.
pub proof fn trim_is_idempotent(s: Seq<char>)
    ensures
        trim(trim(s)) == trim(s),
{
    let ts = trim_start(s);
    let u = trim_end(ts);
    lemma_trim_start_first(s);
    lemma_trim_end_prefix(ts);
    if u.len() > 0 {
        assert(u[0] == ts[0]);
        assert(trim_start(u) == u);
        lemma_trim_end_prefix(u);
        assert(trim_end(u) == u);
    } else {
        assert(u =~= Seq::<char>::empty());
    }
}

#[verifier::spinoff_prover]
#[verifier::rlimit(40)]
proof fn lemma_wrapped_value(x: Seq<char>)
    ensures
        shell_word_value(quote_wrapped(x)) == Some(x),
    decreases x.len(),
{
    let q = seq!['\''];
    let p = quote_escape();
    lemma_last_index_of(x, '\'');
    let j = last_index_of(x, '\'');
    let w = quote_wrapped(x);
    if j < 0 {
        assert(!x.contains('\'')) by {
            if x.contains('\'') {
                let k = choose|k: int| 0 <= k < x.len() && x[k] == '\'';
            }
        }
        lemma_replace_absent(x, '\'', p);
        let body = q + x;
        assert(w.drop_last() =~= body);
        assert(w.last() == '\'');
        lemma_last_index_concat(q, x, '\'');
        assert(last_index_of(q, '\'') == 0) by {
            assert(q.drop_last() =~= Seq::<char>::empty());
        }
        assert(w.take(0) =~= Seq::<char>::empty());
        assert(body.skip(1) =~= x);
        assert(Seq::<char>::empty() + x =~= x);
        assert(shell_word_value(w.take(0)) == Some(Seq::<char>::empty()));
        assert(shell_word_value(w) == Some(x));
    } else {
        let a = x.take(j);
        let b = x.skip(j + 1);
        assert(x =~= a + q + b);
        assert(!b.contains('\'')) by {
            if b.contains('\'') {
                let k = choose|k: int| 0 <= k < b.len() && b[k] == '\'';
                assert(x[j + 1 + k] == '\'');
            }
        }
        lemma_replace_concat(a + q, b, '\'', p);
        lemma_replace_concat(a, q, '\'', p);
        lemma_replace_absent(b, '\'', p);
        assert(replace_char(q, '\'', p) =~= p) by {
            assert(q.drop_last() =~= Seq::<char>::empty());
            assert(replace_char(q.drop_last(), '\'', p) =~= Seq::<char>::empty());
            assert(q.last() == '\'');
            assert(Seq::<char>::empty() + p =~= p);
        }
        let ra = replace_char(a, '\'', p);
        assert(w =~= q + ra + p + b + q);
        let body = q + ra + p + b;
        assert(w.drop_last() =~= body);
        lemma_last_index_concat(q + ra + p, b, '\'');
        let head = q + ra + p;
        assert(head.last() == '\'');
        let k = head.len() - 1;
        assert(last_index_of(head, '\'') == k);
        assert(body.skip(k + 1) =~= b);
        let w2 = w.take(k);
        assert(w2 =~= q + ra + seq!['\'', '"', '\'', '"']);
        // the double-quoted `'`
        let body2 = w2.drop_last();
        assert(body2 =~= q + ra + seq!['\'', '"', '\'']);
        let k2 = body2.len() - 2;
        assert(body2.drop_last() =~= q + ra + seq!['\'', '"']);
        assert(body2.last() == '\'');
        assert(body2.drop_last().last() == '"');
        assert(last_index_of(body2.drop_last(), '"') == k2);
        assert(last_index_of(body2, '"') == k2);
        let inner = body2.skip(k2 + 1);
        assert(inner =~= seq!['\'']);
        assert(!(exists|i: int| 0 <= i < inner.len() && is_double_quote_special(#[trigger] inner[i])));
        assert(w2.take(k2) =~= quote_wrapped(a));
        lemma_wrapped_value(a);
        assert(shell_word_value(w2) == Some(a + inner));
        assert(a + inner + b =~= x);
        assert(shell_word_value(w.take(k)) == Some(a + inner));
        assert(shell_word_value(w) == Some(a + inner + b));
    }
}

proof fn lemma_safe_word_value(v: Seq<char>)
    requires
        all_shell_safe(v),
    ensures
        shell_word_value(v) == Some(v),
    decreases v.len(),
{
    if v.len() > 0 {
        assert(is_shell_safe(v[v.len() - 1]));
        assert(all_shell_safe(v.drop_last())) by {
            assert forall|i: int| 0 <= i < v.drop_last().len() implies is_shell_safe(#[trigger] v.drop_last()[i]) by {
                assert(v.drop_last()[i] == v[i]);
            }
        }
        lemma_safe_word_value(v.drop_last());
        assert(v.drop_last().push(v.last()) =~= v);
    }
}

/// A quoted value is one shell word whose value is the value itself: a
/// shell reading the word gets back exactly what was quoted.
pub proof fn shell_quote_is_one_word(v: Seq<char>)
    ensures
        shell_word_value(shell_quoted(v)) == Some(v),
{
    reveal_strlit("''");
    if v.len() == 0 {
        lemma_wrapped_value(v);
        assert(quote_wrapped(v) =~= "''"@);
    } else if all_shell_safe(v) {
        lemma_safe_word_value(v);
    } else {
        lemma_wrapped_value(v);
    }
}

/// A stable sort by key yields the same elements, in key order.
pub proof fn stable_sort_is_ordered_permutation<A>(s: Seq<A>, key: spec_fn(A) -> Seq<char>)
    ensures
        stable_sort_by(s, key).to_multiset() =~= s.to_multiset(),
        forall|i: int, j: int|
            0 <= i < j < stable_sort_by(s, key).len() ==> lex_le(
                key(#[trigger] stable_sort_by(s, key)[i]),
                key(#[trigger] stable_sort_by(s, key)[j]),
            ),
    decreases s.len(),
{
    if s.len() > 0 {
        let x = s[0];
        let r = stable_sort_by(s.drop_first(), key);
        stable_sort_is_ordered_permutation(s.drop_first(), key);
        let p = first_at_least(r, key, x);
        lemma_first_at_least_bounds(r, key, x);
        lemma_insert_multiset(r, p, x);
        r.insert_ensures(p, x);
        assert(s =~= seq![x] + s.drop_first());
        assert(s.to_multiset() =~= s.drop_first().to_multiset().insert(x)) by {
            broadcast use vstd::seq_lib::group_to_multiset_ensures;
            assert(s.drop_first() =~= s.remove(0));
            assert(s.remove(0).to_multiset() =~= s.to_multiset().remove(x));
            assert(s.contains(x));
        }
        let n = r.insert(p, x);
        assert forall|k: int| 0 <= k < p implies lex_le(key(#[trigger] r[k]), key(x)) by {
            lemma_lex_total(key(r[k]), key(x));
        }
        assert forall|k: int| p <= k < r.len() implies lex_le(key(x), key(#[trigger] r[k])) by {
            if k > p {
                lemma_lex_transitive(key(x), key(r[p]), key(r[k]));
            }
        }
        assert forall|i: int, j: int| 0 <= i < j < n.len() implies lex_le(key(#[trigger] n[i]), key(#[trigger] n[j])) by {
            if i < p && j < p {
            } else if i < p && j == p {
            } else if i < p && j > p {
                assert(n[j] == r[j - 1]);
                lemma_lex_transitive(key(r[i]), key(x), key(r[j - 1]));
            } else if i == p {
                assert(n[j] == r[j - 1]);
            } else {
                assert(n[i] == r[i - 1]);
                assert(n[j] == r[j - 1]);
            }
        }
    }
}

} // verus!
