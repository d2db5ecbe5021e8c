//! Paths held as text, with the Unix rules of `std::path` for the few
//! operations the workspaces use.
use vstd::prelude::*;
use crate::text::{chars_of, push_chars, string_from_chars, copy_range, last_index_of, lemma_last_index_of, last_index_of_char, chars_eq_str};

verus! {

/// What `Path::join` gives on Unix: an absolute `rel` replaces `base`;
/// otherwise `rel` is appended, with a `/` between them unless `base` is
/// empty or already ends with one.
pub open spec fn join_path(base: Seq<char>, rel: Seq<char>) -> Seq<char> {
    if rel.len() > 0 && rel[0] == '/' {
        rel
    } else if base.len() == 0 || base.last() == '/' {
        base + rel
    } else {
        base + seq!['/'] + rel
    }
}

/// Joins two paths held as character vectors.
pub fn join_chars(base: &Vec<char>, rel: &Vec<char>) -> (res: Vec<char>)
    ensures
        res@ == join_path(base@, rel@),
{
    if rel.len() > 0 && rel[0] == '/' {
        let mut r: Vec<char> = Vec::new();
        push_chars(&mut r, rel);
        assert(r@ =~= rel@);
        r
    } else {
        let mut r: Vec<char> = Vec::new();
        push_chars(&mut r, base);
        if !(base.len() == 0 || base[base.len() - 1] == '/') {
            r.push('/');
        }
        push_chars(&mut r, rel);
        assert(r@ =~= join_path(base@, rel@));
        r
    }
}

/// `Path::join` on paths held as strings.
pub fn join_str(base: &str, rel: &str) -> (res: String)
    ensures
        res@ == join_path(base@, rel@),
{
    let b = chars_of(base);
    let r = chars_of(rel);
    let j = join_chars(&b, &r);
    string_from_chars(&j)
}

/// The path starts at the root directory.
pub open spec fn is_absolute(p: Seq<char>) -> bool {
    p.len() > 0 && p[0] == '/'
}

/// The final component of a path (what `Path::file_name` gives for a
/// canonical path): what follows the last `/`, absent where that is empty
/// or `..`.
pub open spec fn file_name(p: Seq<char>) -> Option<Seq<char>> {
    let seg = p.skip(last_index_of(p, '/') + 1);
    if seg.len() == 0 || seg == ".."@ {
        None
    } else {
        Some(seg)
    }
}

/// The extension of a path (what `Path::extension` gives for a canonical
/// path): what follows the last `.` of the file name, absent where the
/// name has no `.` but at its start.
pub open spec fn extension(p: Seq<char>) -> Option<Seq<char>> {
    match file_name(p) {
        None => None,
        Some(n) => {
            let i = last_index_of(n, '.');
            if i <= 0 {
                None
            } else {
                Some(n.skip(i + 1))
            }
        },
    }
}

/// `p` lies at or below `root`, component by component (what
/// `Path::starts_with` tests on canonical paths).
pub open spec fn path_starts_with(p: Seq<char>, root: Seq<char>) -> bool {
    ||| root.len() == 0
    ||| p == root
    ||| {
        &&& root.len() < p.len()
        &&& p.take(root.len() as int) == root
        &&& (root.last() == '/' || p[root.len() as int] == '/')
    }
}

/// `p` relative to `root` (what `Path::strip_prefix` gives on canonical
/// paths), absent where `p` does not lie below `root`.
pub open spec fn strip_root(p: Seq<char>, root: Seq<char>) -> Option<Seq<char>> {
    if !path_starts_with(p, root) {
        None
    } else if p == root {
        Some(Seq::empty())
    } else if root.len() == 0 {
        Some(p)
    } else if root.last() == '/' {
        Some(p.skip(root.len() as int))
    } else {
        Some(p.skip(root.len() as int + 1))
    }
}

/// The final component of a path.
pub fn file_name_chars(p: &Vec<char>) -> (res: Option<Vec<char>>)
    ensures
        match res {
            Some(n) => file_name(p@) == Some(n@),
            None => file_name(p@) is None,
        },
{
    proof {
        lemma_last_index_of(p@, '/');
    }
    let n = p.len();
    let start: usize = match last_index_of_char(p, '/') {
        Some(i) => {
            assert(i < n);
            i + 1
        },
        None => 0,
    };
    let seg = copy_range(p, start, p.len());
    assert(seg@ =~= p@.skip(last_index_of(p@, '/') + 1));
    if seg.len() == 0 || chars_eq_str(&seg, "..") {
        None
    } else {
        Some(seg)
    }
}

/// The extension of a path.
pub fn extension_chars(p: &Vec<char>) -> (res: Option<Vec<char>>)
    ensures
        match res {
            Some(e) => extension(p@) == Some(e@),
            None => extension(p@) is None,
        },
{
    match file_name_chars(p) {
        None => None,
        Some(n) => {
            proof {
                lemma_last_index_of(n@, '.');
            }
            match last_index_of_char(&n, '.') {
                None => None,
                Some(i) => {
                    if i == 0 {
                        None
                    } else {
                        let e = copy_range(&n, i + 1, n.len());
                        assert(e@ =~= n@.skip(i + 1));
                        Some(e)
                    }
                },
            }
        },
    }
}

/// Whether `p` lies at or below `root`.
pub fn path_starts_with_chars(p: &Vec<char>, root: &Vec<char>) -> (res: bool)
    ensures
        res == path_starts_with(p@, root@),
{
    if root.len() == 0 {
        return true;
    }
    if root.len() > p.len() {
        assert(p@ != root@);
        return false;
    }
    let mut i: usize = 0;
    while i < root.len()
        invariant
            root@.len() <= p@.len(),
            i <= root@.len(),
            forall|k: int| 0 <= k < i ==> p@[k] == root@[k],
        decreases root@.len() - i,
    {
        if p[i] != root[i] {
            assert(p@.take(root@.len() as int)[i as int] != root@[i as int]);
            assert(p@ != root@);
            return false;
        }
        i = i + 1;
    }
    assert(p@.take(root@.len() as int) =~= root@);
    if root.len() == p.len() {
        assert(p@ =~= root@);
        true
    } else {
        root[root.len() - 1] == '/' || p[root.len()] == '/'
    }
}

/// `p` relative to `root`.
pub fn strip_root_chars(p: &Vec<char>, root: &Vec<char>) -> (res: Option<Vec<char>>)
    ensures
        match res {
            Some(r) => strip_root(p@, root@) == Some(r@),
            None => strip_root(p@, root@) is None,
        },
{
    if !path_starts_with_chars(p, root) {
        None
    } else if p.len() == root.len() {
        if root.len() != 0 {
            assert(p@ =~= root@) by {
                assert(p@.take(root@.len() as int) =~= p@);
            }
        } else {
            assert(p@ =~= root@);
        }
        Some(Vec::new())
    } else if root.len() == 0 {
        let r = copy_range(p, 0, p.len());
        assert(r@ =~= p@);
        Some(r)
    } else if root[root.len() - 1] == '/' {
        let r = copy_range(p, root.len(), p.len());
        assert(r@ =~= p@.skip(root@.len() as int));
        Some(r)
    } else {
        let r = copy_range(p, root.len() + 1, p.len());
        assert(r@ =~= p@.skip(root@.len() as int + 1));
        Some(r)
    }
}

} // verus!
