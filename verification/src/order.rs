//! Lexicographic order on character sequences (the order of `str::cmp`:
//! code points compared one by one, a proper prefix first) and a stable
//! insertion sort by such keys.
use vstd::prelude::*;
use vstd::multiset::Multiset;
use vstd::utf8::char_u32_cast;

verus! {

broadcast use vstd::seq_lib::group_to_multiset_ensures;

/// `a` comes before `b`, or equals it, in lexicographic order.
pub open spec fn lex_le(a: Seq<char>, b: Seq<char>) -> bool
    decreases a.len(),
{
    if a.len() == 0 {
        true
    } else if b.len() == 0 {
        false
    } else if a[0] != b[0] {
        (a[0] as u32) < (b[0] as u32)
    } else {
        lex_le(a.drop_first(), b.drop_first())
    }
}

/// Every sequence is ordered against itself.
pub proof fn lemma_lex_reflexive(a: Seq<char>)
    ensures
        lex_le(a, a),
    decreases a.len(),
{
    if a.len() > 0 {
        lemma_lex_reflexive(a.drop_first());
    }
}

/// Any two sequences are ordered one way or the other.
pub proof fn lemma_lex_total(a: Seq<char>, b: Seq<char>)
    ensures
        lex_le(a, b) || lex_le(b, a),
    decreases a.len(),
{
    if a.len() > 0 && b.len() > 0 && a[0] == b[0] {
        lemma_lex_total(a.drop_first(), b.drop_first());
    }
    if a.len() > 0 && b.len() > 0 && a[0] != b[0] {
        char_u32_cast(a[0], a[0] as u32);
        char_u32_cast(b[0], b[0] as u32);
    }
}

/// The order is transitive.
pub proof fn lemma_lex_transitive(a: Seq<char>, b: Seq<char>, c: Seq<char>)
    requires
        lex_le(a, b),
        lex_le(b, c),
    ensures
        lex_le(a, c),
    decreases a.len(),
{
    if a.len() > 0 && b.len() > 0 && c.len() > 0 {
        if a[0] == b[0] && b[0] == c[0] {
            lemma_lex_transitive(a.drop_first(), b.drop_first(), c.drop_first());
        } else {
            char_u32_cast(a[0], a[0] as u32);
            char_u32_cast(b[0], b[0] as u32);
            char_u32_cast(c[0], c[0] as u32);
        }
    }
}

/// The order is antisymmetric.
pub proof fn lemma_lex_antisymmetric(a: Seq<char>, b: Seq<char>)
    requires
        lex_le(a, b),
        lex_le(b, a),
    ensures
        a == b,
    decreases a.len(),
{
    if a.len() > 0 && b.len() > 0 {
        char_u32_cast(a[0], a[0] as u32);
        char_u32_cast(b[0], b[0] as u32);
        if a[0] == b[0] {
            lemma_lex_antisymmetric(a.drop_first(), b.drop_first());
            assert(a =~= seq![a[0]] + a.drop_first());
            assert(b =~= seq![b[0]] + b.drop_first());
        }
    } else if a.len() == 0 && b.len() == 0 {
        assert(a =~= b);
    }
}

/// Compares two character sequences lexicographically.
pub fn lex_le_chars(a: &Vec<char>, b: &Vec<char>) -> (res: bool)
    ensures
        res == lex_le(a@, b@),
{
    let mut i: usize = 0;
    assert(a@.skip(0) =~= a@);
    assert(b@.skip(0) =~= b@);
    while i < a.len() && i < b.len() && a[i] == b[i]
        invariant
            i <= a@.len(),
            i <= b@.len(),
            lex_le(a@, b@) == lex_le(a@.skip(i as int), b@.skip(i as int)),
        decreases a@.len() - i,
    {
        assert(a@.skip(i as int).drop_first() =~= a@.skip(i + 1));
        assert(b@.skip(i as int).drop_first() =~= b@.skip(i + 1));
        i = i + 1;
    }
    if i == a.len() {
        true
    } else if i == b.len() {
        false
    } else {
        assert(a@.skip(i as int)[0] == a@[i as int]);
        assert(b@.skip(i as int)[0] == b@[i as int]);
        (a[i] as u32) < (b[i] as u32)
    }
}

/// An item paired with the key it is ordered by.
pub struct Keyed<T> {
    pub key: Vec<char>,
    pub item: T,
}

/// The items are in key order.
pub open spec fn keys_sorted<T>(s: Seq<Keyed<T>>) -> bool {
    forall|i: int, j: int| 0 <= i < j < s.len() ==> lex_le(#[trigger] s[i].key@, #[trigger] s[j].key@)
}

pub proof fn lemma_insert_multiset<A>(s: Seq<A>, p: int, x: A)
    requires
        0 <= p <= s.len(),
    ensures
        s.insert(p, x).to_multiset() =~= s.to_multiset().insert(x),
{
    let t = s.insert(p, x);
    assert(t.remove(p) =~= s);
    assert(t.remove(p).to_multiset() =~= t.to_multiset().remove(t[p]));
    assert(t.contains(x)) by {
        assert(t[p] == x);
    }
}

/// Where a stable insertion puts `x` into `r`: before the first element
/// whose key is not smaller than the key of `x`.
pub open spec fn first_at_least<A>(r: Seq<A>, key: spec_fn(A) -> Seq<char>, x: A) -> int
    decreases r.len(),
{
    if r.len() == 0 {
        0
    } else if lex_le(key(x), key(r[0])) {
        0
    } else {
        1 + first_at_least(r.drop_first(), key, x)
    }
}

/// `s` sorted by `key` in lexicographic order, elements with equal keys in
/// the order they have in `s` (a stable sort).
pub open spec fn stable_sort_by<A>(s: Seq<A>, key: spec_fn(A) -> Seq<char>) -> Seq<A>
    decreases s.len(),
{
    if s.len() == 0 {
        s
    } else {
        let r = stable_sort_by(s.drop_first(), key);
        r.insert(first_at_least(r, key, s[0]), s[0])
    }
}

proof fn lemma_first_at_least<A>(r: Seq<A>, key: spec_fn(A) -> Seq<char>, x: A, p: int)
    requires
        0 <= p <= r.len(),
        forall|k: int| 0 <= k < p ==> !lex_le(key(x), #[trigger] key(r[k])),
        p < r.len() ==> lex_le(key(x), key(r[p])),
    ensures
        first_at_least(r, key, x) == p,
    decreases p,
{
    if p > 0 {
        assert forall|k: int| 0 <= k < p - 1 implies !lex_le(key(x), #[trigger] key(r.drop_first()[k])) by {
            assert(r.drop_first()[k] == r[k + 1]);
        }
        assert(!lex_le(key(x), key(r[0])));
        if p < r.len() {
            assert(r.drop_first()[p - 1] == r[p]);
        }
        lemma_first_at_least(r.drop_first(), key, x, p - 1);
    }
}

/// Sorts by key, stably. The result holds the same items, is in key order,
/// and, read through `f`, is `stable_sort_by` of the input read through `f`
/// (where `key_of` gives back each item's key from what `f` makes of it).
pub fn sort_by_key<T, V>(
    items: Vec<Keyed<T>>,
    Ghost(f): Ghost<spec_fn(Keyed<T>) -> V>,
    Ghost(key_of): Ghost<spec_fn(V) -> Seq<char>>,
) -> (res: Vec<Keyed<T>>)
    requires
        forall|i: int| 0 <= i < items@.len() ==> key_of(f(#[trigger] items@[i])) == items@[i].key@,
    ensures
        res@.to_multiset() =~= items@.to_multiset(),
        res@.map_values(f) == stable_sort_by(items@.map_values(f), key_of),
        keys_sorted(res@),
{
    let mut res: Vec<Keyed<T>> = Vec::new();
    let mut rest = items;
    let ghost original = rest@;
    let ghost mapped = original.map_values(f);
    proof {
        assert(mapped.skip(original.len() as int) =~= Seq::<V>::empty());
    }
    // Items are taken from the back of `rest`, which stays a prefix of the
    // input, and each goes before the sorted items whose keys are not
    // smaller: of two items with equal keys the earlier stays first.
    while rest.len() > 0
        invariant
            rest@.len() <= original.len(),
            mapped == original.map_values(f),
            forall|i: int| 0 <= i < original.len() ==> key_of(f(#[trigger] original[i])) == original[i].key@,
            rest@ =~= original.take(rest@.len() as int),
            res@.to_multiset().add(rest@.to_multiset()) =~= original.to_multiset(),
            res@.map_values(f) == stable_sort_by(mapped.skip(rest@.len() as int), key_of),
            forall|i: int| 0 <= i < res@.len() ==> key_of(f(#[trigger] res@[i])) == res@[i].key@,
            keys_sorted(res@),
        decreases rest@.len(),
    {
        let ghost before = rest@;
        let x = rest.pop().unwrap();
        proof {
            assert(before =~= rest@.push(x));
            assert(rest@ =~= original.take(rest@.len() as int));
            assert(x == original[rest@.len() as int]);
        }
        let mut p: usize = 0;
        while p < res.len() && !lex_le_chars(&x.key, &res[p].key)
            invariant
                p <= res@.len(),
                forall|k: int| 0 <= k < p ==> !lex_le(x.key@, #[trigger] res@[k].key@),
            decreases res@.len() - p,
        {
            p = p + 1;
        }
        let ghost old_res = res@;
        proof {
            assert forall|k: int| 0 <= k < p implies lex_le(#[trigger] old_res[k].key@, x.key@) by {
                lemma_lex_total(old_res[k].key@, x.key@);
            }
            assert forall|k: int| p <= k < old_res.len() implies lex_le(x.key@, #[trigger] old_res[k].key@) by {
                if k > p {
                    lemma_lex_transitive(x.key@, old_res[p as int].key@, old_res[k].key@);
                }
            }
            lemma_insert_multiset(old_res, p as int, x);
            old_res.insert_ensures(p as int, x);
            let m = old_res.map_values(f);
            assert forall|k: int| 0 <= k < p implies !lex_le(key_of(f(x)), #[trigger] key_of(m[k])) by {
                assert(m[k] == f(old_res[k]));
            }
            if p < old_res.len() {
                assert(m[p as int] == f(old_res[p as int]));
            }
            lemma_first_at_least(m, key_of, f(x), p as int);
            let k = rest@.len() as int;
            let tail = mapped.skip(k);
            assert(tail[0] == f(x));
            assert(tail.drop_first() =~= mapped.skip(k + 1));
            assert(old_res.insert(p as int, x).map_values(f) =~= m.insert(p as int, f(x)));
        }
        res.insert(p, x);
        proof {
            let n = res@;
            assert(n =~= old_res.insert(p as int, x));
            assert forall|i: int, j: int| 0 <= i < j < n.len() implies lex_le(#[trigger] n[i].key@, #[trigger] n[j].key@) by {
                if i < p && j < p {
                } else if i < p && j == p {
                } else if i < p && j > p {
                    assert(n[j] == old_res[j - 1]);
                    lemma_lex_transitive(old_res[i].key@, x.key@, old_res[j - 1].key@);
                } else if i == p {
                    assert(n[j] == old_res[j - 1]);
                } else {
                    assert(n[i] == old_res[i - 1]);
                    assert(n[j] == old_res[j - 1]);
                }
            }
            assert forall|i: int| 0 <= i < n.len() implies key_of(f(#[trigger] n[i])) == n[i].key@ by {
                if i > p {
                    assert(n[i] == old_res[i - 1]);
                }
            }
            assert(rest@.to_multiset().insert(x) =~= before.to_multiset());
        }
    }
    proof {
        assert(mapped.skip(0) =~= mapped);
    }
    res
}

/// The items of keyed entries, in order.
pub fn into_items<T>(v: Vec<Keyed<T>>) -> (res: Vec<T>)
    ensures
        res@.len() == v@.len(),
        forall|k: int| 0 <= k < v@.len() ==> #[trigger] res@[k] == v@[k].item,
{
    let ghost all = v@;
    let ghost n = all.len() as int;
    let mut rest = v;
    let mut stack: Vec<T> = Vec::new();
    while rest.len() > 0
        invariant
            all.len() == n,
            rest@.len() + stack@.len() == n,
            rest@ =~= all.take(rest@.len() as int),
            forall|k: int| 0 <= k < stack@.len() ==> #[trigger] stack@[k] == all[n - 1 - k].item,
        decreases rest@.len(),
    {
        let ghost before = rest@;
        let k = rest.pop().unwrap();
        proof {
            assert(before =~= rest@.push(k));
            assert(rest@ =~= all.take(rest@.len() as int));
        }
        stack.push(k.item);
    }
    let mut res: Vec<T> = Vec::new();
    while stack.len() > 0
        invariant
            all.len() == n,
            res@.len() + stack@.len() == n,
            forall|k: int| 0 <= k < stack@.len() ==> #[trigger] stack@[k] == all[n - 1 - k].item,
            forall|k: int| 0 <= k < res@.len() ==> #[trigger] res@[k] == all[k].item,
        decreases stack@.len(),
    {
        let item = stack.pop().unwrap();
        res.push(item);
    }
    res
}

/// Before the insertion point every key is greater than that of `x`; the
/// point lies within `r`.
pub proof fn lemma_first_at_least_bounds<A>(r: Seq<A>, key: spec_fn(A) -> Seq<char>, x: A)
    ensures
        0 <= first_at_least(r, key, x) <= r.len(),
        forall|k: int| 0 <= k < first_at_least(r, key, x) ==> !lex_le(key(x), #[trigger] key(r[k])),
        first_at_least(r, key, x) < r.len() ==> lex_le(key(x), key(r[first_at_least(r, key, x)])),
    decreases r.len(),
{
    if r.len() > 0 && !lex_le(key(x), key(r[0])) {
        lemma_first_at_least_bounds(r.drop_first(), key, x);
        let p = first_at_least(r, key, x);
        assert forall|k: int| 0 <= k < p implies !lex_le(key(x), #[trigger] key(r[k])) by {
            if k > 0 {
                assert(r.drop_first()[k - 1] == r[k]);
            }
        }
        if p < r.len() {
            assert(r.drop_first()[p - 1] == r[p]);
        }
    }
}

} // verus!
