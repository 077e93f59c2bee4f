//! The order in which declarations are generated: by id, and by name where
//! ids are equal.

use vstd::prelude::*;

verus! {

/// What a declaration is ordered by: its id, then its name.
pub type Key = (usize, Seq<char>);

/// Whether the name `a` stands before the name `b`: the order of strings,
/// character by character, a prefix before what it is a prefix of.
pub open spec fn name_less(a: Seq<char>, b: Seq<char>) -> bool
    decreases a.len(),
{
    if b.len() == 0 {
        false
    } else if a.len() == 0 {
        true
    } else if a[0] != b[0] {
        a[0] < b[0]
    } else {
        name_less(a.skip(1), b.skip(1))
    }
}

/// Whether the key `a` stands before the key `b`.
pub open spec fn key_less(a: Key, b: Key) -> bool {
    a.0 < b.0 || (a.0 == b.0 && name_less(a.1, b.1))
}

/// `s`, which is in order, with `x` put in after every entry that does not
/// stand behind it.
pub open spec fn insert_sorted<T>(s: Seq<(Key, T)>, x: (Key, T)) -> Seq<(Key, T)>
    decreases s.len(),
{
    if s.len() > 0 && key_less(x.0, s.last().0) {
        insert_sorted(s.drop_last(), x).push(s.last())
    } else {
        s.push(x)
    }
}

/// The entries of `s` in the order of their keys; entries with equal keys
/// keep the order in which they stand in `s`.
pub open spec fn sort_by_key<T>(s: Seq<(Key, T)>) -> Seq<(Key, T)>
    decreases s.len(),
{
    if s.len() == 0 {
        Seq::empty()
    } else {
        insert_sorted(sort_by_key(s.drop_last()), s.last())
    }
}

/// The keys `keys`, each with its position.
pub open spec fn indexed(keys: Seq<Key>) -> Seq<(Key, int)> {
    Seq::new(keys.len(), |i: int| (keys[i], i))
}

/// The positions of `keys` in the order of the keys.
pub open spec fn key_order(keys: Seq<Key>) -> Seq<int> {
    Seq::new(keys.len(), |k: int| sort_by_key(indexed(keys))[k].1)
}

/// A key as the sorting routine takes it.
pub struct SortKey {
    pub id: usize,
    pub name: Vec<char>,
}

impl View for SortKey {
    type V = Key;

    open spec fn view(&self) -> Key {
        (self.id, self.name@)
    }
}

/// The keys of `s` as plain values.
pub open spec fn key_views(s: Seq<SortKey>) -> Seq<Key> {
    Seq::new(s.len(), |i: int| s[i]@)
}

/// To put an entry in makes the list one longer.
pub proof fn lemma_insert_sorted_len<T>(s: Seq<(Key, T)>, x: (Key, T))
    ensures
        insert_sorted(s, x).len() == s.len() + 1,
    decreases s.len(),
{
    if s.len() > 0 && key_less(x.0, s.last().0) {
        lemma_insert_sorted_len(s.drop_last(), x);
    }
}

/// Sorting keeps the number of entries.
pub proof fn lemma_sort_by_key_len<T>(s: Seq<(Key, T)>)
    ensures
        sort_by_key(s).len() == s.len(),
    decreases s.len(),
{
    if s.len() > 0 {
        lemma_sort_by_key_len(s.drop_last());
        lemma_insert_sorted_len(sort_by_key(s.drop_last()), s.last());
    }
}

/// Putting `x` in is an insertion at the place `p` behind which every entry
/// stands behind `x`, and before which the last entry does not.
pub proof fn lemma_insert_sorted_at<T>(s: Seq<(Key, T)>, x: (Key, T), p: int)
    requires
        0 <= p <= s.len(),
        forall|k: int| p <= k < s.len() ==> key_less(x.0, (#[trigger] s[k]).0),
        p > 0 ==> !key_less(x.0, s[p - 1].0),
    ensures
        insert_sorted(s, x) == s.insert(p, x),
    decreases s.len(),
{
    if s.len() > 0 && key_less(x.0, s.last().0) {
        assert(p < s.len());
        let t = s.drop_last();
        assert forall|k: int| p <= k < t.len() implies key_less(x.0, (#[trigger] t[k]).0) by {
            assert(t[k] == s[k]);
        }
        lemma_insert_sorted_at(t, x, p);
        assert(t.insert(p, x).push(s.last()) =~= s.insert(p, x));
    } else {
        if s.len() > 0 {
            assert(p == s.len());
        }
        assert(s.push(x) =~= s.insert(p, x));
    }
}

/// Whether the name `a` stands before the name `b`.
pub fn name_before(a: &Vec<char>, b: &Vec<char>) -> (r: bool)
    ensures
        r == name_less(a@, b@),
{
    let mut i: usize = 0;
    proof {
        assert(a@.skip(0) =~= a@);
        assert(b@.skip(0) =~= b@);
    }
    loop
        invariant
            i <= a@.len(),
            i <= b@.len(),
            name_less(a@, b@) == name_less(a@.skip(i as int), b@.skip(i as int)),
        decreases a@.len() - i,
    {
        if i >= b.len() {
            return false;
        }
        if i >= a.len() {
            return true;
        }
        let x = a[i];
        let y = b[i];
        proof {
            assert(a@.skip(i as int)[0] == x);
            assert(b@.skip(i as int)[0] == y);
            assert(a@.skip(i as int).skip(1) =~= a@.skip(i + 1));
            assert(b@.skip(i as int).skip(1) =~= b@.skip(i + 1));
        }
        if x != y {
            return x < y;
        }
        i = i + 1;
    }
}

/// Whether the key `a` stands before the key `b`.
pub fn key_before(a: &SortKey, b: &SortKey) -> (r: bool)
    ensures
        r == key_less(a@, b@),
{
    a.id < b.id || (a.id == b.id && name_before(&a.name, &b.name))
}

/// The entries of `s` at the positions `order`, each with its position.
pub open spec fn picked(keys: Seq<Key>, order: Seq<usize>) -> Seq<(Key, int)> {
    Seq::new(order.len(), |k: int| (keys[order[k] as int], order[k] as int))
}

/// The positions of the keys in the order of the keys: by id, then by name;
/// equal keys in the order in which they stand.
pub fn sorted_positions(keys: &Vec<SortKey>) -> (order: Vec<usize>)
    ensures
        order@.len() == keys@.len(),
        forall|k: int| 0 <= k < order@.len() ==> (#[trigger] order@[k]) < keys@.len(),
        forall|k: int| 0 <= k < order@.len() ==> (#[trigger] order@[k]) as int == key_order(
            key_views(keys@),
        )[k],
{
    let n: usize = keys.len();
    let ghost ks = key_views(keys@);
    let mut order: Vec<usize> = Vec::new();
    let mut i: usize = 0;
    proof {
        assert(picked(ks, order@) =~= sort_by_key(indexed(ks).take(0)));
    }
    while i < n
        invariant
            n == keys@.len(),
            ks == key_views(keys@),
            i <= n,
            order@.len() == i,
            forall|k: int| 0 <= k < order@.len() ==> (#[trigger] order@[k]) < i,
            picked(ks, order@) == sort_by_key(indexed(ks).take(i as int)),
        decreases n - i,
    {
        let mut p: usize = order.len();
        let ghost x = (ks[i as int], i as int);
        while p > 0 && key_before(&keys[i], &keys[order[p - 1]])
            invariant
                n == keys@.len(),
                ks == key_views(keys@),
                i < n,
                order@.len() == i,
                p <= order@.len(),
                x == (ks[i as int], i as int),
                forall|k: int| 0 <= k < order@.len() ==> (#[trigger] order@[k]) < i,
                forall|k: int|
                    p <= k < order@.len() ==> key_less(x.0, (#[trigger] picked(ks, order@)[k]).0),
            decreases p,
        {
            p = p - 1;
        }
        proof {
            let s = picked(ks, order@);
            lemma_insert_sorted_at(s, x, p as int);
            let t = indexed(ks).take(i + 1);
            assert(t.drop_last() =~= indexed(ks).take(i as int));
            assert(t.last() == x);
            assert(picked(ks, order@.insert(p as int, i)) =~= s.insert(p as int, x));
        }
        order.insert(p, i);
        i = i + 1;
    }
    proof {
        assert(indexed(ks).take(n as int) =~= indexed(ks));
        lemma_sort_by_key_len(indexed(ks));
        assert forall|k: int| 0 <= k < order@.len() implies (#[trigger] order@[k]) as int
            == key_order(ks)[k] by {
            assert(picked(ks, order@)[k].1 == order@[k] as int);
        }
    }
    order
}

/// No name stands before itself.
pub proof fn lemma_name_less_irreflexive(a: Seq<char>)
    ensures
        !name_less(a, a),
    decreases a.len(),
{
    if a.len() > 0 {
        lemma_name_less_irreflexive(a.skip(1));
    }
}

/// The order of names is transitive.
pub proof fn lemma_name_less_transitive(a: Seq<char>, b: Seq<char>, c: Seq<char>)
    requires
        name_less(a, b),
        name_less(b, c),
    ensures
        name_less(a, c),
    decreases a.len(),
{
    if a.len() > 0 && b.len() > 0 && c.len() > 0 {
        if a[0] == b[0] && b[0] == c[0] {
            lemma_name_less_transitive(a.skip(1), b.skip(1), c.skip(1));
        }
    }
}

/// Of two different names one stands before the other.
pub proof fn lemma_name_less_total(a: Seq<char>, b: Seq<char>)
    requires
        a != b,
    ensures
        name_less(a, b) || name_less(b, a),
    decreases a.len(),
{
    if a.len() > 0 && b.len() > 0 {
        if a[0] == b[0] {
            if a.skip(1) == b.skip(1) {
                assert(a.skip(1).len() == a.len() - 1);
                assert(b.skip(1).len() == b.len() - 1);
                assert(a.len() == b.len());
                assert forall|i: int| 0 <= i < a.len() implies a[i] == b[i] by {
                    if i > 0 {
                        assert(a.skip(1)[i - 1] == a[i]);
                        assert(b.skip(1)[i - 1] == b[i]);
                    }
                }
                assert(a =~= b);
            }
            lemma_name_less_total(a.skip(1), b.skip(1));
            assert(name_less(a, b) == name_less(a.skip(1), b.skip(1)));
            assert(name_less(b, a) == name_less(b.skip(1), a.skip(1)));
        } else {
            assert(name_less(a, b) == (a[0] < b[0]));
            assert(name_less(b, a) == (b[0] < a[0]));
        }
    } else {
        if a.len() == 0 && b.len() == 0 {
            assert(a =~= b);
        } else if a.len() == 0 {
            assert(name_less(a, b));
        } else {
            assert(name_less(b, a));
        }
    }
}

/// No key stands before itself.
pub proof fn lemma_key_less_irreflexive(a: Key)
    ensures
        !key_less(a, a),
{
    lemma_name_less_irreflexive(a.1);
}

/// The order of keys is transitive.
pub proof fn lemma_key_less_transitive(a: Key, b: Key, c: Key)
    requires
        key_less(a, b),
        key_less(b, c),
    ensures
        key_less(a, c),
{
    if a.0 == b.0 && b.0 == c.0 {
        lemma_name_less_transitive(a.1, b.1, c.1);
    }
}

/// Of two different keys one stands before the other.
pub proof fn lemma_key_less_total(a: Key, b: Key)
    requires
        a != b,
    ensures
        key_less(a, b) || key_less(b, a),
{
    if a.0 == b.0 {
        lemma_name_less_total(a.1, b.1);
    }
}

/// Whether `x` is among the entries of `s`.
pub open spec fn has<T>(s: Seq<T>, x: T) -> bool {
    exists|i: int| 0 <= i < s.len() && s[i] == x
}

/// Whether `a` and `b` hold the same entries, in whatever order.
pub open spec fn same_items<T>(a: Seq<T>, b: Seq<T>) -> bool {
    &&& a.len() == b.len()
    &&& forall|i: int| 0 <= i < a.len() ==> has(b, #[trigger] a[i])
    &&& forall|i: int| 0 <= i < b.len() ==> has(a, #[trigger] b[i])
}

/// Whether no two entries of `s` have the same key.
pub open spec fn keys_distinct<T>(s: Seq<(Key, T)>) -> bool {
    forall|i: int, j: int| 0 <= i < j < s.len() ==> (#[trigger] s[i]).0 != (#[trigger] s[j]).0
}

/// Whether each entry of `s` stands before every later one.
pub open spec fn strictly_sorted<T>(s: Seq<(Key, T)>) -> bool {
    forall|i: int, j: int|
        0 <= i < j < s.len() ==> key_less((#[trigger] s[i]).0, (#[trigger] s[j]).0)
}

/// What is put in is among the entries afterwards, beside those that were.
pub proof fn lemma_insert_sorted_items<T>(s: Seq<(Key, T)>, x: (Key, T))
    ensures
        insert_sorted(s, x).len() == s.len() + 1,
        forall|i: int| 0 <= i < s.len() ==> has(insert_sorted(s, x), #[trigger] s[i]),
        has(insert_sorted(s, x), x),
        forall|i: int|
            0 <= i < insert_sorted(s, x).len() ==> (#[trigger] insert_sorted(s, x)[i]) == x || has(
                s,
                insert_sorted(s, x)[i],
            ),
    decreases s.len(),
{
    let r = insert_sorted(s, x);
    if s.len() > 0 && key_less(x.0, s.last().0) {
        let t = insert_sorted(s.drop_last(), x);
        lemma_insert_sorted_items(s.drop_last(), x);
        assert(r == t.push(s.last()));
        assert forall|i: int| 0 <= i < s.len() implies has(r, #[trigger] s[i]) by {
            if i < s.len() - 1 {
                assert(s.drop_last()[i] == s[i]);
                let j = choose|j: int| 0 <= j < t.len() && t[j] == s[i];
                assert(r[j] == s[i]);
            } else {
                assert(r[r.len() - 1] == s[i]);
            }
        }
        assert(has(r, x)) by {
            let j = choose|j: int| 0 <= j < t.len() && t[j] == x;
            assert(r[j] == x);
        }
        assert forall|i: int| 0 <= i < r.len() implies (#[trigger] r[i]) == x || has(s, r[i]) by {
            if i < t.len() {
                assert(r[i] == t[i]);
                if t[i] != x {
                    let j = choose|j: int| 0 <= j < s.drop_last().len() && s.drop_last()[j] == t[i];
                    assert(s[j] == t[i]);
                }
            } else {
                assert(s[s.len() - 1] == r[i]);
            }
        }
    } else {
        assert(r == s.push(x));
        assert forall|i: int| 0 <= i < s.len() implies has(r, #[trigger] s[i]) by {
            assert(r[i] == s[i]);
        }
        assert(r[s.len() as int] == x);
        assert forall|i: int| 0 <= i < r.len() implies (#[trigger] r[i]) == x || has(s, r[i]) by {
            if i < s.len() {
                assert(s[i] == r[i]);
            }
        }
    }
}

/// Sorting keeps the entries.
pub proof fn lemma_sort_by_key_items<T>(s: Seq<(Key, T)>)
    ensures
        same_items(s, sort_by_key(s)),
    decreases s.len(),
{
    let r = sort_by_key(s);
    if s.len() > 0 {
        let t = sort_by_key(s.drop_last());
        lemma_sort_by_key_items(s.drop_last());
        lemma_insert_sorted_items(t, s.last());
        assert forall|i: int| 0 <= i < s.len() implies has(r, #[trigger] s[i]) by {
            if i < s.len() - 1 {
                assert(s.drop_last()[i] == s[i]);
                let j = choose|j: int| 0 <= j < t.len() && t[j] == s[i];
                assert(has(r, t[j]));
            }
        }
        assert forall|i: int| 0 <= i < r.len() implies has(s, #[trigger] r[i]) by {
            if r[i] == s.last() {
                assert(s[s.len() - 1] == r[i]);
            } else {
                let j = choose|j: int| 0 <= j < t.len() && t[j] == r[i];
                let k = choose|k: int| 0 <= k < s.drop_last().len() && s.drop_last()[k] == t[j];
                assert(s[k] == r[i]);
            }
        }
    }
}

/// To put an entry with a new key into entries in strict order leaves them
/// in strict order.
pub proof fn lemma_insert_sorted_strict<T>(s: Seq<(Key, T)>, x: (Key, T))
    requires
        strictly_sorted(s),
        forall|i: int| 0 <= i < s.len() ==> (#[trigger] s[i]).0 != x.0,
    ensures
        strictly_sorted(insert_sorted(s, x)),
    decreases s.len(),
{
    let r = insert_sorted(s, x);
    if s.len() > 0 && key_less(x.0, s.last().0) {
        let d = s.drop_last();
        let t = insert_sorted(d, x);
        assert forall|i: int, j: int| 0 <= i < j < d.len() implies key_less(
            (#[trigger] d[i]).0,
            (#[trigger] d[j]).0,
        ) by {
            assert(d[i] == s[i] && d[j] == s[j]);
        }
        assert forall|i: int| 0 <= i < d.len() implies (#[trigger] d[i]).0 != x.0 by {
            assert(d[i] == s[i]);
        }
        lemma_insert_sorted_strict(d, x);
        lemma_insert_sorted_items(d, x);
        assert forall|i: int, j: int| 0 <= i < j < r.len() implies key_less(
            (#[trigger] r[i]).0,
            (#[trigger] r[j]).0,
        ) by {
            if j < t.len() {
                assert(r[i] == t[i] && r[j] == t[j]);
            } else {
                assert(r[j] == s.last());
                assert(r[i] == t[i]);
                if t[i] != x {
                    let k = choose|k: int| 0 <= k < d.len() && d[k] == t[i];
                    assert(s[k] == t[i]);
                    assert(key_less(s[k].0, s[s.len() - 1].0));
                }
            }
        }
    } else {
        assert forall|i: int, j: int| 0 <= i < j < r.len() implies key_less(
            (#[trigger] r[i]).0,
            (#[trigger] r[j]).0,
        ) by {
            if j < s.len() {
                assert(r[i] == s[i] && r[j] == s[j]);
            } else {
                assert(r[j] == x);
                assert(r[i] == s[i]);
                let last = s[s.len() - 1];
                assert(last.0 != x.0);
                lemma_key_less_total(last.0, x.0);
                if i < s.len() - 1 {
                    assert(key_less(s[i].0, last.0));
                    lemma_key_less_transitive(s[i].0, last.0, x.0);
                }
            }
        }
    }
}

/// Entries with different keys come out of sorting in strict order.
pub proof fn lemma_sort_by_key_strict<T>(s: Seq<(Key, T)>)
    requires
        keys_distinct(s),
    ensures
        strictly_sorted(sort_by_key(s)),
    decreases s.len(),
{
    if s.len() > 0 {
        let d = s.drop_last();
        let t = sort_by_key(d);
        assert forall|i: int, j: int| 0 <= i < j < d.len() implies (#[trigger] d[i]).0 != (
        #[trigger] d[j]).0 by {
            assert(d[i] == s[i] && d[j] == s[j]);
        }
        lemma_sort_by_key_strict(d);
        lemma_sort_by_key_items(d);
        assert forall|i: int| 0 <= i < t.len() implies (#[trigger] t[i]).0 != s.last().0 by {
            let k = choose|k: int| 0 <= k < d.len() && d[k] == t[i];
            assert(s[k] == t[i]);
            assert(s[k].0 != s[s.len() - 1].0);
        }
        lemma_insert_sorted_strict(t, s.last());
    }
}

/// Entries in strict order are in the one order that their keys allow: two
/// such lists of the same entries are equal.
pub proof fn lemma_strictly_sorted_unique<T>(a: Seq<(Key, T)>, b: Seq<(Key, T)>)
    requires
        strictly_sorted(a),
        strictly_sorted(b),
        same_items(a, b),
    ensures
        a == b,
    decreases a.len(),
{
    if a.len() == 0 {
        assert(a =~= b);
    } else {
        let n = a.len() as int;
        let la = a[n - 1];
        let lb = b[n - 1];
        let j = choose|j: int| 0 <= j < b.len() && b[j] == la;
        let k = choose|k: int| 0 <= k < a.len() && a[k] == lb;
        assert(la == lb) by {
            if j < n - 1 && k < n - 1 {
                assert(key_less(b[j].0, b[n - 1].0));
                assert(key_less(a[k].0, a[n - 1].0));
                lemma_key_less_transitive(la.0, lb.0, la.0);
                lemma_key_less_irreflexive(la.0);
            }
        }
        let da = a.drop_last();
        let db = b.drop_last();
        assert forall|i: int| 0 <= i < da.len() implies has(db, #[trigger] da[i]) by {
            assert(da[i] == a[i]);
            let m = choose|m: int| 0 <= m < b.len() && b[m] == a[i];
            assert(key_less(a[i].0, a[n - 1].0));
            lemma_key_less_irreflexive(la.0);
            assert(m < n - 1);
            assert(db[m] == da[i]);
        }
        assert forall|i: int| 0 <= i < db.len() implies has(da, #[trigger] db[i]) by {
            assert(db[i] == b[i]);
            let m = choose|m: int| 0 <= m < a.len() && a[m] == b[i];
            assert(key_less(b[i].0, b[n - 1].0));
            lemma_key_less_irreflexive(lb.0);
            assert(m < n - 1);
            assert(da[m] == db[i]);
        }
        assert(strictly_sorted(da)) by {
            assert forall|i: int, j: int| 0 <= i < j < da.len() implies key_less(
                (#[trigger] da[i]).0,
                (#[trigger] da[j]).0,
            ) by {
                assert(da[i] == a[i] && da[j] == a[j]);
            }
        }
        assert(strictly_sorted(db)) by {
            assert forall|i: int, j: int| 0 <= i < j < db.len() implies key_less(
                (#[trigger] db[i]).0,
                (#[trigger] db[j]).0,
            ) by {
                assert(db[i] == b[i] && db[j] == b[j]);
            }
        }
        lemma_strictly_sorted_unique(da, db);
        assert(a =~= da.push(la));
        assert(b =~= db.push(lb));
    }
}

/// The order in which entries are given does not matter to the order in
/// which they come out: two lists of the same entries, no two of them with
/// the same key, are sorted to the same list.
pub proof fn lemma_sort_by_key_order_independent<T>(a: Seq<(Key, T)>, b: Seq<(Key, T)>)
    requires
        same_items(a, b),
        keys_distinct(a),
        keys_distinct(b),
    ensures
        sort_by_key(a) == sort_by_key(b),
{
    lemma_sort_by_key_items(a);
    lemma_sort_by_key_items(b);
    lemma_sort_by_key_strict(a);
    lemma_sort_by_key_strict(b);
    let sa = sort_by_key(a);
    let sb = sort_by_key(b);
    assert forall|i: int| 0 <= i < sa.len() implies has(sb, #[trigger] sa[i]) by {
        let k = choose|k: int| 0 <= k < a.len() && a[k] == sa[i];
        let m = choose|m: int| 0 <= m < b.len() && b[m] == a[k];
        assert(has(sb, b[m]));
    }
    assert forall|i: int| 0 <= i < sb.len() implies has(sa, #[trigger] sb[i]) by {
        let k = choose|k: int| 0 <= k < b.len() && b[k] == sb[i];
        let m = choose|m: int| 0 <= m < a.len() && a[m] == b[k];
        assert(has(sa, a[m]));
    }
    lemma_strictly_sorted_unique(sa, sb);
}

/// Whether `s` holds the keys of `t` in the same places, each with the item
/// that stands at the position that `t` holds there.
pub open spec fn labels<T>(s: Seq<(Key, T)>, t: Seq<(Key, int)>, items: Seq<T>) -> bool {
    &&& s.len() == t.len()
    &&& forall|i: int|
        0 <= i < s.len() ==> (#[trigger] s[i]).0 == t[i].0 && 0 <= t[i].1 < items.len() && s[i].1
            == items[t[i].1]
}

/// Two lists that agree still agree with an entry more at the end of each.
pub proof fn lemma_labels_push<T>(
    s: Seq<(Key, T)>,
    t: Seq<(Key, int)>,
    items: Seq<T>,
    key: Key,
    p: int,
)
    requires
        labels(s, t, items),
        0 <= p < items.len(),
    ensures
        labels(s.push((key, items[p])), t.push((key, p)), items),
{
    let fs = s.push((key, items[p]));
    let ft = t.push((key, p));
    assert forall|i: int| 0 <= i < fs.len() implies (#[trigger] fs[i]).0 == ft[i].0 && 0
        <= ft[i].1 < items.len() && fs[i].1 == items[ft[i].1] by {
        if i < s.len() {
            assert(fs[i] == s[i]);
            assert(ft[i] == t[i]);
        }
    }
}

/// Two lists that agree still agree without their last entries, and their
/// last entries agree.
pub proof fn lemma_labels_drop_last<T>(s: Seq<(Key, T)>, t: Seq<(Key, int)>, items: Seq<T>)
    requires
        labels(s, t, items),
        s.len() > 0,
    ensures
        labels(s.drop_last(), t.drop_last(), items),
        s.last().0 == t.last().0,
        0 <= t.last().1 < items.len(),
        s.last().1 == items[t.last().1],
{
    let ds = s.drop_last();
    let dt = t.drop_last();
    assert forall|i: int| 0 <= i < ds.len() implies (#[trigger] ds[i]).0 == dt[i].0 && 0
        <= dt[i].1 < items.len() && ds[i].1 == items[dt[i].1] by {
        assert(ds[i] == s[i]);
        assert(dt[i] == t[i]);
    }
    assert(s[s.len() - 1].0 == t[t.len() - 1].0);
}

/// Two lists that agree still agree after the same key is put into each.
pub proof fn lemma_insert_sorted_labels<T>(
    s: Seq<(Key, T)>,
    t: Seq<(Key, int)>,
    items: Seq<T>,
    key: Key,
    p: int,
)
    requires
        labels(s, t, items),
        0 <= p < items.len(),
    ensures
        labels(insert_sorted(s, (key, items[p])), insert_sorted(t, (key, p)), items),
    decreases s.len(),
{
    if s.len() > 0 {
        lemma_labels_drop_last(s, t, items);
        if key_less(key, s.last().0) {
            lemma_insert_sorted_labels(s.drop_last(), t.drop_last(), items, key, p);
            lemma_labels_push(
                insert_sorted(s.drop_last(), (key, items[p])),
                insert_sorted(t.drop_last(), (key, p)),
                items,
                t.last().0,
                t.last().1,
            );
            assert(s.last() == (t.last().0, items[t.last().1]));
            assert(t.last() == (t.last().0, t.last().1));
        } else {
            lemma_labels_push(s, t, items, key, p);
        }
    } else {
        lemma_labels_push(s, t, items, key, p);
    }
}

/// The keys `keys`, each with the item at its place.
pub open spec fn keyed<T>(keys: Seq<Key>, items: Seq<T>) -> Seq<(Key, T)> {
    Seq::new(keys.len(), |i: int| (keys[i], items[i]))
}

/// To sort items by their keys is to take them in the order of the keys.
pub proof fn lemma_sort_by_key_labels<T>(keys: Seq<Key>, items: Seq<T>, n: int)
    requires
        keys.len() == items.len(),
        0 <= n <= keys.len(),
    ensures
        labels(sort_by_key(keyed(keys, items).take(n)), sort_by_key(indexed(keys).take(n)), items),
    decreases n,
{
    if n > 0 {
        lemma_sort_by_key_labels(keys, items, n - 1);
        let a = keyed(keys, items).take(n);
        let b = indexed(keys).take(n);
        assert(a.drop_last() =~= keyed(keys, items).take(n - 1));
        assert(b.drop_last() =~= indexed(keys).take(n - 1));
        assert(a.last() == (keys[n - 1], items[n - 1]));
        assert(b.last() == (keys[n - 1], n - 1));
        lemma_insert_sorted_labels(
            sort_by_key(a.drop_last()),
            sort_by_key(b.drop_last()),
            items,
            keys[n - 1],
            n - 1,
        );
    } else {
        assert(keyed(keys, items).take(0) =~= Seq::<(Key, T)>::empty());
        assert(indexed(keys).take(0) =~= Seq::<(Key, int)>::empty());
    }
}

/// The items at the positions that `key_order` gives are the items sorted by
/// their keys.
pub proof fn lemma_key_order_sorts<T>(keys: Seq<Key>, items: Seq<T>)
    requires
        keys.len() == items.len(),
    ensures
        sort_by_key(keyed(keys, items)).len() == keys.len(),
        forall|k: int|
            0 <= k < keys.len() ==> 0 <= (#[trigger] key_order(keys)[k]) < keys.len() && items[key_order(
                keys,
            )[k]] == sort_by_key(keyed(keys, items))[k].1,
{
    lemma_sort_by_key_labels(keys, items, keys.len() as int);
    assert(keyed(keys, items).take(keys.len() as int) =~= keyed(keys, items));
    assert(indexed(keys).take(keys.len() as int) =~= indexed(keys));
    lemma_sort_by_key_len(keyed(keys, items));
    lemma_sort_by_key_len(indexed(keys));
    let s = sort_by_key(keyed(keys, items));
    let t = sort_by_key(indexed(keys));
    assert forall|k: int| 0 <= k < keys.len() implies 0 <= (#[trigger] key_order(keys)[k])
        < keys.len() && items[key_order(keys)[k]] == s[k].1 by {
        assert(s[k].0 == t[k].0);
    }
}

/// Whether no entry of `s` stands behind a later one.
pub open spec fn ordered<T>(s: Seq<(Key, T)>) -> bool {
    forall|i: int, j: int|
        0 <= i < j < s.len() ==> !key_less((#[trigger] s[j]).0, (#[trigger] s[i]).0)
}

/// Where neither of two keys stands before the other, what stands before the
/// one stands before the other.
pub proof fn lemma_key_less_through(a: Key, b: Key, c: Key)
    requires
        key_less(a, b),
        !key_less(c, b),
    ensures
        key_less(a, c),
{
    if b != c {
        lemma_key_less_total(b, c);
        lemma_key_less_transitive(a, b, c);
    }
}

/// To put an entry into ordered entries leaves them ordered.
pub proof fn lemma_insert_sorted_ordered<T>(s: Seq<(Key, T)>, x: (Key, T))
    requires
        ordered(s),
    ensures
        ordered(insert_sorted(s, x)),
    decreases s.len(),
{
    let r = insert_sorted(s, x);
    if s.len() > 0 && key_less(x.0, s.last().0) {
        let d = s.drop_last();
        let t = insert_sorted(d, x);
        assert forall|i: int, j: int| 0 <= i < j < d.len() implies !key_less(
            (#[trigger] d[j]).0,
            (#[trigger] d[i]).0,
        ) by {
            assert(d[i] == s[i] && d[j] == s[j]);
        }
        lemma_insert_sorted_ordered(d, x);
        lemma_insert_sorted_items(d, x);
        assert forall|i: int, j: int| 0 <= i < j < r.len() implies !key_less(
            (#[trigger] r[j]).0,
            (#[trigger] r[i]).0,
        ) by {
            if j < t.len() {
                assert(r[i] == t[i] && r[j] == t[j]);
            } else {
                assert(r[j] == s.last());
                assert(r[i] == t[i]);
                if t[i] == x {
                    if key_less(s.last().0, x.0) {
                        lemma_key_less_transitive(x.0, s.last().0, x.0);
                        lemma_key_less_irreflexive(x.0);
                    }
                } else {
                    let k = choose|k: int| 0 <= k < d.len() && d[k] == t[i];
                    assert(s[k] == t[i]);
                    assert(!key_less(s[s.len() - 1].0, s[k].0));
                }
            }
        }
    } else {
        assert forall|i: int, j: int| 0 <= i < j < r.len() implies !key_less(
            (#[trigger] r[j]).0,
            (#[trigger] r[i]).0,
        ) by {
            if j < s.len() {
                assert(r[i] == s[i] && r[j] == s[j]);
            } else {
                assert(r[j] == x);
                assert(r[i] == s[i]);
                let last = s[s.len() - 1];
                if key_less(x.0, s[i].0) {
                    if i < s.len() - 1 {
                        assert(!key_less(last.0, s[i].0));
                        lemma_key_less_through(x.0, s[i].0, last.0);
                    }
                }
            }
        }
    }
}

/// Sorted entries are ordered.
pub proof fn lemma_sort_by_key_ordered<T>(s: Seq<(Key, T)>)
    ensures
        ordered(sort_by_key(s)),
    decreases s.len(),
{
    if s.len() > 0 {
        lemma_sort_by_key_ordered(s.drop_last());
        lemma_insert_sorted_ordered(sort_by_key(s.drop_last()), s.last());
    }
}

} // verus!
