//! Stable sorting by a key of text.

use crate::text::{
    lemma_text_le_total, lemma_text_le_transitive, str_le, text_le, text_views,
};
use vstd::prelude::*;

verus! {

/// `x` put into a sorted list, after all that its key is not below.
pub open spec fn insert_by<V>(sorted: Seq<V>, x: V, key: spec_fn(V) -> Seq<char>) -> Seq<V>
    decreases sorted.len(),
{
    if sorted.len() == 0 || text_le(key(sorted.last()), key(x)) {
        sorted.push(x)
    } else {
        insert_by(sorted.drop_last(), x, key).push(sorted.last())
    }
}

/// A list in the order of its keys; items of one key keep their order.
pub open spec fn stable_sort<V>(list: Seq<V>, key: spec_fn(V) -> Seq<char>) -> Seq<V>
    decreases list.len(),
{
    if list.len() == 0 {
        seq![]
    } else {
        insert_by(stable_sort(list.drop_last(), key), list.last(), key)
    }
}

/// The keys of the list never go down.
pub open spec fn is_sorted<V>(list: Seq<V>, key: spec_fn(V) -> Seq<char>) -> bool {
    forall|i: int, j: int|
        #![trigger list[i], list[j]]
        0 <= i <= j < list.len() ==> text_le(key(list[i]), key(list[j]))
}

/// The items of one key, in their order.
pub open spec fn with_key<V>(list: Seq<V>, key: spec_fn(V) -> Seq<char>, k: Seq<char>) -> Seq<V> {
    list.filter(|v: V| key(v) == k)
}

/// The same items, and those of each key in the same order.
pub open spec fn same_groups<V>(a: Seq<V>, b: Seq<V>, key: spec_fn(V) -> Seq<char>) -> bool {
    forall|k: Seq<char>| #[trigger] with_key(a, key, k) == with_key(b, key, k)
}

proof fn lemma_with_key_push<V>(s: Seq<V>, x: V, key: spec_fn(V) -> Seq<char>, k: Seq<char>)
    ensures
        with_key(s.push(x), key, k) == if key(x) == k {
            with_key(s, key, k).push(x)
        } else {
            with_key(s, key, k)
        },
{
    reveal(Seq::filter);
    assert(s.push(x).drop_last() =~= s);
}

proof fn lemma_with_key_step<V>(s: Seq<V>, key: spec_fn(V) -> Seq<char>, k: Seq<char>)
    requires
        s.len() > 0,
    ensures
        with_key(s, key, k) == if key(s.last()) == k {
            with_key(s.drop_last(), key, k).push(s.last())
        } else {
            with_key(s.drop_last(), key, k)
        },
{
    assert(s =~= s.drop_last().push(s.last()));
    lemma_with_key_push(s.drop_last(), s.last(), key, k);
}

proof fn lemma_with_key_empty<V>(s: Seq<V>, key: spec_fn(V) -> Seq<char>, k: Seq<char>)
    requires
        forall|i: int| 0 <= i < s.len() ==> key(#[trigger] s[i]) != k,
    ensures
        with_key(s, key, k) == Seq::<V>::empty(),
    decreases s.len(),
{
    if s.len() == 0 {
        reveal(Seq::filter);
        assert(with_key(s, key, k) =~= seq![]);
    } else {
        assert(key(s[s.len() - 1]) != k);
        assert forall|i: int| 0 <= i < s.drop_last().len() implies key(
            #[trigger] s.drop_last()[i],
        ) != k by {
            assert(s.drop_last()[i] == s[i]);
        }
        lemma_with_key_step(s, key, k);
        lemma_with_key_empty(s.drop_last(), key, k);
    }
}

proof fn lemma_with_key_nonempty<V>(s: Seq<V>, key: spec_fn(V) -> Seq<char>, k: Seq<char>)
    requires
        with_key(s, key, k).len() > 0,
    ensures
        exists|i: int| 0 <= i < s.len() && key(#[trigger] s[i]) == k,
{
    if forall|i: int| 0 <= i < s.len() ==> key(#[trigger] s[i]) != k {
        lemma_with_key_empty(s, key, k);
    }
}

/// Two sorted lists of the same items, those of each key in the same order, are one list: a
/// stable sort has one outcome.
pub proof fn lemma_sorted_unique<V>(a: Seq<V>, b: Seq<V>, key: spec_fn(V) -> Seq<char>)
    requires
        is_sorted(a, key),
        is_sorted(b, key),
        same_groups(a, b, key),
    ensures
        a == b,
    decreases a.len(),
{
    if a.len() == 0 {
        if b.len() > 0 {
            let k = key(b.last());
            lemma_with_key_step(b, key, k);
            lemma_with_key_empty(a, key, k);
            assert(with_key(a, key, k) == with_key(b, key, k));
        }
        assert(a =~= b);
    } else {
        let ka = key(a.last());
        lemma_with_key_step(a, key, ka);
        assert(with_key(a, key, ka) == with_key(b, key, ka));
        lemma_with_key_nonempty(b, key, ka);
        let j = choose|j: int| 0 <= j < b.len() && key(#[trigger] b[j]) == ka;
        assert(b.len() > 0);
        let kb = key(b.last());
        assert(text_le(key(b[j]), key(b[b.len() - 1])));
        lemma_with_key_step(b, key, kb);
        assert(with_key(a, key, kb) == with_key(b, key, kb));
        lemma_with_key_nonempty(a, key, kb);
        let i = choose|i: int| 0 <= i < a.len() && key(#[trigger] a[i]) == kb;
        assert(text_le(key(a[i]), key(a[a.len() - 1])));
        lemma_text_le_total(ka, kb);
        assert(ka == kb);
        assert(a.last() == with_key(a, key, ka).last());
        assert(b.last() == with_key(b, key, ka).last());
        let a1 = a.drop_last();
        let b1 = b.drop_last();
        assert forall|k: Seq<char>| #[trigger] with_key(a1, key, k) == with_key(b1, key, k) by {
            lemma_with_key_step(a, key, k);
            lemma_with_key_step(b, key, k);
            assert(with_key(a, key, k) == with_key(b, key, k));
            if k == ka {
                assert(with_key(a1, key, k) =~= with_key(a, key, k).drop_last());
                assert(with_key(b1, key, k) =~= with_key(b, key, k).drop_last());
            }
        }
        lemma_sorted_unique(a1, b1, key);
        assert(a =~= a1.push(a.last()));
        assert(b =~= b1.push(b.last()));
    }
}

proof fn lemma_is_sorted_push<V>(s: Seq<V>, x: V, key: spec_fn(V) -> Seq<char>)
    requires
        is_sorted(s, key),
        s.len() > 0 ==> text_le(key(s.last()), key(x)),
    ensures
        is_sorted(s.push(x), key),
{
    let t = s.push(x);
    assert forall|i: int, j: int| #![trigger t[i], t[j]] 0 <= i <= j < t.len() implies text_le(
        key(t[i]),
        key(t[j]),
    ) by {
        if j == s.len() {
            if i == j {
                lemma_text_le_total(key(x), key(x));
            } else {
                assert(text_le(key(s[i]), key(s[s.len() - 1])));
                lemma_text_le_transitive(key(s[i]), key(s.last()), key(x));
            }
        } else {
            assert(text_le(key(s[i]), key(s[j])));
        }
    }
}

proof fn lemma_is_sorted_drop_last<V>(s: Seq<V>, key: spec_fn(V) -> Seq<char>)
    requires
        is_sorted(s, key),
        s.len() > 0,
    ensures
        is_sorted(s.drop_last(), key),
        forall|i: int| 0 <= i < s.len() ==> text_le(key(#[trigger] s[i]), key(s.last())),
{
    let t = s.drop_last();
    assert forall|i: int, j: int| #![trigger t[i], t[j]] 0 <= i <= j < t.len() implies text_le(
        key(t[i]),
        key(t[j]),
    ) by {
        assert(text_le(key(s[i]), key(s[j])));
    }
    assert forall|i: int| 0 <= i < s.len() implies text_le(key(#[trigger] s[i]), key(s.last())) by {
        assert(text_le(key(s[i]), key(s[s.len() - 1])));
    }
}

proof fn lemma_insert_by<V>(sorted: Seq<V>, x: V, key: spec_fn(V) -> Seq<char>)
    requires
        is_sorted(sorted, key),
    ensures
        is_sorted(insert_by(sorted, x, key), key),
        same_groups(insert_by(sorted, x, key), sorted.push(x), key),
        insert_by(sorted, x, key).len() == sorted.len() + 1,
        insert_by(sorted, x, key).last() == x || sorted.len() > 0 && insert_by(
            sorted,
            x,
            key,
        ).last() == sorted.last(),
    decreases sorted.len(),
{
    if sorted.len() == 0 || text_le(key(sorted.last()), key(x)) {
        lemma_is_sorted_push(sorted, x, key);
    } else {
        let rest = sorted.drop_last();
        let y = sorted.last();
        lemma_is_sorted_drop_last(sorted, key);
        lemma_insert_by(rest, x, key);
        lemma_text_le_total(key(y), key(x));
        let t = insert_by(rest, x, key);
        if rest.len() > 0 {
            assert(rest.last() == sorted[rest.len() - 1]);
        }
        assert(text_le(key(t.last()), key(y)));
        lemma_is_sorted_push(t, y, key);
        assert forall|k: Seq<char>| #[trigger]
            with_key(t.push(y), key, k) == with_key(sorted.push(x), key, k) by {
            lemma_with_key_push(t, y, key, k);
            lemma_with_key_push(sorted, x, key, k);
            lemma_with_key_step(sorted, key, k);
            lemma_with_key_push(rest, x, key, k);
            assert(with_key(t, key, k) == with_key(rest.push(x), key, k));
            lemma_text_le_total(key(x), key(y));
        }
    }
}

/// Sorting gives a sorted list of the same items, and leaves those of one key in their order.
pub proof fn lemma_stable_sort<V>(list: Seq<V>, key: spec_fn(V) -> Seq<char>)
    ensures
        is_sorted(stable_sort(list, key), key),
        same_groups(stable_sort(list, key), list, key),
        stable_sort(list, key).len() == list.len(),
        stable_sort(list, key).to_multiset() == list.to_multiset(),
    decreases list.len(),
{
    if list.len() == 0 {
        assert(list =~= seq![]);
    } else {
        let rest = list.drop_last();
        let x = list.last();
        lemma_stable_sort(rest, key);
        let s = stable_sort(rest, key);
        lemma_insert_by(s, x, key);
        assert(list =~= rest.push(x));
        assert forall|k: Seq<char>| #[trigger]
            with_key(stable_sort(list, key), key, k) == with_key(list, key, k) by {
            lemma_with_key_push(s, x, key, k);
            lemma_with_key_push(rest, x, key, k);
            assert(with_key(insert_by(s, x, key), key, k) == with_key(s.push(x), key, k));
            assert(with_key(s, key, k) == with_key(rest, key, k));
        }
        lemma_insert_by_multiset(s, x, key);
        vstd::seq_lib::to_multiset_build(rest, x);
    }
}

proof fn lemma_insert_by_multiset<V>(sorted: Seq<V>, x: V, key: spec_fn(V) -> Seq<char>)
    ensures
        insert_by(sorted, x, key).to_multiset() == sorted.to_multiset().insert(x),
    decreases sorted.len(),
{
    vstd::seq_lib::to_multiset_build(sorted, x);
    if !(sorted.len() == 0 || text_le(key(sorted.last()), key(x))) {
        let rest = sorted.drop_last();
        lemma_insert_by_multiset(rest, x, key);
        vstd::seq_lib::to_multiset_build(insert_by(rest, x, key), sorted.last());
        vstd::seq_lib::to_multiset_build(rest, sorted.last());
        assert(sorted =~= rest.push(sorted.last()));
        assert(rest.to_multiset().insert(x).insert(sorted.last())
            =~= rest.to_multiset().insert(sorted.last()).insert(x));
    }
}

/// A list that is in order is left as it is.
pub proof fn lemma_sort_sorted<V>(list: Seq<V>, key: spec_fn(V) -> Seq<char>)
    requires
        is_sorted(list, key),
    ensures
        stable_sort(list, key) == list,
{
    lemma_stable_sort(list, key);
    lemma_sorted_unique(stable_sort(list, key), list, key);
}

proof fn lemma_insert_by_map<A, B>(
    s: Seq<A>,
    x: A,
    f: spec_fn(A) -> B,
    ka: spec_fn(A) -> Seq<char>,
    kb: spec_fn(B) -> Seq<char>,
)
    requires
        forall|a: A| #[trigger] ka(a) == kb(f(a)),
    ensures
        insert_by(s, x, ka).map_values(f) == insert_by(s.map_values(f), f(x), kb),
    decreases s.len(),
{
    let m = s.map_values(f);
    if s.len() == 0 {
        assert(insert_by(s, x, ka).map_values(f) =~= m.push(f(x)));
    } else {
        assert(ka(s.last()) == kb(m.last()));
        assert(ka(x) == kb(f(x)));
        if text_le(ka(s.last()), ka(x)) {
            assert(insert_by(s, x, ka).map_values(f) =~= m.push(f(x)));
        } else {
            lemma_insert_by_map(s.drop_last(), x, f, ka, kb);
            assert(m.drop_last() =~= s.drop_last().map_values(f));
            assert(insert_by(s, x, ka).map_values(f) =~= insert_by(
                s.drop_last(),
                x,
                ka,
            ).map_values(f).push(m.last()));
        }
    }
}

/// Sorting goes with any mapping of the items that keeps their keys.
pub proof fn lemma_stable_sort_map<A, B>(
    s: Seq<A>,
    f: spec_fn(A) -> B,
    ka: spec_fn(A) -> Seq<char>,
    kb: spec_fn(B) -> Seq<char>,
)
    requires
        forall|a: A| #[trigger] ka(a) == kb(f(a)),
    ensures
        stable_sort(s, ka).map_values(f) == stable_sort(s.map_values(f), kb),
    decreases s.len(),
{
    let m = s.map_values(f);
    if s.len() == 0 {
        assert(stable_sort(s, ka).map_values(f) =~= stable_sort(m, kb));
    } else {
        lemma_stable_sort_map(s.drop_last(), f, ka, kb);
        assert(m.drop_last() =~= s.drop_last().map_values(f));
        lemma_insert_by_map(stable_sort(s.drop_last(), ka), s.last(), f, ka, kb);
    }
}

/// What a list can be sorted by.
pub trait Keyed: Sized {
    spec fn key(&self) -> Seq<char>;

    fn key_str(&self) -> (res: &str)
        ensures
            res@ == self.key(),
    ;
}

pub open spec fn key_of<T: Keyed>() -> spec_fn(T) -> Seq<char> {
    |t: T| t.key()
}

/// Two sorted lists as one; of two items with one key, that of `a` comes first.
spec fn merged<V>(a: Seq<V>, b: Seq<V>, key: spec_fn(V) -> Seq<char>) -> Seq<V>
    decreases a.len() + b.len(),
{
    if a.len() == 0 {
        b
    } else if b.len() == 0 {
        a
    } else if text_le(key(a.last()), key(b.last())) {
        merged(a, b.drop_last(), key).push(b.last())
    } else {
        merged(a.drop_last(), b, key).push(a.last())
    }
}

proof fn lemma_merged<V>(a: Seq<V>, b: Seq<V>, key: spec_fn(V) -> Seq<char>)
    requires
        is_sorted(a, key),
        is_sorted(b, key),
    ensures
        is_sorted(merged(a, b, key), key),
        same_groups(merged(a, b, key), a + b, key),
        a.len() + b.len() > 0 ==> merged(a, b, key).len() > 0 && (a.len() > 0 && merged(
            a,
            b,
            key,
        ).last() == a.last() || b.len() > 0 && merged(a, b, key).last() == b.last()),
    decreases a.len() + b.len(),
{
    if a.len() == 0 {
        assert(a + b =~= b);
    } else if b.len() == 0 {
        assert(a + b =~= a);
    } else if text_le(key(a.last()), key(b.last())) {
        let rest = b.drop_last();
        let m = merged(a, rest, key);
        lemma_is_sorted_drop_last(b, key);
        lemma_merged(a, rest, key);
        if rest.len() > 0 {
            assert(rest.last() == b[rest.len() - 1]);
        }
        lemma_is_sorted_push(m, b.last(), key);
        assert(a + b =~= (a + rest).push(b.last()));
        assert forall|k: Seq<char>| #[trigger]
            with_key(merged(a, b, key), key, k) == with_key(a + b, key, k) by {
            lemma_with_key_push(m, b.last(), key, k);
            lemma_with_key_push(a + rest, b.last(), key, k);
            assert(with_key(m, key, k) == with_key(a + rest, key, k));
        }
    } else {
        let rest = a.drop_last();
        let m = merged(rest, b, key);
        lemma_is_sorted_drop_last(a, key);
        lemma_is_sorted_drop_last(b, key);
        lemma_merged(rest, b, key);
        lemma_text_le_total(key(a.last()), key(b.last()));
        if rest.len() > 0 {
            assert(rest.last() == a[rest.len() - 1]);
        }
        lemma_is_sorted_push(m, a.last(), key);
        assert forall|k: Seq<char>| #[trigger]
            with_key(merged(a, b, key), key, k) == with_key(a + b, key, k) by {
            lemma_with_key_push(m, a.last(), key, k);
            assert(with_key(m, key, k) == with_key(rest + b, key, k));
            lemma_with_key_add(rest, b, key, k);
            lemma_with_key_add(a, b, key, k);
            lemma_with_key_step(a, key, k);
            if key(a.last()) == k {
                assert forall|i: int| 0 <= i < b.len() implies key(#[trigger] b[i]) != k by {
                    assert(text_le(key(b[i]), key(b.last())));
                    if key(b[i]) == k {
                        lemma_text_le_total(k, key(b.last()));
                    }
                }
                lemma_with_key_empty(b, key, k);
                assert(with_key(merged(a, b, key), key, k) =~= with_key(a + b, key, k));
            }
        }
    }
}

proof fn lemma_with_key_add<V>(a: Seq<V>, b: Seq<V>, key: spec_fn(V) -> Seq<char>, k: Seq<char>)
    ensures
        with_key(a + b, key, k) == with_key(a, key, k) + with_key(b, key, k),
    decreases b.len(),
{
    if b.len() == 0 {
        assert(a + b =~= a);
        lemma_with_key_empty(b, key, k);
        assert(with_key(a, key, k) + with_key(b, key, k) =~= with_key(a, key, k));
    } else {
        lemma_with_key_add(a, b.drop_last(), key, k);
        lemma_with_key_step(b, key, k);
        assert(a + b =~= (a + b.drop_last()).push(b.last()));
        lemma_with_key_push(a + b.drop_last(), b.last(), key, k);
        assert(with_key(a + b, key, k) =~= with_key(a, key, k) + with_key(b, key, k));
    }
}

fn merge<T: Keyed>(a: Vec<T>, b: Vec<T>) -> (res: Vec<T>)
    ensures
        res@ == merged(a@, b@, key_of::<T>()),
{
    let mut a: Vec<T> = a;
    let mut b: Vec<T> = b;
    let mut tail: Vec<T> = Vec::new();
    let ghost key = key_of::<T>();
    let ghost whole = merged(a@, b@, key);
    assert(merged(a@, b@, key) + tail@.reverse() =~= whole);
    while a.len() > 0 && b.len() > 0
        invariant
            key == key_of::<T>(),
            merged(a@, b@, key) + tail@.reverse() == whole,
        decreases a@.len() + b@.len(),
    {
        let ghost a0 = a@;
        let ghost b0 = b@;
        let ghost t0 = tail@;
        let i: usize = a.len() - 1;
        let j: usize = b.len() - 1;
        let from_b: bool = str_le(a[i].key_str(), b[j].key_str());
        assert(key(a0.last()) == a0[i as int].key());
        assert(key(b0.last()) == b0[j as int].key());
        let item: Option<T> = if from_b {
            b.pop()
        } else {
            a.pop()
        };
        if let Some(x) = item {
            tail.push(x);
            assert(tail@.reverse() =~= seq![x] + t0.reverse());
            assert(from_b ==> b@ =~= b0.drop_last());
            assert(!from_b ==> a@ =~= a0.drop_last());
            assert(merged(a0, b0, key) =~= merged(a@, b@, key).push(x));
            assert(merged(a@, b@, key) + tail@.reverse() =~= merged(a0, b0, key) + t0.reverse());
        }
    }
    let mut res: Vec<T> = a;
    res.append(&mut b);
    assert(res@ + tail@.reverse() =~= whole);
    while tail.len() > 0
        invariant
            res@ + tail@.reverse() == whole,
        decreases tail@.len(),
    {
        let ghost r0 = res@;
        let ghost t0 = tail@;
        if let Some(x) = tail.pop() {
            res.push(x);
            assert(t0.reverse() =~= seq![x] + tail@.reverse());
            assert(res@ + tail@.reverse() =~= r0 + t0.reverse());
        }
    }
    assert(res@ =~= whole);
    res
}

fn merge_sort<T: Keyed>(list: Vec<T>) -> (res: Vec<T>)
    ensures
        is_sorted(res@, key_of::<T>()),
        same_groups(res@, list@, key_of::<T>()),
    decreases list@.len(),
{
    let mut list: Vec<T> = list;
    let ghost key = key_of::<T>();
    let ghost all = list@;
    if list.len() <= 1 {
        proof {
            if all.len() == 1 {
                lemma_text_le_total(key(all[0]), key(all[0]));
            }
        }
        return list;
    }
    let half: usize = list.len() / 2;
    let right: Vec<T> = list.split_off(half);
    let ghost l0 = list@;
    let ghost r0 = right@;
    assert(all =~= l0 + r0);
    let a: Vec<T> = merge_sort(list);
    let b: Vec<T> = merge_sort(right);
    let res: Vec<T> = merge(a, b);
    proof {
        lemma_merged(a@, b@, key);
        assert forall|k: Seq<char>| #[trigger] with_key(res@, key, k) == with_key(all, key, k) by {
            assert(with_key(res@, key, k) == with_key(a@ + b@, key, k));
            lemma_with_key_add(a@, b@, key, k);
            lemma_with_key_add(l0, r0, key, k);
            assert(with_key(a@, key, k) == with_key(l0, key, k));
            assert(with_key(b@, key, k) == with_key(r0, key, k));
        }
    }
    res
}

/// Sorts a list by its keys; items of one key keep their order.
pub fn sort_by_key<T: Keyed>(list: Vec<T>) -> (res: Vec<T>)
    ensures
        res@ == stable_sort(list@, key_of::<T>()),
{
    let ghost all = list@;
    let ghost key = key_of::<T>();
    let res: Vec<T> = merge_sort(list);
    proof {
        lemma_stable_sort(all, key);
        assert forall|k: Seq<char>| #[trigger]
            with_key(res@, key, k) == with_key(stable_sort(all, key), key, k) by {
            assert(with_key(res@, key, k) == with_key(all, key, k));
            assert(with_key(stable_sort(all, key), key, k) == with_key(all, key, k));
        }
        lemma_sorted_unique(res@, stable_sort(all, key), key);
    }
    res
}

impl Keyed for String {
    open spec fn key(&self) -> Seq<char> {
        self@
    }

    fn key_str(&self) -> (res: &str) {
        self.as_str()
    }
}

pub open spec fn name_itself() -> spec_fn(Seq<char>) -> Seq<char> {
    |s: Seq<char>| s
}

/// Names in their order.
pub open spec fn by_name(names: Seq<Seq<char>>) -> Seq<Seq<char>> {
    stable_sort(names, name_itself())
}

/// The names are in their order.
pub open spec fn names_sorted(names: Seq<Seq<char>>) -> bool {
    is_sorted(names, name_itself())
}

/// Sorts names.
pub fn sort_names(names: Vec<String>) -> (res: Vec<String>)
    ensures
        text_views(res@) == by_name(text_views(names@)),
{
    let ghost all = names@;
    let res: Vec<String> = sort_by_key(names);
    proof {
        lemma_stable_sort_map(all, |s: String| s@, key_of::<String>(), name_itself());
    }
    res
}

/// Names in their order are the names there were, each as often, and none stands before a lower one.
pub proof fn lemma_by_name(names: Seq<Seq<char>>)
    ensures
        by_name(names).len() == names.len(),
        by_name(names).to_multiset() == names.to_multiset(),
        forall|i: int, j: int|
            #![trigger by_name(names)[i], by_name(names)[j]]
            0 <= i <= j < names.len() ==> text_le(by_name(names)[i], by_name(names)[j]),
{
    lemma_stable_sort(names, name_itself());
    let sorted = by_name(names);
    let key = name_itself();
    assert forall|i: int, j: int|
        #![trigger sorted[i], sorted[j]]
        0 <= i <= j < names.len() implies text_le(sorted[i], sorted[j]) by {
        assert(text_le(key(sorted[i]), key(sorted[j])));
    }
}

/// Names count as in order exactly if none stands before a lower one.
pub proof fn lemma_names_sorted(names: Seq<Seq<char>>)
    ensures
        names_sorted(names) <==> forall|i: int, j: int|
            #![trigger names[i], names[j]]
            0 <= i <= j < names.len() ==> text_le(names[i], names[j]),
{
    let key = name_itself();
    if names_sorted(names) {
        assert forall|i: int, j: int|
            #![trigger names[i], names[j]]
            0 <= i <= j < names.len() implies text_le(names[i], names[j]) by {
            assert(text_le(key(names[i]), key(names[j])));
        }
    }
}

} // verus!
