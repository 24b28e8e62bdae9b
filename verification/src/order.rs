//! Stable sorting by a key.

use vstd::prelude::*;
use crate::paths::PathKey;
use crate::paths;
use crate::text;

verus! {

/// A key to sort by: `before` is a strict order in which two keys may be equal
/// without being the same.
pub trait SortKey: Sized {
    spec fn before(self, other: Self) -> bool;

    proof fn lemma_asymmetric(a: Self, b: Self)
        requires
            a.before(b),
        ensures
            !b.before(a),
    ;

    proof fn lemma_not_before_transitive(a: Self, b: Self, c: Self)
        requires
            !a.before(b),
            !b.before(c),
        ensures
            !a.before(c),
    ;

    fn is_before(&self, other: &Self) -> (r: bool)
        ensures
            r == self.before(*other),
    ;
}

/// Whether item `a` stands ahead of item `b`: by its key, and among equal keys
/// by its position.
pub open spec fn ahead<K: SortKey>(keys: Seq<K>, a: usize, b: usize) -> bool {
    keys[a as int].before(keys[b as int]) || (!keys[b as int].before(keys[a as int]) && a < b)
}

/// Whether `order` lists the positions of `keys`, each once, sorted by key and
/// by position among equal keys.
pub open spec fn is_stable_order<K: SortKey>(keys: Seq<K>, order: Seq<usize>) -> bool {
    &&& order.len() == keys.len()
    &&& forall|i: int| 0 <= i < order.len() ==> #[trigger] order[i] < keys.len()
    &&& order.no_duplicates()
    &&& forall|i: int, j: int|
        0 <= i < j < order.len() ==> ahead(keys, #[trigger] order[i], #[trigger] order[j])
}

/// The positions of `keys` in sorted order.
pub fn stable_order<K: SortKey>(keys: &Vec<K>) -> (r: Vec<usize>)
    ensures
        is_stable_order(keys@, r@),
{
    let mut order: Vec<usize> = Vec::new();
    let mut i: usize = 0;
    while i < keys.len()
        invariant
            i <= keys@.len(),
            order@.len() == i,
            forall|k: int| 0 <= k < i ==> #[trigger] order@[k] < i,
            order@.no_duplicates(),
            forall|k: int, l: int|
                0 <= k < l < i ==> ahead(keys@, #[trigger] order@[k], #[trigger] order@[l]),
        decreases keys@.len() - i,
    {
        let mut j: usize = i;
        while j > 0 && keys[i].is_before(&keys[order[j - 1]])
            invariant
                j <= i < keys@.len(),
                order@.len() == i,
                forall|k: int| 0 <= k < i ==> #[trigger] order@[k] < i,
                forall|k: int|
                    j <= k < i ==> keys@[i as int].before(keys@[#[trigger] order@[k] as int]),
            decreases j,
        {
            j -= 1;
        }
        let ghost old_order = order@;
        proof {
            assert forall|k: int| 0 <= k < j implies !keys@[i as int].before(
                keys@[#[trigger] old_order[k] as int],
            ) by {
                let last = keys@[old_order[j - 1] as int];
                let here = keys@[old_order[k] as int];
                if k < j - 1 {
                    assert(ahead(keys@, old_order[k], old_order[j - 1]));
                    if here.before(last) {
                        K::lemma_asymmetric(here, last);
                    }
                    K::lemma_not_before_transitive(keys@[i as int], last, here);
                }
            }
        }
        order.insert(j, i);
        proof {
            assert forall|k: int, l: int| 0 <= k < l < i + 1 implies ahead(
                keys@,
                #[trigger] order@[k],
                #[trigger] order@[l],
            ) by {
                if k == j {
                    assert(order@[l] == old_order[l - 1]);
                } else if l == j {
                    assert(order@[k] == old_order[k]);
                } else {
                    let k0 = if k < j { k } else { k - 1 };
                    let l0 = if l < j { l } else { l - 1 };
                    assert(order@[k] == old_order[k0] && order@[l] == old_order[l0]);
                }
            }
            assert forall|k: int| 0 <= k < i + 1 implies #[trigger] order@[k] < i + 1 by {
                if k != j {
                    let k0 = if k < j { k } else { k - 1 };
                    assert(order@[k] == old_order[k0]);
                }
            }
            assert forall|k: int, l: int|
                0 <= k < order@.len() && 0 <= l < order@.len() && k != l implies #[trigger] order@[k]
                != #[trigger] order@[l] by {
                let k0 = if k < j { k } else { k - 1 };
                let l0 = if l < j { l } else { l - 1 };
                if k == j {
                    assert(order@[l] == old_order[l0]);
                } else if l == j {
                    assert(order@[k] == old_order[k0]);
                } else {
                    assert(order@[k] == old_order[k0] && order@[l] == old_order[l0]);
                }
            }
        }
        i += 1;
    }
    order
}

/// Strings sort as texts.
impl SortKey for String {
    open spec fn before(self, other: Self) -> bool {
        text::text_lt(self@, other@)
    }

    proof fn lemma_asymmetric(a: Self, b: Self) {
        text::lemma_text_lt_asymmetric(a@, b@);
    }

    proof fn lemma_not_before_transitive(a: Self, b: Self, c: Self) {
        text::lemma_text_not_lt_transitive(a@, b@, c@);
    }

    fn is_before(&self, other: &Self) -> (r: bool) {
        text::str_before(self.as_str(), other.as_str())
    }
}

/// Paths sort component by component.
impl SortKey for PathKey {
    open spec fn before(self, other: Self) -> bool {
        paths::list_lt(self@, other@)
    }

    proof fn lemma_asymmetric(a: Self, b: Self) {
        paths::lemma_list_lt_asymmetric(a@, b@);
    }

    proof fn lemma_not_before_transitive(a: Self, b: Self, c: Self) {
        paths::lemma_list_not_lt_transitive(a@, b@, c@);
    }

    fn is_before(&self, other: &Self) -> (r: bool) {
        self.comes_before(other)
    }
}

/// Whether the texts stand in ascending order.
pub open spec fn ascending(t: Seq<Seq<char>>) -> bool {
    forall|i: int, j: int| 0 <= i < j < t.len() ==> !text::text_lt(#[trigger] t[j], #[trigger] t[i])
}

/// `v` in ascending order.
pub fn sorted_strings(v: &Vec<String>) -> (r: Vec<String>)
    ensures
        ascending(text::texts(r@)),
        text::texts(r@).to_multiset() == text::texts(v@).to_multiset(),
{
    let mut out: Vec<String> = Vec::new();
    let mut i: usize = 0;
    assert(text::texts(out@) =~= text::texts(v@).take(0));
    while i < v.len()
        invariant
            i <= v@.len(),
            out@.len() == i,
            ascending(text::texts(out@)),
            text::texts(out@).to_multiset() == text::texts(v@).take(i as int).to_multiset(),
        decreases v@.len() - i,
    {
        let mut j: usize = out.len();
        while j > 0 && text::str_before(v[i].as_str(), out[j - 1].as_str())
            invariant
                i < v@.len(),
                j <= out@.len(),
                forall|k: int|
                    j <= k < out@.len() ==> text::text_lt(v@[i as int]@, #[trigger] text::texts(out@)[k]),
            decreases j,
        {
            assert(text::texts(out@)[j - 1] == out@[j - 1]@);
            j -= 1;
        }
        let ghost o = text::texts(out@);
        let ghost x = v@[i as int]@;
        proof {
            assert forall|k: int| 0 <= k < j implies !text::text_lt(x, #[trigger] o[k]) by {
                if k < j - 1 {
                    text::lemma_text_not_lt_transitive(x, o[j - 1], o[k]);
                }
            }
        }
        out.insert(j, v[i].clone());
        proof {
            let n = text::texts(out@);
            assert(n =~= o.insert(j as int, x));
            vstd::seq_lib::to_multiset_insert(o, j as int, x);
            let t = text::texts(v@);
            assert(t.take(i + 1) =~= t.take(i as int).push(x));
            vstd::seq_lib::to_multiset_build(t.take(i as int), x);
            assert forall|k: int, l: int| 0 <= k < l < n.len() implies !text::text_lt(
                #[trigger] n[l],
                #[trigger] n[k],
            ) by {
                if k == j {
                    assert(n[l] == o[l - 1]);
                    text::lemma_text_lt_asymmetric(x, n[l]);
                } else if l == j {
                    assert(n[k] == o[k]);
                } else {
                    let k0 = if k < j { k } else { k - 1 };
                    let l0 = if l < j { l } else { l - 1 };
                    assert(n[k] == o[k0] && n[l] == o[l0]);
                }
            }
        }
        i += 1;
    }
    assert(text::texts(v@).take(v@.len() as int) =~= text::texts(v@));
    out
}

/// Whether each text comes before the next.
pub open spec fn strictly_ascending(t: Seq<Seq<char>>) -> bool {
    forall|i: int, j: int| 0 <= i < j < t.len() ==> text::text_lt(#[trigger] t[i], #[trigger] t[j])
}

/// Whether `r` lists the texts of `t` in ascending order, each once.
pub open spec fn is_set_of(r: Seq<Seq<char>>, t: Seq<Seq<char>>) -> bool {
    &&& strictly_ascending(r)
    &&& forall|x: Seq<char>| #[trigger] r.contains(x) <==> t.contains(x)
}

/// The strings of `v` in ascending order, each once.
pub fn sorted_set(v: &Vec<String>) -> (r: Vec<String>)
    ensures
        is_set_of(text::texts(r@), text::texts(v@)),
{
    broadcast use text::lemma_texts_push;

    let s = sorted_strings(v);
    let ghost t = text::texts(s@);
    let mut out: Vec<String> = Vec::new();
    let mut i: usize = 0;
    while i < s.len()
        invariant
            i <= s@.len(),
            t == text::texts(s@),
            ascending(t),
            strictly_ascending(text::texts(out@)),
            forall|k: int| 0 <= k < i ==> text::texts(out@).contains(#[trigger] t[k]),
            forall|k: int|
                0 <= k < out@.len() ==> t.take(i as int).contains(#[trigger] text::texts(out@)[k]),
            i > 0 ==> out@.len() > 0 && text::texts(out@).last() == t[i - 1],
        decreases s@.len() - i,
    {
        let fresh = out.len() == 0 || !text::str_eq(out[out.len() - 1].as_str(), s[i].as_str());
        let ghost o = text::texts(out@);
        if fresh {
            proof {
                if o.len() > 0 {
                    text::lemma_text_lt_total(t[i - 1], t[i as int]);
                    assert forall|k: int| 0 <= k < o.len() implies text::text_lt(
                        #[trigger] o[k],
                        t[i as int],
                    ) by {
                        if k < o.len() - 1 {
                            text::lemma_text_lt_transitive(o[k], o[o.len() - 1], t[i as int]);
                        }
                    }
                }
            }
            out.push(s[i].clone());
        }
        proof {
            let n = text::texts(out@);
            if fresh {
                assert(n =~= o.push(t[i as int]));
                assert(n[n.len() - 1] == t[i as int]);
            }
            assert forall|k: int| 0 <= k < i + 1 implies n.contains(#[trigger] t[k]) by {
                if k < i {
                    assert(o.contains(t[k]));
                    let m = choose|m: int| 0 <= m < o.len() && o[m] == t[k];
                    assert(n[m] == t[k]);
                } else {
                    assert(n[n.len() - 1] == t[k]);
                }
            }
            assert forall|k: int| 0 <= k < n.len() implies t.take(i + 1).contains(
                #[trigger] n[k],
            ) by {
                if k < o.len() {
                    assert(n[k] == o[k]);
                    assert(t.take(i as int).contains(o[k]));
                    let m = choose|m: int| 0 <= m < i && t.take(i as int)[m] == o[k];
                    assert(t.take(i + 1)[m] == o[k]);
                } else {
                    assert(t.take(i + 1)[i as int] == n[k]);
                }
            }
        }
        i += 1;
    }
    proof {
        assert(t.take(t.len() as int) =~= t);
        let r = text::texts(out@);
        assert forall|x: Seq<char>| #[trigger] r.contains(x) <==> text::texts(v@).contains(x) by {
            vstd::seq_lib::to_multiset_contains(t, x);
            vstd::seq_lib::to_multiset_contains(text::texts(v@), x);
            if t.contains(x) {
                let k = choose|k: int| 0 <= k < t.len() && t[k] == x;
                assert(r.contains(t[k]));
            }
        }
    }
    out
}

/// Something that can be sorted and copied.
pub trait Sortable: SortKey {
    fn copy(&self) -> (r: Self)
        ensures
            r == *self,
    ;
}

/// `s`, which is sorted, with `x` behind everything that it does not come before.
pub open spec fn insert_stable<T: SortKey>(s: Seq<T>, x: T) -> Seq<T>
    decreases s.len(),
{
    if s.len() == 0 || !x.before(s.last()) {
        s.push(x)
    } else {
        insert_stable(s.drop_last(), x).push(s.last())
    }
}

/// `s` in order; items of equal keys stay in their order.
pub open spec fn stable_sorted<T: SortKey>(s: Seq<T>) -> Seq<T>
    decreases s.len(),
{
    if s.len() == 0 {
        s
    } else {
        insert_stable(stable_sorted(s.drop_last()), s.last())
    }
}

proof fn lemma_insert_stable<T: SortKey>(s: Seq<T>, x: T, j: int)
    requires
        0 <= j <= s.len(),
        forall|k: int| j <= k < s.len() ==> x.before(#[trigger] s[k]),
        j > 0 ==> !x.before(s[j - 1]),
    ensures
        insert_stable(s, x) == s.insert(j, x),
    decreases s.len(),
{
    if j == s.len() {
        assert(s.insert(j, x) =~= s.push(x));
    } else {
        assert(x.before(s[s.len() - 1]));
        lemma_insert_stable(s.drop_last(), x, j);
        assert(s.insert(j, x) =~= s.drop_last().insert(j, x).push(s.last()));
    }
}

/// The items of `v` in order; items of equal keys stay in their order.
pub fn stable_sort<T: Sortable>(v: &Vec<T>) -> (r: Vec<T>)
    ensures
        r@ == stable_sorted(v@),
{
    let mut out: Vec<T> = Vec::new();
    let mut i: usize = 0;
    assert(v@.take(0) =~= Seq::<T>::empty());
    while i < v.len()
        invariant
            i <= v@.len(),
            out@ == stable_sorted(v@.take(i as int)),
        decreases v@.len() - i,
    {
        let x = v[i].copy();
        let mut j: usize = out.len();
        while j > 0 && x.is_before(&out[j - 1])
            invariant
                j <= out@.len(),
                forall|k: int| j <= k < out@.len() ==> x.before(#[trigger] out@[k]),
            decreases j,
        {
            j -= 1;
        }
        proof {
            lemma_insert_stable(out@, x, j as int);
            assert(v@.take(i + 1).drop_last() =~= v@.take(i as int));
        }
        out.insert(j, x);
        i += 1;
    }
    assert(v@.take(v@.len() as int) =~= v@);
    out
}

/// Whether nothing stands behind something that it comes before.
pub open spec fn in_order<T: SortKey>(s: Seq<T>) -> bool {
    forall|i: int, j: int| 0 <= i < j < s.len() ==> !(#[trigger] s[j]).before(#[trigger] s[i])
}

proof fn lemma_insert_stable_multiset<T: SortKey>(s: Seq<T>, x: T)
    ensures
        insert_stable(s, x).to_multiset() == s.to_multiset().insert(x),
    decreases s.len(),
{
    broadcast use vstd::seq_lib::to_multiset_build;

    if s.len() == 0 || !x.before(s.last()) {
    } else {
        lemma_insert_stable_multiset(s.drop_last(), x);
        assert(s.drop_last().push(s.last()) =~= s);
        assert(s.drop_last().to_multiset().insert(s.last()) =~= s.to_multiset());
        assert(s.drop_last().to_multiset().insert(x).insert(s.last())
            =~= s.drop_last().to_multiset().insert(s.last()).insert(x));
    }
}

proof fn lemma_insert_stable_in_order<T: SortKey>(s: Seq<T>, x: T)
    requires
        in_order(s),
    ensures
        in_order(insert_stable(s, x)),
        forall|i: int|
            0 <= i < insert_stable(s, x).len() ==> (#[trigger] insert_stable(s, x)[i]) == x
                || s.contains(insert_stable(s, x)[i]),
    decreases s.len(),
{
    if s.len() == 0 || !x.before(s.last()) {
        let r = s.push(x);
        assert forall|i: int, j: int| 0 <= i < j < r.len() implies !(#[trigger] r[j]).before(
            #[trigger] r[i],
        ) by {
            if j == s.len() && i < s.len() - 1 {
                assert(!s[s.len() - 1].before(s[i]));
                T::lemma_not_before_transitive(x, s[s.len() - 1], s[i]);
            }
        }
        assert forall|i: int| 0 <= i < r.len() implies (#[trigger] r[i]) == x || s.contains(r[i]) by {
            if i < s.len() {
                assert(s[i] == r[i]);
            }
        }
    } else {
        let init = s.drop_last();
        lemma_insert_stable_in_order(init, x);
        let t = insert_stable(init, x);
        let r = t.push(s.last());
        assert forall|i: int| 0 <= i < r.len() implies (#[trigger] r[i]) == x || s.contains(r[i]) by {
            if i < t.len() {
                assert(r[i] == t[i]);
                if t[i] != x {
                    let k = choose|k: int| 0 <= k < init.len() && init[k] == t[i];
                    assert(s[k] == t[i]);
                }
            } else {
                assert(s[s.len() - 1] == r[i]);
            }
        }
        assert forall|i: int, j: int| 0 <= i < j < r.len() implies !(#[trigger] r[j]).before(
            #[trigger] r[i],
        ) by {
            if j == t.len() {
                if t[i] == x {
                    T::lemma_asymmetric(x, s.last());
                } else {
                    let k = choose|k: int| 0 <= k < init.len() && init[k] == t[i];
                    assert(!s[s.len() - 1].before(s[k]));
                }
            } else {
                assert(r[i] == t[i] && r[j] == t[j]);
            }
        }
    }
}

/// Sorting keeps every item, as often as it occurs, and puts the items in order.
pub proof fn law_stable_sorted<T: SortKey>(s: Seq<T>)
    ensures
        stable_sorted(s).to_multiset() == s.to_multiset(),
        in_order(stable_sorted(s)),
    decreases s.len(),
{
    if s.len() > 0 {
        broadcast use vstd::seq_lib::to_multiset_build;

        law_stable_sorted(s.drop_last());
        lemma_insert_stable_multiset(stable_sorted(s.drop_last()), s.last());
        lemma_insert_stable_in_order(stable_sorted(s.drop_last()), s.last());
        assert(s.drop_last().push(s.last()) =~= s);
    }
}

/// `s`, which is sorted by `lt`, with `x` behind everything that it does not
/// come before.
pub open spec fn insert_by<T>(s: Seq<T>, x: T, lt: spec_fn(T, T) -> bool) -> Seq<T>
    decreases s.len(),
{
    if s.len() == 0 || !lt(x, s.last()) {
        s.push(x)
    } else {
        insert_by(s.drop_last(), x, lt).push(s.last())
    }
}

/// `s` in the order `lt`; items that are equal in it stay in their order.
pub open spec fn sorted_by<T>(s: Seq<T>, lt: spec_fn(T, T) -> bool) -> Seq<T>
    decreases s.len(),
{
    if s.len() == 0 {
        s
    } else {
        insert_by(sorted_by(s.drop_last(), lt), s.last(), lt)
    }
}

/// Where an item goes: behind the last one that it does not come before.
pub proof fn lemma_insert_by<T>(s: Seq<T>, x: T, lt: spec_fn(T, T) -> bool, j: int)
    requires
        0 <= j <= s.len(),
        forall|k: int| j <= k < s.len() ==> lt(x, #[trigger] s[k]),
        j > 0 ==> !lt(x, s[j - 1]),
    ensures
        insert_by(s, x, lt) == s.insert(j, x),
    decreases s.len(),
{
    if j == s.len() {
        assert(s.insert(j, x) =~= s.push(x));
    } else {
        assert(lt(x, s[s.len() - 1]));
        lemma_insert_by(s.drop_last(), x, lt, j);
        assert(s.insert(j, x) =~= s.drop_last().insert(j, x).push(s.last()));
    }
}

/// Whether `lt` orders things, some of which may be equal in it.
pub open spec fn is_order<T>(lt: spec_fn(T, T) -> bool) -> bool {
    &&& forall|a: T, b: T| #[trigger] lt(a, b) ==> !lt(b, a)
    &&& forall|a: T, b: T, c: T| !#[trigger] lt(a, b) && !#[trigger] lt(b, c) ==> !lt(a, c)
}

/// Whether nothing stands behind something that it comes before.
pub open spec fn in_order_by<T>(s: Seq<T>, lt: spec_fn(T, T) -> bool) -> bool {
    forall|i: int, j: int| 0 <= i < j < s.len() ==> !lt(#[trigger] s[j], #[trigger] s[i])
}

pub proof fn lemma_insert_by_multiset<T>(s: Seq<T>, x: T, lt: spec_fn(T, T) -> bool)
    ensures
        insert_by(s, x, lt).to_multiset() == s.to_multiset().insert(x),
    decreases s.len(),
{
    broadcast use vstd::seq_lib::to_multiset_build;

    if s.len() > 0 && lt(x, s.last()) {
        lemma_insert_by_multiset(s.drop_last(), x, lt);
        assert(s.drop_last().push(s.last()) =~= s);
        assert(s.drop_last().to_multiset().insert(x).insert(s.last())
            =~= s.drop_last().to_multiset().insert(s.last()).insert(x));
    }
}

proof fn lemma_insert_by_in_order<T>(s: Seq<T>, x: T, lt: spec_fn(T, T) -> bool)
    requires
        is_order(lt),
        in_order_by(s, lt),
    ensures
        in_order_by(insert_by(s, x, lt), lt),
        forall|k: int| 0 <= k < insert_by(s, x, lt).len() ==> (
            #[trigger] insert_by(s, x, lt)[k] == x || s.contains(insert_by(s, x, lt)[k])),
    decreases s.len(),
{
    let r = insert_by(s, x, lt);
    if s.len() == 0 || !lt(x, s.last()) {
        assert forall|i: int, j: int| 0 <= i < j < r.len() implies !lt(
            #[trigger] r[j],
            #[trigger] r[i],
        ) by {
            if j == s.len() {
                if i < s.len() - 1 {
                    assert(!lt(s[s.len() - 1], s[i]));
                }
                assert(!lt(x, s.last()));
            }
        }
        assert forall|k: int| 0 <= k < r.len() implies #[trigger] r[k] == x || s.contains(r[k]) by {
            if k < s.len() {
                assert(s[k] == r[k]);
            }
        }
    } else {
        let front = s.drop_last();
        lemma_insert_by_in_order(front, x, lt);
        let t = insert_by(front, x, lt);
        assert forall|k: int| 0 <= k < t.len() implies !lt(s.last(), #[trigger] t[k]) by {
            if t[k] != x {
                let m = choose|m: int| 0 <= m < front.len() && front[m] == t[k];
                assert(!lt(s[s.len() - 1], s[m]));
            }
        }
        assert forall|k: int| 0 <= k < r.len() implies #[trigger] r[k] == x || s.contains(r[k]) by {
            if k < t.len() {
                assert(r[k] == t[k]);
                if t[k] != x {
                    let m = choose|m: int| 0 <= m < front.len() && front[m] == t[k];
                    assert(s[m] == r[k]);
                }
            } else {
                assert(s[s.len() - 1] == r[k]);
            }
        }
    }
}

/// Sorting by an order keeps every item, as often as it occurs, and puts the
/// items in order.
pub proof fn law_sorted_by<T>(s: Seq<T>, lt: spec_fn(T, T) -> bool)
    requires
        is_order(lt),
    ensures
        sorted_by(s, lt).to_multiset() == s.to_multiset(),
        in_order_by(sorted_by(s, lt), lt),
    decreases s.len(),
{
    if s.len() > 0 {
        broadcast use vstd::seq_lib::to_multiset_build;

        law_sorted_by(s.drop_last(), lt);
        lemma_insert_by_multiset(sorted_by(s.drop_last(), lt), s.last(), lt);
        lemma_insert_by_in_order(sorted_by(s.drop_last(), lt), s.last(), lt);
        assert(s.drop_last().push(s.last()) =~= s);
    }
}

} // verus!
