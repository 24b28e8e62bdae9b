//! A map from texts to texts.

use vstd::prelude::*;
use vstd::string::*;
use crate::order::sorted_set;
use crate::order;
use crate::text::str_eq;
use crate::text;

verus! {

/// A key with its value.
#[derive(Debug)]
pub struct TextEntry {
    pub key: String,
    pub value: String,
}

/// A map from texts to texts: no two entries with one key.
#[derive(Debug)]
pub struct TextMap {
    pub entries: Vec<TextEntry>,
}

/// Whether entry `i` has the key `k`.
pub open spec fn keyed(e: Seq<TextEntry>, i: int, k: Seq<char>) -> bool {
    0 <= i < e.len() && e[i].key@ == k
}

pub open spec fn unique_keys(e: Seq<TextEntry>) -> bool {
    forall|i: int, j: int|
        0 <= i < e.len() && 0 <= j < e.len() && #[trigger] e[i].key@ == #[trigger] e[j].key@ ==> i
            == j
}

pub open spec fn map_of(e: Seq<TextEntry>) -> Map<Seq<char>, Seq<char>> {
    Map::new(
        |k: Seq<char>| exists|i: int| keyed(e, i, k),
        |k: Seq<char>| e[choose|i: int| keyed(e, i, k)].value@,
    )
}

impl View for TextMap {
    type V = Map<Seq<char>, Seq<char>>;

    open spec fn view(&self) -> Map<Seq<char>, Seq<char>> {
        map_of(self.entries@)
    }
}

proof fn lemma_entry(e: Seq<TextEntry>, i: int)
    requires
        unique_keys(e),
        0 <= i < e.len(),
    ensures
        map_of(e).dom().contains(e[i].key@),
        map_of(e)[e[i].key@] == e[i].value@,
{
    let n = e[i].key@;
    assert(keyed(e, i, n));
    let k = choose|k: int| keyed(e, k, n);
    assert(keyed(e, k, n));
    assert(e[k].key@ == e[i].key@);
}

/// Entries that differ from `before` only in position `i`, which has the key
/// `n`, map what `before` maps and `n` to `d`.
proof fn lemma_one_changed(
    before: Seq<TextEntry>,
    after: Seq<TextEntry>,
    i: int,
    n: Seq<char>,
    d: Seq<char>,
)
    requires
        unique_keys(before),
        unique_keys(after),
        0 <= i < after.len(),
        after.len() == before.len() || (after.len() == before.len() + 1 && i == before.len()),
        after[i].key@ == n,
        after[i].value@ == d,
        i < before.len() ==> before[i].key@ == n,
        forall|j: int| 0 <= j < before.len() && j != i ==> #[trigger] after[j] == before[j],
    ensures
        map_of(after) == map_of(before).insert(n, d),
{
    let a = map_of(after);
    let b = map_of(before).insert(n, d);
    assert forall|m: Seq<char>| a.dom().contains(m) <==> b.dom().contains(m) by {
        if a.dom().contains(m) {
            let k = choose|k: int| keyed(after, k, m);
            assert(keyed(after, k, m));
            if k != i {
                assert(keyed(before, k, m));
            }
        }
        if b.dom().contains(m) {
            if m == n {
                assert(keyed(after, i, n));
            } else {
                let k = choose|k: int| keyed(before, k, m);
                assert(keyed(before, k, m));
                assert(keyed(after, k, m));
            }
        }
    }
    assert forall|m: Seq<char>| a.dom().contains(m) implies a[m] == b[m] by {
        let k = choose|k: int| keyed(after, k, m);
        assert(keyed(after, k, m));
        lemma_entry(after, k);
        if k != i {
            lemma_entry(before, k);
            if m == n {
                assert(after[k].key@ == after[i].key@);
            }
        }
    }
    assert(a =~= b);
}

impl TextMap {
    pub open spec fn wf(self) -> bool {
        unique_keys(self.entries@)
    }

    /// An empty map.
    pub fn new() -> (r: Self)
        ensures
            r.wf(),
            r@ == Map::<Seq<char>, Seq<char>>::empty(),
            r.entries@.len() == 0,
    {
        let entries: Vec<TextEntry> = Vec::new();
        proof {
            assert forall|k: Seq<char>| !map_of(entries@).dom().contains(k) by {
                if map_of(entries@).dom().contains(k) {
                    let i = choose|i: int| keyed(entries@, i, k);
                    assert(keyed(entries@, i, k));
                }
            }
            assert(map_of(entries@) =~= Map::<Seq<char>, Seq<char>>::empty());
        }
        TextMap { entries }
    }

    fn position(&self, key: &str) -> (r: Option<usize>)
        ensures
            match r {
                Some(i) => keyed(self.entries@, i as int, key@),
                None => !self@.dom().contains(key@),
            },
    {
        let mut i: usize = 0;
        while i < self.entries.len()
            invariant
                i <= self.entries@.len(),
                forall|k: int| 0 <= k < i ==> !keyed(self.entries@, k, key@),
            decreases self.entries@.len() - i,
        {
            if str_eq(self.entries[i].key.as_str(), key) {
                return Some(i);
            }
            i += 1;
        }
        None
    }

    /// The value of a key.
    pub fn get(&self, key: &str) -> (r: Option<String>)
        requires
            self.wf(),
        ensures
            match r {
                Some(v) => self@.dom().contains(key@) && self@[key@] == v@,
                None => !self@.dom().contains(key@),
            },
    {
        match self.position(key) {
            Some(i) => {
                proof {
                    lemma_entry(self.entries@, i as int);
                }
                Some(self.entries[i].value.clone())
            },
            None => None,
        }
    }

    /// Whether a key is there.
    pub fn contains_key(&self, key: &str) -> (r: bool)
        requires
            self.wf(),
        ensures
            r == self@.dom().contains(key@),
    {
        match self.position(key) {
            Some(i) => {
                proof {
                    lemma_entry(self.entries@, i as int);
                }
                true
            },
            None => false,
        }
    }

    /// Gives a key a value, in place of the one that it has.
    pub fn insert(&mut self, key: String, value: String)
        requires
            old(self).wf(),
        ensures
            final(self).wf(),
            final(self)@ == old(self)@.insert(key@, value@),
    {
        let ghost before = self.entries@;
        let ghost n = key@;
        let ghost d = value@;
        match self.position(key.as_str()) {
            Some(i) => {
                self.entries.set(i, TextEntry { key, value });
                proof {
                    let after = self.entries@;
                    assert(unique_keys(after)) by {
                        assert forall|a: int, b: int|
                            0 <= a < after.len() && 0 <= b < after.len()
                                && #[trigger] after[a].key@ == #[trigger] after[b].key@ implies a
                            == b by {
                            assert(before[a].key@ == after[a].key@);
                            assert(before[b].key@ == after[b].key@);
                        }
                    }
                    lemma_one_changed(before, after, i as int, n, d);
                }
            },
            None => {
                self.entries.push(TextEntry { key, value });
                proof {
                    let after = self.entries@;
                    let i = before.len() as int;
                    assert forall|j: int| 0 <= j < i implies #[trigger] before[j].key@ != n by {
                        if before[j].key@ == n {
                            assert(keyed(before, j, n));
                        }
                    }
                    assert(unique_keys(after)) by {
                        assert forall|a: int, b: int|
                            0 <= a < after.len() && 0 <= b < after.len()
                                && #[trigger] after[a].key@ == #[trigger] after[b].key@ implies a
                            == b by {
                            if a < i && b < i {
                                assert(before[a].key@ == before[b].key@);
                            } else if a < i {
                                assert(before[a].key@ != n);
                            } else if b < i {
                                assert(before[b].key@ != n);
                            }
                        }
                    }
                    lemma_one_changed(before, after, i, n, d);
                }
            },
        }
    }

    /// The keys in ascending order.
    pub fn sorted_keys(&self) -> (r: Vec<String>)
        requires
            self.wf(),
        ensures
            order::strictly_ascending(text::texts(r@)),
            forall|k: Seq<char>| #[trigger] text::texts(r@).contains(k) <==> self@.dom().contains(k),
    {
        broadcast use text::lemma_texts_push;

        let mut keys: Vec<String> = Vec::new();
        let mut i: usize = 0;
        let ghost all = Seq::new(self.entries@.len(), |j: int| self.entries@[j].key@);
        assert(text::texts(keys@) =~= all.take(0));
        while i < self.entries.len()
            invariant
                i <= self.entries@.len(),
                all == Seq::new(self.entries@.len(), |j: int| self.entries@[j].key@),
                text::texts(keys@) == all.take(i as int),
            decreases self.entries@.len() - i,
        {
            keys.push(self.entries[i].key.clone());
            i += 1;
            assert(all.take(i as int) =~= all.take(i - 1).push(all[i - 1]));
        }
        assert(all.take(i as int) =~= all);
        let r = sorted_set(&keys);
        proof {
            assert forall|k: Seq<char>| #[trigger]
                text::texts(r@).contains(k) <==> self@.dom().contains(k) by {
                if all.contains(k) {
                    let j = choose|j: int| 0 <= j < all.len() && all[j] == k;
                    assert(keyed(self.entries@, j, k));
                }
                if self@.dom().contains(k) {
                    let j = choose|j: int| keyed(self.entries@, j, k);
                    assert(keyed(self.entries@, j, k));
                    assert(all[j] == k);
                }
            }
        }
        r
    }
}

} // verus!
