//! An id-keyed table whose rows are kept in increasing key order.

use vstd::prelude::*;

verus! {

/// What a table holds: its keys, strictly increasing, and the row stored
/// under each key at the same position.
pub struct TableView<V> {
    pub keys: Seq<u64>,
    pub rows: Seq<V>,
}

impl<V> TableView<V> {
    pub open spec fn wf(self) -> bool {
        &&& self.keys.len() == self.rows.len()
        &&& forall|i: int, j: int|
            0 <= i < j < self.keys.len() ==> #[trigger] self.keys[i] < #[trigger] self.keys[j]
    }

    pub open spec fn contains(self, key: u64) -> bool {
        self.keys.contains(key)
    }

    /// The rows as a map from key to row.
    pub open spec fn map(self) -> Map<u64, V> {
        Map::new(|k: u64| self.keys.contains(k), |k: u64| self.rows[self.keys.index_of(k)])
    }

    /// Every key lies below `bound`.
    pub open spec fn keys_below(self, bound: u64) -> bool {
        forall|i: int| 0 <= i < self.keys.len() ==> #[trigger] self.keys[i] < bound
    }
}

/// In a well-formed table the position of a key is the only one that holds it.
pub proof fn lemma_key_position<V>(t: TableView<V>, i: int)
    requires
        t.wf(),
        0 <= i < t.keys.len(),
    ensures
        t.keys.index_of(t.keys[i]) == i,
        t.map().contains_key(t.keys[i]),
        t.map()[t.keys[i]] == t.rows[i],
{
    assert(t.keys.contains(t.keys[i]));
    let j = t.keys.index_of(t.keys[i]);
    if j < i {
        assert(t.keys[j] < t.keys[i]);
    } else if j > i {
        assert(t.keys[i] < t.keys[j]);
    }
}

pub struct Table<T> {
    keys: Vec<u64>,
    rows: Vec<T>,
}

impl<T: View> View for Table<T> {
    type V = TableView<T::V>;

    closed spec fn view(&self) -> TableView<T::V> {
        TableView { keys: self.keys@, rows: self.rows@.map_values(|t: T| t@) }
    }
}

impl<T: View> Table<T> {
    pub fn new() -> (r: Table<T>)
        ensures
            r@.wf(),
            r@.keys.len() == 0,
            r@.rows.len() == 0,
            r@.map() == Map::<u64, T::V>::empty(),
    {
        let r = Table { keys: Vec::new(), rows: Vec::new() };
        assert(r@.map() =~= Map::<u64, T::V>::empty());
        r
    }

    pub fn len(&self) -> (r: usize)
        requires
            self@.wf(),
        ensures
            r == self@.keys.len(),
            r == self@.rows.len(),
    {
        self.keys.len()
    }

    /// The position of `key`, if the table holds it.
    pub fn find(&self, key: u64) -> (r: Option<usize>)
        requires
            self@.wf(),
        ensures
            match r {
                Some(i) => i < self@.keys.len() && self@.keys[i as int] == key,
                None => !self@.contains(key),
            },
    {
        let mut i: usize = 0;
        while i < self.keys.len()
            invariant
                i <= self.keys@.len(),
                forall|j: int| 0 <= j < i ==> self.keys@[j] != key,
            decreases self.keys@.len() - i,
        {
            if self.keys[i] == key {
                return Some(i);
            }
            i = i + 1;
        }
        None
    }

    /// The row at position `i`.
    pub fn at(&self, i: usize) -> (r: &T)
        requires
            self@.wf(),
            i < self@.rows.len(),
        ensures
            r@ == self@.rows[i as int],
    {
        &self.rows[i]
    }

    /// The row stored under `key`, if any.
    pub fn get(&self, key: u64) -> (r: Option<&T>)
        requires
            self@.wf(),
        ensures
            match r {
                Some(t) => self@.map().contains_key(key) && t@ == self@.map()[key],
                None => !self@.map().contains_key(key),
            },
    {
        match self.find(key) {
            Some(i) => {
                proof {
                    lemma_key_position(self@, i as int);
                }
                Some(&self.rows[i])
            },
            None => None,
        }
    }

    /// Appends a row under a key larger than every key held.
    pub fn push(&mut self, key: u64, row: T)
        requires
            old(self)@.wf(),
            old(self)@.keys_below(key),
        ensures
            final(self)@.wf(),
            final(self)@.keys == old(self)@.keys.push(key),
            final(self)@.rows == old(self)@.rows.push(row@),
            final(self)@.map() == old(self)@.map().insert(key, row@),
    {
        let ghost pre = self@;
        let ghost v = row@;
        self.keys.push(key);
        self.rows.push(row);
        proof {
            assert(self@.rows =~= pre.rows.push(v));
            let post = self@;
            assert forall|k: u64| #[trigger] post.map().contains_key(k) == pre.map().insert(
                key,
                v,
            ).contains_key(k) by {
                if pre.keys.contains(k) {
                    let j = pre.keys.index_of(k);
                    assert(post.keys[j] == k);
                }
                assert(post.keys[pre.keys.len() as int] == key);
                if post.keys.contains(k) && k != key {
                    let j = post.keys.index_of(k);
                    assert(pre.keys[j] == k);
                }
            }
            assert forall|k: u64| #[trigger] post.map().contains_key(k) implies post.map()[k]
                == pre.map().insert(key, v)[k] by {
                let j = post.keys.index_of(k);
                lemma_key_position(post, j);
                if k != key {
                    lemma_key_position(pre, j);
                } else {
                    lemma_key_position(post, pre.keys.len() as int);
                }
            }
            assert(post.map() =~= pre.map().insert(key, v));
        }
    }

    /// Replaces the row stored under a key that the table holds.
    pub fn replace(&mut self, key: u64, row: T)
        requires
            old(self)@.wf(),
            old(self)@.contains(key),
        ensures
            final(self)@.wf(),
            final(self)@.keys == old(self)@.keys,
            final(self)@.rows == old(self)@.rows.update(old(self)@.keys.index_of(key), row@),
            final(self)@.map() == old(self)@.map().insert(key, row@),
    {
        let ghost pre = self@;
        let ghost v = row@;
        let i = self.find(key).unwrap();
        proof {
            lemma_key_position(pre, i as int);
        }
        self.rows.set(i, row);
        proof {
            assert(self@.rows =~= pre.rows.update(i as int, v));
            let post = self@;
            assert forall|k: u64| #[trigger] post.map().contains_key(k) implies post.map()[k]
                == pre.map().insert(key, v)[k] by {
                let j = post.keys.index_of(k);
                lemma_key_position(post, j);
                lemma_key_position(pre, j);
            }
            assert(post.map() =~= pre.map().insert(key, v));
        }
    }

    /// Removes the row stored under `key`, handing it back.
    pub fn remove(&mut self, key: u64) -> (r: Option<T>)
        requires
            old(self)@.wf(),
        ensures
            final(self)@.wf(),
            final(self)@.map() == old(self)@.map().remove(key),
            forall|b: u64| #[trigger]
                old(self)@.keys_below(b) ==> final(self)@.keys_below(b),
            match r {
                Some(t) => old(self)@.map().contains_key(key) && t@ == old(self)@.map()[key]
                    && final(self)@.keys == old(self)@.keys.remove(old(self)@.keys.index_of(key))
                    && final(self)@.rows == old(self)@.rows.remove(old(self)@.keys.index_of(key)),
                None => !old(self)@.map().contains_key(key) && final(self)@ == old(self)@,
            },
    {
        let ghost pre = self@;
        match self.find(key) {
            Some(i) => {
                proof {
                    lemma_key_position(pre, i as int);
                }
                self.keys.remove(i);
                let t = self.rows.remove(i);
                proof {
                    assert(self@.rows =~= pre.rows.remove(i as int));
                    let post = self@;
                    assert forall|a: int, b: int|
                        0 <= a < b < post.keys.len() implies #[trigger] post.keys[a]
                        < #[trigger] post.keys[b] by {
                        if a >= i {
                            assert(pre.keys[a + 1] < pre.keys[b + 1]);
                        } else if b >= i {
                            assert(pre.keys[a] < pre.keys[b + 1]);
                        } else {
                            assert(pre.keys[a] < pre.keys[b]);
                        }
                    }
                    assert forall|k: u64| #[trigger] post.map().contains_key(k) == pre.map().remove(
                        key,
                    ).contains_key(k) by {
                        if pre.keys.contains(k) && k != key {
                            let j = pre.keys.index_of(k);
                            if j < i {
                                assert(post.keys[j] == k);
                            } else {
                                assert(post.keys[j - 1] == k);
                            }
                        }
                        if post.keys.contains(k) {
                            let j = post.keys.index_of(k);
                            if j < i {
                                assert(pre.keys[j] == k);
                            } else {
                                assert(pre.keys[j + 1] == k);
                            }
                        }
                    }
                    assert forall|k: u64| #[trigger] post.map().contains_key(k) implies post.map()[k]
                        == pre.map().remove(key)[k] by {
                        let j = post.keys.index_of(k);
                        lemma_key_position(post, j);
                        if j < i {
                            lemma_key_position(pre, j);
                        } else {
                            lemma_key_position(pre, j + 1);
                        }
                    }
                    assert(post.map() =~= pre.map().remove(key));
                    assert forall|b: u64| #[trigger] pre.keys_below(b) implies post.keys_below(b) by {
                        assert forall|j: int| 0 <= j < post.keys.len() implies #[trigger] post.keys[j]
                            < b by {
                            if j >= i {
                                assert(post.keys[j] == pre.keys[j + 1]);
                            } else {
                                assert(post.keys[j] == pre.keys[j]);
                            }
                        }
                    }
                }
                Some(t)
            },
            None => {
                assert(pre.map() =~= pre.map().remove(key));
                None
            },
        }
    }
}

} // verus!
