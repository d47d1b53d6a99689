//! A sorted association from integer keys to booleans.
//!
//! Keys are held in a strictly increasing array searched by binary search;
//! values sit at the matching positions. The abstract content is the map
//! given by [`SparseBooleanArray::view`].

use vstd::prelude::*;

verus! {

/// Maps integers to booleans, with gaps allowed in the keys.
pub struct SparseBooleanArray {
    keys: Vec<i32>,
    values: Vec<bool>,
    size: usize,
}

/// Binary search in a strictly increasing array: whether `key` occurs, and
/// its position if so, else the position where it would be inserted.
fn search_keys(keys: &Vec<i32>, key: i32) -> (r: (bool, usize))
    requires
        forall|i: int, j: int| 0 <= i < j < keys@.len() ==> keys@[i] < keys@[j],
    ensures
        r.0 ==> r.1 < keys@.len() && keys@[r.1 as int] == key,
        !r.0 ==> r.1 <= keys@.len(),
        !r.0 ==> forall|i: int| 0 <= i < r.1 ==> keys@[i] < key,
        !r.0 ==> forall|i: int| r.1 <= i < keys@.len() ==> keys@[i] > key,
{
    let mut lo: usize = 0;
    let mut hi: usize = keys.len();
    while lo < hi
        invariant
            lo <= hi <= keys@.len(),
            forall|i: int, j: int| 0 <= i < j < keys@.len() ==> keys@[i] < keys@[j],
            forall|i: int| 0 <= i < lo ==> keys@[i] < key,
            forall|i: int| hi <= i < keys@.len() ==> keys@[i] > key,
        decreases hi - lo,
    {
        let mid = lo + (hi - lo) / 2;
        if keys[mid] == key {
            return (true, mid);
        } else if keys[mid] < key {
            lo = mid + 1;
        } else {
            hi = mid;
        }
    }
    (false, lo)
}

impl SparseBooleanArray {
    /// Well-formed: keys are strictly increasing, values sit in parallel,
    /// and the recorded size matches.
    pub closed spec fn wf(self) -> bool {
        &&& self.values@.len() == self.keys@.len()
        &&& self.size == self.keys@.len()
        &&& forall|i: int, j: int| 0 <= i < j < self.keys@.len() ==> self.keys@[i] < self.keys@[j]
    }

    /// Whether some key position holds `key`.
    pub closed spec fn spec_contains(self, key: int) -> bool {
        exists|i: int| 0 <= i < self.keys@.len() && self.keys@[i] == key
    }

    /// The position holding `key`, when one exists.
    pub closed spec fn spec_index_of(self, key: int) -> int {
        choose|i: int| 0 <= i < self.keys@.len() && self.keys@[i] == key
    }

    /// The mappings as a finite map from keys to booleans.
    pub closed spec fn view(self) -> Map<int, bool> {
        Map::new(|k: int| self.spec_contains(k), |k: int| self.values@[self.spec_index_of(k)])
    }

    /// Create an empty association with room for `initial_capacity` mappings.
    pub fn new(initial_capacity: usize) -> (r: SparseBooleanArray)
        ensures
            r.wf(),
            r.view() == Map::<int, bool>::empty(),
    {
        let r = SparseBooleanArray {
            keys: Vec::with_capacity(initial_capacity),
            values: Vec::with_capacity(initial_capacity),
            size: 0,
        };
        proof {
            assert(r.view() =~= Map::<int, bool>::empty());
        }
        r
    }

    /// The boolean mapped from `key`, or `false` when there is no mapping.
    pub fn get_or_false(&self, key: i32) -> (r: bool)
        requires
            self.wf(),
        ensures
            r == if self.view().dom().contains(key as int) {
                self.view()[key as int]
            } else {
                false
            },
    {
        self.get(key, false)
    }

    /// The boolean mapped from `key`, or `value_if_key_not_found` when there
    /// is no mapping.
    pub fn get(&self, key: i32, value_if_key_not_found: bool) -> (r: bool)
        requires
            self.wf(),
        ensures
            r == if self.view().dom().contains(key as int) {
                self.view()[key as int]
            } else {
                value_if_key_not_found
            },
    {
        let (found, i) = search_keys(&self.keys, key);
        if found {
            proof {
                assert(self.spec_contains(key as int));
                assert(self.spec_index_of(key as int) == i as int);
            }
            self.values[i]
        } else {
            proof {
                assert(!self.spec_contains(key as int));
            }
            value_if_key_not_found
        }
    }

    /// Remove the mapping from `key`, if there was one.
    pub fn delete(&mut self, key: i32)
        requires
            old(self).wf(),
        ensures
            final(self).wf(),
            final(self).view() == old(self).view().remove(key as int),
    {
        let (found, i) = search_keys(&self.keys, key);
        if found {
            self.keys.remove(i);
            self.values.remove(i);
            self.size = self.size - 1;
            proof {
                assert forall|k: int| self.spec_contains(k) implies #[trigger] old(
                    self,
                ).spec_contains(k) && k != key by {
                    let j = choose|j: int|
                        0 <= j < self.keys@.len() && self.keys@[j] == k;
                    if j < i {
                        assert(old(self).keys@[j] == k);
                    } else {
                        assert(old(self).keys@[j + 1] == k);
                    }
                }
                assert forall|k: int| old(self).spec_contains(k) && k != key implies
                    #[trigger] self.spec_contains(k) by {
                    let j = choose|j: int|
                        0 <= j < old(self).keys@.len() && old(self).keys@[j] == k;
                    if j < i {
                        assert(self.keys@[j] == k);
                    } else {
                        assert(j != i);
                        assert(self.keys@[j - 1] == k);
                    }
                }
                assert forall|k: int| self.spec_contains(k) implies self.values@[
                    self.spec_index_of(k)
                ] == old(self).values@[old(self).spec_index_of(k)] by {
                    let j = self.spec_index_of(k);
                    assert(0 <= j < self.keys@.len() && self.keys@[j] == k);
                    let jo = old(self).spec_index_of(k);
                    assert(old(self).spec_contains(k));
                    assert(0 <= jo < old(self).keys@.len() && old(self).keys@[jo] == k);
                    if j < i {
                        assert(old(self).keys@[j] == k);
                        assert(jo == j);
                    } else {
                        assert(old(self).keys@[j + 1] == k);
                        assert(jo == j + 1);
                    }
                }
                assert(self.view() =~= old(self).view().remove(key as int));
            }
        } else {
            proof {
                assert(!old(self).spec_contains(key as int));
                assert(self.view() =~= old(self).view().remove(key as int));
            }
        }
    }

    /// Add a mapping from `key` to `value`, replacing any previous mapping
    /// from `key`.
    pub fn put(&mut self, key: i32, value: bool)
        requires
            old(self).wf(),
        ensures
            final(self).wf(),
            final(self).view() == old(self).view().insert(key as int, value),
    {
        let (found, i) = search_keys(&self.keys, key);
        if found {
            self.values.set(i, value);
            proof {
                assert forall|k: int| self.spec_contains(k) implies self.view()[k] == old(
                    self,
                ).view().insert(key as int, value)[k] by {
                    let j = self.spec_index_of(k);
                    assert(0 <= j < self.keys@.len() && self.keys@[j] == k);
                    if k == key as int {
                        assert(j == i);
                    } else {
                        assert(j != i);
                        assert(old(self).spec_index_of(k) == j);
                    }
                }
                assert(self.view() =~= old(self).view().insert(key as int, value));
            }
        } else {
            self.keys.insert(i, key);
            self.values.insert(i, value);
            self.size = self.keys.len();
            proof {
                assert(!old(self).spec_contains(key as int));
                assert forall|a: int, b: int| 0 <= a < b < self.keys@.len() implies self.keys@[a]
                    < self.keys@[b] by {
                    if b < i {
                    } else if a >= i + 1 {
                        assert(old(self).keys@[a - 1] < old(self).keys@[b - 1]);
                    }
                }
                assert forall|k: int| self.spec_contains(k) implies #[trigger] old(
                    self,
                ).view().insert(key as int, value).dom().contains(k) by {
                    let j = choose|j: int|
                        0 <= j < self.keys@.len() && self.keys@[j] == k;
                    if j < i {
                        assert(old(self).keys@[j] == k);
                    } else if j > i {
                        assert(old(self).keys@[j - 1] == k);
                    }
                }
                assert forall|k: int| old(self).spec_contains(k) implies
                    #[trigger] self.spec_contains(k) by {
                    let j = choose|j: int|
                        0 <= j < old(self).keys@.len() && old(self).keys@[j] == k;
                    if j < i {
                        assert(self.keys@[j] == k);
                    } else {
                        assert(self.keys@[j + 1] == k);
                    }
                }
                assert(self.spec_contains(key as int)) by {
                    assert(self.keys@[i as int] == key);
                }
                assert forall|k: int| self.spec_contains(k) implies self.view()[k] == old(
                    self,
                ).view().insert(key as int, value)[k] by {
                    let j = self.spec_index_of(k);
                    assert(0 <= j < self.keys@.len() && self.keys@[j] == k);
                    if k == key as int {
                        assert(j == i);
                    } else if j < i {
                        assert(old(self).keys@[j] == k);
                        assert(old(self).spec_index_of(k) == j);
                    } else {
                        assert(self.keys@[i as int] == key);
                        assert(j != i);
                        assert(old(self).keys@[j - 1] == k);
                        assert(old(self).spec_index_of(k) == j - 1);
                    }
                }
                assert(self.view() =~= old(self).view().insert(key as int, value));
            }
        }
    }

    /// Remove all mappings.
    pub fn clear(&mut self)
        ensures
            final(self).wf(),
            final(self).view() == Map::<int, bool>::empty(),
    {
        self.keys.clear();
        self.values.clear();
        self.size = 0;
        proof {
            assert(self.view() =~= Map::<int, bool>::empty());
        }
    }

    /// Add a mapping from `key` to `value`, optimizing for the case where
    /// `key` is greater than every key already present.
    pub fn append(&mut self, key: i32, value: bool)
        requires
            old(self).wf(),
        ensures
            final(self).wf(),
            final(self).view() == old(self).view().insert(key as int, value),
    {
        if self.size != 0 && key <= self.keys[self.size - 1] {
            self.put(key, value);
            return;
        }
        self.keys.push(key);
        self.values.push(value);
        self.size = self.keys.len();
        proof {
            let n = old(self).keys@.len() as int;
            assert forall|k: int| self.spec_contains(k) implies #[trigger] old(
                self,
            ).view().insert(key as int, value).dom().contains(k) by {
                let j = choose|j: int| 0 <= j < self.keys@.len() && self.keys@[j] == k;
                if j < n {
                    assert(old(self).keys@[j] == k);
                }
            }
            assert forall|k: int| old(self).spec_contains(k) implies
                #[trigger] self.spec_contains(k) by {
                let j = choose|j: int|
                    0 <= j < old(self).keys@.len() && old(self).keys@[j] == k;
                assert(self.keys@[j] == k);
            }
            assert(self.keys@[n] == key);
            assert forall|k: int| self.spec_contains(k) implies self.view()[k] == old(
                self,
            ).view().insert(key as int, value)[k] by {
                let j = self.spec_index_of(k);
                assert(0 <= j < self.keys@.len() && self.keys@[j] == k);
                if k == key as int {
                    assert(forall|i: int| 0 <= i < n ==> old(self).keys@[i] < key);
                    assert(j == n);
                } else {
                    assert(j != n);
                    assert(old(self).keys@[j] == k);
                    assert(old(self).spec_index_of(k) == j);
                }
            }
            assert(self.view() =~= old(self).view().insert(key as int, value));
        }
    }
}

impl Default for SparseBooleanArray {
    /// An association containing no mappings.
    fn default() -> (r: SparseBooleanArray)
        ensures
            r.wf(),
            r.view() == Map::<int, bool>::empty(),
    {
        SparseBooleanArray::new(0)
    }
}

} // verus!
