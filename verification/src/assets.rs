//! A store of named image assets.

use vstd::prelude::*;

use crate::image::Image;

verus! {

/// The manifest-side description of an asset: an identifying name and the
/// path its contents are loaded from.
pub struct Asset {
    /// String for naming the asset.
    pub id: String,
    /// Source path of the asset.
    pub src: String,
}

/// A map from asset names to images, keyed by the name's characters.
pub struct Assets {
    entries: Vec<(String, Image)>,
}

/// The operations of an asset store holding values of type `T`.
pub trait AssetsMethods<T> {
    /// The stored associations, as a map from name characters to values.
    spec fn map_view(&self) -> Map<Seq<char>, T>;

    /// The store's internal invariant.
    spec fn inv(&self) -> bool;

    /// Insert a value under a name, returning the value previously stored
    /// under that name, if any.
    fn insert(&mut self, k: &str, v: T) -> (prev: Option<T>)
        requires
            old(self).inv(),
        ensures
            final(self).inv(),
            final(self).map_view() == old(self).map_view().insert(k@, v),
            (prev is Some) <==> old(self).map_view().dom().contains(k@),
            prev is Some ==> prev->Some_0 == old(self).map_view()[k@],
    ;

    /// A reference to the value stored under a name, if any.
    fn get<'a>(&'a self, k: &str) -> (r: Option<&'a T>)
        requires
            self.inv(),
        ensures
            (r is Some) <==> self.map_view().dom().contains(k@),
            r is Some ==> *r->Some_0 == self.map_view()[k@],
    ;

    /// Remove and return the value stored under a name, if any.
    fn remove(&mut self, k: &str) -> (r: Option<T>)
        requires
            old(self).inv(),
        ensures
            final(self).inv(),
            final(self).map_view() == old(self).map_view().remove(k@),
            (r is Some) <==> old(self).map_view().dom().contains(k@),
            r is Some ==> r->Some_0 == old(self).map_view()[k@],
    ;
}

impl Assets {
    /// Whether some entry holds the name `k`.
    pub closed spec fn spec_contains(self, k: Seq<char>) -> bool {
        exists|i: int| 0 <= i < self.entries@.len() && self.entries@[i].0@ == k
    }

    /// The entry position holding the name `k`, when one exists.
    pub closed spec fn spec_index_of(self, k: Seq<char>) -> int {
        choose|i: int| 0 <= i < self.entries@.len() && self.entries@[i].0@ == k
    }

    /// Create an empty asset store.
    pub fn new() -> (r: Assets)
        ensures
            r.inv(),
            r.map_view() == Map::<Seq<char>, Image>::empty(),
    {
        let r = Assets { entries: Vec::new() };
        proof {
            assert(r.map_view() =~= Map::<Seq<char>, Image>::empty());
        }
        r
    }

    fn position_of(&self, key: &String) -> (r: Option<usize>)
        requires
            self.inv(),
        ensures
            (r is Some) <==> self.spec_contains(key@),
            r is Some ==> r->Some_0 < self.entries@.len() && self.entries@[
                r->Some_0 as int].0@ == key@ && self.spec_index_of(key@) == r->Some_0 as int,
    {
        let mut i: usize = 0;
        while i < self.entries.len()
            invariant
                i <= self.entries@.len(),
                self.inv(),
                forall|j: int| 0 <= j < i ==> (#[trigger] self.entries@[j].0@) != key@,
            decreases self.entries@.len() - i,
        {
            if self.entries[i].0.eq(key) {
                proof {
                    assert(self.spec_contains(key@));
                    let j = self.spec_index_of(key@);
                    assert(0 <= j < self.entries@.len() && self.entries@[j].0@ == key@);
                    if j < i as int {
                        assert(self.entries@[j].0@ != self.entries@[i as int].0@);
                    } else if j > i as int {
                        assert(self.entries@[i as int].0@ != self.entries@[j].0@);
                    }
                }
                return Some(i);
            }
            i = i + 1;
        }
        proof {
            assert(!self.spec_contains(key@));
        }
        None
    }
}

impl AssetsMethods<Image> for Assets {
    closed spec fn map_view(&self) -> Map<Seq<char>, Image> {
        Map::new(
            |k: Seq<char>| self.spec_contains(k),
            |k: Seq<char>| self.entries@[self.spec_index_of(k)].1,
        )
    }

    closed spec fn inv(&self) -> bool {
        forall|i: int, j: int|
            0 <= i < j < self.entries@.len() ==> (#[trigger] self.entries@[i].0@) != (
            #[trigger] self.entries@[j].0@)
    }

    fn insert(&mut self, k: &str, v: Image) -> (prev: Option<Image>) {
        let key: String = k.to_owned();
        let pos = self.position_of(&key);
        let ghost old_entries = self.entries@;
        match pos {
            Some(i) => {
                let (_, old_img) = self.entries.remove(i);
                self.entries.push((key, v));
                proof {
                    let n = self.entries@.len() as int;
                    assert(self.entries@[n - 1].0@ == k@);
                    assert forall|a: int, b: int| 0 <= a < b < n implies (
                    #[trigger] self.entries@[a].0@) != (#[trigger] self.entries@[b].0@) by {
                        if b < n - 1 {
                            let a0 = if a < i {
                                a
                            } else {
                                a + 1
                            };
                            let b0 = if b < i {
                                b
                            } else {
                                b + 1
                            };
                            assert(old_entries[a0].0@ != old_entries[b0].0@);
                        } else {
                            let a0 = if a < i {
                                a
                            } else {
                                a + 1
                            };
                            assert(self.entries@[a].0 == old_entries[a0].0);
                            assert(old_entries[a0].0@ != old_entries[i as int].0@);
                        }
                    }
                    assert forall|kk: Seq<char>|
                        self.spec_contains(kk) <==> old(self).spec_contains(kk) || kk == k@ by {
                        if self.spec_contains(kk) {
                            let j = choose|j: int|
                                0 <= j < self.entries@.len() && self.entries@[j].0@ == kk;
                            if j < n - 1 {
                                let j0 = if j < i {
                                    j
                                } else {
                                    j + 1
                                };
                                assert(old_entries[j0].0@ == kk);
                            }
                        }
                        if old(self).spec_contains(kk) && kk != k@ {
                            let j = choose|j: int|
                                0 <= j < old_entries.len() && old_entries[j].0@ == kk;
                            assert(j != i);
                            let j1 = if j < i {
                                j
                            } else {
                                j - 1
                            };
                            assert(self.entries@[j1].0@ == kk);
                        }
                        if kk == k@ {
                            assert(self.entries@[n - 1].0@ == kk);
                        }
                    }
                    assert forall|kk: Seq<char>| self.spec_contains(kk) implies self.entries@[
                        self.spec_index_of(kk)].1 == old(self).map_view().insert(k@, v)[kk] by {
                        let j = self.spec_index_of(kk);
                        assert(0 <= j < n && self.entries@[j].0@ == kk);
                        if j == n - 1 {
                            assert(kk == k@);
                        } else {
                            assert(kk != k@) by {
                                assert(self.entries@[j].0@ != self.entries@[n - 1].0@);
                            }
                            let j0 = if j < i {
                                j
                            } else {
                                j + 1
                            };
                            assert(old_entries[j0].0@ == kk && old_entries[j0].1
                                == self.entries@[j].1);
                            assert(old(self).spec_index_of(kk) == j0);
                        }
                    }
                    assert(self.map_view() =~= old(self).map_view().insert(k@, v));
                    assert(old(self).spec_index_of(k@) == i);
                }
                Some(old_img)
            },
            None => {
                self.entries.push((key, v));
                proof {
                    let n = self.entries@.len() as int;
                    assert(self.entries@[n - 1].0@ == k@);
                    assert forall|a: int, b: int| 0 <= a < b < n implies (
                    #[trigger] self.entries@[a].0@) != (#[trigger] self.entries@[b].0@) by {
                        if b < n - 1 {
                            assert(old_entries[a].0@ != old_entries[b].0@);
                        } else {
                            assert(self.entries@[a].0 == old_entries[a].0);
                            assert(!old(self).spec_contains(k@));
                        }
                    }
                    assert forall|kk: Seq<char>|
                        self.spec_contains(kk) <==> old(self).spec_contains(kk) || kk == k@ by {
                        if self.spec_contains(kk) {
                            let j = choose|j: int|
                                0 <= j < self.entries@.len() && self.entries@[j].0@ == kk;
                            if j < n - 1 {
                                assert(old_entries[j].0@ == kk);
                            }
                        }
                        if old(self).spec_contains(kk) {
                            let j = choose|j: int|
                                0 <= j < old_entries.len() && old_entries[j].0@ == kk;
                            assert(self.entries@[j].0@ == kk);
                        }
                    }
                    assert forall|kk: Seq<char>| self.spec_contains(kk) implies self.entries@[
                        self.spec_index_of(kk)].1 == old(self).map_view().insert(k@, v)[kk] by {
                        let j = self.spec_index_of(kk);
                        assert(0 <= j < n && self.entries@[j].0@ == kk);
                        if j == n - 1 {
                            assert(kk == k@);
                        } else {
                            assert(kk != k@) by {
                                assert(self.entries@[j].0@ != self.entries@[n - 1].0@);
                            }
                            assert(old_entries[j].0@ == kk && old_entries[j].1
                                == self.entries@[j].1);
                            assert(old(self).spec_index_of(kk) == j);
                        }
                    }
                    assert(self.map_view() =~= old(self).map_view().insert(k@, v));
                }
                None
            },
        }
    }

    fn get<'a>(&'a self, k: &str) -> (r: Option<&'a Image>) {
        let key: String = k.to_owned();
        match self.position_of(&key) {
            Some(i) => Some(&self.entries[i].1),
            None => None,
        }
    }

    fn remove(&mut self, k: &str) -> (r: Option<Image>) {
        let key: String = k.to_owned();
        match self.position_of(&key) {
            Some(i) => {
                let ghost old_entries = self.entries@;
                let (_, img) = self.entries.remove(i);
                proof {
                    let n = self.entries@.len() as int;
                    assert forall|a: int, b: int| 0 <= a < b < n implies (
                    #[trigger] self.entries@[a].0@) != (#[trigger] self.entries@[b].0@) by {
                        let a0 = if a < i {
                            a
                        } else {
                            a + 1
                        };
                        let b0 = if b < i {
                            b
                        } else {
                            b + 1
                        };
                        assert(old_entries[a0].0@ != old_entries[b0].0@);
                    }
                    assert forall|kk: Seq<char>|
                        self.spec_contains(kk) <==> (old(self).spec_contains(kk) && kk != k@) by {
                        if self.spec_contains(kk) {
                            let j = choose|j: int|
                                0 <= j < self.entries@.len() && self.entries@[j].0@ == kk;
                            let j0 = if j < i {
                                j
                            } else {
                                j + 1
                            };
                            assert(old_entries[j0].0@ == kk);
                            assert(old_entries[j0].0@ != old_entries[i as int].0@);
                        }
                        if old(self).spec_contains(kk) && kk != k@ {
                            let j = choose|j: int|
                                0 <= j < old_entries.len() && old_entries[j].0@ == kk;
                            assert(j != i);
                            let j1 = if j < i {
                                j
                            } else {
                                j - 1
                            };
                            assert(self.entries@[j1].0@ == kk);
                        }
                    }
                    assert forall|kk: Seq<char>| self.spec_contains(kk) implies self.entries@[
                        self.spec_index_of(kk)].1 == old(self).map_view()[kk] by {
                        let j = self.spec_index_of(kk);
                        assert(0 <= j < n && self.entries@[j].0@ == kk);
                        let j0 = if j < i {
                            j
                        } else {
                            j + 1
                        };
                        assert(old_entries[j0].0@ == kk && old_entries[j0].1 == self.entries@[j].1);
                        assert(old(self).spec_index_of(kk) == j0);
                    }
                    assert(self.map_view() =~= old(self).map_view().remove(k@));
                    assert(old(self).spec_index_of(k@) == i);
                }
                Some(img)
            },
            None => {
                proof {
                    assert(self.map_view() =~= old(self).map_view().remove(k@));
                }
                None
            },
        }
    }
}

} // verus!
