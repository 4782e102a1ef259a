//! Sets of paths.

use vstd::prelude::*;

use crate::path::{PathView, RepoPath};
use crate::path_order::paths;

verus! {

/// A set of paths.
#[derive(Debug)]
pub struct PathSet {
    items: Vec<RepoPath>,
}

impl View for PathSet {
    type V = Set<PathView>;

    closed spec fn view(&self) -> Set<PathView> {
        paths(self.items@).to_set()
    }
}

fn position(items: &Vec<RepoPath>, path: &RepoPath) -> (r: Option<usize>)
    ensures
        match r {
            Some(i) => i < items@.len() && paths(items@)[i as int] == path@,
            None => !paths(items@).contains(path@),
        },
{
    let mut i: usize = 0;
    while i < items.len()
        invariant
            i <= items@.len(),
            forall|j: int| 0 <= j < i ==> paths(items@)[j] != path@,
        decreases items@.len() - i,
    {
        if items[i].same(path) {
            return Some(i);
        }
        i += 1;
    }
    None
}

impl PathSet {
    /// No path is held twice.
    #[verifier::type_invariant]
    closed spec fn holds_each_once(self) -> bool {
        paths(self.items@).no_duplicates()
    }

    /// The empty set.
    pub fn new() -> (r: PathSet)
        ensures
            r@ == Set::<PathView>::empty(),
    {
        let items: Vec<RepoPath> = Vec::new();
        assert(paths(items@).to_set() =~= Set::<PathView>::empty());
        PathSet { items }
    }

    /// Whether a path is in the set.
    pub fn contains(&self, path: &RepoPath) -> (r: bool)
        ensures
            r == self@.contains(path@),
    {
        position(&self.items, path).is_some()
    }

    /// The number of paths in the set.
    pub fn len(&self) -> (r: usize)
        ensures
            r == self@.len(),
            self@.finite(),
    {
        proof {
            use_type_invariant(self);
            paths(self.items@).unique_seq_to_set();
        }
        self.items.len()
    }

    /// Whether the set holds no path.
    pub fn is_empty(&self) -> (r: bool)
        ensures
            r == (self@ == Set::<PathView>::empty()),
    {
        if self.items.len() == 0 {
            assert(self@ =~= Set::<PathView>::empty());
            true
        } else {
            assert(self@.contains(paths(self.items@)[0]));
            false
        }
    }

    /// Adds a path, and says whether it was not there before.
    pub fn insert(&mut self, path: RepoPath) -> (r: bool)
        ensures
            final(self)@ == old(self)@.insert(path@),
            r == !old(self)@.contains(path@),
    {
        proof {
            use_type_invariant(&*self);
        }
        if position(&self.items, &path).is_some() {
            assert(self@.insert(path@) =~= self@);
            return false;
        }
        let mut items: Vec<RepoPath> = Vec::new();
        std::mem::swap(&mut items, &mut self.items);
        let ghost before = paths(items@);
        items.push(path);
        proof {
            assert(paths(items@) =~= before.push(path@));
            assert(before.push(path@).no_duplicates()) by {
                assert(!before.contains(path@));
            }
            assert forall|q: PathView| before.push(path@).to_set().contains(q)
                == before.to_set().insert(path@).contains(q) by {
                if before.contains(q) {
                    let i = choose|i: int| 0 <= i < before.len() && before[i] == q;
                    assert(before.push(path@)[i] == q);
                }
                assert(before.push(path@)[before.len() as int] == path@);
            }
            assert(before.push(path@).to_set() =~= before.to_set().insert(path@));
        }
        self.items = items;
        true
    }

    /// Takes a path out, and says whether it was there before.
    pub fn remove(&mut self, path: &RepoPath) -> (r: bool)
        ensures
            final(self)@ == old(self)@.remove(path@),
            r == old(self)@.contains(path@),
    {
        proof {
            use_type_invariant(&*self);
        }
        match position(&self.items, path) {
            Some(at) => {
                let mut items: Vec<RepoPath> = Vec::new();
                std::mem::swap(&mut items, &mut self.items);
                let ghost before = paths(items@);
                items.remove(at);
                proof {
                    let after = paths(items@);
                    assert(after =~= before.remove(at as int));
                    assert(after.no_duplicates());
                    assert forall|q: PathView| after.to_set().contains(q)
                        == before.to_set().remove(path@).contains(q) by {
                        if after.contains(q) {
                            let i = choose|i: int| 0 <= i < after.len() && after[i] == q;
                            let x: int = if i < at { i } else { i + 1 };
                            assert(before[x] == q);
                        }
                        if before.contains(q) && q != path@ {
                            let i = choose|i: int| 0 <= i < before.len() && before[i] == q;
                            let x: int = if i < at { i } else { i - 1 };
                            assert(after[x] == q);
                        }
                    }
                    assert(after.to_set() =~= before.to_set().remove(path@));
                }
                self.items = items;
                true
            },
            None => {
                assert(self@.remove(path@) =~= self@);
                false
            },
        }
    }

    /// The paths of the set, each once, in no particular order.
    pub fn to_vec(&self) -> (r: Vec<RepoPath>)
        ensures
            paths(r@).to_set() == self@,
            paths(r@).no_duplicates(),
    {
        proof {
            use_type_invariant(self);
        }
        let mut r: Vec<RepoPath> = Vec::new();
        let mut i: usize = 0;
        while i < self.items.len()
            invariant
                i <= self.items@.len(),
                paths(r@) == paths(self.items@).take(i as int),
            decreases self.items@.len() - i,
        {
            let path = self.items[i].clone();
            assert(paths(r@.push(path)) =~= paths(r@).push(path@));
            r.push(path);
            i += 1;
            assert(paths(r@) =~= paths(self.items@).take(i as int));
        }
        assert(paths(r@) =~= paths(self.items@));
        r
    }

    /// The set of the paths of a list.
    pub fn from_vec(list: &Vec<RepoPath>) -> (r: PathSet)
        ensures
            r@ == paths(list@).to_set(),
    {
        let mut r = PathSet::new();
        r.insert_all(list);
        assert(Set::<PathView>::empty().union(paths(list@).to_set()) =~= paths(list@).to_set());
        r
    }

    /// Adds the paths of a list.
    pub fn insert_all(&mut self, list: &Vec<RepoPath>)
        ensures
            final(self)@ == old(self)@.union(paths(list@).to_set()),
    {
        let ghost all = paths(list@);
        let ghost before = self@;
        let mut i: usize = 0;
        assert(self@ =~= before.union(all.take(0).to_set()));
        while i < list.len()
            invariant
                i <= list@.len(),
                all == paths(list@),
                self@ == before.union(all.take(i as int).to_set()),
            decreases list@.len() - i,
        {
            self.insert(list[i].clone());
            proof {
                let longer = all.take(i + 1);
                let shorter = all.take(i as int);
                assert forall|q: PathView| longer.to_set().contains(q) == shorter.to_set().insert(
                    all[i as int],
                ).contains(q) by {
                    if shorter.contains(q) {
                        let k = choose|k: int| 0 <= k < shorter.len() && shorter[k] == q;
                        assert(longer[k] == q);
                    }
                    if longer.contains(q) {
                        let k = choose|k: int| 0 <= k < longer.len() && longer[k] == q;
                        if k < i {
                            assert(shorter[k] == q);
                        }
                    }
                    assert(longer[i as int] == all[i as int]);
                }
                assert(self@ =~= before.union(longer.to_set()));
            }
            i += 1;
        }
        assert(all.take(all.len() as int) =~= all);
    }
}

impl Clone for PathSet {
    fn clone(&self) -> (r: Self)
        ensures
            r@ == self@,
    {
        PathSet::from_vec(&self.to_vec())
    }
}

} // verus!
