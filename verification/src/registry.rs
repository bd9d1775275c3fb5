//! The rendered children of the list by key, and what a new rendering of the
//! list decides about them: which stay (and may move), which leave, and
//! whether a new child enters with a transition.
use std::collections::{HashMap, HashSet};
use vstd::prelude::*;
use vstd::std_specs::iter::IteratorSpec;

verus! {

broadcast use vstd::std_specs::hash::group_hash_axioms, vstd::seq_lib::group_seq_properties;

/// A copy of a list of keys.
fn clone_keys(v: &Vec<u64>) -> (r: Vec<u64>)
    ensures
        r@ == v@,
{
    let mut r: Vec<u64> = Vec::new();
    let mut i: usize = 0;
    while i < v.len()
        invariant
            i <= v.len(),
            r@ == v@.take(i as int),
        decreases v.len() - i,
    {
        r.push(v[i]);
        assert(r@ =~= v@.take(i + 1));
        i = i + 1;
    }
    assert(r@ =~= v@);
    r
}

/// Whether a child that was just rendered enters with a transition: always
/// once the list's first children are mounted, and for the first children
/// only when `appear` is set (it is unset by default).
pub fn animates_enter(initial_children_mounted: bool, appear: Option<bool>) -> (r: bool)
    ensures
        r == (initial_children_mounted || appear == Some(true)),
{
    let appear: bool = match appear {
        Some(a) => a,
        None => false,
    };
    initial_children_mounted || appear
}

/// The rendered child of each key; `H` names a child's element.
pub struct ElementRegistry<H> {
    el_per_key: HashMap<u64, H>,
    keys: Vec<u64>,
}

impl<H> ElementRegistry<H> {
    /// The element of each key.
    pub closed spec fn elements(&self) -> Map<u64, H> {
        self.el_per_key@
    }

    /// The keys are listed each once.
    pub closed spec fn wf(&self) -> bool {
        &&& self.keys@.to_set() == self.el_per_key@.dom()
        &&& self.keys@.no_duplicates()
    }

    /// No child yet.
    pub fn new() -> (r: Self)
        ensures
            r.wf(),
            r.elements() == Map::<u64, H>::empty(),
    {
        let r = ElementRegistry { el_per_key: HashMap::new(), keys: Vec::new() };
        assert(r.keys@.to_set() =~= r.el_per_key@.dom());
        r
    }

    /// Records `el` as the child of `key`, in place of any earlier one.
    pub fn insert(&mut self, key: u64, el: H)
        requires
            old(self).wf(),
        ensures
            final(self).wf(),
            final(self).elements() == old(self).elements().insert(key, el),
    {
        let had = self.el_per_key.contains_key(&key);
        self.el_per_key.insert(key, el);
        if !had {
            let ghost before = self.keys@;
            self.keys.push(key);
            proof {
                assert(!before.to_set().contains(key));
                before.lemma_push_to_set_commute(key);
                assert(self.keys@.to_set() =~= self.el_per_key@.dom());
                assert forall|a: int, b: int|
                    0 <= a < self.keys@.len() && 0 <= b < self.keys@.len() && a != b implies self.keys@[a]
                    != self.keys@[b] by {
                    if a == before.len() {
                        assert(before.to_set().contains(self.keys@[b]));
                    } else if b == before.len() {
                        assert(before.to_set().contains(self.keys@[a]));
                    } else {
                        assert(before[a] == self.keys@[a] && before[b] == self.keys@[b]);
                    }
                }
            }
        } else {
            assert(self.keys@.to_set() =~= self.el_per_key@.dom());
        }
    }

    /// The child of `key`, if there is one.
    pub fn get(&self, key: u64) -> (r: Option<&H>)
        ensures
            match r {
                Some(el) => self.elements().contains_key(key) && self.elements()[key] == *el,
                None => !self.elements().contains_key(key),
            },
    {
        self.el_per_key.get(&key)
    }

    /// The number of children.
    pub fn len(&self) -> (r: usize)
        ensures
            r == self.elements().len(),
    {
        self.el_per_key.len()
    }

    /// The keys of the children, each once.
    pub fn keys(&self) -> (r: Vec<u64>)
        requires
            self.wf(),
        ensures
            r@.to_set() == self.elements().dom(),
            r@.no_duplicates(),
    {
        let mut all: Vec<u64> = Vec::new();
        let mut i: usize = 0;
        while i < self.keys.len()
            invariant
                i <= self.keys.len(),
                all@ == self.keys@.take(i as int),
            decreases self.keys.len() - i,
        {
            all.push(self.keys[i]);
            assert(all@ =~= self.keys@.take(i + 1));
            i = i + 1;
        }
        assert(all@ =~= self.keys@);
        all
    }

    /// Takes the children whose key `next_keys` lacks out of the registry:
    /// returns the keys of the children that stay, and the children that
    /// leave with their keys, each once and in no particular order.
    pub fn split_for_render(&mut self, next_keys: &HashSet<u64>) -> (r: (Vec<u64>, Vec<(u64, H)>))
        requires
            old(self).wf(),
        ensures
            final(self).wf(),
            r.0@.to_set() == old(self).elements().dom().intersect(next_keys@),
            r.0@.no_duplicates(),
            r.1@.map_values(|p: (u64, H)| p.0).to_set() == old(self).elements().dom().difference(
                next_keys@,
            ),
            r.1@.map_values(|p: (u64, H)| p.0).no_duplicates(),
            forall|i: int|
                0 <= i < r.1@.len() ==> old(self).elements()[(#[trigger] r.1@[i]).0] == r.1@[i].1,
            final(self).elements() == old(self).elements().restrict(next_keys@),
            r.0@.to_set() + r.1@.map_values(|p: (u64, H)| p.0).to_set() == old(self).elements().dom(),
            r.0@.to_set().disjoint(r.1@.map_values(|p: (u64, H)| p.0).to_set()),
    {
        let all = self.keys();
        let mut staying: Vec<u64> = Vec::new();
        let mut leaving: Vec<(u64, H)> = Vec::new();
        let ghost start = self.elements();
        let mut i: usize = 0;
        while i < all.len()
            invariant
                i <= all.len(),
                all@.to_set() == start.dom(),
                all@.no_duplicates(),
                staying@.to_set() == all@.take(i as int).to_set().intersect(next_keys@),
                staying@.no_duplicates(),
                leaving@.map_values(|p: (u64, H)| p.0).to_set() == all@.take(i as int).to_set().difference(
                    next_keys@,
                ),
                leaving@.map_values(|p: (u64, H)| p.0).no_duplicates(),
                forall|j: int| 0 <= j < leaving@.len() ==> start[(#[trigger] leaving@[j]).0] == leaving@[j].1,
                self.elements() == start.remove_keys(all@.take(i as int).to_set().difference(next_keys@)),
            decreases all.len() - i,
        {
            let key = all[i];
            let ghost done = all@.take(i as int);
            assert(all@.take(i + 1) == done.push(key));
            assert(!done.contains(key)) by {
                if done.contains(key) {
                    let j = choose|j: int| 0 <= j < done.len() && done[j] == key;
                    assert(all@[j] == all@[i as int]);
                }
            }
            proof { done.lemma_push_to_set_commute(key); }
            assert(start.dom().contains(key)) by {
                assert(all@.to_set().contains(key));
            }
            if next_keys.contains(&key) {
                let ghost before = staying@;
                staying.push(key);
                proof {
                    before.lemma_push_to_set_commute(key);
                    assert(staying@.to_set() =~= all@.take(i + 1).to_set().intersect(next_keys@));
                    assert forall|a: int, b: int|
                        0 <= a < staying@.len() && 0 <= b < staying@.len() && a != b implies staying@[a]
                        != staying@[b] by {
                        if a == before.len() {
                            assert(before.to_set().contains(staying@[b]));
                        } else if b == before.len() {
                            assert(before.to_set().contains(staying@[a]));
                        } else {
                            assert(before[a] == staying@[a] && before[b] == staying@[b]);
                        }
                    }
                    assert(all@.take(i + 1).to_set().difference(next_keys@) =~= done.to_set().difference(
                        next_keys@,
                    ));
                }
            } else {
                let ghost before = leaving@;
                let ghost before_map = self.elements();
                let el = self.el_per_key.remove(&key);
                match el {
                    Some(el) => {
                        leaving.push((key, el));
                    },
                    None => {
                        assert(false);
                    },
                }
                proof {
                    let ks = leaving@.map_values(|p: (u64, H)| p.0);
                    let bks = before.map_values(|p: (u64, H)| p.0);
                    assert(ks == bks.push(key));
                    bks.lemma_push_to_set_commute(key);
                    assert(ks.to_set() =~= all@.take(i + 1).to_set().difference(next_keys@));
                    assert forall|a: int, b: int|
                        0 <= a < ks.len() && 0 <= b < ks.len() && a != b implies ks[a] != ks[b] by {
                        if a == bks.len() {
                            assert(bks.to_set().contains(ks[b]));
                        } else if b == bks.len() {
                            assert(bks.to_set().contains(ks[a]));
                        } else {
                            assert(bks[a] == ks[a] && bks[b] == ks[b]);
                        }
                    }
                    assert forall|j: int| 0 <= j < leaving@.len() implies start[(
                    #[trigger] leaving@[j]).0] == leaving@[j].1 by {
                        if j < before.len() {
                            assert(leaving@[j] == before[j]);
                        }
                    }
                    assert(staying@.to_set() =~= all@.take(i + 1).to_set().intersect(next_keys@));
                    assert(self.elements() =~= start.remove_keys(
                        all@.take(i + 1).to_set().difference(next_keys@),
                    ));
                }
            }
            i = i + 1;
        }
        proof {
            assert(all@.take(all.len() as int) == all@);
            assert(self.elements() =~= start.restrict(next_keys@));
        }
        proof {
            let d = start.dom();
            assert(d.intersect(next_keys@) + d.difference(next_keys@) =~= d);
        }
        self.keys = clone_keys(&staying);
        assert(self.keys@.to_set() =~= self.el_per_key@.dom());
        (staying, leaving)
    }
}

} // verus!
