//! Resources kept under ids.

use crate::guard::Resource;
use vstd::prelude::*;

verus! {

/// Resources, each under an id of its own, in the order they were inserted.
pub struct ResourceMap<T> {
    ids: Vec<u64>,
    resources: Vec<Resource<T>>,
}

impl<T> ResourceMap<T> {
    #[verifier::type_invariant]
    closed spec fn well_formed(&self) -> bool {
        &&& self.ids@.len() == self.resources@.len()
        &&& self.ids@.no_duplicates()
    }

    /// The values of the resources, each under the id at its position.
    closed spec fn keyed(ids: Seq<u64>, resources: Seq<Resource<T>>) -> Map<u64, T> {
        Map::new(|id: u64| ids.contains(id), |id: u64| resources[ids.index_of(id)]@)
    }

    /// The values of the map, each under its id.
    pub closed spec fn view(&self) -> Map<u64, T> {
        Self::keyed(self.ids@, self.resources@)
    }

    /// The ids of the map, in the order they were inserted.
    pub closed spec fn ids(&self) -> Seq<u64> {
        self.ids@
    }

    /// The values of the map, in the order they were inserted.
    pub closed spec fn values(&self) -> Seq<T> {
        Self::listed(self.resources@)
    }

    /// The values of the resources, in their order.
    closed spec fn listed(resources: Seq<Resource<T>>) -> Seq<T> {
        Seq::new(resources.len(), |i: int| resources[i]@)
    }

    /// Creates an empty map.
    pub fn new() -> (map: Self)
        ensures
            map@ == Map::<u64, T>::empty(),
            map.ids() == Seq::<u64>::empty(),
            map.values() == Seq::<T>::empty(),
    {
        let map = ResourceMap { ids: Vec::new(), resources: Vec::new() };
        assert(map@ =~= Map::<u64, T>::empty());
        assert(map.values() =~= Seq::<T>::empty());
        map
    }

    /// Returns the number of resources in the map.
    pub fn len(&self) -> (len: usize)
        ensures
            len == self.ids().len(),
            len == self.values().len(),
    {
        proof {
            use_type_invariant(self);
        }
        self.ids.len()
    }

    /// Returns the resource at the given position, counted in the order of insertion.
    pub fn at(&self, position: usize) -> (resource: &Resource<T>)
        requires
            position < self.values().len(),
        ensures
            resource@ == self.values()[position as int],
            self@.contains_key(self.ids()[position as int]),
            self@[self.ids()[position as int]] == resource@,
    {
        proof {
            use_type_invariant(self);
            assert(self.ids@.contains(self.ids@[position as int]));
            assert(self.ids@.index_of(self.ids@[position as int]) == position);
        }
        &self.resources[position]
    }

    /// Returns the position of the given id among those of the map, if it is there.
    fn position(&self, id: u64) -> (found: Option<usize>)
        ensures
            match found {
                Some(i) => i < self.ids@.len() && self.ids@[i as int] == id,
                None => !self.ids@.contains(id),
            },
    {
        let mut i: usize = 0;
        while i < self.ids.len()
            invariant
                i <= self.ids@.len(),
                forall|j: int| 0 <= j < i ==> self.ids@[j] != id,
            decreases self.ids@.len() - i,
        {
            if self.ids[i] == id {
                return Some(i);
            }
            i += 1;
        }
        None
    }

    /// Returns true if, and only if, the map holds a resource under the given id.
    pub fn contains_key(&self, id: u64) -> (found: bool)
        ensures
            found == self@.contains_key(id),
    {
        self.position(id).is_some()
    }

    /// Puts the value under the given id, after the resources that the map
    /// holds, unless the id is taken: then the value comes back.
    pub fn insert(&mut self, id: u64, value: T) -> (refused: Option<T>)
        ensures
            match refused {
                None => {
                    &&& !old(self)@.contains_key(id)
                    &&& final(self)@ == old(self)@.insert(id, value)
                    &&& final(self).ids() == old(self).ids().push(id)
                    &&& final(self).values() == old(self).values().push(value)
                },
                Some(back) => {
                    &&& back == value
                    &&& old(self)@.contains_key(id)
                    &&& final(self)@ == old(self)@
                    &&& final(self).ids() == old(self).ids()
                    &&& final(self).values() == old(self).values()
                },
            },
    {
        proof {
            use_type_invariant(&*self);
        }
        if self.position(id).is_some() {
            return Some(value);
        }
        let mut taken = ResourceMap { ids: Vec::new(), resources: Vec::new() };
        core::mem::swap(self, &mut taken);
        let ResourceMap { ids, resources } = taken;
        let mut ids = ids;
        let mut resources = resources;
        ids.push(id);
        resources.push(Resource::new(value));
        proof {
            let before = old(self).ids@;
            assert forall|i: int, j: int| 0 <= i < j < ids@.len() implies ids@[i] != ids@[j] by {
                if j == before.len() {
                    assert(before.contains(before[i]));
                }
            }
        }
        *self = ResourceMap { ids, resources };
        proof {
            let before = old(self).ids@;
            let n = before.len() as int;
            assert(self.ids@[n] == id);
            assert(self.ids@.index_of(id) == n);
            assert forall|other: u64| #[trigger]
                self@.contains_key(other) <==> old(self)@.insert(id, value).contains_key(other) by {
                if before.contains(other) {
                    let i = before.index_of(other);
                    assert(self.ids@[i] == other);
                }
                if self.ids@.contains(other) && other != id {
                    let i = self.ids@.index_of(other);
                    assert(before[i] == other);
                }
            }
            assert forall|other: u64| #[trigger] self@.contains_key(other) implies self@[other] == old(self)@.insert(id, value)[other] by {
                if other != id {
                    let i = self.ids@.index_of(other);
                    assert(before[i] == other);
                    assert(before.index_of(other) == i);
                }
            }
            assert(self@ =~= old(self)@.insert(id, value));
            assert(self.values() =~= old(self).values().push(value));
        }
        None
    }

    /// Returns the resource under the given id, if any.
    pub fn get(&self, id: u64) -> (found: Option<&Resource<T>>)
        ensures
            match found {
                Some(resource) => self@.contains_key(id) && resource@ == self@[id],
                None => !self@.contains_key(id),
            },
    {
        proof {
            use_type_invariant(self);
        }
        match self.position(id) {
            Some(i) => {
                assert(self.ids@.index_of(id) == i);
                Some(&self.resources[i])
            },
            None => None,
        }
    }

    /// Returns the resource under the given id, if any. What is committed
    /// to the resource is the value under that id from then on.
    pub fn get_mut(&mut self, id: u64) -> (found: Option<&mut Resource<T>>)
        ensures
            final(self).ids() == old(self).ids(),
            match found {
                Some(resource) => {
                    &&& old(self)@.contains_key(id)
                    &&& resource@ == old(self)@[id]
                    &&& final(self)@ == old(self)@.insert(id, final(resource)@)
                    &&& final(self).values() == old(self).values().update(
                        old(self).ids().index_of(id),
                        final(resource)@,
                    )
                },
                None => !old(self)@.contains_key(id) && final(self)@ == old(self)@ && final(self).values()
                    == old(self).values(),
            },
    {
        proof {
            use_type_invariant(&*self);
        }
        match self.position(id) {
            Some(i) => {
                proof {
                    let ids = self.ids@;
                    let resources = self.resources@;
                    assert(ids.index_of(id) == i);
                    assert forall|resource: Resource<T>| #[trigger]
                        Self::keyed(ids, resources.update(i as int, resource)) == self@.insert(id, resource@) by {
                        let after = Self::keyed(ids, resources.update(i as int, resource));
                        assert forall|other: u64| #[trigger] after.contains_key(other) implies after[other]
                            == self@.insert(id, resource@)[other] by {
                            let j = ids.index_of(other);
                            if other != id {
                                assert(j != i);
                            }
                        }
                        assert(after =~= self@.insert(id, resource@));
                    }
                    assert forall|resource: Resource<T>| #[trigger]
                        Self::listed(resources.update(i as int, resource)) == self.values().update(
                            i as int,
                            resource@,
                        ) by {
                        assert(Self::listed(resources.update(i as int, resource)) =~= self.values().update(
                            i as int,
                            resource@,
                        ));
                    }
                }
                Some(&mut self.resources[i])
            },
            None => None,
        }
    }

    /// Removes the resource under the given id and returns its value, if there is one.
    pub fn remove(&mut self, id: u64) -> (removed: Option<T>)
        ensures
            final(self)@ == old(self)@.remove(id),
            match removed {
                Some(value) => {
                    &&& old(self)@.contains_key(id)
                    &&& value == old(self)@[id]
                    &&& final(self).ids() == old(self).ids().remove(old(self).ids().index_of(id))
                    &&& final(self).values() == old(self).values().remove(old(self).ids().index_of(id))
                },
                None => {
                    &&& !old(self)@.contains_key(id)
                    &&& final(self).ids() == old(self).ids()
                    &&& final(self).values() == old(self).values()
                },
            },
    {
        proof {
            use_type_invariant(&*self);
        }
        match self.position(id) {
            Some(i) => {
                let mut taken = ResourceMap { ids: Vec::new(), resources: Vec::new() };
                core::mem::swap(self, &mut taken);
                let ResourceMap { ids, resources } = taken;
                let mut ids = ids;
                let mut resources = resources;
                ids.remove(i);
                let removed = resources.remove(i);
                let ghost before = old(self).ids@;
                proof {
                    assert(before.index_of(id) == i);
                    assert forall|j: int, k: int| 0 <= j < k < ids@.len() implies ids@[j] != ids@[k] by {
                        let from_j = if j < i { j } else { j + 1 };
                        let from_k = if k < i { k } else { k + 1 };
                        assert(ids@[j] == before[from_j]);
                        assert(ids@[k] == before[from_k]);
                    }
                }
                *self = ResourceMap { ids, resources };
                proof {
                    assert forall|other: u64| #[trigger]
                        self@.contains_key(other) <==> old(self)@.remove(id).contains_key(other) by {
                        if self.ids@.contains(other) {
                            let j = self.ids@.index_of(other);
                            let from = if j < i { j } else { j + 1 };
                            assert(before[from] == other);
                        }
                        if before.contains(other) && other != id {
                            let j = before.index_of(other);
                            let to = if j < i { j } else { j - 1 };
                            assert(self.ids@[to] == other);
                        }
                    }
                    assert forall|other: u64| #[trigger] self@.contains_key(other) implies self@[other] == old(self)@.remove(id)[other] by {
                        let j = self.ids@.index_of(other);
                        let from = if j < i { j } else { j + 1 };
                        assert(before[from] == other);
                        assert(before.index_of(other) == from);
                    }
                    assert(self@ =~= old(self)@.remove(id));
                    assert(self.values() =~= old(self).values().remove(i as int));
                }
                Some(removed.into_inner())
            },
            None => {
                assert(self@ =~= old(self)@.remove(id));
                None
            },
        }
    }
}

} // verus!
