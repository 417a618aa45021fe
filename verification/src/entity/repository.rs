//! Entities kept in memory.

use crate::entity::service::EntityRepository;
use crate::entity::{Entity, EntityFilter, EntityId, Error};
use crate::guard::Resource;
use crate::resource::ResourceMap;
use vstd::prelude::*;

verus! {

/// The entities of a plot, each under its id, in the order they were created.
pub struct InMemoryEntityRepository {
    entities: ResourceMap<Entity>,
}

impl InMemoryEntityRepository {
    /// The entities of the repository, each under the id it was created with.
    pub closed spec fn view(&self) -> Map<EntityId, Entity> {
        self.entities@
    }

    /// The entities of the repository, in the order they were created.
    pub closed spec fn listed(&self) -> Seq<Entity> {
        self.entities.values()
    }

    /// The ids that the entities were created under, in the same order.
    pub closed spec fn ids(&self) -> Seq<EntityId> {
        self.entities.ids()
    }

    /// Creates a repository without entities.
    pub fn new() -> (repository: Self)
        ensures
            repository@ == Map::<EntityId, Entity>::empty(),
            repository.listed() == Seq::<Entity>::empty(),
            repository.ids() == Seq::<EntityId>::empty(),
    {
        InMemoryEntityRepository { entities: ResourceMap::new() }
    }
}

impl EntityRepository for InMemoryEntityRepository {
    open spec fn entities(&self) -> Map<EntityId, Entity> {
        self@
    }

    open spec fn find_failure(&self, id: EntityId) -> Option<Error> {
        if self@.contains_key(id) {
            None
        } else {
            Some(Error::NotFound)
        }
    }

    /// Returns the resource of the entity with the given id. Fails if, and
    /// only if, there is no such entity.
    fn find(&mut self, id: EntityId) -> (outcome: Result<&mut Resource<Entity>, Error>)
        ensures
            outcome.is_ok() == old(self)@.contains_key(id),
            final(self).ids() == old(self).ids(),
            match outcome {
                Ok(resource) => final(self).listed() == old(self).listed().update(
                    old(self).ids().index_of(id),
                    final(resource)@,
                ),
                Err(error) => error == Error::NotFound && final(self).listed() == old(self).listed(),
            },
    {
        match self.entities.get_mut(id) {
            Some(resource) => Ok(resource),
            None => Err(Error::NotFound),
        }
    }

    /// Returns the resources of the entities that the filter selects, in
    /// the order the entities were created.
    fn filter(&self, filter: &EntityFilter) -> (outcome: Result<Vec<&Resource<Entity>>, Error>)
        ensures
            outcome matches Ok(found) && Seq::new(found@.len(), |i: int| found@[i]@)
                == self.listed().filter(|entity: Entity| filter.selects(&entity)),
    {
        let ghost selects = |entity: Entity| filter.selects(&entity);
        let mut found: Vec<&Resource<Entity>> = Vec::new();
        let mut i: usize = 0;
        proof {
            reveal(Seq::filter);
            assert(self.listed().take(0) =~= Seq::empty());
        }
        while i < self.entities.len()
            invariant
                i <= self.listed().len(),
                selects == |entity: Entity| filter.selects(&entity),
                Seq::new(found@.len(), |k: int| found@[k]@) == self.listed().take(i as int).filter(selects),
                forall|k: int|
                    0 <= k < found@.len() ==> filter.selects(&#[trigger] found@[k]@) && self@.contains_value(
                        found@[k]@,
                    ),
            decreases self.listed().len() - i,
        {
            let resource = self.entities.at(i);
            proof {
                reveal(Seq::filter);
                let head = self.listed().take(i + 1);
                assert(head.drop_last() =~= self.listed().take(i as int));
                assert(head.last() == resource@);
            }
            let ghost before = found@;
            if filter.matches(resource.get()) {
                found.push(resource);
                assert(Seq::new(found@.len(), |k: int| found@[k]@) =~= Seq::new(
                    before.len(),
                    |k: int| before[k]@,
                ).push(resource@));
            }
            i += 1;
        }
        assert(self.listed().take(i as int) =~= self.listed());
        Ok(found)
    }

    /// Stores a copy of the entity under its id, after the entities that
    /// the repository holds. Fails if, and only if, the id is taken.
    fn create(&mut self, entity: &Entity) -> (outcome: Result<(), Error>)
        ensures
            outcome.is_ok() == !old(self)@.contains_key(entity.id),
            match outcome {
                Ok(_) => {
                    &&& final(self).listed() == old(self).listed().push(final(self)@[entity.id])
                    &&& final(self).ids() == old(self).ids().push(entity.id)
                },
                Err(error) => {
                    &&& error == Error::AlreadyExists
                    &&& final(self).listed() == old(self).listed()
                    &&& final(self).ids() == old(self).ids()
                },
            },
    {
        if self.entities.contains_key(entity.id) {
            return Err(Error::AlreadyExists);
        }
        let refused = self.entities.insert(entity.id, entity.clone());
        assert(refused.is_none());
        assert(self@.remove(entity.id) =~= old(self)@);
        Ok(())
    }

    /// Removes the entity with the given id. Fails if, and only if, there
    /// is no such entity.
    fn delete(&mut self, id: EntityId) -> (outcome: Result<(), Error>)
        ensures
            outcome.is_ok() == old(self)@.contains_key(id),
            match outcome {
                Ok(_) => {
                    &&& final(self).ids() == old(self).ids().remove(old(self).ids().index_of(id))
                    &&& final(self).listed() == old(self).listed().remove(old(self).ids().index_of(id))
                },
                Err(error) => {
                    &&& error == Error::NotFound
                    &&& final(self).ids() == old(self).ids()
                    &&& final(self).listed() == old(self).listed()
                },
            },
    {
        match self.entities.remove(id) {
            Some(_) => Ok(()),
            None => {
                assert(self@ =~= old(self)@);
                Err(Error::NotFound)
            },
        }
    }
}

} // verus!
