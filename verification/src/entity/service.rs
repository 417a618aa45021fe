//! What is done with entities.

use crate::entity::{Entity, EntityFilter, EntityId, Error};
use crate::guard::Resource;
use vstd::prelude::*;

verus! {

/// Where entities are kept, each under an id.
pub trait EntityRepository {
    /// The entities of the repository, each under its id.
    spec fn entities(&self) -> Map<EntityId, Entity>;

    /// The error that looking for the given id ends in, where it fails.
    spec fn find_failure(&self, id: EntityId) -> Option<Error>;

    /// Returns the resource of the entity with the given id. What is
    /// committed to the resource is the entity of that id from then on.
    fn find(&mut self, id: EntityId) -> (outcome: Result<&mut Resource<Entity>, Error>)
        ensures
            match outcome {
                Ok(resource) => {
                    &&& old(self).find_failure(id).is_none()
                    &&& old(self).entities().contains_key(id)
                    &&& resource@ == old(self).entities()[id]
                    &&& final(self).entities() == old(self).entities().insert(id, final(resource)@)
                },
                Err(error) => {
                    &&& old(self).find_failure(id) == Some(error)
                    &&& final(self).entities() == old(self).entities()
                },
            },
    ;

    /// Returns the resources of entities that the filter selects.
    fn filter(&self, filter: &EntityFilter) -> (outcome: Result<Vec<&Resource<Entity>>, Error>)
        ensures
            outcome matches Ok(found) ==> forall|i: int|
                0 <= i < found@.len() ==> filter.selects(&#[trigger] found@[i]@)
                    && self.entities().contains_value(found@[i]@),
    ;

    /// Stores a copy of the entity under its id, which must be free.
    fn create(&mut self, entity: &Entity) -> (outcome: Result<(), Error>)
        ensures
            match outcome {
                Ok(_) => {
                    &&& !old(self).entities().contains_key(entity.id)
                    &&& final(self).entities().contains_key(entity.id)
                    &&& cloned(*entity, final(self).entities()[entity.id])
                    &&& final(self).entities().remove(entity.id) == old(self).entities()
                },
                Err(_) => final(self).entities() == old(self).entities(),
            },
    ;

    /// Removes the entity with the given id.
    fn delete(&mut self, id: EntityId) -> (outcome: Result<(), Error>)
        ensures
            match outcome {
                Ok(_) => old(self).entities().contains_key(id) && final(self).entities() == old(self).entities().remove(id),
                Err(_) => final(self).entities() == old(self).entities(),
            },
    ;
}

/// What is done with the entities of a repository.
pub struct EntityService<R> {
    pub entity_repo: R,
}

} // verus!
