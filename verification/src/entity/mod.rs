//! Entity definition.

pub mod repository;
pub mod service;

use crate::id::Identify;
use vstd::prelude::*;

verus! {

/// The identifier of an [`Entity`].
pub type EntityId = u64;

/// Someone or something that experiences events.
pub struct Entity {
    pub id: EntityId,
    pub name: String,
}

impl Identify for Entity {
    type Id = EntityId;

    open spec fn spec_id(&self) -> EntityId {
        self.id
    }

    fn id(&self) -> (id: &EntityId) {
        &self.id
    }
}

impl Clone for Entity {
    fn clone(&self) -> (copy: Self)
        ensures
            copy.id == self.id,
            copy.name@ == self.name@,
    {
        Entity { id: self.id, name: self.name.clone() }
    }
}

#[derive(Debug, PartialEq)]
pub enum Error {
    /// An entity with the same id already exists.
    AlreadyExists,
    /// No entity has the given id.
    NotFound,
}

/// The conditions that an entity is selected by. A condition that is not
/// set selects every entity.
pub struct EntityFilter {
    pub name: Option<String>,
    pub id: Option<EntityId>,
}

impl EntityFilter {
    /// Whether the entity meets every condition that is set.
    pub open spec fn selects(&self, entity: &Entity) -> bool {
        &&& match self.name {
            Some(name) => name@ == entity.name@,
            None => true,
        }
        &&& match self.id {
            Some(id) => id == entity.id,
            None => true,
        }
    }

    /// Returns true if, and only if, the entity meets every condition that is set.
    pub fn matches(&self, entity: &Entity) -> (matched: bool)
        ensures
            matched == self.selects(entity),
    {
        if let Some(name) = &self.name {
            if *name != entity.name {
                return false;
            }
        }
        if let Some(id) = &self.id {
            if *id != entity.id {
                return false;
            }
        }
        true
    }
}

} // verus!
