//! Experience definition.

pub mod application;
pub mod constraint;
pub mod query;

use crate::entity::EntityId;
use crate::event::{Event, EventId};
use vstd::prelude::*;

verus! {

/// What an entity lives through during an event.
pub struct Experience {
    pub entity: EntityId,
    pub event: EventId,
}

/// An experience along with the event that it belongs to.
pub struct ExperiencedEvent<'a, Intv> {
    pub experience: &'a Experience,
    pub event: &'a Event<Intv>,
}

/// The experience of an entity during an event, while it is being put together.
pub struct ExperienceBuilder<'a, Intv> {
    pub entity: EntityId,
    pub event: &'a Event<Intv>,
}

} // verus!
