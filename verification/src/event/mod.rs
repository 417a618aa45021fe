//! Event definition.

pub mod repository;
pub mod service;

use crate::entity::EntityId;
use crate::id::Identify;
use crate::interval::Interval;
use core::marker::PhantomData;
use vstd::prelude::*;

verus! {

/// The identifier of an [`Event`].
pub type EventId = u64;

/// Something that takes place during an interval and involves entities.
pub struct Event<Intv> {
    pub id: EventId,
    pub name: String,
    pub interval: Intv,
    pub entities: Vec<EntityId>,
}

impl<Intv> Identify for Event<Intv> {
    type Id = EventId;

    open spec fn spec_id(&self) -> EventId {
        self.id
    }

    fn id(&self) -> (id: &EventId) {
        &self.id
    }
}

impl<Intv: Clone> Clone for Event<Intv> {
    fn clone(&self) -> (copy: Self)
        ensures
            copy.id == self.id,
            copy.name@ == self.name@,
            cloned(self.interval, copy.interval),
            copy.entities@ == self.entities@,
    {
        Event {
            id: self.id,
            name: self.name.clone(),
            interval: self.interval.clone(),
            entities: self.entities.clone(),
        }
    }
}

#[derive(Debug, PartialEq)]
pub enum Error {
    /// An event with the same id already exists.
    AlreadyExists,
    /// No event has the given id.
    NotFound,
    /// An entity could not be had.
    Entity(crate::entity::Error),
    /// A resource could not be had.
    Guard(crate::guard::Error),
}

impl<Intv: Interval> Interval for Event<Intv> {
    open spec fn spec_lo(&self) -> i64 {
        self.interval.spec_lo()
    }

    open spec fn spec_hi(&self) -> i64 {
        self.interval.spec_hi()
    }

    fn lo(&self) -> (lo: i64) {
        self.interval.lo()
    }

    fn hi(&self) -> (hi: i64) {
        self.interval.hi()
    }
}

/// The conditions that an event is selected by. A condition that is not
/// set selects every event.
pub struct EventFilter<Intv> {
    pub name: Option<String>,
    pub id: Option<EventId>,
    pub interval: PhantomData<Intv>,
}

impl<Intv> EventFilter<Intv> {
    /// Whether the event has the name the filter asks for, if it asks for one.
    pub open spec fn allows_name(&self, event: &Event<Intv>) -> bool {
        match self.name {
            Some(name) => name@ == event.name@,
            None => true,
        }
    }

    /// Whether the event has the id the filter asks for, if it asks for one.
    pub open spec fn allows_id(&self, event: &Event<Intv>) -> bool {
        match self.id {
            Some(id) => id == event.id,
            None => true,
        }
    }

    /// Whether the event meets every condition that is set.
    pub open spec fn selects(&self, event: &Event<Intv>) -> bool {
        self.allows_name(event) && self.allows_id(event)
    }

    /// Creates the filter that selects every event.
    pub fn new() -> (filter: Self)
        ensures
            filter.name.is_none(),
            filter.id.is_none(),
    {
        EventFilter { name: None, id: None, interval: PhantomData }
    }

    /// Asks for the given name, or for any if none is given.
    pub fn with_name(self, name: Option<String>) -> (filter: Self)
        ensures
            filter.name == name,
            filter.id == self.id,
    {
        let mut filter = self;
        filter.name = name;
        filter
    }

    /// Asks for the given id, or for any if none is given.
    pub fn with_id(self, id: Option<EventId>) -> (filter: Self)
        ensures
            filter.name == self.name,
            filter.id == id,
    {
        let mut filter = self;
        filter.id = id;
        filter
    }

    /// Returns true if, and only if, the event meets every condition that is set.
    pub fn matches(&self, event: &Event<Intv>) -> (matched: bool)
        ensures
            matched == self.selects(event),
    {
        if let Some(name) = &self.name {
            if *name != event.name {
                return false;
            }
        }
        if let Some(id) = &self.id {
            if *id != event.id {
                return false;
            }
        }
        true
    }
}

} // verus!
