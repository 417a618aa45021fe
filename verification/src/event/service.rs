//! What is done with events.

use crate::entity::service::EntityRepository;
use crate::entity::EntityId;
use crate::event::{Error, Event, EventId};
use crate::guard::{Resource, Tx, TxGuard};
use vstd::prelude::*;

verus! {

/// Where events are kept, each under an id.
pub trait EventRepository {
    type Interval: Clone;

    /// The events of the repository, each under its id.
    spec fn events(&self) -> Map<EventId, Event<Self::Interval>>;

    /// Stores a copy of the event under its id, which must be free.
    fn create(&mut self, event: &Event<Self::Interval>) -> (outcome: Result<(), Error>)
        ensures
            match outcome {
                Ok(_) => {
                    &&& !old(self).events().contains_key(event.id)
                    &&& final(self).events().contains_key(event.id)
                    &&& cloned(*event, final(self).events()[event.id])
                    &&& final(self).events().remove(event.id) == old(self).events()
                },
                Err(_) => final(self).events() == old(self).events(),
            },
    ;

    /// The error that looking for the given id ends in, where it fails.
    spec fn find_failure(&self, id: EventId) -> Option<Error>;

    /// Returns the resource of the event with the given id. What is
    /// committed to the resource is the event of that id from then on.
    fn find(&mut self, id: EventId) -> (outcome: Result<&mut Resource<Event<Self::Interval>>, Error>)
        ensures
            match outcome {
                Ok(resource) => {
                    &&& old(self).find_failure(id).is_none()
                    &&& old(self).events().contains_key(id)
                    &&& resource@ == old(self).events()[id]
                    &&& final(self).events() == old(self).events().insert(id, final(resource)@)
                },
                Err(error) => {
                    &&& old(self).find_failure(id) == Some(error)
                    &&& final(self).events() == old(self).events()
                },
            },
    ;
}

/// What is done with the events of a repository.
pub struct EventService<R, E> {
    pub event_repo: R,
    pub entity_repo: E,
}

/// Implements the add entity transaction for an event.
pub struct AddEntity<'s, R, E> {
    pub event_repo: &'s mut R,
    pub entity_repo: &'s mut E,
    pub entity_id: EntityId,
    pub event_id: EventId,
}

/// Whether `after` is a copy of `before` that lists one more entity, last.
pub open spec fn entity_added<Intv: Clone>(before: Event<Intv>, after: Event<Intv>, entity: EntityId) -> bool {
    &&& after.id == before.id
    &&& after.name@ == before.name@
    &&& cloned(before.interval, after.interval)
    &&& after.entities@ == before.entities@.push(entity)
}

impl<'s, R, E> AddEntity<'s, R, E> where R: EventRepository, E: EntityRepository {
    /// The outcome of adding the entity to the event: the error that
    /// looking for the entity ends in, else the one that looking for the
    /// event ends in, and success where both are found.
    pub open spec fn outcome(entity_repo: E, event_repo: R, entity_id: EntityId, event_id: EventId) -> Result<
        (),
        Error,
    > {
        match entity_repo.find_failure(entity_id) {
            Some(error) => Err(Error::Entity(error)),
            None => match event_repo.find_failure(event_id) {
                Some(error) => Err(error),
                None => Ok(()),
            },
        }
    }

    /// Executes the add entity transation: the event lists the id that the
    /// entity carries, after those it listed.
    ///
    /// It succeeds if, and only if, both the entity and the event are
    /// found, and else fails with the error of the search that failed, the
    /// one for the entity first. Nothing changes unless it succeeds.
    pub fn execute(self) -> (outcome: Result<(), Error>)
        ensures
            outcome == Self::outcome(
                *old(self.entity_repo),
                *old(self.event_repo),
                self.entity_id,
                self.event_id,
            ),
            final(self.entity_repo).entities() == old(self.entity_repo).entities(),
            match outcome {
                Ok(_) => {
                    &&& old(self.entity_repo).entities().contains_key(self.entity_id)
                    &&& old(self.event_repo).events().contains_key(self.event_id)
                    &&& final(self.event_repo).events().dom() == old(self.event_repo).events().dom()
                    &&& final(self.event_repo).events().remove(self.event_id) == old(self.event_repo).events().remove(self.event_id)
                    &&& entity_added(
                        old(self.event_repo).events()[self.event_id],
                        final(self.event_repo).events()[self.event_id],
                        old(self.entity_repo).entities()[self.entity_id].id,
                    )
                },
                Err(_) => final(self.event_repo).events() == old(self.event_repo).events(),
            },
    {
        let entity = match self.entity_repo.find(self.entity_id) {
            Ok(entity) => entity.get().id,
            Err(error) => {
                return Err(Error::Entity(error));
            },
        };
        match self.event_repo.find(self.event_id) {
            Ok(event_tx) => match list(event_tx, entity) {
                Ok(_) => Ok(()),
                Err(error) => Err(error),
            },
            Err(error) => Err(error),
        }
    }
}

/// Lists the entity in the event of the resource, after the entities that
/// the event lists: the resource is acquired, its copy changed and
/// committed. A resource is always acquired, so this never fails.
pub fn list<Intv: Clone>(event_tx: &mut Resource<Event<Intv>>, entity: EntityId) -> (outcome: Result<(), Error>)
    ensures
        outcome.is_ok(),
        entity_added(old(event_tx)@, final(event_tx)@, entity),
{
    let mut event = match event_tx.begin() {
        Ok(event) => event,
        Err(error) => {
            return Err(Error::Guard(error));
        },
    };
    event.as_mut().entities.push(entity);
    event.commit();
    Ok(())
}

impl<R, E> EventService<R, E> where R: EventRepository, E: EntityRepository {
    /// Prepares the transaction that adds the entity to the event.
    pub fn add_entity(&mut self, entity_id: EntityId, event_id: EventId) -> (transaction: AddEntity<'_, R, E>)
        ensures
            transaction.entity_id == entity_id,
            transaction.event_id == event_id,
            *transaction.event_repo == old(self).event_repo,
            *transaction.entity_repo == old(self).entity_repo,
            final(self).event_repo == *final(transaction.event_repo),
            final(self).entity_repo == *final(transaction.entity_repo),
    {
        AddEntity {
            entity_repo: &mut self.entity_repo,
            event_repo: &mut self.event_repo,
            entity_id,
            event_id,
        }
    }
}

} // verus!
