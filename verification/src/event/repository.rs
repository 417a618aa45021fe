//! Events kept in memory.

use crate::event::service::EventRepository;
use crate::event::{Error, Event, EventFilter, EventId};
use crate::guard::Resource;
use crate::resource::ResourceMap;
use vstd::prelude::*;

verus! {

/// The events of a plot, each under its id, in the order they were created.
pub struct InMemoryEventRepository<Intv> {
    events: ResourceMap<Event<Intv>>,
}

impl<Intv> InMemoryEventRepository<Intv> {
    /// The events of the repository, each under the id it was created with.
    pub closed spec fn view(&self) -> Map<EventId, Event<Intv>> {
        self.events@
    }

    /// The events of the repository, in the order they were created.
    pub closed spec fn listed(&self) -> Seq<Event<Intv>> {
        self.events.values()
    }

    /// The ids that the events were created under, in the same order.
    pub closed spec fn ids(&self) -> Seq<EventId> {
        self.events.ids()
    }

    /// Creates a repository without events.
    pub fn new() -> (repository: Self)
        ensures
            repository@ == Map::<EventId, Event<Intv>>::empty(),
            repository.listed() == Seq::<Event<Intv>>::empty(),
            repository.ids() == Seq::<EventId>::empty(),
    {
        InMemoryEventRepository { events: ResourceMap::new() }
    }

    /// Returns the resources of the events that the filter selects, in the
    /// order the events were created.
    pub fn filter(&self, filter: &EventFilter<Intv>) -> (outcome: Result<Vec<&Resource<Event<Intv>>>, Error>)
        ensures
            outcome matches Ok(found) && Seq::new(found@.len(), |i: int| found@[i]@)
                == self.listed().filter(|event: Event<Intv>| filter.selects(&event)),
    {
        let ghost selects = |event: Event<Intv>| filter.selects(&event);
        let mut found: Vec<&Resource<Event<Intv>>> = Vec::new();
        let mut i: usize = 0;
        proof {
            reveal(Seq::filter);
            assert(self.listed().take(0) =~= Seq::empty());
        }
        while i < self.events.len()
            invariant
                i <= self.listed().len(),
                selects == |event: Event<Intv>| filter.selects(&event),
                Seq::new(found@.len(), |k: int| found@[k]@) == self.listed().take(i as int).filter(selects),
            decreases self.listed().len() - i,
        {
            let resource = self.events.at(i);
            proof {
                reveal(Seq::filter);
                let head = self.listed().take(i + 1);
                assert(head.drop_last() =~= self.listed().take(i as int));
                assert(head.last() == resource@);
            }
            let ghost before = found@;
            if filter.matches(resource.get()) {
                found.push(resource);
                assert(Seq::new(found@.len(), |k: int| found@[k]@) =~= Seq::new(
                    before.len(),
                    |k: int| before[k]@,
                ).push(resource@));
            }
            i += 1;
        }
        assert(self.listed().take(i as int) =~= self.listed());
        Ok(found)
    }
}

impl<Intv: Clone> EventRepository for InMemoryEventRepository<Intv> {
    type Interval = Intv;

    open spec fn events(&self) -> Map<EventId, Event<Intv>> {
        self@
    }

    /// Stores a copy of the event under its id, after the events that the
    /// repository holds. Fails if, and only if, the id is taken.
    fn create(&mut self, event: &Event<Intv>) -> (outcome: Result<(), Error>)
        ensures
            outcome.is_ok() == !old(self)@.contains_key(event.id),
            match outcome {
                Ok(_) => {
                    &&& final(self).listed() == old(self).listed().push(final(self)@[event.id])
                    &&& final(self).ids() == old(self).ids().push(event.id)
                },
                Err(error) => {
                    &&& error == Error::AlreadyExists
                    &&& final(self).listed() == old(self).listed()
                    &&& final(self).ids() == old(self).ids()
                },
            },
    {
        if self.events.contains_key(event.id) {
            return Err(Error::AlreadyExists);
        }
        let refused = self.events.insert(event.id, event.clone());
        assert(refused.is_none());
        assert(self@.remove(event.id) =~= old(self)@);
        Ok(())
    }

    open spec fn find_failure(&self, id: EventId) -> Option<Error> {
        if self@.contains_key(id) {
            None
        } else {
            Some(Error::NotFound)
        }
    }

    /// Returns the resource of the event with the given id. Fails if, and
    /// only if, there is no such event.
    fn find(&mut self, id: EventId) -> (outcome: Result<&mut Resource<Event<Intv>>, Error>)
        ensures
            outcome.is_ok() == old(self)@.contains_key(id),
            final(self).ids() == old(self).ids(),
            match outcome {
                Ok(resource) => final(self).listed() == old(self).listed().update(
                    old(self).ids().index_of(id),
                    final(resource)@,
                ),
                Err(error) => error == Error::NotFound && final(self).listed() == old(self).listed(),
            },
    {
        match self.events.get_mut(id) {
            Some(resource) => Ok(resource),
            None => Err(Error::NotFound),
        }
    }
}

} // verus!
