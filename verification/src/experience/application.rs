//! What is done with experiences.

use crate::entity::EntityId;
use crate::event::{Event, EventId};
use crate::experience::{Experience, ExperienceBuilder};
use vstd::prelude::*;

verus! {

#[derive(Debug, PartialEq)]
pub enum Error {
    /// More than one experience of the entity belongs to the event.
    Collition,
    /// The entity has experienced the event already.
    EventAlreadyExperienced,
}

/// What saving an experience comes to.
#[derive(Debug, PartialEq)]
pub enum Saving {
    /// The entity has no experience in the event: one is to be created.
    Create,
    /// The entity has an experience in the event, at the given position
    /// among the experiences: that one is to be updated.
    Update(usize),
}

/// Implements the save experience transaction.
pub struct SaveExperience {
    pub entity: EntityId,
    pub event: EventId,
}

impl SaveExperience {
    /// Whether the experience is one of the entity in the event.
    pub open spec fn concerns(&self, experience: Experience) -> bool {
        experience.entity == self.entity && experience.event == self.event
    }

    /// The positions of the experiences of the entity in the event, in rising order.
    pub open spec fn positions(&self, experiences: Seq<Experience>) -> Seq<int>
        decreases experiences.len(),
    {
        if experiences.len() == 0 {
            Seq::empty()
        } else if self.concerns(experiences.last()) {
            self.positions(experiences.drop_last()).push(experiences.len() - 1)
        } else {
            self.positions(experiences.drop_last())
        }
    }

    /// Decides what saving the experience comes to, given the experiences
    /// on record: to create it where the entity has none in the event, to
    /// update the one it has, and to fail where it has several.
    pub fn execute(&self, experiences: &[Experience]) -> (outcome: Result<Saving, Error>)
        ensures
            outcome == (if self.positions(experiences@).len() == 0 {
                Ok(Saving::Create)
            } else if self.positions(experiences@).len() == 1 {
                Ok(Saving::Update(self.positions(experiences@)[0] as usize))
            } else {
                Err(Error::Collition)
            }),
    {
        let mut found: Vec<usize> = Vec::new();
        let mut i: usize = 0;
        assert(experiences@.take(0) =~= Seq::empty());
        while i < experiences.len()
            invariant
                i <= experiences@.len(),
                found@.len() == self.positions(experiences@.take(i as int)).len(),
                forall|k: int| 0 <= k < found@.len() ==> found@[k] == self.positions(experiences@.take(i as int))[k],
            decreases experiences@.len() - i,
        {
            assert(experiences@.take(i + 1).drop_last() =~= experiences@.take(i as int));
            if experiences[i].entity == self.entity && experiences[i].event == self.event {
                found.push(i);
            }
            i += 1;
        }
        assert(experiences@.take(i as int) =~= experiences@);
        if found.len() == 0 {
            Ok(Saving::Create)
        } else if found.len() == 1 {
            Ok(Saving::Update(found[0]))
        } else {
            Err(Error::Collition)
        }
    }

    /// Prepares the experience of the entity in the given event, unless one
    /// of the experiences on record is of the entity in that event already.
    pub fn create<'a, Intv>(&self, event: &'a Event<Intv>, experiences: &[Experience]) -> (outcome: Result<
        ExperienceBuilder<'a, Intv>,
        Error,
    >)
        ensures
            match outcome {
                Ok(builder) => {
                    &&& builder.entity == self.entity
                    &&& builder.event == event
                    &&& forall|i: int|
                        0 <= i < experiences@.len() && experiences@[i].entity == self.entity
                            ==> experiences@[i].event != event.id
                },
                Err(error) => {
                    &&& error == Error::EventAlreadyExperienced
                    &&& exists|i: int|
                        0 <= i < experiences@.len() && experiences@[i].entity == self.entity
                            && experiences@[i].event == event.id
                },
            },
    {
        let mut i: usize = 0;
        while i < experiences.len()
            invariant
                i <= experiences@.len(),
                forall|k: int|
                    0 <= k < i && experiences@[k].entity == self.entity ==> experiences@[k].event != event.id,
            decreases experiences@.len() - i,
        {
            if experiences[i].entity == self.entity && experiences[i].event == event.id {
                return Err(Error::EventAlreadyExperienced);
            }
            i += 1;
        }
        Ok(ExperienceBuilder { entity: self.entity, event })
    }

    /// Updates the experience on record, which takes nothing so far.
    pub fn update(&self, _experience: &Experience) -> (outcome: Result<(), Error>)
        ensures
            outcome.is_ok(),
    {
        Ok(())
    }
}

} // verus!
