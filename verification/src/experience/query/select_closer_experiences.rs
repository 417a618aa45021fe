//! Selection of the experiences next to an event.

use crate::event::Event;
use crate::experience::{ExperienceBuilder, ExperiencedEvent};
use crate::interval::Interval;
use vstd::prelude::*;

verus! {

/// Whether the event of `left` comes no later than that of `right`: it
/// starts earlier, or at the same time and ends no later.
pub open spec fn no_later<Intv: Interval>(left: &ExperiencedEvent<Intv>, right: &ExperiencedEvent<Intv>) -> bool {
    left.event.spec_lo() < right.event.spec_lo() || (left.event.spec_lo() == right.event.spec_lo()
        && left.event.spec_hi() <= right.event.spec_hi())
}

/// The greater of a selection and a candidate, where an empty selection is
/// less than any candidate and the candidate wins a tie.
pub open spec fn greater<'b, Intv: Interval>(
    selected: Option<&'b ExperiencedEvent<'b, Intv>>,
    candidate: &'b ExperiencedEvent<'b, Intv>,
) -> Option<&'b ExperiencedEvent<'b, Intv>> {
    match selected {
        Some(current) if !no_later(current, candidate) => selected,
        _ => Some(candidate),
    }
}

/// The lesser of a selection and a candidate, where an empty selection is
/// less than any candidate and the selection wins a tie.
pub open spec fn lesser<'b, Intv: Interval>(
    selected: Option<&'b ExperiencedEvent<'b, Intv>>,
    candidate: &'b ExperiencedEvent<'b, Intv>,
) -> Option<&'b ExperiencedEvent<'b, Intv>> {
    match selected {
        Some(current) if !no_later(current, candidate) => Some(candidate),
        _ => selected,
    }
}

/// SelectCloserExperiences implements the filter that selects from a collection
/// of [ExperiencedEvent]s those happening next to the given [Event].
///
/// The earlier side takes the events that end before the given one starts
/// and keeps the latest of them. The later side takes the events that start
/// after the given one ends, and keeps the lesser of what it holds and what
/// it is offered, where holding nothing counts as less than any event.
pub struct SelectCloserExperiences<'a, 'b, Intv> {
    pub event: &'a Event<Intv>,
    pub before: Option<&'b ExperiencedEvent<'b, Intv>>,
    pub after: Option<&'b ExperiencedEvent<'b, Intv>>,
}

impl<'a, 'b, Intv> SelectCloserExperiences<'a, 'b, Intv> {
    /// Creates the empty selection around the event of the builder.
    pub fn from_builder(builder: &'a ExperienceBuilder<'a, Intv>) -> (selection: Self)
        ensures
            selection.event == builder.event,
            selection.before.is_none(),
            selection.after.is_none(),
    {
        SelectCloserExperiences { event: builder.event, before: None, after: None }
    }

    /// Returns the tuple containing the selected before and after.
    pub fn result(self) -> (selected: (
        Option<&'b ExperiencedEvent<'b, Intv>>,
        Option<&'b ExperiencedEvent<'b, Intv>>,
    ))
        ensures
            selected == (self.before, self.after),
    {
        (self.before, self.after)
    }
}

impl<'a, 'b, Intv: Interval> SelectCloserExperiences<'a, 'b, Intv> {
    /// Offering candidates in two goes ends with the same selection as
    /// offering all of them at once.
    pub proof fn lemma_offered_in_two_goes(
        self,
        first: Seq<ExperiencedEvent<'b, Intv>>,
        second: Seq<ExperiencedEvent<'b, Intv>>,
    )
        ensures
            self.offered_all(first + second) == self.offered_all(first).offered_all(second),
        decreases second.len(),
    {
        if second.len() == 0 {
            assert(first + second =~= first);
        } else {
            assert((first + second).drop_last() =~= first + second.drop_last());
            self.lemma_offered_in_two_goes(first, second.drop_last());
        }
    }

    /// Whether the candidate ends before the event of the selection starts.
    pub open spec fn is_ahead(self, candidate: &ExperiencedEvent<'b, Intv>) -> bool {
        candidate.event.spec_hi() < self.event.spec_lo()
    }

    /// Whether the candidate starts after the event of the selection ends,
    /// and does not end before it starts.
    pub open spec fn is_behind(self, candidate: &ExperiencedEvent<'b, Intv>) -> bool {
        !self.is_ahead(candidate) && candidate.event.spec_lo() > self.event.spec_hi()
    }

    /// The selection once the candidate has been offered to it.
    ///
    /// A candidate that ends before the event starts goes to the earlier
    /// side, which keeps the greater of the two. One that starts after the
    /// event ends goes to the later side, which keeps the lesser of the two.
    /// Any other candidate changes nothing.
    pub open spec fn offered(self, candidate: &'b ExperiencedEvent<'b, Intv>) -> Self {
        if self.is_ahead(candidate) {
            SelectCloserExperiences {
                event: self.event,
                before: greater(self.before, candidate),
                after: self.after,
            }
        } else if self.is_behind(candidate) {
            SelectCloserExperiences {
                event: self.event,
                before: self.before,
                after: lesser(self.after, candidate),
            }
        } else {
            self
        }
    }

    /// The selection once the candidates have been offered to it, first to last.
    pub open spec fn offered_all(self, candidates: Seq<ExperiencedEvent<'b, Intv>>) -> Self
        decreases candidates.len(),
    {
        if candidates.len() == 0 {
            self
        } else {
            self.offered_all(candidates.drop_last()).offered(&candidates.last())
        }
    }

    /// The earlier side of a selection that started empty holds the latest
    /// of the candidates that end before the event starts: it is one of
    /// them, and none of them comes later. It is empty if, and only if,
    /// there is no such candidate.
    pub proof fn lemma_earlier_side_is_latest(self, candidates: Seq<ExperiencedEvent<'b, Intv>>)
        requires
            self.before.is_none(),
        ensures
            self.offered_all(candidates).event == self.event,
            match self.offered_all(candidates).before {
                Some(chosen) => {
                    &&& exists|i: int| 0 <= i < candidates.len() && candidates[i] == *chosen
                    &&& self.is_ahead(chosen)
                    &&& forall|i: int|
                        0 <= i < candidates.len() && self.is_ahead(&#[trigger] candidates[i]) ==> no_later(
                            &candidates[i],
                            chosen,
                        )
                },
                None => forall|i: int| 0 <= i < candidates.len() ==> !self.is_ahead(&#[trigger] candidates[i]),
            },
        decreases candidates.len(),
    {
        if candidates.len() > 0 {
            let rest = candidates.drop_last();
            let last = candidates.last();
            self.lemma_earlier_side_is_latest(rest);
            let so_far = self.offered_all(rest);
            assert(forall|i: int| 0 <= i < rest.len() ==> rest[i] == candidates[i]);
            match so_far.offered(&last).before {
                Some(chosen) => {
                    if self.is_ahead(&last) && *chosen == last {
                        assert(candidates[candidates.len() - 1] == *chosen);
                    } else {
                        let i = choose|i: int| 0 <= i < rest.len() && rest[i] == *chosen;
                        assert(candidates[i] == *chosen);
                    }
                },
                None => {},
            }
        }
    }

    /// The later side of a selection that started empty stays empty, since
    /// an empty side is less than any candidate. One that started with an
    /// event holds the earliest among that event and the candidates that
    /// go to the later side.
    pub proof fn lemma_later_side_is_earliest(self, candidates: Seq<ExperiencedEvent<'b, Intv>>)
        ensures
            self.offered_all(candidates).event == self.event,
            match (self.after, self.offered_all(candidates).after) {
                (None, after) => after.is_none(),
                (Some(held), Some(chosen)) => {
                    &&& chosen == held || exists|i: int|
                        0 <= i < candidates.len() && self.is_behind(&candidates[i]) && candidates[i] == *chosen
                    &&& no_later(chosen, held)
                    &&& forall|i: int|
                        0 <= i < candidates.len() && self.is_behind(&#[trigger] candidates[i]) ==> no_later(
                            chosen,
                            &candidates[i],
                        )
                },
                (Some(_), None) => false,
            },
        decreases candidates.len(),
    {
        if candidates.len() > 0 {
            let rest = candidates.drop_last();
            let last = candidates.last();
            self.lemma_later_side_is_earliest(rest);
            let so_far = self.offered_all(rest);
            assert(forall|i: int| 0 <= i < rest.len() ==> rest[i] == candidates[i]);
            match (self.after, so_far.offered(&last).after) {
                (Some(held), Some(chosen)) => {
                    if self.is_behind(&last) && *chosen == last {
                        assert(candidates[candidates.len() - 1] == *chosen);
                    } else if chosen != held {
                        let i = choose|i: int|
                            0 <= i < rest.len() && self.is_behind(&rest[i]) && rest[i] == *chosen;
                        assert(candidates[i] == *chosen);
                    }
                    assert forall|i: int|
                        0 <= i < candidates.len() && self.is_behind(&#[trigger] candidates[i]) implies no_later(
                        chosen,
                        &candidates[i],
                    ) by {
                        if i < rest.len() {
                            assert(self.is_behind(&rest[i]));
                        }
                    }
                },
                _ => {},
            }
        }
    }

    /// Returns true if, and only if, the event of `left` comes no later than that of `right`.
    fn is_no_later(left: &ExperiencedEvent<'b, Intv>, right: &ExperiencedEvent<'b, Intv>) -> (ordered: bool)
        ensures
            ordered == no_later(left, right),
    {
        let left_lo = left.event.lo();
        let right_lo = right.event.lo();
        left_lo < right_lo || (left_lo == right_lo && left.event.hi() <= right.event.hi())
    }

    /// Offers the given value to the side of the selection it belongs to,
    /// if any.
    pub fn with(self, experienced_event: &'b ExperiencedEvent<'b, Intv>) -> (selection: Self)
        ensures
            selection == self.offered(experienced_event),
    {
        let mut selection = self;
        if experienced_event.event.hi() < selection.event.lo() {
            selection.before = match selection.before {
                Some(current) if !Self::is_no_later(current, experienced_event) => Some(current),
                _ => Some(experienced_event),
            };
        } else if experienced_event.event.lo() > selection.event.hi() {
            selection.after = match selection.after {
                Some(current) if !Self::is_no_later(current, experienced_event) => Some(
                    experienced_event,
                ),
                other => other,
            };
        }
        selection
    }

    /// Offers each of the events to the selection, first to last.
    ///
    /// Calling to `with_iter` multiple times will end up with the same
    /// selection as offering all the events at once.
    pub fn with_iter(self, experienced_events: &'b [ExperiencedEvent<'b, Intv>]) -> (selection: Self)
        ensures
            selection == self.offered_all(experienced_events@),
    {
        let mut selection = self;
        let mut i: usize = 0;
        assert(experienced_events@.take(0) =~= Seq::empty());
        while i < experienced_events.len()
            invariant
                i <= experienced_events@.len(),
                selection == self.offered_all(experienced_events@.take(i as int)),
            decreases experienced_events@.len() - i,
        {
            assert(experienced_events@.take(i + 1).drop_last() =~= experienced_events@.take(i as int));
            selection = selection.with(&experienced_events[i]);
            i += 1;
        }
        assert(experienced_events@.take(i as int) =~= experienced_events@);
        selection
    }
}

} // verus!
