use plotline::error::PoisonError;
use plotline::event::Event;
use plotline::experience::constraint::{
    Constraint, ConstraintChain, Error, ErrorInhibitor, ErrorView, InfalibleContraint,
    InhibitableConstraint, LiFoConstraintChain,
};
use plotline::experience::{Experience, ExperiencedEvent};

fn event(id: u64) -> Event<u8> {
    Event { id, name: format!("event {id}"), interval: 0, entities: vec![] }
}

fn error_of(code: u8) -> Error {
    match code {
        0 => Error::NotInPreviousExperience,
        1 => Error::SimultaneousEvents,
        2 => Error::TerminalFollowsTerminal,
        _ => Error::TerminalPrecedesTerminal,
    }
}

/// Objects to one event, with the error of its code, and keeps count of
/// the events it was shown.
struct Objects {
    to: u64,
    code: u8,
    shown: usize,
    objected: bool,
}

fn objects(to: u64, code: u8) -> Objects {
    Objects { to, code, shown: 0, objected: false }
}

impl<'a> Constraint<'a, u8> for Objects {
    fn violation(self, _experienced_event: &'a ExperiencedEvent<'a, u8>) -> Option<ErrorView> {
        None
    }

    fn including(self, _experienced_event: &'a ExperiencedEvent<'a, u8>) -> Self {
        self
    }

    fn verdict(self) -> Option<ErrorView> {
        None
    }

    fn with(mut self, experienced_event: &'a ExperiencedEvent<'a, u8>) -> Result<Self, PoisonError<Self, Error>> {
        self.shown += 1;
        if experienced_event.event.id == self.to {
            self.objected = true;
            let error = error_of(self.code);
            return Err(PoisonError::new(self, error));
        }
        Ok(self)
    }

    fn result(self) -> Result<(), Error> {
        if self.objected {
            Err(error_of(self.code))
        } else {
            Ok(())
        }
    }
}

struct Silences(u8);

impl ErrorInhibitor for Silences {
    fn spec_inhibits(&self, _error: ErrorView) -> bool {
        false
    }

    fn inhibits(&self, error: &Error) -> bool {
        *error == error_of(self.0)
    }
}

#[test]
fn push_of_two_plain_errors_stacks_them() {
    assert_eq!(
        Error::SimultaneousEvents.push(Error::Custom("late")),
        Error::Stack(vec![Error::SimultaneousEvents, Error::Custom("late")])
    );
}

#[test]
fn push_onto_a_stack_appends() {
    let head = Error::Stack(vec![Error::NotInPreviousExperience, Error::SimultaneousEvents]);
    assert_eq!(
        head.push(Error::TerminalFollowsTerminal),
        Error::Stack(vec![
            Error::NotInPreviousExperience,
            Error::SimultaneousEvents,
            Error::TerminalFollowsTerminal
        ])
    );
}

#[test]
fn push_of_a_stack_onto_a_plain_error_puts_the_error_first() {
    let tail = Error::Stack(vec![Error::SimultaneousEvents, Error::TerminalPrecedesTerminal]);
    assert_eq!(
        Error::NotInPreviousExperience.push(tail),
        Error::Stack(vec![
            Error::NotInPreviousExperience,
            Error::SimultaneousEvents,
            Error::TerminalPrecedesTerminal
        ])
    );
}

#[test]
fn push_of_two_stacks_joins_them() {
    let head = Error::Stack(vec![Error::NotInPreviousExperience]);
    let tail = Error::Stack(vec![Error::Stack(vec![]), Error::SimultaneousEvents]);
    assert_eq!(
        head.push(tail),
        Error::Stack(vec![
            Error::NotInPreviousExperience,
            Error::Stack(vec![]),
            Error::SimultaneousEvents
        ])
    );
}

#[test]
fn push_of_empty_stacks_is_an_empty_stack() {
    assert_eq!(Error::Stack(vec![]).push(Error::Stack(vec![])), Error::Stack(vec![]));
}

#[test]
fn infallible_constraint_never_fails() {
    let subject = event(1);
    let experience = Experience { entity: 1, event: 1 };
    let experienced = ExperiencedEvent { experience: &experience, event: &subject };
    let constraint = InfalibleContraint.with(&experienced);
    assert!(constraint.is_ok());
    assert_eq!(Constraint::<u8>::result(constraint.ok().unwrap()), Ok(()));
}

#[test]
fn new_chain_short_circuits_and_has_no_head() {
    let chain = LiFoConstraintChain::new(objects(1, 0));
    assert!(chain.early);
    assert!(chain.head.is_none());
    let chain = chain.with_early(false);
    assert!(!chain.early);
    assert!(chain.head.is_none());
    assert_eq!(chain.constraint.to, 1);
}

#[test]
fn default_chain_accepts_everything() {
    let subject = event(1);
    let experience = Experience { entity: 1, event: 1 };
    let experienced = ExperiencedEvent { experience: &experience, event: &subject };
    let chain = LiFoConstraintChain::default();
    assert!(chain.early);
    let chain = chain.with(&experienced).ok().unwrap();
    assert_eq!(Constraint::<u8>::result(chain), Ok(()));
}

#[test]
fn chain_keeps_the_former_chain_as_head() {
    let chain = ConstraintChain::<u8>::chain(LiFoConstraintChain::new(objects(1, 0)).with_early(false), objects(2, 1));
    assert!(!chain.early);
    assert_eq!(chain.constraint.to, 2);
    assert_eq!(chain.head.unwrap().constraint.to, 1);
}

#[test]
fn chain_that_short_circuits_stops_at_the_last_constraint() {
    let subject = event(5);
    let experience = Experience { entity: 1, event: 5 };
    let experienced = ExperiencedEvent { experience: &experience, event: &subject };
    let chain = ConstraintChain::<u8>::chain(LiFoConstraintChain::new(objects(5, 0)), objects(5, 1));
    let poison = chain.with(&experienced).err().unwrap();
    assert_eq!(poison.error, Error::SimultaneousEvents);
    assert_eq!(poison.inner.constraint.shown, 1);
    assert_eq!(poison.inner.head.as_ref().unwrap().constraint.shown, 0);
    assert_eq!(poison.inner.result(), Err(Error::SimultaneousEvents));
}

#[test]
fn chain_that_goes_on_stacks_the_errors_head_first() {
    let subject = event(5);
    let experience = Experience { entity: 1, event: 5 };
    let experienced = ExperiencedEvent { experience: &experience, event: &subject };
    let chain = ConstraintChain::<u8>::chain(
        LiFoConstraintChain::new(objects(5, 0)).with_early(false),
        objects(5, 1),
    );
    let poison = chain.with(&experienced).err().unwrap();
    assert_eq!(
        poison.error,
        Error::Stack(vec![Error::NotInPreviousExperience, Error::SimultaneousEvents])
    );
    assert_eq!(poison.inner.constraint.shown, 1);
    assert_eq!(poison.inner.head.as_ref().unwrap().constraint.shown, 1);
    assert_eq!(
        poison.inner.result(),
        Err(Error::Stack(vec![Error::NotInPreviousExperience, Error::SimultaneousEvents]))
    );
}

#[test]
fn chain_reports_the_only_error_as_it_is() {
    let subject = event(5);
    let experience = Experience { entity: 1, event: 5 };
    let experienced = ExperiencedEvent { experience: &experience, event: &subject };
    let head_only = ConstraintChain::<u8>::chain(
        LiFoConstraintChain::new(objects(5, 2)).with_early(false),
        objects(6, 1),
    );
    let poison = head_only.with(&experienced).err().unwrap();
    assert_eq!(poison.error, Error::TerminalFollowsTerminal);
    assert_eq!(poison.inner.result(), Err(Error::TerminalFollowsTerminal));
    let tail_only = ConstraintChain::<u8>::chain(
        LiFoConstraintChain::new(objects(6, 2)).with_early(false),
        objects(5, 3),
    );
    let poison = tail_only.with(&experienced).err().unwrap();
    assert_eq!(poison.error, Error::TerminalPrecedesTerminal);
    assert_eq!(poison.inner.result(), Err(Error::TerminalPrecedesTerminal));
}

#[test]
fn chain_without_objection_passes_the_event_to_every_constraint() {
    let subject = event(5);
    let experience = Experience { entity: 1, event: 5 };
    let experienced = ExperiencedEvent { experience: &experience, event: &subject };
    let chain = ConstraintChain::<u8>::chain(LiFoConstraintChain::new(objects(1, 0)), objects(2, 1));
    let chain = chain.with(&experienced).ok().unwrap();
    let chain = chain.with(&experienced).ok().unwrap();
    assert_eq!(chain.constraint.shown, 2);
    assert_eq!(chain.head.as_ref().unwrap().constraint.shown, 2);
    assert_eq!(chain.result(), Ok(()));
}

#[test]
fn three_links_stack_in_the_order_they_were_chained() {
    let subject = event(5);
    let experience = Experience { entity: 1, event: 5 };
    let experienced = ExperiencedEvent { experience: &experience, event: &subject };
    let chain = LiFoConstraintChain::new(objects(5, 0)).with_early(false);
    let chain = ConstraintChain::<u8>::chain(chain, objects(5, 1));
    let chain = ConstraintChain::<u8>::chain(chain, objects(5, 2));
    let poison = chain.with(&experienced).err().unwrap();
    assert_eq!(
        poison.error,
        Error::Stack(vec![
            Error::NotInPreviousExperience,
            Error::SimultaneousEvents,
            Error::TerminalFollowsTerminal
        ])
    );
}

#[test]
fn inhibitor_silences_its_error_and_no_other() {
    let subject = event(5);
    let experience = Experience { entity: 1, event: 5 };
    let experienced = ExperiencedEvent { experience: &experience, event: &subject };
    let silenced = InhibitableConstraint::new(objects(5, 1), Silences(1));
    let silenced = silenced.with(&experienced).ok().unwrap();
    assert_eq!(silenced.constraint.shown, 1);
    assert_eq!(silenced.result(), Ok(()));
    let heard = InhibitableConstraint::new(objects(5, 2), Silences(1));
    let poison = heard.with(&experienced).err().unwrap();
    assert_eq!(poison.error, Error::TerminalFollowsTerminal);
    assert_eq!(poison.inner.constraint.shown, 1);
    assert_eq!(poison.inner.result(), Err(Error::TerminalFollowsTerminal));
}

#[test]
fn inhibited_constraint_without_objection_is_fine() {
    let subject = event(5);
    let experience = Experience { entity: 1, event: 5 };
    let experienced = ExperiencedEvent { experience: &experience, event: &subject };
    let constraint = InhibitableConstraint::new(objects(6, 2), Silences(1));
    let constraint = constraint.with(&experienced).ok().unwrap();
    assert_eq!(constraint.result(), Ok(()));
}

#[test]
fn poison_gives_its_error_away() {
    let poison = PoisonError::new(objects(1, 0), Error::SimultaneousEvents);
    assert_eq!(Error::from(poison), Error::SimultaneousEvents);
}
