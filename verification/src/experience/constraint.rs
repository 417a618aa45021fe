//! Conditions that the experiences of an entity must satisfy.

use crate::error::PoisonError;
use crate::experience::ExperiencedEvent;
use vstd::prelude::*;

verus! {

#[derive(Debug, PartialEq)]
pub enum Error {
    /// An experience cannot belong to an entity not listed in the previous experience.
    NotInPreviousExperience,
    /// An entity cannot experience simultaneous events.
    SimultaneousEvents,
    /// A terminal experience cannot follows a terminal one.
    TerminalFollowsTerminal,
    /// A terminal experience cannot precede a terminal one.
    TerminalPrecedesTerminal,
    /// Several errors, in the order they were raised.
    Stack(Vec<Error>),
    /// Any other objection, in its own words.
    Custom(&'static str),
}

/// What an [`Error`] says, whatever memory holds it.
pub enum ErrorView {
    NotInPreviousExperience,
    SimultaneousEvents,
    TerminalFollowsTerminal,
    TerminalPrecedesTerminal,
    Stack(Seq<ErrorView>),
    Custom(Seq<char>),
}

impl ErrorView {
    /// The errors that this one stands for: those of a stack, and else the error itself.
    pub open spec fn errors(self) -> Seq<ErrorView> {
        match self {
            ErrorView::Stack(errors) => errors,
            _ => seq![self],
        }
    }

    /// The stack of the errors of `self` followed by those of `tail`.
    pub open spec fn push(self, tail: ErrorView) -> ErrorView {
        ErrorView::Stack(self.errors() + tail.errors())
    }
}

impl View for Error {
    type V = ErrorView;

    open spec fn view(&self) -> ErrorView
        decreases self,
    {
        match self {
            Error::NotInPreviousExperience => ErrorView::NotInPreviousExperience,
            Error::SimultaneousEvents => ErrorView::SimultaneousEvents,
            Error::TerminalFollowsTerminal => ErrorView::TerminalFollowsTerminal,
            Error::TerminalPrecedesTerminal => ErrorView::TerminalPrecedesTerminal,
            Error::Stack(errors) => ErrorView::Stack(
                Seq::new(
                    errors@.len(),
                    |i: int|
                        if 0 <= i < errors@.len() {
                            errors@[i].view()
                        } else {
                            ErrorView::Stack(Seq::empty())
                        },
                ),
            ),
            Error::Custom(message) => ErrorView::Custom(message@),
        }
    }
}

impl<T> From<PoisonError<T, Error>> for Error {
    /// Takes the error out and lets the value go.
    fn from(value: PoisonError<T, Error>) -> (error: Error) {
        value.error
    }
}

impl<T> vstd::std_specs::convert::FromSpecImpl<PoisonError<T, Error>> for Error {
    open spec fn obeys_from_spec() -> bool {
        true
    }

    open spec fn from_spec(value: PoisonError<T, Error>) -> Error {
        value.error
    }
}

/// What each of the errors says, in their order.
spec fn stacked(errors: Seq<Error>) -> Seq<ErrorView> {
    Seq::new(errors.len(), |i: int| errors[i]@)
}

impl Error {
    /// Puts two errors into one stack: the errors of `self`, then those of `tail`.
    pub fn push(self, tail: Self) -> (stack: Self)
        ensures
            stack@ == self@.push(tail@),
    {
        let mut errors = match self {
            Error::Stack(head_errors) => head_errors,
            head_error => {
                let mut tmp = Vec::new();
                tmp.push(head_error);
                tmp
            },
        };
        let ghost head = errors;
        assert(stacked(head@) =~= self@.errors());
        match tail {
            Error::Stack(tail_errors) => {
                let mut tail_errors = tail_errors;
                assert(stacked(tail_errors@) =~= tail@.errors());
                errors.append(&mut tail_errors);
            },
            tail_error => {
                assert(stacked(seq![tail_error]) =~= tail@.errors());
                errors.push(tail_error);
                assert(errors@ =~= head@ + seq![tail_error]);
            },
        }
        assert(stacked(errors@) =~= self@.errors() + tail@.errors());
        assert(Error::Stack(errors)@.errors() =~= stacked(errors@));
        Error::Stack(errors)
    }
}

/// A Constraint is a condition that must be satified.
pub trait Constraint<'a, Intv>: Sized {
    /// The error that the event raises, where the event already violates the constraint.
    spec fn violation(self, experienced_event: &'a ExperiencedEvent<'a, Intv>) -> Option<ErrorView>;

    /// The constraint once it has taken the event into account.
    spec fn including(self, experienced_event: &'a ExperiencedEvent<'a, Intv>) -> Self;

    /// The error that the constraint ends with, if any.
    spec fn verdict(self) -> Option<ErrorView>;

    /// Determines the constraint must take into account the given
    /// [ExperiencedEvent].
    ///
    /// Short-Circuiting: this method may return an error if, and only if, the
    /// given [ExperiencedEvent] already violates the constraint.
    fn with(self, experienced_event: &'a ExperiencedEvent<'a, Intv>) -> (outcome: Result<
        Self,
        PoisonError<Self, Error>,
    >)
        ensures
            match outcome {
                Ok(constraint) => self.violation(experienced_event).is_none() && constraint
                    == self.including(experienced_event),
                Err(poison) => self.violation(experienced_event) == Some(poison.error@)
                    && poison.inner == self.including(experienced_event),
            },
    ;

    /// Returns the same error as `with`, if any. Otherwise returns the final
    /// veredict of the constraint.
    fn result(self) -> (verdict: Result<(), Error>)
        ensures
            match verdict {
                Ok(_) => self.verdict().is_none(),
                Err(error) => self.verdict() == Some(error@),
            },
    ;
}

/// A ConstraintChain is a succession of [Constraint]s that must be satified as
/// a whole.
pub trait ConstraintChain<'a, Intv>: Constraint<'a, Intv> {
    /// Whether an error of the constraint chained last ends the evaluation.
    spec fn short_circuits(self) -> bool;

    /// Chains the given [Constraint] with self: the chain becomes the head
    /// of the link, and the constraint is asked before it.
    fn chain<Cnst>(self, constraint: Cnst) -> (link: LiFoConstraintChain<Self, Cnst>) where
        Cnst: Constraint<'a, Intv>,

        ensures
            link.head == Some(self),
            link.constraint == constraint,
            link.early == self.short_circuits(),
    ;
}

/// The error of a chain whose head and tail raised the given errors: the
/// only one there is, or the stack of the head's followed by the tail's.
pub open spec fn join(head: Option<ErrorView>, tail: Option<ErrorView>) -> Option<ErrorView> {
    match (head, tail) {
        (Some(head_error), Some(tail_error)) => Some(head_error.push(tail_error)),
        (Some(head_error), None) => Some(head_error),
        (None, tail_error) => tail_error,
    }
}

/// LiFoConstraintChain implements a _last-in first-out_ chain of
/// [Constraint]s that allows different implementations of [Constraint] to be
/// chained into a single one.
///
/// The constraint chained last is asked first. With short-circuiting on, an
/// error of it is the error of the chain, and the head is not asked at all.
pub struct LiFoConstraintChain<Head, Cnst> {
    pub head: Option<Head>,
    pub constraint: Cnst,
    pub early: bool,
}

impl<'a, Intv, Head, Cnst> ConstraintChain<'a, Intv> for LiFoConstraintChain<Head, Cnst> where
    Head: Constraint<'a, Intv>,
    Cnst: Constraint<'a, Intv>,
 {
    open spec fn short_circuits(self) -> bool {
        self.early
    }

    fn chain<Tail>(self, constraint: Tail) -> (link: LiFoConstraintChain<Self, Tail>) where
        Tail: Constraint<'a, Intv>,
     {
        LiFoConstraintChain { early: self.early, head: Some(self), constraint }
    }
}

impl<Head, Cnst> LiFoConstraintChain<Head, Cnst> {
    /// Enable/disable short-circuiting.
    pub fn with_early(self, enable: bool) -> (chain: Self)
        ensures
            chain.head == self.head,
            chain.constraint == self.constraint,
            chain.early == enable,
    {
        let mut chain = self;
        chain.early = enable;
        chain
    }
}

impl Default for LiFoConstraintChain<InfalibleContraint, InfalibleContraint> {
    /// The chain of the constraint that never fails, with short-circuiting on.
    fn default() -> (chain: Self)
        ensures
            chain.head.is_none(),
            chain.early,
    {
        LiFoConstraintChain { head: None, constraint: InfalibleContraint, early: true }
    }
}

impl<Cnst> LiFoConstraintChain<InfalibleContraint, Cnst> {
    /// Creates the chain of the given constraint alone, with short-circuiting on.
    pub fn new(constraint: Cnst) -> (chain: Self)
        ensures
            chain.head.is_none(),
            chain.constraint == constraint,
            chain.early,
    {
        LiFoConstraintChain { head: None, constraint, early: true }
    }
}

impl<Head, Cnst> LiFoConstraintChain<Head, Cnst> {
    /// The error that the event raises in the head, if there is a head and the event violates it.
    pub open spec fn head_violation<'a, Intv>(
        self,
        experienced_event: &'a ExperiencedEvent<'a, Intv>,
    ) -> Option<ErrorView> where Head: Constraint<'a, Intv> {
        match self.head {
            Some(head) => head.violation(experienced_event),
            None => None,
        }
    }

    /// The head, if any, once it has taken the event into account.
    pub open spec fn head_including<'a, Intv>(
        self,
        experienced_event: &'a ExperiencedEvent<'a, Intv>,
    ) -> Option<Head> where Head: Constraint<'a, Intv> {
        match self.head {
            Some(head) => Some(head.including(experienced_event)),
            None => None,
        }
    }

    /// Hands the event to the head, if any, and joins its error with the tail's.
    fn evaluate_head<'a, Intv>(
        self,
        experienced_event: &'a ExperiencedEvent<'a, Intv>,
        tail_error: Option<Error>,
    ) -> (outcome: Result<Self, PoisonError<Self, Error>>) where Head: Constraint<'a, Intv>
        ensures
            ({
                let tail_view = match tail_error {
                    Some(error) => Some(error@),
                    None => None,
                };
                let error = join(self.head_violation(experienced_event), tail_view);
                let chain = LiFoConstraintChain {
                    head: self.head_including(experienced_event),
                    constraint: self.constraint,
                    early: self.early,
                };
                match outcome {
                    Ok(constraint) => error.is_none() && constraint == chain,
                    Err(poison) => error == Some(poison.error@) && poison.inner == chain,
                }
            }),
    {
        let mut chain = self;
        let head_outcome = match chain.head {
            Some(head) => match head.with(experienced_event) {
                Ok(head) => Ok(Some(head)),
                Err(poison) => Err(poison),
            },
            None => Ok(None),
        };
        match head_outcome {
            Ok(head) => {
                chain.head = head;
                match tail_error {
                    Some(error) => Err(PoisonError::new(chain, error)),
                    None => Ok(chain),
                }
            },
            Err(poison_err) => {
                chain.head = Some(poison_err.inner);
                let error = match tail_error {
                    Some(tail_error) => poison_err.error.push(tail_error),
                    None => poison_err.error,
                };
                Err(PoisonError::new(chain, error))
            },
        }
    }
}

impl<'a, Intv, Head, Cnst> Constraint<'a, Intv> for LiFoConstraintChain<Head, Cnst> where
    Head: Constraint<'a, Intv>,
    Cnst: Constraint<'a, Intv>,
 {
    open spec fn violation(self, experienced_event: &'a ExperiencedEvent<'a, Intv>) -> Option<ErrorView> {
        let tail_error = self.constraint.violation(experienced_event);
        if self.early && tail_error.is_some() {
            tail_error
        } else {
            join(self.head_violation(experienced_event), tail_error)
        }
    }

    open spec fn including(self, experienced_event: &'a ExperiencedEvent<'a, Intv>) -> Self {
        LiFoConstraintChain {
            head: if self.early && self.constraint.violation(experienced_event).is_some() {
                self.head
            } else {
                self.head_including(experienced_event)
            },
            constraint: self.constraint.including(experienced_event),
            early: self.early,
        }
    }

    open spec fn verdict(self) -> Option<ErrorView> {
        let tail_error = self.constraint.verdict();
        if self.early && tail_error.is_some() {
            tail_error
        } else {
            join(
                match self.head {
                    Some(head) => head.verdict(),
                    None => None,
                },
                tail_error,
            )
        }
    }

    fn with(self, experienced_event: &'a ExperiencedEvent<'a, Intv>) -> (outcome: Result<
        Self,
        PoisonError<Self, Error>,
    >) {
        let mut chain = self;
        match chain.constraint.with(experienced_event) {
            Ok(constraint) => {
                chain.constraint = constraint;
                chain.evaluate_head(experienced_event, None)
            },
            Err(poison_err) => {
                chain.constraint = poison_err.inner;
                let error = poison_err.error;
                if chain.early {
                    return Err(PoisonError::new(chain, error));
                }
                chain.evaluate_head(experienced_event, Some(error))
            },
        }
    }

    fn result(self) -> (verdict: Result<(), Error>) {
        let tail_result = self.constraint.result();
        if self.early && tail_result.is_err() {
            return tail_result;
        }
        let head_result = match self.head {
            Some(head) => head.result(),
            None => Ok(()),
        };
        match (head_result, tail_result) {
            (Err(head_err), Err(tail_err)) => Err(head_err.push(tail_err)),
            (Err(head_err), Ok(_)) => Err(head_err),
            (Ok(_), tail_result) => tail_result,
        }
    }
}

/// A [Constraint] that never fails.
pub struct InfalibleContraint;

impl<'a, Intv> Constraint<'a, Intv> for InfalibleContraint {
    open spec fn violation(self, experienced_event: &'a ExperiencedEvent<'a, Intv>) -> Option<ErrorView> {
        None
    }

    open spec fn including(self, experienced_event: &'a ExperiencedEvent<'a, Intv>) -> Self {
        self
    }

    open spec fn verdict(self) -> Option<ErrorView> {
        None
    }

    fn with(self, _experienced_event: &'a ExperiencedEvent<'a, Intv>) -> (outcome: Result<
        Self,
        PoisonError<Self, Error>,
    >) {
        Ok(self)
    }

    fn result(self) -> (verdict: Result<(), Error>) {
        Ok(())
    }
}

/// An ErrorInhibitor forces an [InhibitableConstraint] to ignore any possible
/// [Error] given by the inner [Constraint].
pub trait ErrorInhibitor {
    /// Whether the inhibitor silences the given error.
    spec fn spec_inhibits(&self, error: ErrorView) -> bool;

    /// Returns true if, and only if, the given error is to be ignored.
    fn inhibits(&self, error: &Error) -> (inhibited: bool)
        ensures
            inhibited == self.spec_inhibits(error@),
    ;
}

/// The error that is left of `error` under the inhibitor: none where the
/// inhibitor silences it.
pub open spec fn inhibit<Inh: ErrorInhibitor>(inhibitor: Inh, error: Option<ErrorView>) -> Option<ErrorView> {
    match error {
        Some(raised) if inhibitor.spec_inhibits(raised) => None,
        _ => error,
    }
}

/// InhibitableConstraint decorates a [Constraint] to inhibit some of its errors.
pub struct InhibitableConstraint<Cnst, Inh> {
    pub constraint: Cnst,
    pub inhibitor: Inh,
}

impl<'a, Intv, Cnst, Inh> Constraint<'a, Intv> for InhibitableConstraint<Cnst, Inh> where
    Cnst: Constraint<'a, Intv>,
    Inh: ErrorInhibitor,
 {
    open spec fn violation(self, experienced_event: &'a ExperiencedEvent<'a, Intv>) -> Option<ErrorView> {
        inhibit(self.inhibitor, self.constraint.violation(experienced_event))
    }

    open spec fn including(self, experienced_event: &'a ExperiencedEvent<'a, Intv>) -> Self {
        InhibitableConstraint {
            constraint: self.constraint.including(experienced_event),
            inhibitor: self.inhibitor,
        }
    }

    open spec fn verdict(self) -> Option<ErrorView> {
        inhibit(self.inhibitor, self.constraint.verdict())
    }

    fn with(self, experienced_event: &'a ExperiencedEvent<'a, Intv>) -> (outcome: Result<
        Self,
        PoisonError<Self, Error>,
    >) {
        let mut decorated = self;
        match decorated.constraint.with(experienced_event) {
            Ok(constraint) => {
                decorated.constraint = constraint;
                Ok(decorated)
            },
            Err(poison_err) => {
                decorated.constraint = poison_err.inner;
                if decorated.inhibitor.inhibits(&poison_err.error) {
                    return Ok(decorated);
                }
                Err(PoisonError::new(decorated, poison_err.error))
            },
        }
    }

    fn result(self) -> (verdict: Result<(), Error>) {
        match self.constraint.result() {
            Err(err) => {
                if self.inhibitor.inhibits(&err) {
                    Ok(())
                } else {
                    Err(err)
                }
            },
            other => other,
        }
    }
}

impl<Cnst, Inh> InhibitableConstraint<Cnst, Inh> {
    /// Decorates the constraint with the inhibitor.
    pub fn new(constraint: Cnst, inhibitor: Inh) -> (decorated: Self)
        ensures
            decorated.constraint == constraint,
            decorated.inhibitor == inhibitor,
    {
        InhibitableConstraint { constraint, inhibitor }
    }
}

} // verus!
