//! Handing the event of a report to the active reporting context.

use crate::builder::{event_from_report, is_event_of};
use crate::event::Event;
use crate::private::Sealed;
use vstd::prelude::*;

verus! {

/// Identifier of a captured event: 128 bits, all zero where nothing was
/// captured.
#[derive(Clone, Copy, Debug, PartialEq, Eq, Hash, Structural)]
pub struct EventId {
    pub bits: u128,
}

impl EventId {
    /// The identifier of no event.
    pub open spec fn spec_nil() -> EventId {
        EventId { bits: 0 }
    }

    /// The identifier of no event.
    #[verifier::when_used_as_spec(spec_nil)]
    pub fn nil() -> (id: EventId)
        ensures
            id == EventId::spec_nil(),
    {
        EventId { bits: 0 }
    }

    /// Whether this is the identifier of no event.
    pub fn is_nil(&self) -> (nil: bool)
        ensures
            nil == (*self == EventId::spec_nil()),
    {
        self.bits == 0
    }
}

/// A reporting context that can capture reports.
pub trait CaptureReportExt: Sealed {
    /// Whether the context wants the backtrace of a report in its event.
    spec fn captures_backtrace(&self) -> bool;

    /// Whether the context may answer `id` when it is handed `event`.
    spec fn may_answer(&self, event: Event, id: EventId) -> bool;

    /// Builds the event of the report, hands it to the context and returns
    /// the identifier that the context answers.
    fn capture_report(&self, report: &eyre::Report) -> (id: EventId)
        ensures
            exists|event: Event|
                is_event_of(*report, self.captures_backtrace(), event@) && self.may_answer(
                    event,
                    id,
                ),
    ;
}

/// A reporting context that is active: it takes each event with `submit`,
/// which returns the event's identifier. It is the one type that can capture
/// reports.
pub struct ActiveContext<F: Fn(Event) -> EventId> {
    submit: F,
    capture_backtrace: bool,
}

impl<F: Fn(Event) -> EventId> ActiveContext<F> {
    #[verifier::type_invariant]
    spec fn takes_every_event(self) -> bool {
        forall|event: Event| call_requires(self.submit, (event,))
    }

    /// The function that takes the events.
    pub closed spec fn submit(self) -> F {
        self.submit
    }

    /// Makes the context of a function that takes every event.
    pub fn new(submit: F, capture_backtrace: bool) -> (context: Self)
        requires
            forall|event: Event| call_requires(submit, (event,)),
        ensures
            context.submit() == submit,
            context.captures_backtrace() == capture_backtrace,
    {
        ActiveContext { submit, capture_backtrace }
    }
}

impl<F: Fn(Event) -> EventId> Sealed for ActiveContext<F> {

}

impl<F: Fn(Event) -> EventId> CaptureReportExt for ActiveContext<F> {
    closed spec fn captures_backtrace(&self) -> bool {
        self.capture_backtrace
    }

    open spec fn may_answer(&self, event: Event, id: EventId) -> bool {
        call_ensures(self.submit(), (event,), id)
    }

    fn capture_report(&self, report: &eyre::Report) -> (id: EventId)
        ensures
            exists|event: Event|
                is_event_of(*report, self.captures_backtrace(), event@) && call_ensures(
                    self.submit(),
                    (event,),
                    id,
                ),
    {
        proof {
            use_type_invariant(self);
        }
        let event = event_from_report(report, self.capture_backtrace);
        let ghost handed = event;
        let id = (self.submit)(event);
        assert(is_event_of(*report, self.captures_backtrace(), handed@) && self.may_answer(
            handed,
            id,
        ));
        id
    }
}

/// Captures a report with the active context, if there is one: builds the
/// event of the report, hands it to the context and returns the identifier
/// that the context answers. Without an active context the identifier is nil.
pub fn capture_report<F: Fn(Event) -> EventId>(
    active: Option<&ActiveContext<F>>,
    report: &eyre::Report,
) -> (id: EventId)
    ensures
        match active {
            Some(context) => exists|event: Event|
                is_event_of(*report, context.captures_backtrace(), event@) && call_ensures(
                    context.submit(),
                    (event,),
                    id,
                ),
            None => id == EventId::nil(),
        },
{
    match active {
        Some(context) => context.capture_report(report),
        None => EventId::nil(),
    }
}

} // verus!
