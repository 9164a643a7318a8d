//! What holds of every event of a report.

use crate::builder::{built_event, is_event_of};
use crate::event::EventView;
use crate::parse::stacktrace_of_text;
use crate::report::{cause_chain, has_backtrace};
use vstd::prelude::*;

verus! {

/// An event of a report has exactly one record for each error of the
/// report's cause chain, in reverse order of the chain: each record has the
/// type and, as its value, the message of its error.
pub proof fn lemma_one_record_per_cause(
    report: eyre::Report,
    capture_backtrace: bool,
    event: EventView,
)
    requires
        is_event_of(report, capture_backtrace, event),
    ensures
        event.exceptions.len() == cause_chain(report).len(),
        forall|i: int|
            0 <= i < event.exceptions.len() ==> {
                let cause = cause_chain(report)[event.exceptions.len() - 1 - i];
                &&& (#[trigger] event.exceptions[i]).ty == cause.ty
                &&& event.exceptions[i].value == Some(cause.message)
            },
{
}

/// The event of a report with a single error has a single record, whose
/// value is the message of that error.
pub proof fn lemma_single_error_value(
    report: eyre::Report,
    capture_backtrace: bool,
    event: EventView,
)
    requires
        is_event_of(report, capture_backtrace, event),
        cause_chain(report).len() == 1,
    ensures
        event.exceptions.len() == 1,
        event.exceptions[0].value == Some(cause_chain(report)[0].message),
{
    lemma_one_record_per_cause(report, capture_backtrace, event);
}

/// Where the backtrace is not asked for, or the report holds none, no record
/// of the event has a stack trace.
pub proof fn lemma_no_backtrace_no_stacktrace(
    report: eyre::Report,
    capture_backtrace: bool,
    event: EventView,
)
    requires
        is_event_of(report, capture_backtrace, event),
        !capture_backtrace || !has_backtrace(report),
    ensures
        forall|i: int|
            0 <= i < event.exceptions.len() ==> (#[trigger] event.exceptions[i]).stacktrace is None,
{
}

/// No record of an event but the last has a stack trace. Where the backtrace
/// is asked for and the report holds one, the stack trace of the last record
/// is what a rendering of that backtrace parses to.
pub proof fn lemma_stacktrace_on_last_record(
    report: eyre::Report,
    capture_backtrace: bool,
    event: EventView,
)
    requires
        is_event_of(report, capture_backtrace, event),
        event.exceptions.len() > 0,
    ensures
        forall|i: int|
            0 <= i < event.exceptions.len() - 1 ==> (
            #[trigger] event.exceptions[i]).stacktrace is None,
        capture_backtrace && has_backtrace(report) ==> exists|text: Seq<char>|
            event.exceptions.last().stacktrace == #[trigger] stacktrace_of_text(text),
{
    if capture_backtrace && has_backtrace(report) {
        let text = choose|text: Seq<char>| event == built_event(cause_chain(report), Some(text));
        assert(event.exceptions.last().stacktrace == stacktrace_of_text(text));
    }
}

/// Any two events of one report, whether `event_from_report` built them or a
/// capture handed them to its context, have the same records but for the
/// stack trace of the last one, which may differ with the rendering of the
/// backtrace. The two events are equal where that stack trace is the same in
/// both, and so where the backtrace is not asked for or the report holds
/// none.
pub proof fn lemma_events_of_report_agree(
    report: eyre::Report,
    capture_backtrace: bool,
    first: EventView,
    second: EventView,
)
    requires
        is_event_of(report, capture_backtrace, first),
        is_event_of(report, capture_backtrace, second),
    ensures
        first.exceptions.len() == second.exceptions.len(),
        forall|i: int|
            0 <= i < first.exceptions.len() ==> {
                &&& (#[trigger] first.exceptions[i]).ty == second.exceptions[i].ty
                &&& first.exceptions[i].value == second.exceptions[i].value
            },
        forall|i: int|
            0 <= i < first.exceptions.len() - 1 ==> #[trigger] first.exceptions[i]
                == second.exceptions[i],
        first.exceptions.len() == 0 || first.exceptions.last().stacktrace
            == second.exceptions.last().stacktrace ==> first == second,
        !capture_backtrace || !has_backtrace(report) ==> first == second,
{
    lemma_one_record_per_cause(report, capture_backtrace, first);
    lemma_one_record_per_cause(report, capture_backtrace, second);
    if first.exceptions.len() == 0 || first.exceptions.last().stacktrace
        == second.exceptions.last().stacktrace {
        assert(first.exceptions =~= second.exceptions);
    }
}

} // verus!
