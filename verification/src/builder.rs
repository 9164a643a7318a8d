//! Building the event of a report.

use crate::event::{Event, EventView, ExceptionRecord, ExceptionView, StackTrace, StackTraceView};
use crate::parse::{parse_backtrace, stacktrace_of_text};
use crate::report::{backtrace_text, cause_chain, chain_exceptions, has_backtrace, Cause};
use vstd::prelude::*;
use vstd::std_specs::iter::IteratorSpec;

verus! {

/// The record of one error: its type and value, and no stack trace.
pub open spec fn bare_record(ty: Seq<char>, value: Option<Seq<char>>) -> ExceptionView {
    ExceptionView { ty, value, stacktrace: None }
}

/// The records of a cause chain: one for each error, the root cause first and
/// the report's own error last, none with a stack trace.
pub open spec fn chain_records(chain: Seq<Cause>) -> Seq<ExceptionView> {
    Seq::new(
        chain.len(),
        |i: int| bare_record(chain[chain.len() - 1 - i].ty, Some(chain[chain.len() - 1 - i].message)),
    )
}

/// The records with `stacktrace` as the stack trace of the last one. An empty
/// list stays empty.
pub open spec fn with_stacktrace(
    records: Seq<ExceptionView>,
    stacktrace: Option<StackTraceView>,
) -> Seq<ExceptionView> {
    if records.len() == 0 {
        records
    } else {
        records.update(
            records.len() - 1,
            ExceptionView { ty: records.last().ty, value: records.last().value, stacktrace },
        )
    }
}

/// The event of the given records and rendered backtrace: where there is a
/// backtrace, the last record carries what the backtrace parses to.
pub open spec fn assembled(records: Seq<ExceptionView>, backtrace: Option<Seq<char>>) -> EventView {
    EventView {
        exceptions: match backtrace {
            Some(text) => with_stacktrace(records, stacktrace_of_text(text)),
            None => records,
        },
    }
}

/// The event of a cause chain and a rendered backtrace.
pub open spec fn built_event(chain: Seq<Cause>, backtrace: Option<Seq<char>>) -> EventView {
    assembled(chain_records(chain), backtrace)
}

/// Whether `event` is an event of the report: the event of its cause chain
/// and of some rendering of its backtrace where the backtrace is asked for
/// and there is one, and of its cause chain alone where not.
pub open spec fn is_event_of(report: eyre::Report, capture_backtrace: bool, event: EventView) -> bool {
    if capture_backtrace && has_backtrace(report) {
        exists|text: Seq<char>| event == built_event(cause_chain(report), Some(text))
    } else {
        event == built_event(cause_chain(report), None)
    }
}

/// Sets the stack trace of the last record, whatever it held before.
pub fn attach_stacktrace(exceptions: &mut Vec<ExceptionRecord>, stacktrace: Option<StackTrace>)
    ensures
        final(exceptions).deep_view() == with_stacktrace(
            old(exceptions).deep_view(),
            stacktrace.deep_view(),
        ),
{
    let n = exceptions.len();
    if n > 0 {
        exceptions[n - 1].stacktrace = stacktrace;
    }
}

/// Makes a record without a stack trace of each pair of a type and a value.
pub fn exception_records(found: Vec<(String, Option<String>)>) -> (records: Vec<ExceptionRecord>)
    ensures
        records.deep_view() == Seq::new(
            found@.len(),
            |i: int| bare_record(found@[i].0@, found@[i].1.deep_view()),
        ),
{
    let ghost pairs = found@;
    let mut records: Vec<ExceptionRecord> = Vec::new();
    for pair in it: found.into_iter()
        invariant
            it.seq() == pairs,
            records@.len() == it.index(),
            forall|i: int|
                0 <= i < records@.len() ==> (#[trigger] records@[i]).deep_view() == bare_record(
                    pairs[i].0@,
                    pairs[i].1.deep_view(),
                ),
    {
        records.push(ExceptionRecord { ty: pair.0, value: pair.1, stacktrace: None });
    }
    records
}

/// Builds the event of the given records and rendered backtrace. Where there
/// is a backtrace, the last record gets the stack trace that it parses to,
/// in place of the one it had.
pub fn event_from_parts(exceptions: Vec<ExceptionRecord>, backtrace: Option<String>) -> (event: Event)
    ensures
        event@ == assembled(exceptions.deep_view(), backtrace.deep_view()),
        backtrace is None ==> event.exceptions == exceptions,
        backtrace is Some && event@.exceptions.len() > 0 ==> (
        event@.exceptions.last().stacktrace matches Some(trace) ==> trace.frames.len() > 0),
{
    let mut exceptions = exceptions;
    if let Some(text) = backtrace {
        let stacktrace = parse_backtrace(text.as_str());
        assert(stacktrace.deep_view() matches Some(trace) ==> trace.frames.len() > 0);
        attach_stacktrace(&mut exceptions, stacktrace);
    }
    Event { exceptions }
}

/// Builds the event of a report: one record for each error of its cause
/// chain, the root cause first, and, where `capture_backtrace` is set and the
/// report holds a backtrace, the parsed backtrace on the last record.
pub fn event_from_report(report: &eyre::Report, capture_backtrace: bool) -> (event: Event)
    ensures
        is_event_of(*report, capture_backtrace, event@),
        event@.exceptions.len() == cause_chain(*report).len(),
        event@.exceptions.len() > 0,
        forall|i: int|
            0 <= i < event@.exceptions.len() ==> (
            #[trigger] event@.exceptions[i].stacktrace matches Some(trace) ==> {
                &&& capture_backtrace
                &&& has_backtrace(*report)
                &&& i == event@.exceptions.len() - 1
                &&& trace.frames.len() > 0
            }),
{
    let exceptions = exception_records(chain_exceptions(report));
    assert(exceptions.deep_view() =~= chain_records(cause_chain(*report)));
    let backtrace = if capture_backtrace {
        backtrace_text(report)
    } else {
        None
    };
    let ghost rendered = backtrace.deep_view();
    let event = event_from_parts(exceptions, backtrace);
    assert(event@ == built_event(cause_chain(*report), rendered));
    assert(rendered matches Some(text) ==> event@ == built_event(cause_chain(*report), Some(text)));
    event
}

} // verus!
