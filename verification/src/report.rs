//! What the library takes from an `eyre::Report`: its cause chain and its
//! captured backtrace.

use vstd::prelude::*;

verus! {

#[verifier::external_type_specification]
#[verifier::external_body]
pub struct ExReport(eyre::Report);

/// One error of a report's cause chain, as text.
pub struct Cause {
    /// The name of the error's type, as `sentry_core` reads it off the `Debug`
    /// text of the error.
    pub ty: Seq<char>,
    /// The `Display` text of the error.
    pub message: Seq<char>,
}

/// The errors that a report holds: its own error first, then the source of
/// that error, and so on down to the root cause. A report is taken to hold
/// finitely many errors, whose texts do not change while it lives.
pub uninterp spec fn cause_chain(report: eyre::Report) -> Seq<Cause>;

/// Whether a report holds a backtrace that `stable_eyre` captured when the
/// report was made.
pub uninterp spec fn has_backtrace(report: eyre::Report) -> bool;

/// Calls `sentry_core::event_from_error` on the report's error and hands back
/// the type and value of each exception of the event. That function follows
/// the sources from the report's own error, makes one exception of each
/// error, with the type name it reads off the `Debug` text and the `Display`
/// text as the value, and reverses the list, so that the root cause comes
/// first and the report's own error last. It sets no other field of an
/// exception.
#[verifier::external_body]
pub(crate) fn chain_exceptions(report: &eyre::Report) -> (found: Vec<(String, Option<String>)>)
    ensures
        found@.len() == cause_chain(*report).len(),
        found@.len() > 0,
        forall|i: int|
            0 <= i < found@.len() ==> {
                let cause = cause_chain(*report)[found@.len() - 1 - i];
                &&& (#[trigger] found@[i]).0@ == cause.ty
                &&& found@[i].1.deep_view() == Some(cause.message)
            },
{
    let error: &dyn std::error::Error = report.as_ref();
    let event = sentry_core::event_from_error(error);
    event.exception.into_iter().map(|exception| (exception.ty, exception.value)).collect()
}

/// Calls `stable_eyre::BacktraceExt::backtrace` and renders the backtrace
/// with `{:#?}`. There is a backtrace exactly where the handler of
/// `stable_eyre` captured one when the report was made. Its text depends on
/// the working directory of the process, so nothing is said of it.
#[verifier::external_body]
pub(crate) fn backtrace_text(report: &eyre::Report) -> (text: Option<String>)
    ensures
        text is Some <==> has_backtrace(*report),
{
    stable_eyre::BacktraceExt::backtrace(report).map(|backtrace| format!("{backtrace:#?}"))
}

} // verus!
