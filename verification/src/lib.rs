//! Sentry events for `eyre::Report`s.
//!
//! [`event_from_report`] turns a report into a structured error event: one
//! exception record for each error of the report's cause chain, and the
//! backtrace that `stable_eyre` captured, parsed into frames, on the last
//! record. [`capture_report`] hands that event to the active reporting
//! context and returns the identifier that the context answers.
//!
//! The events and their parts are plain values ([`event`]). What comes from an
//! outside crate stands behind a few functions whose contracts are taken on
//! trust: the walk along the cause chain and the rendering of the backtrace
//! ([`report`]), and the parsing of a rendered backtrace ([`parse`]). The rest
//! is proved, and [`laws`] states what holds of every event of a report.

pub mod builder;
pub mod dispatch;
pub mod event;
pub mod laws;
pub mod parse;
mod private;
pub mod report;

pub use builder::event_from_report;
pub use dispatch::{capture_report, ActiveContext, CaptureReportExt, EventId};
pub use event::{Event, ExceptionRecord, StackFrame, StackTrace};
