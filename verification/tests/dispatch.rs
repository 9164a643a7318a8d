use sentry_core::protocol;
use sentry_core::Hub;
use sentry_eyre::{
    capture_report, event_from_report, ActiveContext, CaptureReportExt, Event, EventId,
    ExceptionRecord, StackFrame, StackTrace,
};
use std::cell::RefCell;

fn init_test_environment() {
    let _ = stable_eyre::HookBuilder::default().capture_backtrace_by_default(true).install();
}

fn sentry_event(event: Event) -> protocol::Event<'static> {
    let exceptions: Vec<protocol::Exception> = event
        .exceptions
        .into_iter()
        .map(|exception| protocol::Exception {
            ty: exception.ty,
            value: exception.value,
            stacktrace: exception.stacktrace.map(|trace| protocol::Stacktrace {
                frames: trace
                    .frames
                    .into_iter()
                    .map(|frame| protocol::Frame {
                        function: frame.function,
                        symbol: frame.symbol,
                        abs_path: frame.abs_path,
                        filename: frame.filename,
                        lineno: frame.lineno,
                        colno: frame.colno,
                        instruction_addr: frame.instruction_addr.map(protocol::Addr),
                        ..Default::default()
                    })
                    .collect(),
                ..Default::default()
            }),
            ..Default::default()
        })
        .collect();
    protocol::Event { exception: exceptions.into(), level: protocol::Level::Error, ..Default::default() }
}

fn records(exceptions: &[protocol::Exception]) -> Vec<ExceptionRecord> {
    exceptions
        .iter()
        .map(|exception| ExceptionRecord {
            ty: exception.ty.clone(),
            value: exception.value.clone(),
            stacktrace: exception.stacktrace.as_ref().map(|trace| StackTrace {
                frames: trace
                    .frames
                    .iter()
                    .map(|frame| StackFrame {
                        function: frame.function.clone(),
                        symbol: frame.symbol.clone(),
                        abs_path: frame.abs_path.clone(),
                        filename: frame.filename.clone(),
                        lineno: frame.lineno,
                        colno: frame.colno,
                        instruction_addr: frame.instruction_addr.map(|addr| addr.0),
                    })
                    .collect(),
            }),
        })
        .collect()
}

#[test]
fn test_capture_eyre_uses_event_from_report_helper() {
    init_test_environment();

    let err = &eyre::Report::msg("Oh jeez");

    let event = event_from_report(err, true);
    let events = sentry_core::test::with_captured_events(|| {
        let hub = Hub::with_active(|hub| Some(hub.clone()));
        let context = hub.map(|hub| {
            ActiveContext::new(
                move |event: Event| EventId { bits: hub.capture_event(sentry_event(event)).as_u128() },
                true,
            )
        });
        capture_report(context.as_ref(), err);
    });

    assert_eq!(event.exceptions, records(&events[0].exception));
}

#[test]
fn capture_returns_the_identifier_of_the_context() {
    init_test_environment();

    let report = eyre::Report::msg("Oh jeez");
    let mut id = EventId::nil();
    let events = sentry_core::test::with_captured_events(|| {
        let hub = Hub::with_active(|hub| Some(hub.clone()));
        let context = hub.map(|hub| {
            ActiveContext::new(
                move |event: Event| EventId { bits: hub.capture_event(sentry_event(event)).as_u128() },
                true,
            )
        });
        id = capture_report(context.as_ref(), &report);
    });

    assert_eq!(events.len(), 1);
    assert!(!id.is_nil());
    assert_eq!(id.bits, events[0].event_id.as_u128());
}

#[test]
fn capture_hands_the_built_event_to_the_context() {
    init_test_environment();

    let report = eyre::Report::msg("inner").wrap_err("outer");
    let taken: RefCell<Vec<Event>> = RefCell::new(Vec::new());
    let context = ActiveContext::new(
        |event: Event| {
            taken.borrow_mut().push(event);
            EventId { bits: 7 }
        },
        true,
    );

    let id = capture_report(Some(&context), &report);
    assert_eq!(id, EventId { bits: 7 });
    let id = context.capture_report(&report);
    assert_eq!(id, EventId { bits: 7 });

    let built = event_from_report(&report, true);
    assert_eq!(built.exceptions.len(), 2);
    assert!(built.exceptions[1].stacktrace.is_some());
    assert_eq!(taken.into_inner(), vec![built.clone(), built]);
}

#[test]
fn capture_respects_the_backtrace_setting_of_the_context() {
    init_test_environment();

    let report = eyre::Report::msg("Oh jeez");
    let taken: RefCell<Vec<Event>> = RefCell::new(Vec::new());
    let context = ActiveContext::new(
        |event: Event| {
            taken.borrow_mut().push(event);
            EventId { bits: 1 }
        },
        false,
    );

    capture_report(Some(&context), &report);
    assert_eq!(taken.into_inner(), vec![event_from_report(&report, false)]);
}

#[test]
fn capture_without_context_is_nil() {
    init_test_environment();

    let report = eyre::Report::msg("Oh jeez");
    let none: Option<&ActiveContext<fn(Event) -> EventId>> = None;
    let id = capture_report(none, &report);

    assert!(id.is_nil());
    assert_eq!(id, EventId::nil());
    assert_eq!(id.bits, 0);
    assert!(!EventId { bits: 1 }.is_nil());
}
