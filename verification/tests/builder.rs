use sentry_eyre::builder::{attach_stacktrace, event_from_parts, exception_records};
use sentry_eyre::event_from_report;
use sentry_eyre::{Event, ExceptionRecord, StackFrame, StackTrace};

fn init_test_environment() {
    let _ = stable_eyre::HookBuilder::default().capture_backtrace_by_default(true).install();
}

fn record(ty: &str, value: &str) -> ExceptionRecord {
    ExceptionRecord { ty: ty.to_string(), value: Some(value.to_string()), stacktrace: None }
}

fn trace(function: &str) -> StackTrace {
    StackTrace {
        frames: vec![StackFrame {
            function: Some(function.to_string()),
            symbol: None,
            abs_path: None,
            filename: None,
            lineno: None,
            colno: None,
            instruction_addr: None,
        }],
    }
}

#[test]
fn test_event_from_report_with_backtrace() {
    init_test_environment();

    // The event is built behind an opaque call, so that this function keeps a
    // frame of its own in an optimised build.
    let build = || event_from_report(&eyre::Report::msg("Oh jeez"), true);
    let build: &dyn Fn() -> Event = std::hint::black_box(&build);
    let event = build();

    let stacktrace = event.exceptions[0].stacktrace.as_ref().unwrap();
    let found_test_fn = stacktrace.frames.iter().find(|frame| match &frame.function {
        Some(f) => f.contains("test_event_from_report_with_backtrace"),
        None => false,
    });

    assert!(found_test_fn.is_some());
}

#[test]
fn single_error_gives_one_record_with_its_message() {
    init_test_environment();

    let report = eyre::Report::msg("this method has failed.");
    let event = event_from_report(&report, false);

    assert_eq!(event.exceptions.len(), 1);
    assert_eq!(event.exceptions[0].value.as_deref(), Some("this method has failed."));
    assert_eq!(event.exceptions[0].ty, "Error");
    assert_eq!(event.exceptions[0].stacktrace, None);
}

#[test]
fn single_error_with_backtrace_keeps_its_message() {
    init_test_environment();

    let report = eyre::Report::msg("this method has failed.");
    let event = event_from_report(&report, true);

    assert_eq!(event.exceptions.len(), 1);
    assert_eq!(event.exceptions[0].value.as_deref(), Some("this method has failed."));
    assert!(!event.exceptions[0].stacktrace.as_ref().unwrap().frames.is_empty());
}

#[test]
fn chain_gives_one_record_per_error_root_cause_first() {
    init_test_environment();

    let root = "NaN".parse::<usize>().unwrap_err();
    let report = eyre::Report::new(root).wrap_err("reading the count").wrap_err("loading");
    assert_eq!(report.chain().count(), 3);
    let event = event_from_report(&report, true);

    assert_eq!(event.exceptions.len(), 3);
    assert_eq!(event.exceptions[0].ty, "ParseIntError");
    assert_eq!(event.exceptions[0].value.as_deref(), Some("invalid digit found in string"));
    assert_eq!(event.exceptions[1].value.as_deref(), Some("reading the count"));
    assert_eq!(event.exceptions[2].value.as_deref(), Some("loading"));
    assert_eq!(event.exceptions[0].stacktrace, None);
    assert_eq!(event.exceptions[1].stacktrace, None);
    assert!(!event.exceptions[2].stacktrace.as_ref().unwrap().frames.is_empty());
}

#[test]
fn capture_disabled_leaves_every_record_without_stack_trace() {
    init_test_environment();

    let report = eyre::Report::msg("inner").wrap_err("outer");
    let event = event_from_report(&report, false);

    assert_eq!(event.exceptions.len(), 2);
    assert!(event.exceptions.iter().all(|exception| exception.stacktrace.is_none()));
}

#[test]
fn building_twice_gives_equal_events() {
    init_test_environment();

    let report = eyre::Report::msg("inner").wrap_err("outer");

    assert_eq!(event_from_report(&report, true), event_from_report(&report, true));
    assert_eq!(event_from_report(&report, false), event_from_report(&report, false));
}

#[test]
fn attach_stacktrace_sets_the_last_record_only() {
    let mut exceptions = vec![record("A", "a"), record("B", "b"), record("C", "c")];
    attach_stacktrace(&mut exceptions, Some(trace("run")));

    let mut last = record("C", "c");
    last.stacktrace = Some(trace("run"));
    assert_eq!(exceptions, vec![record("A", "a"), record("B", "b"), last]);
}

#[test]
fn attach_stacktrace_overwrites_what_was_there() {
    let mut first = record("A", "a");
    first.stacktrace = Some(trace("kept"));
    let mut last = record("B", "b");
    last.stacktrace = Some(trace("old"));
    let mut exceptions = vec![first.clone(), last];

    attach_stacktrace(&mut exceptions, Some(trace("new")));
    assert_eq!(exceptions[0], first);
    assert_eq!(exceptions[1].stacktrace, Some(trace("new")));

    attach_stacktrace(&mut exceptions, None);
    assert_eq!(exceptions, vec![first, record("B", "b")]);
}

#[test]
fn attach_stacktrace_leaves_an_empty_list_empty() {
    let mut exceptions: Vec<ExceptionRecord> = Vec::new();
    attach_stacktrace(&mut exceptions, Some(trace("run")));
    assert!(exceptions.is_empty());
}

#[test]
fn exception_records_have_no_stack_trace() {
    let found = vec![
        ("ParseIntError".to_string(), Some("invalid digit".to_string())),
        ("Error".to_string(), None),
    ];
    let records = exception_records(found);
    assert_eq!(
        records,
        vec![
            record("ParseIntError", "invalid digit"),
            ExceptionRecord { ty: "Error".to_string(), value: None, stacktrace: None },
        ]
    );
    assert!(exception_records(Vec::new()).is_empty());
}

#[test]
fn event_from_parts_without_backtrace_keeps_the_records() {
    let mut last = record("B", "b");
    last.stacktrace = Some(trace("old"));
    let exceptions = vec![record("A", "a"), last];
    let event = event_from_parts(exceptions.clone(), None);
    assert_eq!(event.exceptions, exceptions);
}

#[test]
fn event_from_parts_puts_the_parsed_backtrace_on_the_last_record() {
    let text = "   0: alpha::run\n             at /src/run.rs:7\n   1: main\n".to_string();
    let event = event_from_parts(vec![record("A", "a"), record("B", "b")], Some(text));

    assert_eq!(event.exceptions.len(), 2);
    assert_eq!(event.exceptions[0], record("A", "a"));
    assert_eq!(event.exceptions[1].ty, "B");
    assert_eq!(event.exceptions[1].value.as_deref(), Some("b"));
    let frames = &event.exceptions[1].stacktrace.as_ref().unwrap().frames;
    assert_eq!(frames.len(), 2);
    assert_eq!(frames[0].function.as_deref(), Some("main"));
    assert_eq!(frames[1].function.as_deref(), Some("alpha::run"));
    assert_eq!(frames[1].lineno, Some(7));
}

#[test]
fn event_from_parts_clears_the_stack_trace_where_nothing_parses() {
    let mut last = record("B", "b");
    last.stacktrace = Some(trace("old"));
    let unreadable = "   0: alpha::run\n             at /src/run.rs:99999999999999999999\n";

    let event = event_from_parts(vec![record("A", "a"), last.clone()], Some(String::new()));
    assert_eq!(event.exceptions, vec![record("A", "a"), record("B", "b")]);

    let event = event_from_parts(vec![last], Some(unreadable.to_string()));
    assert_eq!(event.exceptions, vec![record("B", "b")]);
}

#[test]
fn event_from_parts_reads_a_backtrace_with_names_outside_ascii() {
    let text = "   0: app::\u{fc}bung\n             at /src/\u{fc}bung.rs:18446744073709551615:4\n   1: 12345678901234567890\n".to_string();
    let event = event_from_parts(vec![record("A", "a")], Some(text));

    let frames = &event.exceptions[0].stacktrace.as_ref().unwrap().frames;
    assert_eq!(frames.len(), 2);
    assert_eq!(frames[0].function.as_deref(), Some("12345678901234567890"));
    assert_eq!(frames[1].function.as_deref(), Some("app::\u{fc}bung"));
    assert_eq!(frames[1].filename.as_deref(), Some("\u{fc}bung.rs"));
    assert_eq!(frames[1].lineno, Some(u64::MAX));
    assert_eq!(frames[1].colno, Some(4));
}
