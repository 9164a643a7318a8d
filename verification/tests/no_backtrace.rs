use sentry_eyre::event_from_report;

#[test]
fn report_without_backtrace_gives_no_stack_trace() {
    let report = eyre::Report::msg("inner").wrap_err("outer");
    let event = event_from_report(&report, true);

    assert_eq!(event.exceptions.len(), 2);
    assert_eq!(event.exceptions[0].value.as_deref(), Some("inner"));
    assert_eq!(event.exceptions[1].value.as_deref(), Some("outer"));
    assert!(event.exceptions.iter().all(|exception| exception.stacktrace.is_none()));
    assert_eq!(event, event_from_report(&report, false));
}
