use pixelsort::control::{confirms_overwrite, log_level, output_action, LogLevel, OutputAction};

#[test]
fn no_flag_logs_info() {
    assert_eq!(log_level(0), LogLevel::Info);
}

#[test]
fn one_flag_logs_debug() {
    assert_eq!(log_level(1), LogLevel::Debug);
}

#[test]
fn more_flags_log_trace() {
    assert_eq!(log_level(2), LogLevel::Trace);
    assert_eq!(log_level(3), LogLevel::Trace);
    assert_eq!(log_level(u64::MAX), LogLevel::Trace);
}

#[test]
fn missing_output_is_written() {
    assert_eq!(output_action(false, false, false), OutputAction::Write);
    assert_eq!(output_action(false, true, false), OutputAction::Write);
    assert_eq!(output_action(false, false, true), OutputAction::Write);
}

#[test]
fn existing_output_is_overwritten_skipped_or_asked_about() {
    assert_eq!(output_action(true, true, false), OutputAction::Write);
    assert_eq!(output_action(true, true, true), OutputAction::Write);
    assert_eq!(output_action(true, false, true), OutputAction::Skip);
    assert_eq!(output_action(true, false, false), OutputAction::Ask);
}

#[test]
fn only_a_bare_y_confirms() {
    assert!(confirms_overwrite("y\n"));
    assert!(!confirms_overwrite("y"));
    assert!(!confirms_overwrite("Y\n"));
    assert!(!confirms_overwrite("y\r\n"));
    assert!(!confirms_overwrite(" y\n"));
    assert!(!confirms_overwrite("yes\n"));
    assert!(!confirms_overwrite("n\n"));
    assert!(!confirms_overwrite(""));
}
