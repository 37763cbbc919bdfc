use py_spy::cli::{exit_code, failure_report, kind_name, privilege_report, wants_child_stderr};
use py_spy::error::{kind_of_os_error, permission_denied, process_exitted, Cause, ErrorKind, SpyError};

#[test]
fn operating_system_errors_are_told_apart() {
    assert_eq!(kind_of_os_error(Some(3), false), ErrorKind::ProcessGone);
    assert_eq!(kind_of_os_error(Some(60), false), ErrorKind::ProcessGone);
    assert_eq!(kind_of_os_error(Some(299), false), ErrorKind::ProcessGone);
    assert_eq!(kind_of_os_error(Some(14), false), ErrorKind::BadAddress);
    assert_eq!(kind_of_os_error(Some(5), false), ErrorKind::BadAddress);
    assert_eq!(kind_of_os_error(Some(4), false), ErrorKind::TransientRead);
    assert_eq!(kind_of_os_error(Some(0), false), ErrorKind::TransientRead);
    assert_eq!(kind_of_os_error(None, false), ErrorKind::TransientRead);
    assert_eq!(kind_of_os_error(Some(13), true), ErrorKind::PermissionDenied);
    assert_eq!(kind_of_os_error(Some(3), true), ErrorKind::PermissionDenied);
    assert_eq!(kind_of_os_error(None, true), ErrorKind::PermissionDenied);
}

fn cause(message: &str, os_code: Option<i32>, denied: bool) -> Cause {
    Cause { message: message.to_string(), os_code, permission_denied: denied }
}

#[test]
fn process_exit_is_found_anywhere_in_the_chain() {
    for code in [3, 60, 299] {
        let err = SpyError {
            kind: ErrorKind::TransientRead,
            causes: vec![cause("outer", None, false), cause("mid", Some(1), false), cause("os", Some(code), false)],
        };
        assert!(process_exitted(&err), "code {}", code);
    }
    for code in [0, 1, 2, 4, 13, 59, 61, 298, 300, -3] {
        let err = SpyError { kind: ErrorKind::ProcessGone, causes: vec![cause("os", Some(code), false)] };
        assert!(!process_exitted(&err), "code {}", code);
    }
    assert!(!process_exitted(&SpyError::new(ErrorKind::ProcessGone)));
    assert!(!process_exitted(&SpyError { kind: ErrorKind::ProcessGone, causes: vec![cause("no code", None, true)] }));
}

#[test]
fn permission_denied_is_found_anywhere_in_the_chain() {
    let err = SpyError {
        kind: ErrorKind::UnreadableBinary,
        causes: vec![cause("outer", None, false), cause("os", Some(13), true)],
    };
    assert!(permission_denied(&err));
    let err = SpyError { kind: ErrorKind::PermissionDenied, causes: vec![cause("os", Some(13), false)] };
    assert!(!permission_denied(&err));
    assert!(!permission_denied(&SpyError::new(ErrorKind::PermissionDenied)));
}

#[test]
fn errors_are_built_with_their_chain() {
    let err = SpyError::from_os("No such process (os error 3)".to_string(), Some(3), false);
    assert_eq!(err.kind, ErrorKind::ProcessGone);
    assert_eq!(err.causes.len(), 1);
    assert_eq!(err.causes[0].os_code, Some(3));
    assert!(process_exitted(&err));
    assert!(!permission_denied(&err));

    let wrapped = err.context(ErrorKind::UnreadableBinary, "Failed to read /usr/bin/python".to_string());
    assert_eq!(wrapped.kind, ErrorKind::UnreadableBinary);
    assert_eq!(wrapped.causes.len(), 2);
    assert_eq!(wrapped.causes[0].message, "Failed to read /usr/bin/python");
    assert_eq!(wrapped.causes[0].os_code, None);
    assert_eq!(wrapped.causes[1].message, "No such process (os error 3)");
    assert!(process_exitted(&wrapped));

    let denied = SpyError::from_os("Permission denied (os error 13)".to_string(), Some(13), true);
    assert_eq!(denied.kind, ErrorKind::PermissionDenied);
    assert!(permission_denied(&denied));
    assert!(!process_exitted(&denied));
}

#[test]
fn failed_run_reports_the_error_and_its_reasons() {
    let err = SpyError::from_os("Input/output error (os error 5)".to_string(), Some(5), false)
        .context(ErrorKind::UnreadableBinary, "Failed to read the interpreter".to_string())
        .context(ErrorKind::UnreadableBinary, "Failed to attach".to_string());
    assert_eq!(
        failure_report(&err),
        vec![
            "Error: Failed to attach".to_string(),
            "Reason: Failed to read the interpreter".to_string(),
            "Reason: Input/output error (os error 5)".to_string(),
        ]
    );
    assert_eq!(failure_report(&SpyError::new(ErrorKind::RuntimeUninitialized)), vec!["Error: RuntimeUninitialized".to_string()]);
    assert_eq!(exit_code(true), 1);
    assert_eq!(exit_code(false), 0);
}

#[test]
fn refused_access_reports_the_hint_alone() {
    let err = SpyError::from_os("Operation not permitted (os error 1)".to_string(), Some(1), true)
        .context(ErrorKind::PermissionDenied, "Failed to open the process".to_string());
    let lines = failure_report(&err);
    assert_eq!(
        lines,
        vec!["Permission Denied: Try running again with elevated permissions by going 'sudo env \"PATH=$PATH\" !!'".to_string()]
    );
    assert!(lines[0].contains("Permission Denied"));
}

#[test]
fn every_kind_has_its_name() {
    let kinds = [
        (ErrorKind::ProcessGone, "ProcessGone"),
        (ErrorKind::PermissionDenied, "PermissionDenied"),
        (ErrorKind::BadAddress, "BadAddress"),
        (ErrorKind::UnreadableBinary, "UnreadableBinary"),
        (ErrorKind::UnsupportedFormat, "UnsupportedFormat"),
        (ErrorKind::UnsupportedVersion, "UnsupportedVersion"),
        (ErrorKind::InterpreterNotFound, "InterpreterNotFound"),
        (ErrorKind::RuntimeUninitialized, "RuntimeUninitialized"),
        (ErrorKind::LayoutValidationFailed, "LayoutValidationFailed"),
        (ErrorKind::TransientRead, "TransientRead"),
        (ErrorKind::InvalidArgument, "InvalidArgument"),
    ];
    for (kind, name) in kinds {
        assert_eq!(kind_name(kind), name);
    }
}

#[test]
fn superuser_is_asked_for_where_the_platform_needs_it() {
    assert!(privilege_report(false, 1000).is_empty());
    assert!(privilege_report(true, 0).is_empty());
    assert!(privilege_report(false, 0).is_empty());
    assert_eq!(
        privilege_report(true, 501),
        vec![
            "This program requires root on OSX.".to_string(),
            "Try running again with elevated permissions by going 'sudo !!'".to_string(),
        ]
    );
}

#[test]
fn child_output_is_shown_when_something_failed() {
    assert!(!wants_child_stderr(Some(true), false));
    assert!(!wants_child_stderr(None, false));
    assert!(wants_child_stderr(Some(false), false));
    assert!(wants_child_stderr(Some(true), true));
    assert!(wants_child_stderr(None, true));
    assert!(wants_child_stderr(Some(false), true));
}
