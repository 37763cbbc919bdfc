use py_spy::cli::{
    exit_code, failure_report, join, parse_pid, plan, plan_from_text, Plan, Viewer, ATTACH_ATTEMPTS,
};
use py_spy::error::{permission_denied, process_exitted, ErrorKind};

fn strings(v: &[&str]) -> Vec<String> {
    v.iter().map(|s| s.to_string()).collect()
}

#[test]
fn process_identifiers_are_decimal_and_fit_in_32_bits() {
    assert_eq!(parse_pid("1"), Some(1));
    assert_eq!(parse_pid("0"), Some(0));
    assert_eq!(parse_pid("+17"), Some(17));
    assert_eq!(parse_pid("0042"), Some(42));
    assert_eq!(parse_pid("4294967295"), Some(u32::MAX));
    assert_eq!(parse_pid("4294967296"), None);
    assert_eq!(parse_pid(""), None);
    assert_eq!(parse_pid("+"), None);
    assert_eq!(parse_pid("-1"), None);
    assert_eq!(parse_pid("++1"), None);
    assert_eq!(parse_pid("12a"), None);
    assert_eq!(parse_pid(" 12"), None);
    assert_eq!(parse_pid("1_000"), None);
    for text in ["1", "+17", "0042", "4294967295", "4294967296", "", "+", "-1", "12a", "0x10"] {
        assert_eq!(parse_pid(text), text.parse::<u32>().ok(), "{:?}", text);
    }
}

#[test]
fn words_are_joined_by_single_spaces() {
    assert_eq!(join(&strings(&[])), "");
    assert_eq!(join(&strings(&["python"])), "python");
    assert_eq!(join(&strings(&["python", "-c", "import time; time.sleep(5)"])), "python -c import time; time.sleep(5)");
    assert_eq!(join(&strings(&["a", "", "b"])), "a  b");
}

fn describe(p: Plan) -> String {
    let viewer = |v: Viewer| match v {
        Viewer::Dump => "dump".to_string(),
        Viewer::Flame { path } => format!("flame {}", path),
        Viewer::Console { display } => format!("console {}", display),
    };
    match p {
        Plan::Attach { pid, viewer: v } => format!("attach {} {}", pid, viewer(v)),
        Plan::Launch { program, arguments, viewer: v } => {
            format!("launch {} {:?} {}", program, arguments, viewer(v))
        }
        Plan::Nothing => "nothing".to_string(),
    }
}

#[test]
fn process_identifier_wins_and_dump_wins_over_flame() {
    let none: Vec<String> = vec![];
    let program = strings(&["python", "prog.py"]);
    assert_eq!(describe(plan(Some(12), true, None, &none)), "attach 12 dump");
    assert_eq!(describe(plan(Some(12), true, Some("out.svg".to_string()), &none)), "attach 12 dump");
    assert_eq!(describe(plan(Some(12), false, Some("out.svg".to_string()), &none)), "attach 12 flame out.svg");
    assert_eq!(describe(plan(Some(12), false, None, &none)), "attach 12 console pid: 12");
    assert_eq!(describe(plan(Some(4294967295), false, None, &program)), "attach 4294967295 console pid: 4294967295");
}

#[test]
fn program_is_launched_where_no_process_is_named() {
    let program = strings(&["python", "-c", "import time; time.sleep(5)"]);
    assert_eq!(
        describe(plan(None, false, None, &program)),
        "launch python [\"-c\", \"import time; time.sleep(5)\"] console python -c import time; time.sleep(5)"
    );
    assert_eq!(
        describe(plan(None, false, Some("f.svg".to_string()), &program)),
        "launch python [\"-c\", \"import time; time.sleep(5)\"] flame f.svg"
    );
    // the dump flag is not looked at
    assert_eq!(describe(plan(None, true, None, &strings(&["prog"]))), "launch prog [] console prog");
    assert_eq!(describe(plan(None, true, Some("f".to_string()), &vec![])), "nothing");
    assert_eq!(describe(plan(None, false, None, &vec![])), "nothing");
    assert_eq!(ATTACH_ATTEMPTS, 3);
}

#[test]
fn text_that_is_no_process_identifier_fails_the_run() {
    for text in ["abc", "-1", "4294967296", "", "12 ", "0x10", "1.5"] {
        let err = plan_from_text(Some(text), false, None, &strings(&["python"])).err().expect("no process identifier");
        assert_eq!(err.kind, ErrorKind::InvalidArgument);
        assert_eq!(err.causes.len(), 1);
        assert_eq!(err.causes[0].message, "invalid pid");
        assert!(!permission_denied(&err) && !process_exitted(&err));
        assert_eq!(failure_report(&err), vec!["Error: invalid pid".to_string()]);
        assert_eq!(exit_code(true), 1);
    }
}

#[test]
fn text_of_a_process_identifier_gives_the_plan() {
    let none: Vec<String> = vec![];
    assert_eq!(describe(plan_from_text(Some("12"), true, None, &none).unwrap()), "attach 12 dump");
    assert_eq!(describe(plan_from_text(Some("+7"), false, Some("f.svg".to_string()), &none).unwrap()), "attach 7 flame f.svg");
    assert_eq!(describe(plan_from_text(Some("4294967295"), false, None, &none).unwrap()), "attach 4294967295 console pid: 4294967295");
    assert_eq!(describe(plan_from_text(None, false, None, &strings(&["prog", "a"])).unwrap()), "launch prog [\"a\"] console prog a");
    assert_eq!(describe(plan_from_text(None, true, None, &none).unwrap()), "nothing");
}

#[test]
fn only_a_dump_shows_idle_threads() {
    assert!(Viewer::Dump.shows_idle());
    assert!(!Viewer::Flame { path: "out.svg".to_string() }.shows_idle());
    assert!(!Viewer::Console { display: "pid: 1".to_string() }.shows_idle());
}
