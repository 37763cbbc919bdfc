use py_spy::stack_trace::{format_traces, StackFrame, StackTrace};

fn frame(name: &str, filename: &str, short: Option<&str>, line: i32) -> StackFrame {
    StackFrame {
        name: name.to_string(),
        filename: filename.to_string(),
        short_filename: short.map(|s| s.to_string()),
        line,
    }
}

#[test]
fn dump_prints_header_and_frames() {
    let trace = StackTrace {
        thread_id: 0x7f12,
        active: true,
        owns_gil: true,
        frames: vec![
            frame("sleep", "/usr/lib/python3.6/time.py", Some("time.py"), 12),
            frame("<module>", "prog.py", None, 3),
        ],
    };
    let lines = format_traces(&vec![trace], true);
    assert_eq!(
        lines,
        vec![
            "Thread 0x7F12 (active)".to_string(),
            "\t sleep (time.py:12)".to_string(),
            "\t <module> (prog.py:3)".to_string(),
        ]
    );
}

#[test]
fn idle_traces_are_left_out_unless_asked_for() {
    let busy = StackTrace { thread_id: 1, active: true, owns_gil: true, frames: vec![frame("f", "a/b.py", Some("b.py"), 1)] };
    let idle = StackTrace { thread_id: 0xABCDEF, active: false, owns_gil: false, frames: vec![frame("wait", "threading.py", None, -5)] };
    let bare = StackTrace { thread_id: 0, active: false, owns_gil: false, frames: vec![] };
    let traces = vec![idle.clone(), busy.clone(), bare.clone()];
    assert_eq!(
        format_traces(&traces, true),
        vec![
            "Thread 0xABCDEF (idle)".to_string(),
            "\t wait (threading.py:-5)".to_string(),
            "Thread 0x1 (active)".to_string(),
            "\t f (b.py:1)".to_string(),
            "Thread 0x0 (idle)".to_string(),
        ]
    );
    assert_eq!(format_traces(&traces, false), vec!["Thread 0x1 (active)".to_string(), "\t f (b.py:1)".to_string()]);
    assert!(format_traces(&vec![], true).is_empty());
    assert!(format_traces(&vec![idle.clone(), bare], false).is_empty());
    assert_eq!(busy.status_str(), "active");
    assert_eq!(idle.status_str(), "idle");
    assert_eq!(idle.dump_lines(), vec!["Thread 0xABCDEF (idle)".to_string(), "\t wait (threading.py:-5)".to_string()]);
    let wide = StackTrace { thread_id: u64::MAX, active: true, owns_gil: true, frames: vec![] };
    assert_eq!(format_traces(&vec![wide], false), vec![format!("Thread {:#X} (active)", u64::MAX)]);
}

#[test]
fn collapsed_stack_runs_from_the_outermost_frame_to_the_innermost() {
    let trace = StackTrace {
        thread_id: 1,
        active: true,
        owns_gil: true,
        frames: vec![
            frame("sleep", "/usr/lib/python3.6/time.py", Some("time.py"), 12),
            frame("work", "/srv/app.py", Some("app.py"), 40),
            frame("<module>", "prog.py", None, 3),
        ],
    };
    assert_eq!(trace.collapsed(), "<module> (prog.py:3);work (app.py:40);sleep (time.py:12)");
    let one = StackTrace { frames: vec![frame("f", "x.py", None, 1)], ..trace.clone() };
    assert_eq!(one.collapsed(), "f (x.py:1)");
    let none = StackTrace { frames: vec![], ..trace };
    assert_eq!(none.collapsed(), "");
}

#[test]
fn frame_is_built_with_its_short_file_name() {
    let chars = |s: &str| -> Vec<char> { s.chars().collect() };
    let f = StackFrame::new(&chars("run"), &chars("/srv/app/run.py"), 7);
    assert_eq!((f.name.as_str(), f.filename.as_str(), f.short_filename.as_deref(), f.line), ("run", "/srv/app/run.py", Some("run.py"), 7));
    assert_eq!(f.label().into_iter().collect::<String>(), "run (run.py:7)");
    let g = StackFrame::new(&chars("<module>"), &chars("<stdin>"), 1);
    assert_eq!(g.short_filename, None);
    assert_eq!(g.label().into_iter().collect::<String>(), "<module> (<stdin>:1)");
}
