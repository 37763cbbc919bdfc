//! What the command line asks for, and what is reported when a run fails.

use vstd::prelude::*;
use crate::error::{permission_denied, ErrorKind, SpyError};
use crate::stack_trace::lines_view;
use crate::text::{
    chars_of, parse_decimal, push_decimal, push_text, spec_decimal, spec_parse_decimal,
    string_from_chars,
};

verus! {

/// How often attaching to a process is tried before giving up.
pub const ATTACH_ATTEMPTS: u64 = 3;

/// How the samples are shown.
#[derive(Clone, Debug)]
pub enum Viewer {
    /// Print one snapshot and exit.
    Dump,
    /// Collect samples and write a flame graph to `path`.
    Flame { path: String },
    /// Show a live display under the title `display`.
    Console { display: String },
}

/// What a run does.
#[derive(Clone, Debug)]
pub enum Plan {
    /// Profile the running process `pid`.
    Attach { pid: u32, viewer: Viewer },
    /// Start `program` with `arguments` as a child and profile it.
    Launch { program: String, arguments: Vec<String>, viewer: Viewer },
    /// Neither a process nor a program was named.
    Nothing,
}

/// A viewer as a mathematical value.
pub enum ViewerView {
    Dump,
    Flame { path: Seq<char> },
    Console { display: Seq<char> },
}

/// A plan as a mathematical value.
pub enum PlanView {
    Attach { pid: u32, viewer: ViewerView },
    Launch { program: Seq<char>, arguments: Seq<Seq<char>>, viewer: ViewerView },
    Nothing,
}

impl View for Viewer {
    type V = ViewerView;

    open spec fn view(&self) -> ViewerView {
        match self {
            Viewer::Dump => ViewerView::Dump,
            Viewer::Flame { path } => ViewerView::Flame { path: path@ },
            Viewer::Console { display } => ViewerView::Console { display: display@ },
        }
    }
}

impl View for Plan {
    type V = PlanView;

    open spec fn view(&self) -> PlanView {
        match self {
            Plan::Attach { pid, viewer } => PlanView::Attach { pid: *pid, viewer: viewer@ },
            Plan::Launch { program, arguments, viewer } => PlanView::Launch {
                program: program@,
                arguments: lines_view(arguments@),
                viewer: viewer@,
            },
            Plan::Nothing => PlanView::Nothing,
        }
    }
}

/// The process identifier that a text stands for: decimal digits, with an optional
/// plus sign in front, whose value fits in 32 bits.
pub open spec fn spec_parse_pid(s: Seq<char>) -> Option<u32> {
    let digits = if s.len() > 0 && s[0] == '+' {
        s.skip(1)
    } else {
        s
    };
    match spec_parse_decimal(digits) {
        Some(n) => if n <= u32::MAX {
            Some(n as u32)
        } else {
            None
        },
        None => None,
    }
}

/// Reads a process identifier.
pub fn parse_pid(text: &str) -> (pid: Option<u32>)
    ensures
        pid == spec_parse_pid(text@),
{
    let chars = chars_of(text);
    let start: usize = if chars.len() > 0 && chars[0] == '+' {
        1
    } else {
        0
    };
    let mut digits: Vec<char> = Vec::new();
    let mut i: usize = start;
    while i < chars.len()
        invariant
            start <= i <= chars@.len(),
            digits@ == chars@.subrange(start as int, i as int),
        decreases chars@.len() - i,
    {
        digits.push(chars[i]);
        i += 1;
    }
    assert(digits@ == if start == 1 {
        chars@.skip(1)
    } else {
        chars@
    });
    match parse_decimal(&digits, 0xffff_ffff) {
        Some(v) => Some(v as u32),
        None => None,
    }
}

/// Texts joined by single spaces.
pub open spec fn spec_join(parts: Seq<Seq<char>>) -> Seq<char>
    decreases parts.len(),
{
    if parts.len() == 0 {
        Seq::empty()
    } else if parts.len() == 1 {
        parts[0]
    } else {
        spec_join(parts.drop_last()) + " "@ + parts.last()
    }
}

/// Joins texts by single spaces.
pub fn join(parts: &Vec<String>) -> (joined: String)
    ensures
        joined@ == spec_join(lines_view(parts@)),
{
    let mut out: Vec<char> = Vec::new();
    let mut i: usize = 0;
    while i < parts.len()
        invariant
            i <= parts@.len(),
            out@ == spec_join(lines_view(parts@).take(i as int)),
        decreases parts@.len() - i,
    {
        let ghost prefix = lines_view(parts@).take(i + 1);
        assert(prefix.drop_last() == lines_view(parts@).take(i as int));
        if i > 0 {
            push_text(&mut out, " ");
        }
        push_text(&mut out, parts[i].as_str());
        i += 1;
    }
    assert(lines_view(parts@).take(i as int) == lines_view(parts@));
    string_from_chars(&out)
}

/// The title of the live display for a process identifier.
pub open spec fn spec_pid_title(pid: u32) -> Seq<char> {
    "pid: "@ + spec_decimal(pid as nat)
}

/// The plan that the options stand for. A process identifier wins over a program.
/// With a process identifier, the dump flag wins over a flame path, and a flame
/// path over the live display. With a program, the dump flag is not looked at.
pub open spec fn spec_plan(
    pid: Option<u32>,
    dump: bool,
    flame: Option<Seq<char>>,
    program: Seq<Seq<char>>,
) -> PlanView {
    match pid {
        Some(p) => PlanView::Attach {
            pid: p,
            viewer: if dump {
                ViewerView::Dump
            } else {
                match flame {
                    Some(path) => ViewerView::Flame { path },
                    None => ViewerView::Console { display: spec_pid_title(p) },
                }
            },
        },
        None => if program.len() > 0 {
            PlanView::Launch {
                program: program[0],
                arguments: program.skip(1),
                viewer: match flame {
                    Some(path) => ViewerView::Flame { path },
                    None => ViewerView::Console { display: spec_join(program) },
                },
            }
        } else {
            PlanView::Nothing
        },
    }
}

/// The view of an optional text.
pub open spec fn option_view(text: Option<String>) -> Option<Seq<char>> {
    match text {
        Some(s) => Some(s@),
        None => None,
    }
}

/// Decides what a run does from the parsed options: the process identifier, whether
/// a dump was asked for, the path of a flame graph, and the command line of a
/// program to start.
pub fn plan(pid: Option<u32>, dump: bool, flame: Option<String>, program: &Vec<String>) -> (p:
    Plan)
    ensures
        p@ == spec_plan(pid, dump, option_view(flame), lines_view(program@)),
{
    match pid {
        Some(id) => {
            let viewer = if dump {
                Viewer::Dump
            } else {
                match flame {
                    Some(path) => Viewer::Flame { path },
                    None => {
                        let mut title: Vec<char> = Vec::new();
                        push_text(&mut title, "pid: ");
                        push_decimal(&mut title, id as u64);
                        Viewer::Console { display: string_from_chars(&title) }
                    },
                }
            };
            Plan::Attach { pid: id, viewer }
        },
        None => {
            if program.len() > 0 {
                let viewer = match flame {
                    Some(path) => Viewer::Flame { path },
                    None => Viewer::Console { display: join(program) },
                };
                let mut arguments: Vec<String> = Vec::new();
                let mut i: usize = 1;
                while i < program.len()
                    invariant
                        1 <= i <= program@.len(),
                        lines_view(arguments@) == lines_view(program@).subrange(1, i as int),
                    decreases program@.len() - i,
                {
                    let ghost before = arguments@;
                    arguments.push(program[i].clone());
                    assert(lines_view(arguments@) =~= lines_view(before).push(program@[i as int]@));
                    i += 1;
                }
                Plan::Launch { program: program[0].clone(), arguments, viewer }
            } else {
                Plan::Nothing
            }
        },
    }
}

/// The plan that the options stand for when the process identifier comes as text,
/// or the message of the failure where the text is no process identifier.
pub open spec fn spec_plan_from_text(
    pid_text: Option<Seq<char>>,
    dump: bool,
    flame: Option<Seq<char>>,
    program: Seq<Seq<char>>,
) -> Result<PlanView, Seq<char>> {
    match pid_text {
        None => Ok(spec_plan(None, dump, flame, program)),
        Some(text) => match spec_parse_pid(text) {
            Some(pid) => Ok(spec_plan(Some(pid), dump, flame, program)),
            None => Err("invalid pid"@),
        },
    }
}

/// Whether an error is the failure of an argument with the given message: it is of
/// the invalid-argument kind, and the message is its only cause.
pub open spec fn spec_argument_failure(e: SpyError, message: Seq<char>) -> bool {
    &&& e.kind == ErrorKind::InvalidArgument
    &&& e.causes@.len() == 1
    &&& e.causes@[0].message@ == message
    &&& e.causes@[0].os_code.is_none()
    &&& !e.causes@[0].permission_denied
}

/// Decides what a run does from the options as the command line gives them. A
/// process identifier that is no decimal number of 32 bits fails the run with the
/// message `invalid pid`: no process is opened and nothing is sampled.
pub fn plan_from_text(pid_text: Option<&str>, dump: bool, flame: Option<String>, program: &Vec<String>) -> (r:
    Result<Plan, SpyError>)
    ensures
        match spec_plan_from_text(
            match pid_text {
                Some(t) => Some(t@),
                None => None,
            },
            dump,
            option_view(flame),
            lines_view(program@),
        ) {
            Ok(expected) => r matches Ok(p) && p@ == expected,
            Err(message) => r matches Err(e) && spec_argument_failure(e, message),
        },
{
    match pid_text {
        None => Ok(plan(None, dump, flame, program)),
        Some(text) => match parse_pid(text) {
            Some(pid) => Ok(plan(Some(pid), dump, flame, program)),
            None => {
                let message = string_from_chars(&chars_of("invalid pid"));
                Err(SpyError::new(ErrorKind::InvalidArgument).context(ErrorKind::InvalidArgument, message))
            },
        },
    }
}

impl Viewer {
    /// Whether the viewer shows the threads that are idle: a dump does; the flame
    /// graph and the live display show active threads only.
    pub fn shows_idle(&self) -> (shown: bool)
        ensures
            shown == (self@ is Dump),
    {
        match self {
            Viewer::Dump => true,
            _ => false,
        }
    }
}

/// The report of a failed argument is its message alone, and the run exits with
/// code 1.
pub proof fn lemma_argument_failure_is_reported(e: SpyError, message: Seq<char>)
    requires
        spec_argument_failure(e, message),
    ensures
        spec_failure_report(e) =~= seq!["Error: "@ + message],
{
    assert(!e.spec_permission_denied());
}

/// Whether what the child wrote to its error stream is shown: when the child failed
/// or the sampling did. A child that has not finished counts as successful.
pub fn wants_child_stderr(child_succeeded: Option<bool>, sampling_failed: bool) -> (wanted: bool)
    ensures
        wanted == (child_succeeded == Some(false) || sampling_failed),
{
    let success = match child_succeeded {
        Some(ok) => ok,
        None => true,
    };
    !success || sampling_failed
}

/// The exit code of a run: 0 when it completed, 1 on any error.
pub fn exit_code(failed: bool) -> (code: i32)
    ensures
        code == if failed { 1i32 } else { 0i32 },
{
    if failed {
        1
    } else {
        0
    }
}

/// The name of an error kind.
pub open spec fn spec_kind_name(kind: ErrorKind) -> Seq<char> {
    match kind {
        ErrorKind::ProcessGone => "ProcessGone"@,
        ErrorKind::PermissionDenied => "PermissionDenied"@,
        ErrorKind::BadAddress => "BadAddress"@,
        ErrorKind::UnreadableBinary => "UnreadableBinary"@,
        ErrorKind::UnsupportedFormat => "UnsupportedFormat"@,
        ErrorKind::UnsupportedVersion => "UnsupportedVersion"@,
        ErrorKind::InterpreterNotFound => "InterpreterNotFound"@,
        ErrorKind::RuntimeUninitialized => "RuntimeUninitialized"@,
        ErrorKind::LayoutValidationFailed => "LayoutValidationFailed"@,
        ErrorKind::TransientRead => "TransientRead"@,
        ErrorKind::InvalidArgument => "InvalidArgument"@,
    }
}

/// The name of an error kind.
pub fn kind_name(kind: ErrorKind) -> (name: &'static str)
    ensures
        name@ == spec_kind_name(kind),
{
    match kind {
        ErrorKind::ProcessGone => "ProcessGone",
        ErrorKind::PermissionDenied => "PermissionDenied",
        ErrorKind::BadAddress => "BadAddress",
        ErrorKind::UnreadableBinary => "UnreadableBinary",
        ErrorKind::UnsupportedFormat => "UnsupportedFormat",
        ErrorKind::UnsupportedVersion => "UnsupportedVersion",
        ErrorKind::InterpreterNotFound => "InterpreterNotFound",
        ErrorKind::RuntimeUninitialized => "RuntimeUninitialized",
        ErrorKind::LayoutValidationFailed => "LayoutValidationFailed",
        ErrorKind::TransientRead => "TransientRead",
        ErrorKind::InvalidArgument => "InvalidArgument",
    }
}

/// The hint printed when access to the target was refused.
pub open spec fn spec_permission_hint() -> Seq<char> {
    "Permission Denied: Try running again with elevated permissions by going 'sudo env \"PATH=$PATH\" !!'"@
}

/// The message of an error: that of its outermost cause, or the name of its kind
/// where the chain is empty.
pub open spec fn spec_top_message(err: SpyError) -> Seq<char> {
    if err.causes@.len() > 0 {
        err.causes@[0].message@
    } else {
        spec_kind_name(err.kind)
    }
}

/// The lines reported for a failed run: the permission hint alone where access was
/// refused; otherwise the error's message, then one line for each further cause.
pub open spec fn spec_failure_report(err: SpyError) -> Seq<Seq<char>> {
    if err.spec_permission_denied() {
        seq![spec_permission_hint()]
    } else {
        seq!["Error: "@ + spec_top_message(err)] + Seq::new(
            if err.causes@.len() > 0 {
                (err.causes@.len() - 1) as nat
            } else {
                0
            },
            |i: int| "Reason: "@ + err.causes@[i + 1].message@,
        )
    }
}

/// Renders the lines reported for a failed run.
pub fn failure_report(err: &SpyError) -> (lines: Vec<String>)
    ensures
        lines_view(lines@) == spec_failure_report(*err),
{
    let mut lines: Vec<String> = Vec::new();
    if permission_denied(err) {
        let mut hint: Vec<char> = Vec::new();
        push_text(
            &mut hint,
            "Permission Denied: Try running again with elevated permissions by going 'sudo env \"PATH=$PATH\" !!'",
        );
        lines.push(string_from_chars(&hint));
        return lines;
    }
    let mut first: Vec<char> = Vec::new();
    push_text(&mut first, "Error: ");
    if err.causes.len() > 0 {
        push_text(&mut first, err.causes[0].message.as_str());
    } else {
        push_text(&mut first, kind_name(err.kind));
    }
    lines.push(string_from_chars(&first));
    let mut i: usize = 1;
    while i < err.causes.len()
        invariant
            1 <= i,
            err.causes@.len() > 0 ==> i <= err.causes@.len(),
            lines_view(lines@) == seq!["Error: "@ + spec_top_message(*err)] + Seq::new(
                if err.causes@.len() > 0 {
                    (i - 1) as nat
                } else {
                    0
                },
                |k: int| "Reason: "@ + err.causes@[k + 1].message@,
            ),
        decreases err.causes@.len() - i,
    {
        let mut line: Vec<char> = Vec::new();
        push_text(&mut line, "Reason: ");
        push_text(&mut line, err.causes[i].message.as_str());
        let ghost before = lines@;
        lines.push(string_from_chars(&line));
        assert(lines_view(lines@) =~= lines_view(before).push(
            "Reason: "@ + err.causes@[i as int].message@,
        ));
        i += 1;
    }
    lines
}

/// The lines printed when the platform asks for the superuser and the effective
/// user is another: none when the run may go on.
pub open spec fn spec_privilege_report(requires_root: bool, effective_uid: u32) -> Seq<Seq<char>> {
    if requires_root && effective_uid != 0 {
        seq![
            "This program requires root on OSX."@,
            "Try running again with elevated permissions by going 'sudo !!'"@,
        ]
    } else {
        Seq::empty()
    }
}

/// Checks the effective user against what the platform asks for.
pub fn privilege_report(requires_root: bool, effective_uid: u32) -> (lines: Vec<String>)
    ensures
        lines_view(lines@) == spec_privilege_report(requires_root, effective_uid),
{
    let mut lines: Vec<String> = Vec::new();
    if requires_root && effective_uid != 0 {
        let mut first: Vec<char> = Vec::new();
        push_text(&mut first, "This program requires root on OSX.");
        lines.push(string_from_chars(&first));
        let mut second: Vec<char> = Vec::new();
        push_text(&mut second, "Try running again with elevated permissions by going 'sudo !!'");
        lines.push(string_from_chars(&second));
    }
    lines
}

/// A command line that names a program and no process launches the program: its
/// first word is the program, the words behind it are the arguments, in order,
/// and the child is profiled under a flame graph where a path is given and under
/// the live display else. A dump is shown with the idle threads.
pub proof fn lemma_program_is_launched(dump: bool, flame: Option<Seq<char>>, program: Seq<Seq<char>>)
    requires
        program.len() > 0,
    ensures
        spec_plan(None, dump, flame, program) matches PlanView::Launch { program: first, arguments, viewer }
            && first == program[0] && arguments == program.skip(1) && (flame matches Some(path)
            ==> viewer == (ViewerView::Flame { path })) && (flame.is_none() ==> viewer == (
        ViewerView::Console { display: spec_join(program) })),
        spec_plan_from_text(None, dump, flame, program) == Ok::<PlanView, Seq<char>>(
            spec_plan(None, dump, flame, program),
        ),
{
}

} // verus!
