//! Stack frames and stack traces, their mathematical views, and their textual forms.

use vstd::prelude::*;
use crate::text::{push_hex_upper, push_signed_decimal, push_text, short_filename, spec_hex_upper, spec_short_filename, spec_signed_decimal, string_from_chars};

verus! {

/// One activation record of interpreted code.
#[derive(Clone, Debug)]
pub struct StackFrame {
    /// The function's name.
    pub name: String,
    /// The path of the source file.
    pub filename: String,
    /// What follows the last path separator of `filename`, if it has one.
    pub short_filename: Option<String>,
    /// The source line that the frame is executing.
    pub line: i32,
}

/// The stack of one interpreter thread, innermost frame first.
#[derive(Clone, Debug)]
pub struct StackTrace {
    /// The interpreter's identifier of the thread.
    pub thread_id: u64,
    /// Whether the thread is executing interpreted code.
    pub active: bool,
    /// Whether the thread holds the interpreter's global lock.
    pub owns_gil: bool,
    /// The frames, innermost first.
    pub frames: Vec<StackFrame>,
}

/// A stack frame as a mathematical value.
pub struct FrameView {
    pub name: Seq<char>,
    pub filename: Seq<char>,
    pub short_filename: Option<Seq<char>>,
    pub line: int,
}

/// A stack trace as a mathematical value.
pub struct TraceView {
    pub thread_id: nat,
    pub active: bool,
    pub owns_gil: bool,
    pub frames: Seq<FrameView>,
}

impl View for StackFrame {
    type V = FrameView;

    open spec fn view(&self) -> FrameView {
        FrameView {
            name: self.name@,
            filename: self.filename@,
            short_filename: match self.short_filename {
                Some(s) => Some(s@),
                None => None,
            },
            line: self.line as int,
        }
    }
}

/// The views of a sequence of frames.
pub open spec fn frames_view(frames: Seq<StackFrame>) -> Seq<FrameView> {
    Seq::new(frames.len(), |i: int| frames[i]@)
}

impl View for StackTrace {
    type V = TraceView;

    open spec fn view(&self) -> TraceView {
        TraceView {
            thread_id: self.thread_id as nat,
            active: self.active,
            owns_gil: self.owns_gil,
            frames: frames_view(self.frames@),
        }
    }
}

/// The views of a sequence of traces.
pub open spec fn traces_view(traces: Seq<StackTrace>) -> Seq<TraceView> {
    Seq::new(traces.len(), |i: int| traces[i]@)
}

/// The character sequences of a sequence of strings.
pub open spec fn lines_view(lines: Seq<String>) -> Seq<Seq<char>> {
    Seq::new(lines.len(), |i: int| lines[i]@)
}

/// The word for a thread's state.
pub open spec fn spec_status(active: bool) -> Seq<char> {
    if active {
        "active"@
    } else {
        "idle"@
    }
}

/// The file name shown for a frame: the short form where there is one.
pub open spec fn spec_display_filename(f: FrameView) -> Seq<char> {
    match f.short_filename {
        Some(s) => s,
        None => f.filename,
    }
}

/// A frame as text: the function's name, then file and line in parentheses.
pub open spec fn spec_frame_label(f: FrameView) -> Seq<char> {
    f.name + " ("@ + spec_display_filename(f) + ":"@ + spec_signed_decimal(f.line) + ")"@
}

/// The line of a dump for one frame.
pub open spec fn spec_frame_line(f: FrameView) -> Seq<char> {
    "\t "@ + spec_frame_label(f)
}

/// The first line of a dump for one trace.
pub open spec fn spec_trace_header(t: TraceView) -> Seq<char> {
    "Thread 0x"@ + spec_hex_upper(t.thread_id) + " ("@ + spec_status(t.active) + ")"@
}

/// The lines of a dump for one trace: the header, then one line for each frame.
pub open spec fn spec_trace_lines(t: TraceView) -> Seq<Seq<char>> {
    seq![spec_trace_header(t)] + Seq::new(t.frames.len(), |i: int| spec_frame_line(t.frames[i]))
}

/// The lines of a dump: the lines of each trace in order, idle traces left out
/// unless `show_idle` is set.
pub open spec fn spec_dump(traces: Seq<TraceView>, show_idle: bool) -> Seq<Seq<char>>
    decreases traces.len(),
{
    if traces.len() == 0 {
        Seq::empty()
    } else {
        spec_dump(traces.drop_last(), show_idle) + (if !show_idle && !traces.last().active {
            Seq::empty()
        } else {
            spec_trace_lines(traces.last())
        })
    }
}

/// A stack in collapsed form: the frames' labels from the outermost to the
/// innermost, separated by semicolons.
pub open spec fn spec_collapsed(frames: Seq<FrameView>) -> Seq<char>
    decreases frames.len(),
{
    if frames.len() == 0 {
        Seq::empty()
    } else if frames.len() == 1 {
        spec_frame_label(frames[0])
    } else {
        spec_frame_label(frames.last()) + ";"@ + spec_collapsed(frames.drop_last())
    }
}

impl StackFrame {
    /// Builds a frame from its name, file name and line; the short file name is
    /// derived from the file name.
    pub fn new(name: &Vec<char>, filename: &Vec<char>, line: i32) -> (frame: StackFrame)
        ensures
            frame@ == spec_frame(name@, filename@, line as int),
    {
        let short = match short_filename(filename) {
            Some(chars) => Some(string_from_chars(&chars)),
            None => None,
        };
        StackFrame {
            name: string_from_chars(name),
            filename: string_from_chars(filename),
            short_filename: short,
            line,
        }
    }

    /// The frame as text: name, then file and line in parentheses.
    pub fn label(&self) -> (text: Vec<char>)
        ensures
            text@ == spec_frame_label(self@),
    {
        let mut out: Vec<char> = Vec::new();
        push_text(&mut out, self.name.as_str());
        push_text(&mut out, " (");
        match &self.short_filename {
            Some(short) => push_text(&mut out, short.as_str()),
            None => push_text(&mut out, self.filename.as_str()),
        }
        push_text(&mut out, ":");
        push_signed_decimal(&mut out, self.line as i64);
        push_text(&mut out, ")");
        out
    }
}

/// The frame that a name, a file name and a line make up.
pub open spec fn spec_frame(name: Seq<char>, filename: Seq<char>, line: int) -> FrameView {
    FrameView { name, filename, short_filename: spec_short_filename(filename), line }
}

impl StackTrace {
    /// The word for the thread's state: `active` or `idle`.
    pub fn status_str(&self) -> (status: &'static str)
        ensures
            status@ == spec_status(self.active),
    {
        if self.active {
            "active"
        } else {
            "idle"
        }
    }

    /// The lines of a dump for this trace.
    pub fn dump_lines(&self) -> (lines: Vec<String>)
        ensures
            lines_view(lines@) == spec_trace_lines(self@),
    {
        let mut header: Vec<char> = Vec::new();
        push_text(&mut header, "Thread 0x");
        push_hex_upper(&mut header, self.thread_id);
        push_text(&mut header, " (");
        push_text(&mut header, self.status_str());
        push_text(&mut header, ")");
        let mut lines: Vec<String> = Vec::new();
        lines.push(string_from_chars(&header));
        let mut i: usize = 0;
        while i < self.frames.len()
            invariant
                i <= self.frames@.len(),
                lines_view(lines@) == seq![spec_trace_header(self@)] + Seq::new(
                    i as nat,
                    |k: int| spec_frame_line(self@.frames[k]),
                ),
            decreases self.frames@.len() - i,
        {
            let mut line: Vec<char> = Vec::new();
            push_text(&mut line, "\t ");
            let mut label = self.frames[i].label();
            line.append(&mut label);
            let ghost before = lines@;
            lines.push(string_from_chars(&line));
            assert(lines_view(lines@) =~= lines_view(before).push(spec_frame_line(self@.frames[i as int])));
            i += 1;
        }
        lines
    }

    /// The stack in collapsed form: labels from the outermost frame to the
    /// innermost, separated by semicolons.
    pub fn collapsed(&self) -> (text: String)
        ensures
            text@ == spec_collapsed(self@.frames),
    {
        let mut out: Vec<char> = Vec::new();
        let mut i: usize = self.frames.len();
        assert(self@.frames.take(i as int) == self@.frames);
        while i > 0
            invariant
                i <= self.frames@.len(),
                spec_collapsed(self@.frames) == out@ + spec_collapsed(self@.frames.take(i as int)),
            decreases i,
        {
            let ghost prefix = self@.frames.take(i as int);
            assert(prefix.drop_last() == self@.frames.take(i - 1));
            i -= 1;
            let mut label = self.frames[i].label();
            out.append(&mut label);
            if i > 0 {
                push_text(&mut out, ";");
            }
        }
        string_from_chars(&out)
    }
}

/// Renders a dump of stack traces: for each trace a header line with the thread's
/// identifier and state, then one line for each frame. Idle traces are left out
/// unless `show_idle` is set.
pub fn format_traces(traces: &Vec<StackTrace>, show_idle: bool) -> (lines: Vec<String>)
    ensures
        lines_view(lines@) == spec_dump(traces_view(traces@), show_idle),
{
    let mut lines: Vec<String> = Vec::new();
    let mut i: usize = 0;
    while i < traces.len()
        invariant
            i <= traces@.len(),
            lines_view(lines@) == spec_dump(traces_view(traces@).take(i as int), show_idle),
        decreases traces@.len() - i,
    {
        let ghost prefix = traces_view(traces@).take(i + 1);
        assert(prefix.drop_last() == traces_view(traces@).take(i as int));
        if show_idle || traces[i].active {
            let mut more = traces[i].dump_lines();
            lines.append(&mut more);
        }
        i += 1;
    }
    assert(traces_view(traces@).take(i as int) == traces_view(traces@));
    lines
}

/// A dump that shows idle threads holds one block for each trace, active or idle:
/// the dump of one trace is its header followed by one line for each frame, and
/// the dump of more traces is the dump of all but the last followed by the block
/// of the last.
pub proof fn lemma_dump_shows_every_trace(traces: Seq<TraceView>, t: TraceView)
    ensures
        spec_dump(seq![t], true) == spec_trace_lines(t),
        spec_trace_lines(t).len() == 1 + t.frames.len(),
        spec_trace_lines(t)[0] == spec_trace_header(t),
        spec_dump(traces.push(t), true) == spec_dump(traces, true) + spec_trace_lines(t),
        !t.active ==> spec_dump(traces.push(t), false) == spec_dump(traces, false),
{
    reveal_with_fuel(spec_dump, 3);
    assert(seq![t].drop_last() =~= Seq::<TraceView>::empty());
    assert(spec_dump(Seq::<TraceView>::empty(), true) =~= Seq::<Seq<char>>::empty());
    assert(seq![t].last() == t);
    assert(spec_dump(seq![t], true) =~= spec_trace_lines(t));
    assert(traces.push(t).drop_last() =~= traces);
    assert(spec_dump(traces.push(t), false) =~= spec_dump(traces, false) + (if !t.active {
        Seq::<Seq<char>>::empty()
    } else {
        spec_trace_lines(t)
    }));
}

} // verus!
