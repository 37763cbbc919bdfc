//! The stack walker: from the interpreter-state through the list of thread-states
//! and each thread's chain of frames to stack traces. Every structure is read out
//! of the target one at a time and decoded into a plain value; no remote pointer
//! is followed more often than the limits allow.

use vstd::prelude::*;
use crate::error::{ErrorKind, SpyError};
use crate::layout::{BytesLayout, FrameObject, Layout, StringLayout, ThreadState};
use crate::lnotab::{line_number, spec_line_number};
use crate::memory::{spec_read_error, MemoryImage, MemorySource};
use crate::stack_trace::{
    frames_view, spec_frame, traces_view, FrameView, StackFrame, StackTrace, TraceView,
};
use crate::strings::{decode_text, spec_decode_text, spec_text_plan, text_plan, unknown_text};

verus! {

/// How far the walker follows the target's pointers.
#[derive(Clone, Copy, Debug, PartialEq, Eq, Structural)]
pub struct WalkLimits {
    /// The most thread-states followed from the head of the list.
    pub max_threads: usize,
    /// The most frames followed from a thread's innermost frame.
    pub max_depth: usize,
    /// The most characters of a string, and bytes of a line-number table, read.
    pub max_text: usize,
    /// The most slots of heap-like regions looked at when the thread list is
    /// searched for.
    pub max_scan: usize,
}

impl WalkLimits {
    /// The limits used unless the caller sets others: 1024 threads, 128 frames,
    /// 4096 characters, and a million slots.
    pub fn standard() -> (lim: WalkLimits)
        ensures
            lim == (WalkLimits {
                max_threads: 1024,
                max_depth: 128,
                max_text: 4096,
                max_scan: 0x10_0000,
            }),
    {
        WalkLimits { max_threads: 1024, max_depth: 128, max_text: 4096, max_scan: 0x10_0000 }
    }
}

/// The kinds of failure that end a whole sample; every other kind is local to the
/// structure being read.
pub open spec fn spec_is_fatal(kind: ErrorKind) -> bool {
    kind == ErrorKind::ProcessGone || kind == ErrorKind::PermissionDenied
}

/// Whether an error ends a whole sample as the target gave it: it is of a kind that
/// ends the sample, and it is the operating system's failure of a read, with the
/// system's raw code and permission flag in its only cause. The exit test and the
/// permission test, which go by the causes, find such an error.
pub open spec fn spec_ends_sample(e: SpyError) -> bool {
    spec_is_fatal(e.kind) && e.spec_os_failure()
}

/// Tells whether a kind of failure ends a whole sample.
pub fn is_fatal(kind: ErrorKind) -> (fatal: bool)
    ensures
        fatal == spec_is_fatal(kind),
{
    match kind {
        ErrorKind::ProcessGone => true,
        ErrorKind::PermissionDenied => true,
        _ => false,
    }
}

/// The view of bytes that may be missing.
pub open spec fn opt_bytes(found: Option<Vec<u8>>) -> Option<Seq<u8>> {
    match found {
        Some(b) => Some(b@),
        None => None,
    }
}

/// The view of characters that may be missing.
pub open spec fn opt_chars(found: Option<Vec<char>>) -> Option<Seq<char>> {
    match found {
        Some(b) => Some(b@),
        None => None,
    }
}

/// The view of a frame that may be missing.
pub open spec fn opt_frame(found: Option<StackFrame>) -> Option<FrameView> {
    match found {
        Some(f) => Some(f@),
        None => None,
    }
}

/// The view of frames that may be missing.
pub open spec fn opt_frames(found: Option<Vec<StackFrame>>) -> Option<Seq<FrameView>> {
    match found {
        Some(f) => Some(frames_view(f@)),
        None => None,
    }
}

/// The view of a decoded frame object with the frame shown for it.
pub open spec fn opt_step(found: Option<(FrameObject, Option<StackFrame>)>) -> Option<
    (FrameObject, Option<FrameView>),
> {
    match found {
        Some((f, v)) => Some((f, opt_frame(v))),
        None => None,
    }
}

/// The remote address `offset` bytes after `addr`, where there is one.
pub open spec fn spec_offset(addr: u64, offset: usize) -> Option<u64> {
    if addr + offset <= u64::MAX {
        Some((addr + offset) as u64)
    } else {
        None
    }
}

/// The contents of the bytes object at `addr` in an image; none where the object
/// cannot be read or holds more than `max` bytes.
pub open spec fn spec_remote_bytes(img: MemoryImage, l: BytesLayout, max: usize, addr: u64) -> Option<
    Seq<u8>,
> {
    match img.spec_read(addr, l.size as nat) {
        None => None,
        Some(buf) => match l.spec_decode(buf) {
            None => None,
            Some(h) => if h.length > max {
                None
            } else {
                match spec_offset(addr, l.data) {
                    None => None,
                    Some(data) => img.spec_read(data, h.length as nat),
                }
            },
        },
    }
}

/// The text of the string object at `addr` in an image: `<unknown>` where the
/// header announces a form that is not supported; none where the object cannot be
/// read or holds more than `max` characters.
pub open spec fn spec_remote_text(img: MemoryImage, l: StringLayout, max: usize, addr: u64) -> Option<
    Seq<char>,
> {
    match img.spec_read(addr, l.size as nat) {
        None => None,
        Some(buf) => match l.spec_decode(buf) {
            None => None,
            Some(h) => match spec_text_plan(l, h) {
                None => Some("<unknown>"@),
                Some(p) => if h.length > max || h.length * p.width > usize::MAX {
                    None
                } else {
                    match spec_offset(addr, p.offset) {
                        None => None,
                        Some(data) => match img.spec_read(data, (h.length * p.width) as nat) {
                            None => None,
                            Some(bytes) => Some(spec_decode_text(bytes, p.width as nat)),
                        },
                    }
                },
            },
        },
    }
}

/// The frame shown for the code object at `code` when the instruction index is
/// `lasti`; none where the code object, one of its strings or its line-number
/// table cannot be read, or the line does not fit in 32 bits.
pub open spec fn spec_code_frame(img: MemoryImage, l: Layout, lim: WalkLimits, code: u64, lasti: i32) -> Option<
    FrameView,
> {
    match img.spec_read(code, l.code.size as nat) {
        None => None,
        Some(buf) => match l.code.spec_decode(buf) {
            None => None,
            Some(c) => match spec_remote_text(img, l.string, lim.max_text, c.name) {
                None => None,
                Some(name) => match spec_remote_text(img, l.string, lim.max_text, c.filename) {
                    None => None,
                    Some(filename) => match spec_remote_bytes(img, l.bytes, lim.max_text, c.lnotab) {
                        None => None,
                        Some(table) => {
                            let line = spec_line_number(
                                c.first_line as int,
                                table,
                                lasti as int,
                                l.signed_line_deltas,
                            );
                            if i32::MIN <= line <= i32::MAX {
                                Some(spec_frame(name, filename, line))
                            } else {
                                None
                            }
                        },
                    },
                },
            },
        },
    }
}

/// The frame object at `addr` in an image, with the frame shown for it: none is
/// shown for a frame without a code object.
pub open spec fn spec_frame_at(img: MemoryImage, l: Layout, lim: WalkLimits, addr: u64) -> Option<
    (FrameObject, Option<FrameView>),
> {
    match img.spec_read(addr, l.frame.size as nat) {
        None => None,
        Some(buf) => match l.frame.spec_decode(buf) {
            None => None,
            Some(f) => if f.code == 0 {
                Some((f, None))
            } else {
                match spec_code_frame(img, l, lim, f.code, f.lasti) {
                    None => None,
                    Some(v) => Some((f, Some(v))),
                }
            },
        },
    }
}

/// The sequence of a frame that may be missing.
pub open spec fn spec_shown(v: Option<FrameView>) -> Seq<FrameView> {
    match v {
        Some(x) => seq![x],
        None => Seq::empty(),
    }
}

/// Frames in front of frames that may be missing.
pub open spec fn spec_prepend(front: Seq<FrameView>, rest: Option<Seq<FrameView>>) -> Option<
    Seq<FrameView>,
> {
    match rest {
        Some(r) => Some(front + r),
        None => None,
    }
}

/// The frames of the chain that starts at `addr`, innermost first. The chain is
/// followed through the back pointers until a null pointer, and through `fuel`
/// frame objects at most. A frame that cannot be read makes the whole chain
/// missing.
pub open spec fn spec_frames(img: MemoryImage, l: Layout, lim: WalkLimits, addr: u64, fuel: nat) -> Option<
    Seq<FrameView>,
>
    decreases fuel,
{
    if addr == 0 || fuel == 0 {
        Some(Seq::empty())
    } else {
        match spec_frame_at(img, l, lim, addr) {
            None => None,
            Some((f, v)) => spec_prepend(
                spec_shown(v),
                spec_frames(img, l, lim, f.back, (fuel - 1) as nat),
            ),
        }
    }
}

/// The trace of a thread: it is active when it holds the global lock and has a
/// frame.
pub open spec fn spec_trace(thread_id: u64, owns_gil: bool, frames: Seq<FrameView>) -> TraceView {
    TraceView {
        thread_id: thread_id as nat,
        active: owns_gil && frames.len() > 0,
        owns_gil,
        frames,
    }
}

/// The traces that the thread-state at `addr` adds: one, or none where its frames
/// cannot be read.
pub open spec fn spec_thread_trace(
    img: MemoryImage,
    l: Layout,
    lim: WalkLimits,
    addr: u64,
    t: ThreadState,
    holder: u64,
) -> Seq<TraceView> {
    match spec_frames(img, l, lim, t.frame, lim.max_depth as nat) {
        None => Seq::empty(),
        Some(frames) => seq![spec_trace(t.thread_id, addr == holder, frames)],
    }
}

/// The traces of the list of thread-states that starts at `addr`, in list order.
/// The list is followed until a null pointer or a thread-state that cannot be
/// read, and through `fuel` thread-states at most.
pub open spec fn spec_threads(
    img: MemoryImage,
    l: Layout,
    lim: WalkLimits,
    addr: u64,
    holder: u64,
    fuel: nat,
) -> Seq<TraceView>
    decreases fuel,
{
    if addr == 0 || fuel == 0 {
        Seq::empty()
    } else {
        match img.spec_read(addr, l.thread.size as nat) {
            None => Seq::empty(),
            Some(buf) => match l.thread.spec_decode(buf) {
                None => Seq::empty(),
                Some(t) => spec_thread_trace(img, l, lim, addr, t, holder) + spec_threads(
                    img,
                    l,
                    lim,
                    t.next,
                    holder,
                    (fuel - 1) as nat,
                ),
            },
        }
    }
}

/// The traces of every thread of the interpreter-state at `root` in an image, or
/// the kind of failure where the interpreter-state cannot be read.
pub open spec fn spec_walk(img: MemoryImage, l: Layout, lim: WalkLimits, root: u64) -> Result<
    Seq<TraceView>,
    ErrorKind,
> {
    match img.spec_read(root, l.interp.size as nat) {
        None => Err(ErrorKind::BadAddress),
        Some(buf) => match l.interp.spec_decode(buf) {
            None => Err(ErrorKind::LayoutValidationFailed),
            Some(s) => Ok(spec_threads(img, l, lim, s.tstate_head, s.gil_holder, lim.max_threads as nat)),
        },
    }
}

/// Tells a failed read that ends the sample from one that is local: a failure of a
/// kind that ends the sample is handed on as it is, a local failure gives
/// `Ok(None)`, and bytes that were read are handed on.
pub fn classify_read(read: Result<Vec<u8>, SpyError>) -> (r: Result<Option<Vec<u8>>, SpyError>)
    ensures
        match read {
            Ok(bytes) => r == Ok::<Option<Vec<u8>>, SpyError>(Some(bytes)),
            Err(e) => if spec_is_fatal(e.kind) {
                r == Err::<Option<Vec<u8>>, SpyError>(e)
            } else {
                r == Ok::<Option<Vec<u8>>, SpyError>(None)
            },
        },
{
    match read {
        Ok(bytes) => Ok(Some(bytes)),
        Err(e) => {
            if is_fatal(e.kind) {
                Err(e)
            } else {
                Ok(None)
            }
        },
    }
}

/// Reads `len` bytes at `addr`, telling failures that end the sample from those
/// that are local: a local failure gives `Ok(None)`.
pub fn local_read(src: &MemorySource, addr: u64, len: usize) -> (r: Result<Option<Vec<u8>>, SpyError>)
    ensures
        r matches Ok(Some(bytes)) ==> bytes@.len() == len,
        r matches Err(e) ==> spec_ends_sample(e),
        len == 0 ==> (r matches Ok(Some(bytes)) && bytes@.len() == 0),
        src.spec_image() matches Some(img) ==> r matches Ok(found) && opt_bytes(found)
            == img.spec_read(addr, len as nat),
{
    classify_read(src.read(addr, len))
}

/// Reads the contents of a bytes object.
pub fn remote_bytes(src: &MemorySource, l: &BytesLayout, max: usize, addr: u64) -> (r: Result<
    Option<Vec<u8>>,
    SpyError,
>)
    requires
        l.wf(),
    ensures
        r matches Ok(Some(bytes)) ==> bytes@.len() <= max,
        r matches Err(e) ==> spec_ends_sample(e),
        src.spec_image() matches Some(img) ==> r matches Ok(found) && opt_bytes(found)
            == spec_remote_bytes(img, *l, max, addr),
{
    let buf = match local_read(src, addr, l.size)? {
        Some(b) => b,
        None => {
            return Ok(None);
        },
    };
    let h = match l.decode(buf.as_slice()) {
        Some(h) => h,
        None => {
            return Ok(None);
        },
    };
    if h.length > max as u64 {
        return Ok(None);
    }
    let data = match addr.checked_add(l.data as u64) {
        Some(d) => d,
        None => {
            return Ok(None);
        },
    };
    local_read(src, data, h.length as usize)
}

/// Reads the text of a string object.
pub fn remote_text(src: &MemorySource, l: &StringLayout, max: usize, addr: u64) -> (r: Result<
    Option<Vec<char>>,
    SpyError,
>)
    requires
        l.wf(),
    ensures
        r matches Err(e) ==> spec_ends_sample(e),
        src.spec_image() matches Some(img) ==> r matches Ok(found) && opt_chars(found)
            == spec_remote_text(img, *l, max, addr),
{
    let buf = match local_read(src, addr, l.size)? {
        Some(b) => b,
        None => {
            return Ok(None);
        },
    };
    let h = match l.decode(buf.as_slice()) {
        Some(h) => h,
        None => {
            return Ok(None);
        },
    };
    let plan = match text_plan(l, &h) {
        Some(p) => p,
        None => {
            return Ok(Some(unknown_text()));
        },
    };
    if h.length > max as u64 {
        return Ok(None);
    }
    let size = match (h.length as usize).checked_mul(plan.width) {
        Some(s) => s,
        None => {
            return Ok(None);
        },
    };
    let data = match addr.checked_add(plan.offset as u64) {
        Some(d) => d,
        None => {
            return Ok(None);
        },
    };
    match local_read(src, data, size)? {
        Some(bytes) => Ok(Some(decode_text(bytes.as_slice(), plan.width))),
        None => Ok(None),
    }
}

/// Builds the frame shown for a code object and an instruction index.
pub fn code_frame(src: &MemorySource, l: &Layout, lim: &WalkLimits, code: u64, lasti: i32) -> (r: Result<
    Option<StackFrame>,
    SpyError,
>)
    requires
        l.wf(),
    ensures
        r matches Err(e) ==> spec_ends_sample(e),
        src.spec_image() matches Some(img) ==> r matches Ok(found) && opt_frame(found)
            == spec_code_frame(img, *l, *lim, code, lasti),
{
    let buf = match local_read(src, code, l.code.size)? {
        Some(b) => b,
        None => {
            return Ok(None);
        },
    };
    let c = match l.code.decode(buf.as_slice()) {
        Some(c) => c,
        None => {
            return Ok(None);
        },
    };
    let name = match remote_text(src, &l.string, lim.max_text, c.name)? {
        Some(t) => t,
        None => {
            return Ok(None);
        },
    };
    let filename = match remote_text(src, &l.string, lim.max_text, c.filename)? {
        Some(t) => t,
        None => {
            return Ok(None);
        },
    };
    let table = match remote_bytes(src, &l.bytes, lim.max_text, c.lnotab)? {
        Some(t) => t,
        None => {
            return Ok(None);
        },
    };
    match line_number(c.first_line, table.as_slice(), lasti, l.signed_line_deltas) {
        Some(line) => Ok(Some(StackFrame::new(&name, &filename, line))),
        None => Ok(None),
    }
}

/// Reads the frame object at `addr` and builds the frame shown for it.
pub fn frame_at(src: &MemorySource, l: &Layout, lim: &WalkLimits, addr: u64) -> (r: Result<
    Option<(FrameObject, Option<StackFrame>)>,
    SpyError,
>)
    requires
        l.wf(),
    ensures
        r matches Err(e) ==> spec_ends_sample(e),
        src.spec_image() matches Some(img) ==> r matches Ok(found) && opt_step(found)
            == spec_frame_at(img, *l, *lim, addr),
{
    let buf = match local_read(src, addr, l.frame.size)? {
        Some(b) => b,
        None => {
            return Ok(None);
        },
    };
    let f = match l.frame.decode(buf.as_slice()) {
        Some(f) => f,
        None => {
            return Ok(None);
        },
    };
    if f.code == 0 {
        return Ok(Some((f, None)));
    }
    match code_frame(src, l, lim, f.code, f.lasti)? {
        Some(v) => Ok(Some((f, Some(v)))),
        None => Ok(None),
    }
}

/// Walks a chain of frames from the innermost outward. The result holds at most
/// `max_depth` frames, whatever the target's memory holds; `Ok(None)` says that the
/// chain could not be read and the thread is to be dropped.
pub fn walk_frames(src: &MemorySource, l: &Layout, lim: &WalkLimits, start: u64) -> (r: Result<
    Option<Vec<StackFrame>>,
    SpyError,
>)
    requires
        l.wf(),
    ensures
        r matches Ok(Some(frames)) ==> frames@.len() <= lim.max_depth,
        r matches Err(e) ==> spec_ends_sample(e),
        src.spec_image() matches Some(img) ==> r matches Ok(found) && opt_frames(found)
            == spec_frames(img, *l, *lim, start, lim.max_depth as nat),
{
    let mut frames: Vec<StackFrame> = Vec::new();
    let mut cur: u64 = start;
    let mut remaining: usize = lim.max_depth;
    while cur != 0 && remaining > 0
        invariant
            l.wf(),
            frames@.len() + remaining <= lim.max_depth,
            src.spec_image() matches Some(img) ==> spec_frames(
                img,
                *l,
                *lim,
                start,
                lim.max_depth as nat,
            ) == spec_prepend(frames_view(frames@), spec_frames(img, *l, *lim, cur, remaining as nat)),
        decreases remaining,
    {
        let step = frame_at(src, l, lim, cur)?;
        match step {
            None => {
                return Ok(None);
            },
            Some((f, shown)) => {
                match shown {
                    Some(frame) => {
                        frames.push(frame);
                    },
                    None => {},
                }
                cur = f.back;
                remaining -= 1;
            },
        }
    }
    Ok(Some(frames))
}

/// Walks the list of thread-states from `head` and builds a trace for each thread
/// whose frames can be read; `holder` is the thread-state that holds the global
/// lock. The result holds at most `max_threads` traces of at most `max_depth`
/// frames each, whatever the target's memory holds.
pub fn walk_threads(src: &MemorySource, l: &Layout, lim: &WalkLimits, head: u64, holder: u64) -> (r:
    Result<Vec<StackTrace>, SpyError>)
    requires
        l.wf(),
    ensures
        r matches Ok(traces) ==> traces@.len() <= lim.max_threads && forall|i: int|
            0 <= i < traces@.len() ==> (#[trigger] traces@[i]).frames@.len() <= lim.max_depth,
        r matches Err(e) ==> spec_ends_sample(e),
        src.spec_image() matches Some(img) ==> r matches Ok(traces) && traces_view(traces@)
            == spec_threads(img, *l, *lim, head, holder, lim.max_threads as nat),
{
    let mut traces: Vec<StackTrace> = Vec::new();
    let mut cur: u64 = head;
    let mut remaining: usize = lim.max_threads;
    while cur != 0 && remaining > 0
        invariant
            l.wf(),
            traces@.len() + remaining <= lim.max_threads,
            forall|i: int|
                0 <= i < traces@.len() ==> (#[trigger] traces@[i]).frames@.len() <= lim.max_depth,
            src.spec_image() matches Some(img) ==> spec_threads(
                img,
                *l,
                *lim,
                head,
                holder,
                lim.max_threads as nat,
            ) == traces_view(traces@) + spec_threads(img, *l, *lim, cur, holder, remaining as nat),
        decreases remaining,
    {
        let buf = match local_read(src, cur, l.thread.size)? {
            Some(b) => b,
            None => {
                return Ok(traces);
            },
        };
        let t = match l.thread.decode(buf.as_slice()) {
            Some(t) => t,
            None => {
                return Ok(traces);
            },
        };
        let found = walk_frames(src, l, lim, t.frame)?;
        match found {
            Some(frames) => {
                let owns_gil = cur == holder;
                let active = owns_gil && frames.len() > 0;
                let trace = StackTrace { thread_id: t.thread_id, active, owns_gil, frames };
                traces.push(trace);
            },
            None => {},
        }
        cur = t.next;
        remaining -= 1;
    }
    Ok(traces)
}

/// Builds the traces of every thread from the result of reading the
/// interpreter-state at the root. A failed read of the root fails the sample with
/// the same kind of failure.
pub fn walk_from(
    src: &MemorySource,
    l: &Layout,
    lim: &WalkLimits,
    root_read: Result<Vec<u8>, SpyError>,
) -> (r: Result<Vec<StackTrace>, SpyError>)
    requires
        l.wf(),
    ensures
        r matches Ok(traces) ==> traces@.len() <= lim.max_threads && forall|i: int|
            0 <= i < traces@.len() ==> (#[trigger] traces@[i]).frames@.len() <= lim.max_depth,
        root_read matches Err(e) ==> r == Err::<Vec<StackTrace>, SpyError>(e),
        root_read matches Ok(buf) ==> match l.interp.spec_decode(buf@) {
            None => r matches Err(e) && e.kind == ErrorKind::LayoutValidationFailed && e.causes@.len()
                == 0,
            Some(s) => (r matches Err(e) ==> spec_ends_sample(e)) && (src.spec_image() matches Some(
                img,
            ) ==> r matches Ok(traces) && traces_view(traces@) == spec_threads(
                img,
                *l,
                *lim,
                s.tstate_head,
                s.gil_holder,
                lim.max_threads as nat,
            )),
        },
{
    match root_read {
        Err(e) => Err(e),
        Ok(buf) => {
            match l.interp.decode(buf.as_slice()) {
                None => Err(SpyError::new(ErrorKind::LayoutValidationFailed)),
                Some(s) => walk_threads(src, l, lim, s.tstate_head, s.gil_holder),
            }
        },
    }
}

/// Produces the stack traces of every interpreter thread, in list order, from the
/// interpreter-state at `root`. From an image the result is that of `spec_walk`.
/// From a live process the traces are what the reads gave; either way they are
/// bounded by the limits.
pub fn walk(src: &MemorySource, l: &Layout, lim: &WalkLimits, root: u64) -> (r: Result<
    Vec<StackTrace>,
    SpyError,
>)
    requires
        l.wf(),
    ensures
        r matches Ok(traces) ==> traces@.len() <= lim.max_threads && forall|i: int|
            0 <= i < traces@.len() ==> (#[trigger] traces@[i]).frames@.len() <= lim.max_depth,
        r matches Err(e) ==> spec_read_error(e),
        src.spec_image() matches Some(img) ==> match spec_walk(img, *l, *lim, root) {
            Ok(expected) => r matches Ok(traces) && traces_view(traces@) == expected,
            Err(kind) => r matches Err(e) && e.kind == kind,
        },
{
    let root_read = src.read(root, l.interp.size);
    walk_from(src, l, lim, root_read)
}

/// The addresses of the thread-states that a walk of the list visits, in list order.
pub open spec fn spec_thread_addrs(img: MemoryImage, l: Layout, addr: u64, fuel: nat) -> Seq<u64>
    decreases fuel,
{
    if addr == 0 || fuel == 0 {
        Seq::empty()
    } else {
        match img.spec_read(addr, l.thread.size as nat) {
            None => Seq::empty(),
            Some(buf) => match l.thread.spec_decode(buf) {
                None => Seq::empty(),
                Some(t) => seq![addr] + spec_thread_addrs(img, l, t.next, (fuel - 1) as nat),
            },
        }
    }
}

/// Whether the frames of every thread-state that a walk of the list visits can be
/// read.
pub open spec fn spec_all_readable(img: MemoryImage, l: Layout, lim: WalkLimits, addr: u64, fuel: nat) -> bool
    decreases fuel,
{
    if addr == 0 || fuel == 0 {
        true
    } else {
        match img.spec_read(addr, l.thread.size as nat) {
            None => true,
            Some(buf) => match l.thread.spec_decode(buf) {
                None => true,
                Some(t) => spec_frames(img, l, lim, t.frame, lim.max_depth as nat).is_some()
                    && spec_all_readable(img, l, lim, t.next, (fuel - 1) as nat),
            },
        }
    }
}

/// The thread-state at an address of an image.
pub open spec fn spec_thread_at(img: MemoryImage, l: Layout, addr: u64) -> Option<ThreadState> {
    match img.spec_read(addr, l.thread.size as nat) {
        None => None,
        Some(buf) => l.thread.spec_decode(buf),
    }
}

/// Whether a trace is that of the thread-state at `addr`: the thread-state and its
/// frames can be read, and the trace carries the identifier and the frames of the
/// thread-state and owns the global lock exactly when `addr` is the holder.
pub open spec fn spec_trace_of(
    img: MemoryImage,
    l: Layout,
    lim: WalkLimits,
    addr: u64,
    holder: u64,
    trace: TraceView,
) -> bool {
    spec_thread_at(img, l, addr) matches Some(t) && spec_frames(
        img,
        l,
        lim,
        t.frame,
        lim.max_depth as nat,
    ) matches Some(frames) && trace == spec_trace(t.thread_id, addr == holder, frames)
}

/// A walk gives no more traces than it visits thread-states and follows no more
/// than `fuel` of them. Where the frames of every thread can be read it gives one
/// trace for each thread-state, in list order: the trace carries the identifier
/// and the frames of its thread-state, owns the global lock exactly when its
/// thread-state is the holder, and is active exactly when it owns the lock and
/// has a frame.
pub proof fn lemma_threads_shape(
    img: MemoryImage,
    l: Layout,
    lim: WalkLimits,
    addr: u64,
    holder: u64,
    fuel: nat,
)
    ensures
        spec_threads(img, l, lim, addr, holder, fuel).len() <= spec_thread_addrs(img, l, addr, fuel).len(),
        spec_thread_addrs(img, l, addr, fuel).len() <= fuel,
        spec_all_readable(img, l, lim, addr, fuel) ==> {
            let traces = spec_threads(img, l, lim, addr, holder, fuel);
            let addrs = spec_thread_addrs(img, l, addr, fuel);
            &&& traces.len() == addrs.len()
            &&& forall|i: int|
                0 <= i < traces.len() ==> #[trigger] spec_trace_of(
                    img,
                    l,
                    lim,
                    addrs[i],
                    holder,
                    traces[i],
                )
        },
    decreases fuel,
{
    if addr == 0 || fuel == 0 {
    } else {
        match img.spec_read(addr, l.thread.size as nat) {
            None => {},
            Some(buf) => match l.thread.spec_decode(buf) {
                None => {},
                Some(t) => {
                    lemma_threads_shape(img, l, lim, t.next, holder, (fuel - 1) as nat);
                    let here = spec_thread_trace(img, l, lim, addr, t, holder);
                    let rest = spec_threads(img, l, lim, t.next, holder, (fuel - 1) as nat);
                    let rest_addrs = spec_thread_addrs(img, l, t.next, (fuel - 1) as nat);
                    let traces = spec_threads(img, l, lim, addr, holder, fuel);
                    let addrs = spec_thread_addrs(img, l, addr, fuel);
                    if spec_all_readable(img, l, lim, addr, fuel) {
                        assert forall|i: int| 0 <= i < traces.len() implies #[trigger] spec_trace_of(
                            img,
                            l,
                            lim,
                            addrs[i],
                            holder,
                            traces[i],
                        ) by {
                        }
                    }
                },
            },
        }
    }
}

/// Thread liveness. Take a target whose list holds exactly `k` thread-states, each
/// with frames that can be read, of which exactly one, at position `holder_index`,
/// holds the global lock, and let the holder have at least one frame. Then the
/// walk returns exactly `k` traces and exactly one of them, the holder's, is
/// active.
pub proof fn lemma_thread_liveness(
    img: MemoryImage,
    l: Layout,
    lim: WalkLimits,
    head: u64,
    holder: u64,
    k: nat,
    holder_index: int,
)
    requires
        spec_thread_addrs(img, l, head, lim.max_threads as nat).len() == k,
        spec_all_readable(img, l, lim, head, lim.max_threads as nat),
        0 <= holder_index < k,
        forall|j: int|
            0 <= j < k ==> ((#[trigger] spec_thread_addrs(img, l, head, lim.max_threads as nat)[j])
                == holder <==> j == holder_index),
        spec_thread_at(img, l, holder) matches Some(t) && spec_frames(
            img,
            l,
            lim,
            t.frame,
            lim.max_depth as nat,
        ) matches Some(frames) && frames.len() > 0,
    ensures
        spec_threads(img, l, lim, head, holder, lim.max_threads as nat).len() == k,
        forall|j: int|
            0 <= j < k ==> ((#[trigger] spec_threads(
                img,
                l,
                lim,
                head,
                holder,
                lim.max_threads as nat,
            )[j]).active <==> j == holder_index),
{
    lemma_threads_shape(img, l, lim, head, holder, lim.max_threads as nat);
    let traces = spec_threads(img, l, lim, head, holder, lim.max_threads as nat);
    let addrs = spec_thread_addrs(img, l, head, lim.max_threads as nat);
    assert forall|j: int| 0 <= j < k implies ((#[trigger] traces[j]).active <==> j == holder_index) by {
        assert(spec_trace_of(img, l, lim, addrs[j], holder, traces[j]));
    }
}

/// Frame-bound safety. Whatever the image holds, a chain of frames, be it a cycle,
/// gives at most `fuel` frames.
pub proof fn lemma_frames_bounded(img: MemoryImage, l: Layout, lim: WalkLimits, addr: u64, fuel: nat)
    ensures
        spec_frames(img, l, lim, addr, fuel) matches Some(frames) ==> frames.len() <= fuel,
    decreases fuel,
{
    if addr != 0 && fuel != 0 {
        match spec_frame_at(img, l, lim, addr) {
            None => {},
            Some((f, v)) => {
                lemma_frames_bounded(img, l, lim, f.back, (fuel - 1) as nat);
            },
        }
    }
}

} // verus!
