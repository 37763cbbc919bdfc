//! Locating the interpreter's thread list in the target: the validation of a
//! candidate thread-state, the hints that symbols give, and the scan of heap-like
//! regions.

use vstd::prelude::*;
use crate::bytes::{read_field, spec_read_field, FieldLayout};
use crate::error::{ErrorKind, SpyError};
use crate::layout::Layout;
use crate::maps::{records_view, ModuleMap, RecordView};
use crate::memory::{MemoryImage, MemorySource};
use crate::walker::{classify_read, local_read, spec_ends_sample, spec_is_fatal, WalkLimits};

verus! {

/// The name of the type of code objects, with the zero byte that ends it.
pub open spec fn spec_code_type_name() -> Seq<u8> {
    seq![99u8, 111u8, 100u8, 101u8, 0u8]
}

/// A thread-state found in the target, with the interpreter-state that owns it.
#[derive(Clone, Copy, Debug, PartialEq, Eq, Structural)]
pub struct Located {
    /// The thread-state that passed the validation.
    pub thread: u64,
    /// The interpreter-state: the root of the thread list.
    pub root: u64,
}

/// Whether the object at `type_ptr` is a type whose name is that of code objects.
pub open spec fn spec_code_type_ok(img: MemoryImage, l: Layout, type_ptr: u64) -> bool {
    match img.spec_read(type_ptr, l.type_object.size as nat) {
        None => false,
        Some(buf) => match l.type_object.spec_decode(buf) {
            None => false,
            Some(ty) => img.spec_read(ty.name, 5) == Some(spec_code_type_name()),
        },
    }
}

/// Whether a thread's innermost frame passes: a null pointer does; any other must
/// point to a frame object whose code pointer points to an object of the code
/// type.
pub open spec fn spec_frame_valid(img: MemoryImage, l: Layout, frame: u64) -> bool {
    if frame == 0 {
        true
    } else {
        match img.spec_read(frame, l.frame.size as nat) {
            None => false,
            Some(buf) => match l.frame.spec_decode(buf) {
                None => false,
                Some(f) => f.code != 0 && match img.spec_read(f.code, l.code.size as nat) {
                    None => false,
                    Some(cbuf) => match l.code.spec_decode(cbuf) {
                        None => false,
                        Some(c) => spec_code_type_ok(img, l, c.type_ptr),
                    },
                },
            },
        }
    }
}

/// Whether the list of thread-states from `addr` on ends within `fuel`
/// thread-states, each of which can be read, names `interp` as its
/// interpreter-state, and has an innermost frame that passes.
pub open spec fn spec_list_valid(img: MemoryImage, l: Layout, interp: u64, addr: u64, fuel: nat) -> bool
    decreases fuel,
{
    if addr == 0 {
        true
    } else if fuel == 0 {
        false
    } else {
        match img.spec_read(addr, l.thread.size as nat) {
            None => false,
            Some(buf) => match l.thread.spec_decode(buf) {
                None => false,
                Some(t) => t.interp == interp && spec_frame_valid(img, l, t.frame)
                    && spec_list_valid(img, l, interp, t.next, (fuel - 1) as nat),
            },
        }
    }
}

/// The validation of a thread-state whose bytes were read: its interpreter pointer
/// points to an interpreter-state that can be read, and the thread list of that
/// interpreter-state is not empty, ends within the limit, and holds only
/// thread-states that name the interpreter-state as theirs and whose innermost
/// frames pass. The result is the address of the interpreter-state.
pub open spec fn spec_validate_read(img: MemoryImage, l: Layout, lim: WalkLimits, buf: Seq<u8>) -> Option<
    u64,
> {
    match l.thread.spec_decode(buf) {
        None => None,
        Some(ts) => if ts.interp == 0 {
            None
        } else {
            match img.spec_read(ts.interp, l.interp.size as nat) {
                None => None,
                Some(ibuf) => match l.interp.spec_decode(ibuf) {
                    None => None,
                    Some(s) => if s.tstate_head != 0 && spec_list_valid(
                        img,
                        l,
                        ts.interp,
                        s.tstate_head,
                        lim.max_threads as nat,
                    ) {
                        Some(ts.interp)
                    } else {
                        None
                    },
                },
            }
        },
    }
}

/// The validation of a candidate thread-state: it can be read and what was read
/// passes. The result is the address of the interpreter-state.
pub open spec fn spec_validate(img: MemoryImage, l: Layout, lim: WalkLimits, candidate: u64) -> Option<
    u64,
> {
    match img.spec_read(candidate, l.thread.size as nat) {
        None => None,
        Some(buf) => spec_validate_read(img, l, lim, buf),
    }
}

/// The slot of one pointer at the start of a buffer.
pub open spec fn spec_pointer_slot(l: Layout) -> FieldLayout {
    FieldLayout { offset: 0, width: l.pointer_width }
}

/// What the slot at `slot` leads to: the pointer it holds, unless it is null,
/// validated as a thread-state.
pub open spec fn spec_try_slot(img: MemoryImage, l: Layout, lim: WalkLimits, slot: u64) -> Option<
    Located,
> {
    match img.spec_read(slot, l.pointer_width as nat) {
        None => None,
        Some(buf) => {
            let candidate = spec_read_field(buf, spec_pointer_slot(l)) as u64;
            if candidate == 0 {
                None
            } else {
                match spec_validate(img, l, lim, candidate) {
                    Some(root) => Some(Located { thread: candidate, root }),
                    None => None,
                }
            }
        },
    }
}

/// What the first slot among the hints that leads to a valid thread-state leads
/// to.
pub open spec fn spec_try_hints(img: MemoryImage, l: Layout, lim: WalkLimits, hints: Seq<u64>) -> Option<
    Located,
>
    decreases hints.len(),
{
    if hints.len() == 0 {
        None
    } else {
        match spec_try_slot(img, l, lim, hints[0]) {
            Some(found) => Some(found),
            None => spec_try_hints(img, l, lim, hints.skip(1)),
        }
    }
}

/// What the first of `slots` pointer-aligned slots from `addr` on that leads to a
/// valid thread-state leads to.
pub open spec fn spec_scan_slots(img: MemoryImage, l: Layout, lim: WalkLimits, addr: u64, slots: nat) -> Option<
    Located,
>
    decreases slots,
{
    if slots == 0 {
        None
    } else {
        match spec_try_slot(img, l, lim, addr) {
            Some(found) => Some(found),
            None => if addr + l.pointer_width > u64::MAX {
                None
            } else {
                spec_scan_slots(img, l, lim, (addr + l.pointer_width) as u64, (slots - 1) as nat)
            },
        }
    }
}

/// The number of slots of a record that are looked at under a budget.
pub open spec fn spec_slots_of(r: RecordView, l: Layout, budget: nat) -> nat {
    let all = (r.size as nat) / (l.pointer_width as nat);
    if all <= budget {
        all
    } else {
        budget
    }
}

/// What the scan of the heap-like records leads to: the records are gone through
/// in order, each from its base on, until `budget` slots have been looked at.
pub open spec fn spec_scan_heap(
    img: MemoryImage,
    l: Layout,
    lim: WalkLimits,
    records: Seq<RecordView>,
    budget: nat,
) -> Option<Located>
    decreases records.len(),
{
    if records.len() == 0 {
        None
    } else if records[0].heap_like() {
        let n = spec_slots_of(records[0], l, budget);
        match spec_scan_slots(img, l, lim, records[0].base, n) {
            Some(found) => Some(found),
            None => spec_scan_heap(img, l, lim, records.skip(1), (budget - n) as nat),
        }
    } else {
        spec_scan_heap(img, l, lim, records.skip(1), budget)
    }
}

/// Where the thread list is: what the hints lead to, and else what the scan of
/// the heap-like records leads to.
pub open spec fn spec_locate(
    img: MemoryImage,
    l: Layout,
    lim: WalkLimits,
    hints: Seq<u64>,
    records: Seq<RecordView>,
) -> Option<Located> {
    match spec_try_hints(img, l, lim, hints) {
        Some(found) => Some(found),
        None => spec_scan_heap(img, l, lim, records, lim.max_scan as nat),
    }
}

/// Checks that the object at `type_ptr` is the type of code objects.
pub fn code_type_ok(src: &MemorySource, l: &Layout, type_ptr: u64) -> (r: Result<bool, SpyError>)
    requires
        l.wf(),
    ensures
        r matches Err(e) ==> spec_ends_sample(e),
        src.spec_image() matches Some(img) ==> r == Ok::<bool, SpyError>(
            spec_code_type_ok(img, *l, type_ptr),
        ),
{
    let buf = match local_read(src, type_ptr, l.type_object.size)? {
        Some(b) => b,
        None => {
            return Ok(false);
        },
    };
    let ty = match l.type_object.decode(buf.as_slice()) {
        Some(t) => t,
        None => {
            return Ok(false);
        },
    };
    match local_read(src, ty.name, 5)? {
        Some(name) => {
            let same = name[0] == 99 && name[1] == 111 && name[2] == 100 && name[3] == 101
                && name[4] == 0;
            proof {
                if same {
                    assert(name@ =~= spec_code_type_name());
                }
            }
            Ok(same)
        },
        None => Ok(false),
    }
}

/// Checks a thread's innermost frame.
pub fn frame_valid(src: &MemorySource, l: &Layout, frame: u64) -> (r: Result<bool, SpyError>)
    requires
        l.wf(),
    ensures
        r matches Err(e) ==> spec_ends_sample(e),
        src.spec_image() matches Some(img) ==> r == Ok::<bool, SpyError>(
            spec_frame_valid(img, *l, frame),
        ),
{
    if frame == 0 {
        return Ok(true);
    }
    let buf = match local_read(src, frame, l.frame.size)? {
        Some(b) => b,
        None => {
            return Ok(false);
        },
    };
    let f = match l.frame.decode(buf.as_slice()) {
        Some(f) => f,
        None => {
            return Ok(false);
        },
    };
    if f.code == 0 {
        return Ok(false);
    }
    let cbuf = match local_read(src, f.code, l.code.size)? {
        Some(b) => b,
        None => {
            return Ok(false);
        },
    };
    match l.code.decode(cbuf.as_slice()) {
        Some(c) => code_type_ok(src, l, c.type_ptr),
        None => Ok(false),
    }
}

/// Checks the list of thread-states of the interpreter-state at `interp` from
/// `head` on.
pub fn list_valid(src: &MemorySource, l: &Layout, lim: &WalkLimits, interp: u64, head: u64) -> (r:
    Result<bool, SpyError>)
    requires
        l.wf(),
    ensures
        r matches Err(e) ==> spec_ends_sample(e),
        src.spec_image() matches Some(img) ==> r == Ok::<bool, SpyError>(
            spec_list_valid(img, *l, interp, head, lim.max_threads as nat),
        ),
{
    let mut cur: u64 = head;
    let mut remaining: usize = lim.max_threads;
    while cur != 0 && remaining > 0
        invariant
            l.wf(),
            src.spec_image() matches Some(img) ==> spec_list_valid(
                img,
                *l,
                interp,
                head,
                lim.max_threads as nat,
            ) == spec_list_valid(img, *l, interp, cur, remaining as nat),
        decreases remaining,
    {
        let buf = match local_read(src, cur, l.thread.size)? {
            Some(b) => b,
            None => {
                return Ok(false);
            },
        };
        let t = match l.thread.decode(buf.as_slice()) {
            Some(t) => t,
            None => {
                return Ok(false);
            },
        };
        if t.interp != interp {
            return Ok(false);
        }
        if !frame_valid(src, l, t.frame)? {
            return Ok(false);
        }
        cur = t.next;
        remaining -= 1;
    }
    Ok(cur == 0)
}

/// Validates a thread-state from the result of reading it. A failed read of a kind
/// that ends the sample fails the validation with that kind; a read that failed
/// locally validates nothing. Bytes that are too few for a thread-state, or that
/// hold a null interpreter pointer, validate nothing without a further read; and
/// what validates names the interpreter-state that the bytes point to.
pub fn validate_from(
    src: &MemorySource,
    l: &Layout,
    lim: &WalkLimits,
    thread_read: Result<Vec<u8>, SpyError>,
) -> (r: Result<Option<u64>, SpyError>)
    requires
        l.wf(),
    ensures
        r matches Err(e) ==> spec_is_fatal(e.kind) && (e.spec_os_failure() || thread_read == Err::<
            Vec<u8>,
            SpyError,
        >(e)),
        thread_read matches Err(e) ==> if spec_is_fatal(e.kind) {
            r == Err::<Option<u64>, SpyError>(e)
        } else {
            r == Ok::<Option<u64>, SpyError>(None)
        },
        thread_read matches Ok(buf) ==> (src.spec_image() matches Some(img) ==> r == Ok::<
            Option<u64>,
            SpyError,
        >(spec_validate_read(img, *l, *lim, buf@))),
        thread_read matches Ok(buf) ==> match l.thread.spec_decode(buf@) {
            None => r == Ok::<Option<u64>, SpyError>(None),
            Some(ts) => (ts.interp == 0 ==> r == Ok::<Option<u64>, SpyError>(None)) && (r matches Ok(
                Some(root),
            ) ==> root == ts.interp),
        },
{
    let buf = match classify_read(thread_read)? {
        Some(b) => b,
        None => {
            return Ok(None);
        },
    };
    let ts = match l.thread.decode(buf.as_slice()) {
        Some(t) => t,
        None => {
            return Ok(None);
        },
    };
    if ts.interp == 0 {
        return Ok(None);
    }
    let ibuf = match local_read(src, ts.interp, l.interp.size)? {
        Some(b) => b,
        None => {
            return Ok(None);
        },
    };
    let s = match l.interp.decode(ibuf.as_slice()) {
        Some(s) => s,
        None => {
            return Ok(None);
        },
    };
    if s.tstate_head == 0 {
        return Ok(None);
    }
    if list_valid(src, l, lim, ts.interp, s.tstate_head)? {
        Ok(Some(ts.interp))
    } else {
        Ok(None)
    }
}

/// Validates a candidate thread-state; the result is the address of its
/// interpreter-state where it passes.
pub fn validate(src: &MemorySource, l: &Layout, lim: &WalkLimits, candidate: u64) -> (r: Result<
    Option<u64>,
    SpyError,
>)
    requires
        l.wf(),
    ensures
        r matches Err(e) ==> spec_ends_sample(e),
        src.spec_image() matches Some(img) ==> r == Ok::<Option<u64>, SpyError>(
            spec_validate(img, *l, *lim, candidate),
        ),
{
    let thread_read = src.read(candidate, l.thread.size);
    validate_from(src, l, lim, thread_read)
}

/// Reads the pointer in a slot and validates it as a thread-state.
pub fn try_slot(src: &MemorySource, l: &Layout, lim: &WalkLimits, slot: u64) -> (r: Result<
    Option<Located>,
    SpyError,
>)
    requires
        l.wf(),
    ensures
        r matches Err(e) ==> spec_ends_sample(e),
        src.spec_image() matches Some(img) ==> r == Ok::<Option<Located>, SpyError>(
            spec_try_slot(img, *l, *lim, slot),
        ),
{
    let buf = match local_read(src, slot, l.pointer_width)? {
        Some(b) => b,
        None => {
            return Ok(None);
        },
    };
    let candidate = read_field(buf.as_slice(), FieldLayout { offset: 0, width: l.pointer_width });
    if candidate == 0 {
        return Ok(None);
    }
    match validate(src, l, lim, candidate)? {
        Some(root) => Ok(Some(Located { thread: candidate, root })),
        None => Ok(None),
    }
}

/// Tries the hinted slots in order.
pub fn try_hints(src: &MemorySource, l: &Layout, lim: &WalkLimits, hints: &Vec<u64>) -> (r: Result<
    Option<Located>,
    SpyError,
>)
    requires
        l.wf(),
    ensures
        r matches Err(e) ==> spec_ends_sample(e),
        src.spec_image() matches Some(img) ==> r == Ok::<Option<Located>, SpyError>(
            spec_try_hints(img, *l, *lim, hints@),
        ),
{
    let mut i: usize = 0;
    assert(hints@.skip(0) == hints@);
    while i < hints.len()
        invariant
            l.wf(),
            i <= hints@.len(),
            src.spec_image() matches Some(img) ==> spec_try_hints(img, *l, *lim, hints@)
                == spec_try_hints(img, *l, *lim, hints@.skip(i as int)),
        decreases hints@.len() - i,
    {
        proof {
            assert(hints@.skip(i as int).skip(1) == hints@.skip(i + 1));
        }
        match try_slot(src, l, lim, hints[i])? {
            Some(found) => {
                return Ok(Some(found));
            },
            None => {},
        }
        i += 1;
    }
    Ok(None)
}

/// Looks at `slots` pointer-aligned slots from `addr` on.
pub fn scan_slots(src: &MemorySource, l: &Layout, lim: &WalkLimits, addr: u64, slots: usize) -> (r:
    Result<Option<Located>, SpyError>)
    requires
        l.wf(),
    ensures
        r matches Err(e) ==> spec_ends_sample(e),
        src.spec_image() matches Some(img) ==> r == Ok::<Option<Located>, SpyError>(
            spec_scan_slots(img, *l, *lim, addr, slots as nat),
        ),
{
    let mut cur: u64 = addr;
    let mut remaining: usize = slots;
    while remaining > 0
        invariant
            l.wf(),
            src.spec_image() matches Some(img) ==> spec_scan_slots(img, *l, *lim, addr, slots as nat)
                == spec_scan_slots(img, *l, *lim, cur, remaining as nat),
        decreases remaining,
    {
        match try_slot(src, l, lim, cur)? {
            Some(found) => {
                return Ok(Some(found));
            },
            None => {},
        }
        if cur > u64::MAX - l.pointer_width as u64 {
            return Ok(None);
        }
        cur = cur + l.pointer_width as u64;
        remaining -= 1;
    }
    Ok(None)
}

/// Scans the heap-like records of the map.
pub fn scan_heap(src: &MemorySource, l: &Layout, lim: &WalkLimits, map: &ModuleMap) -> (r: Result<
    Option<Located>,
    SpyError,
>)
    requires
        l.wf(),
    ensures
        r matches Err(e) ==> spec_ends_sample(e),
        src.spec_image() matches Some(img) ==> r == Ok::<Option<Located>, SpyError>(
            spec_scan_heap(img, *l, *lim, records_view(map.records@), lim.max_scan as nat),
        ),
{
    let mut i: usize = 0;
    let mut budget: usize = lim.max_scan;
    let ghost all = records_view(map.records@);
    assert(all.skip(0) == all);
    while i < map.records.len()
        invariant
            l.wf(),
            i <= map.records@.len(),
            all == records_view(map.records@),
            src.spec_image() matches Some(img) ==> spec_scan_heap(
                img,
                *l,
                *lim,
                all,
                lim.max_scan as nat,
            ) == spec_scan_heap(img, *l, *lim, all.skip(i as int), budget as nat),
        decreases map.records@.len() - i,
    {
        let record = &map.records[i];
        proof {
            assert(all.skip(i as int).skip(1) == all.skip(i + 1));
        }
        if record.writable && is_heap_path(&record.path) {
            let every: u64 = record.size / (l.pointer_width as u64);
            let n: usize = if every <= budget as u64 {
                every as usize
            } else {
                budget
            };
            match scan_slots(src, l, lim, record.base, n)? {
                Some(found) => {
                    return Ok(Some(found));
                },
                None => {},
            }
            budget = budget - n;
        }
        i += 1;
    }
    Ok(None)
}

/// Tells whether a path is that of a region without a file or of the heap.
pub fn is_heap_path(path: &String) -> (yes: bool)
    ensures
        yes == (path@.len() == 0 || path@ == "[heap]"@),
{
    let chars = crate::text::chars_of(path.as_str());
    if chars.len() == 0 {
        return true;
    }
    let heap = crate::text::chars_of("[heap]");
    if chars.len() != heap.len() {
        return false;
    }
    let mut i: usize = 0;
    while i < chars.len()
        invariant
            i <= chars@.len(),
            chars@.len() == heap@.len(),
            chars@.len() != 0,
            chars@ == path@,
            heap@ == "[heap]"@,
            forall|k: int| 0 <= k < i ==> chars@[k] == heap@[k],
        decreases chars@.len() - i,
    {
        if chars[i] != heap[i] {
            return false;
        }
        i += 1;
    }
    assert(chars@ =~= heap@);
    true
}

/// Locates the thread list: the hinted slots are tried in order, then the
/// heap-like records are scanned; the first thread-state that validates is
/// taken. Where none does the failure is of the runtime-uninitialized kind.
pub fn locate(src: &MemorySource, l: &Layout, lim: &WalkLimits, hints: &Vec<u64>, map: &ModuleMap) -> (r:
    Result<Located, SpyError>)
    requires
        l.wf(),
    ensures
        r matches Err(e) ==> spec_ends_sample(e) || (e.kind == ErrorKind::RuntimeUninitialized
            && e.causes@.len() == 0),
        src.spec_image() matches Some(img) ==> match spec_locate(
            img,
            *l,
            *lim,
            hints@,
            records_view(map.records@),
        ) {
            Some(found) => r == Ok::<Located, SpyError>(found),
            None => r matches Err(e) && e.kind == ErrorKind::RuntimeUninitialized,
        },
{
    match try_hints(src, l, lim, hints)? {
        Some(found) => {
            return Ok(found);
        },
        None => {},
    }
    match scan_heap(src, l, lim, map)? {
        Some(found) => Ok(found),
        None => Err(SpyError::new(ErrorKind::RuntimeUninitialized)),
    }
}

/// What is located has passed the validation: the root is the interpreter-state
/// that the thread-state found names.
pub proof fn lemma_located_is_valid(
    img: MemoryImage,
    l: Layout,
    lim: WalkLimits,
    hints: Seq<u64>,
    records: Seq<RecordView>,
)
    ensures
        spec_locate(img, l, lim, hints, records) matches Some(found) ==> spec_validate(
            img,
            l,
            lim,
            found.thread,
        ) == Some(found.root),
{
    lemma_hints_valid(img, l, lim, hints);
    lemma_heap_valid(img, l, lim, records, lim.max_scan as nat);
}

/// What the hints lead to has passed the validation.
pub proof fn lemma_hints_valid(img: MemoryImage, l: Layout, lim: WalkLimits, hints: Seq<u64>)
    ensures
        spec_try_hints(img, l, lim, hints) matches Some(found) ==> spec_validate(
            img,
            l,
            lim,
            found.thread,
        ) == Some(found.root),
    decreases hints.len(),
{
    if hints.len() > 0 && spec_try_slot(img, l, lim, hints[0]).is_none() {
        lemma_hints_valid(img, l, lim, hints.skip(1));
    }
}

/// What a scan of slots leads to has passed the validation.
pub proof fn lemma_slots_valid(img: MemoryImage, l: Layout, lim: WalkLimits, addr: u64, slots: nat)
    ensures
        spec_scan_slots(img, l, lim, addr, slots) matches Some(found) ==> spec_validate(
            img,
            l,
            lim,
            found.thread,
        ) == Some(found.root),
    decreases slots,
{
    if slots > 0 && spec_try_slot(img, l, lim, addr).is_none() && addr + l.pointer_width <= u64::MAX {
        lemma_slots_valid(img, l, lim, (addr + l.pointer_width) as u64, (slots - 1) as nat);
    }
}

/// What the scan of the heap leads to has passed the validation.
pub proof fn lemma_heap_valid(
    img: MemoryImage,
    l: Layout,
    lim: WalkLimits,
    records: Seq<RecordView>,
    budget: nat,
)
    ensures
        spec_scan_heap(img, l, lim, records, budget) matches Some(found) ==> spec_validate(
            img,
            l,
            lim,
            found.thread,
        ) == Some(found.root),
    decreases records.len(),
{
    if records.len() > 0 {
        if records[0].heap_like() {
            let n = spec_slots_of(records[0], l, budget);
            lemma_slots_valid(img, l, lim, records[0].base, n);
            if spec_scan_slots(img, l, lim, records[0].base, n).is_none() {
                lemma_heap_valid(img, l, lim, records.skip(1), (budget - n) as nat);
            }
        } else {
            lemma_heap_valid(img, l, lim, records.skip(1), budget);
        }
    }
}

} // verus!
