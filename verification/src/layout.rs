//! The layout of the interpreter's structures, one table for each supported
//! version, and the decoding of each structure from the bytes of the target.

use vstd::prelude::*;
use crate::bytes::{
    lemma_le_value_bound, lemma_pow256_values, lemma_read_other, lemma_read_written,
    lemma_write_back, pow256, read_field, read_signed32, spec_as_signed, spec_as_unsigned,
    spec_read_field, spec_write_field, unsigned32, write_field, FieldLayout,
};

verus! {

/// An interpreter version.
#[derive(Clone, Copy, Debug, PartialEq, Eq, Structural)]
pub struct Version {
    pub major: u64,
    pub minor: u64,
    pub patch: u64,
}

/// Layout of the interpreter-state: the root of the thread list.
#[derive(Clone, Copy, Debug, PartialEq, Eq, Structural)]
pub struct InterpreterLayout {
    pub size: usize,
    /// The next interpreter-state.
    pub next: FieldLayout,
    /// The first thread-state of the list.
    pub tstate_head: FieldLayout,
    /// The thread-state that holds the global lock.
    pub gil_holder: FieldLayout,
}

/// Layout of a thread-state.
#[derive(Clone, Copy, Debug, PartialEq, Eq, Structural)]
pub struct ThreadLayout {
    pub size: usize,
    /// The next thread-state of the list.
    pub next: FieldLayout,
    /// The interpreter-state that owns the thread.
    pub interp: FieldLayout,
    /// The innermost frame.
    pub frame: FieldLayout,
    /// The interpreter's identifier of the thread.
    pub thread_id: FieldLayout,
}

/// Layout of a frame object.
#[derive(Clone, Copy, Debug, PartialEq, Eq, Structural)]
pub struct FrameLayout {
    pub size: usize,
    /// The caller's frame.
    pub back: FieldLayout,
    /// The code object being executed.
    pub code: FieldLayout,
    /// The index of the last bytecode instruction executed; four bytes, signed.
    pub lasti: FieldLayout,
}

/// Layout of a code object.
#[derive(Clone, Copy, Debug, PartialEq, Eq, Structural)]
pub struct CodeLayout {
    pub size: usize,
    /// The object's type.
    pub type_ptr: FieldLayout,
    /// The string object with the source file's path.
    pub filename: FieldLayout,
    /// The string object with the function's name.
    pub name: FieldLayout,
    /// The first source line; four bytes, signed.
    pub first_line: FieldLayout,
    /// The bytes object with the line-number table.
    pub lnotab: FieldLayout,
}

/// Layout of a string object. A version either keeps text as plain bytes after the
/// header (`has_state` is false) or carries a state word that tells the width of a
/// character and which of the two compact forms holds the data.
#[derive(Clone, Copy, Debug, PartialEq, Eq, Structural)]
pub struct StringLayout {
    pub size: usize,
    /// The number of characters.
    pub length: FieldLayout,
    /// The state word; looked at only where `has_state` is set.
    pub state: FieldLayout,
    pub has_state: bool,
    /// Where the characters start in the compact form for plain text.
    pub ascii_data: usize,
    /// Where the characters start in the compact form for other text.
    pub unicode_data: usize,
}

/// Layout of a bytes object.
#[derive(Clone, Copy, Debug, PartialEq, Eq, Structural)]
pub struct BytesLayout {
    pub size: usize,
    /// The number of bytes.
    pub length: FieldLayout,
    /// Where the bytes start.
    pub data: usize,
}

/// Layout of a tuple object.
#[derive(Clone, Copy, Debug, PartialEq, Eq, Structural)]
pub struct TupleLayout {
    pub size: usize,
    /// The number of items.
    pub length: FieldLayout,
    /// Where the pointers to the items start.
    pub items: usize,
}

/// Layout of a dict object.
#[derive(Clone, Copy, Debug, PartialEq, Eq, Structural)]
pub struct DictLayout {
    pub size: usize,
    /// The number of entries in use.
    pub used: FieldLayout,
    /// The table that holds the entries.
    pub table: FieldLayout,
}

/// Layout of a type object.
#[derive(Clone, Copy, Debug, PartialEq, Eq, Structural)]
pub struct TypeLayout {
    pub size: usize,
    /// The address of the type's name, a string that ends with a zero byte.
    pub name: FieldLayout,
}

/// The layouts of one interpreter version.
#[derive(Clone, Copy, Debug, PartialEq, Eq, Structural)]
pub struct Layout {
    pub major: u64,
    pub minor: u64,
    /// The width of a pointer on the target, in bytes.
    pub pointer_width: usize,
    /// Whether the line increments of the line-number table are signed.
    pub signed_line_deltas: bool,
    /// Where the interpreter's runtime structure, in versions that have one, keeps
    /// the pointer to the current thread-state.
    pub runtime_thread: usize,
    pub interp: InterpreterLayout,
    pub thread: ThreadLayout,
    pub frame: FrameLayout,
    pub code: CodeLayout,
    pub string: StringLayout,
    pub bytes: BytesLayout,
    pub tuple: TupleLayout,
    pub dict: DictLayout,
    pub type_object: TypeLayout,
}

/// A decoded interpreter-state.
#[derive(Clone, Copy, Debug, PartialEq, Eq, Structural)]
pub struct InterpreterState {
    pub next: u64,
    pub tstate_head: u64,
    pub gil_holder: u64,
}

/// A decoded thread-state.
#[derive(Clone, Copy, Debug, PartialEq, Eq, Structural)]
pub struct ThreadState {
    pub next: u64,
    pub interp: u64,
    pub frame: u64,
    pub thread_id: u64,
}

/// A decoded frame object.
#[derive(Clone, Copy, Debug, PartialEq, Eq, Structural)]
pub struct FrameObject {
    pub back: u64,
    pub code: u64,
    pub lasti: i32,
}

/// A decoded code object.
#[derive(Clone, Copy, Debug, PartialEq, Eq, Structural)]
pub struct CodeObject {
    pub type_ptr: u64,
    pub filename: u64,
    pub name: u64,
    pub first_line: i32,
    pub lnotab: u64,
}

/// The decoded header of a string object.
#[derive(Clone, Copy, Debug, PartialEq, Eq, Structural)]
pub struct StringHeader {
    pub length: u64,
    /// The state word, zero where the layout has none.
    pub state: u64,
}

/// The decoded header of a bytes object.
#[derive(Clone, Copy, Debug, PartialEq, Eq, Structural)]
pub struct BytesHeader {
    pub length: u64,
}

/// The decoded header of a tuple object.
#[derive(Clone, Copy, Debug, PartialEq, Eq, Structural)]
pub struct TupleHeader {
    pub length: u64,
}

/// A decoded dict object.
#[derive(Clone, Copy, Debug, PartialEq, Eq, Structural)]
pub struct DictObject {
    pub used: u64,
    pub table: u64,
}

/// A decoded type object.
#[derive(Clone, Copy, Debug, PartialEq, Eq, Structural)]
pub struct TypeObject {
    pub name: u64,
}

impl InterpreterLayout {
    /// Every field lies inside the structure.
    pub open spec fn wf(self) -> bool {
        &&& self.next.fits(self.size as int)
        &&& self.tstate_head.fits(self.size as int)
        &&& self.gil_holder.fits(self.size as int)
    }

    /// What the first `size` bytes of a buffer decode to.
    pub open spec fn spec_decode(self, buf: Seq<u8>) -> Option<InterpreterState> {
        if buf.len() < self.size {
            None
        } else {
            Some(
                InterpreterState {
                    next: spec_read_field(buf, self.next) as u64,
                    tstate_head: spec_read_field(buf, self.tstate_head) as u64,
                    gil_holder: spec_read_field(buf, self.gil_holder) as u64,
                },
            )
        }
    }

    /// The buffer with the fields of the structure overwritten.
    pub open spec fn spec_encode(self, buf: Seq<u8>, v: InterpreterState) -> Seq<u8> {
        let b1 = spec_write_field(buf, self.next, v.next as nat);
        let b2 = spec_write_field(b1, self.tstate_head, v.tstate_head as nat);
        spec_write_field(b2, self.gil_holder, v.gil_holder as nat)
    }

    /// Decodes an interpreter-state; `None` where the buffer is too short.
    pub fn decode(&self, buf: &[u8]) -> (v: Option<InterpreterState>)
        requires
            self.wf(),
        ensures
            v == self.spec_decode(buf@),
    {
        if buf.len() < self.size {
            return None;
        }
        Some(
            InterpreterState {
                next: read_field(buf, self.next),
                tstate_head: read_field(buf, self.tstate_head),
                gil_holder: read_field(buf, self.gil_holder),
            },
        )
    }

    /// Writes the fields into a buffer; a buffer that is too short is left alone and
    /// `false` is returned.
    pub fn encode(&self, buf: &mut Vec<u8>, v: &InterpreterState) -> (done: bool)
        requires
            self.wf(),
        ensures
            done == (old(buf)@.len() >= self.size),
            done ==> final(buf)@ == self.spec_encode(old(buf)@, *v),
            !done ==> final(buf)@ == old(buf)@,
    {
        if buf.len() < self.size {
            return false;
        }
        write_field(buf, self.next, v.next);
        proof { lemma_write_len(old(buf)@, self.next, v.next as nat); }
        write_field(buf, self.tstate_head, v.tstate_head);
        proof { lemma_write_len(spec_write_field(old(buf)@, self.next, v.next as nat), self.tstate_head, v.tstate_head as nat); }
        write_field(buf, self.gil_holder, v.gil_holder);
        true
    }
}

/// Writing a field keeps the length of the buffer.
pub proof fn lemma_write_len(buf: Seq<u8>, f: FieldLayout, value: nat)
    requires
        f.fits(buf.len() as int),
    ensures
        spec_write_field(buf, f, value).len() == buf.len(),
{
    crate::bytes::lemma_le_bytes_len(value, f.width as nat);
}

/// A field of at most eight bytes holds a number that fits in 64 bits.
pub proof fn lemma_field_fits_u64(buf: Seq<u8>, f: FieldLayout)
    requires
        f.fits(buf.len() as int),
    ensures
        spec_read_field(buf, f) <= u64::MAX,
        spec_read_field(buf, f) < pow256(f.width as nat),
{
    lemma_le_value_bound(f.slice(buf));
    lemma_pow256_values();
}

/// Decoding an interpreter-state and writing the result back reproduces the bytes.
pub proof fn lemma_interpreter_round_trip(l: InterpreterLayout, buf: Seq<u8>)
    requires
        l.wf(),
        buf.len() >= l.size,
    ensures
        l.spec_encode(buf, l.spec_decode(buf).unwrap()) == buf,
{
    lemma_field_fits_u64(buf, l.next);
    lemma_field_fits_u64(buf, l.tstate_head);
    lemma_field_fits_u64(buf, l.gil_holder);
    lemma_write_back(buf, l.next);
    lemma_write_back(buf, l.tstate_head);
    lemma_write_back(buf, l.gil_holder);
}

impl ThreadLayout {
    /// Every field lies inside the structure.
    pub open spec fn wf(self) -> bool {
        &&& self.next.fits(self.size as int)
        &&& self.interp.fits(self.size as int)
        &&& self.frame.fits(self.size as int)
        &&& self.thread_id.fits(self.size as int)
    }

    /// What the first `size` bytes of a buffer decode to.
    pub open spec fn spec_decode(self, buf: Seq<u8>) -> Option<ThreadState> {
        if buf.len() < self.size {
            None
        } else {
            Some(
                ThreadState {
                    next: spec_read_field(buf, self.next) as u64,
                    interp: spec_read_field(buf, self.interp) as u64,
                    frame: spec_read_field(buf, self.frame) as u64,
                    thread_id: spec_read_field(buf, self.thread_id) as u64,
                },
            )
        }
    }

    /// The buffer with the fields of the structure overwritten.
    pub open spec fn spec_encode(self, buf: Seq<u8>, v: ThreadState) -> Seq<u8> {
        let b1 = spec_write_field(buf, self.next, v.next as nat);
        let b2 = spec_write_field(b1, self.interp, v.interp as nat);
        let b3 = spec_write_field(b2, self.frame, v.frame as nat);
        spec_write_field(b3, self.thread_id, v.thread_id as nat)
    }

    /// Decodes a thread-state; `None` where the buffer is too short.
    pub fn decode(&self, buf: &[u8]) -> (v: Option<ThreadState>)
        requires
            self.wf(),
        ensures
            v == self.spec_decode(buf@),
    {
        if buf.len() < self.size {
            return None;
        }
        Some(
            ThreadState {
                next: read_field(buf, self.next),
                interp: read_field(buf, self.interp),
                frame: read_field(buf, self.frame),
                thread_id: read_field(buf, self.thread_id),
            },
        )
    }

    /// Writes the fields into a buffer; a buffer that is too short is left alone and
    /// `false` is returned.
    pub fn encode(&self, buf: &mut Vec<u8>, v: &ThreadState) -> (done: bool)
        requires
            self.wf(),
        ensures
            done == (old(buf)@.len() >= self.size),
            done ==> final(buf)@ == self.spec_encode(old(buf)@, *v),
            !done ==> final(buf)@ == old(buf)@,
    {
        if buf.len() < self.size {
            return false;
        }
        let ghost b0 = buf@;
        write_field(buf, self.next, v.next);
        proof { lemma_write_len(b0, self.next, v.next as nat); }
        let ghost b1 = buf@;
        write_field(buf, self.interp, v.interp);
        proof { lemma_write_len(b1, self.interp, v.interp as nat); }
        let ghost b2 = buf@;
        write_field(buf, self.frame, v.frame);
        proof { lemma_write_len(b2, self.frame, v.frame as nat); }
        write_field(buf, self.thread_id, v.thread_id);
        true
    }
}

/// Decoding a thread-state and writing the result back reproduces the bytes.
pub proof fn lemma_thread_round_trip(l: ThreadLayout, buf: Seq<u8>)
    requires
        l.wf(),
        buf.len() >= l.size,
    ensures
        l.spec_encode(buf, l.spec_decode(buf).unwrap()) == buf,
{
    lemma_field_fits_u64(buf, l.next);
    lemma_field_fits_u64(buf, l.interp);
    lemma_field_fits_u64(buf, l.frame);
    lemma_field_fits_u64(buf, l.thread_id);
    lemma_write_back(buf, l.next);
    lemma_write_back(buf, l.interp);
    lemma_write_back(buf, l.frame);
    lemma_write_back(buf, l.thread_id);
}

impl FrameLayout {
    /// Every field lies inside the structure, and the instruction index is four
    /// bytes wide.
    pub open spec fn wf(self) -> bool {
        &&& self.back.fits(self.size as int)
        &&& self.code.fits(self.size as int)
        &&& self.lasti.fits(self.size as int)
        &&& self.lasti.width == 4
    }

    /// What the first `size` bytes of a buffer decode to.
    pub open spec fn spec_decode(self, buf: Seq<u8>) -> Option<FrameObject> {
        if buf.len() < self.size {
            None
        } else {
            Some(
                FrameObject {
                    back: spec_read_field(buf, self.back) as u64,
                    code: spec_read_field(buf, self.code) as u64,
                    lasti: spec_as_signed(spec_read_field(buf, self.lasti), 4) as i32,
                },
            )
        }
    }

    /// The buffer with the fields of the structure overwritten.
    pub open spec fn spec_encode(self, buf: Seq<u8>, v: FrameObject) -> Seq<u8> {
        let b1 = spec_write_field(buf, self.back, v.back as nat);
        let b2 = spec_write_field(b1, self.code, v.code as nat);
        spec_write_field(b2, self.lasti, spec_as_unsigned(v.lasti as int, 4))
    }

    /// Decodes a frame object; `None` where the buffer is too short.
    pub fn decode(&self, buf: &[u8]) -> (v: Option<FrameObject>)
        requires
            self.wf(),
        ensures
            v == self.spec_decode(buf@),
    {
        if buf.len() < self.size {
            return None;
        }
        Some(
            FrameObject {
                back: read_field(buf, self.back),
                code: read_field(buf, self.code),
                lasti: read_signed32(buf, self.lasti),
            },
        )
    }

    /// Writes the fields into a buffer; a buffer that is too short is left alone and
    /// `false` is returned.
    pub fn encode(&self, buf: &mut Vec<u8>, v: &FrameObject) -> (done: bool)
        requires
            self.wf(),
        ensures
            done == (old(buf)@.len() >= self.size),
            done ==> final(buf)@ == self.spec_encode(old(buf)@, *v),
            !done ==> final(buf)@ == old(buf)@,
    {
        if buf.len() < self.size {
            return false;
        }
        let ghost b0 = buf@;
        write_field(buf, self.back, v.back);
        proof { lemma_write_len(b0, self.back, v.back as nat); }
        let ghost b1 = buf@;
        write_field(buf, self.code, v.code);
        proof { lemma_write_len(b1, self.code, v.code as nat); }
        write_field(buf, self.lasti, unsigned32(v.lasti));
        true
    }
}

/// A signed field of four bytes decodes to a number that fits in 32 bits, and its
/// unsigned form is the number that the field holds.
pub proof fn lemma_signed_field(buf: Seq<u8>, f: FieldLayout)
    requires
        f.fits(buf.len() as int),
        f.width == 4,
    ensures
        i32::MIN <= spec_as_signed(spec_read_field(buf, f), 4) <= i32::MAX,
        spec_as_unsigned(spec_as_signed(spec_read_field(buf, f), 4), 4) == spec_read_field(buf, f),
{
    lemma_field_fits_u64(buf, f);
    lemma_pow256_values();
}

/// Decoding a frame object and writing the result back reproduces the bytes.
pub proof fn lemma_frame_round_trip(l: FrameLayout, buf: Seq<u8>)
    requires
        l.wf(),
        buf.len() >= l.size,
    ensures
        l.spec_encode(buf, l.spec_decode(buf).unwrap()) == buf,
{
    lemma_field_fits_u64(buf, l.back);
    lemma_field_fits_u64(buf, l.code);
    lemma_signed_field(buf, l.lasti);
    lemma_write_back(buf, l.back);
    lemma_write_back(buf, l.code);
    lemma_write_back(buf, l.lasti);
}

impl CodeLayout {
    /// Every field lies inside the structure, and the first line is four bytes
    /// wide.
    pub open spec fn wf(self) -> bool {
        &&& self.type_ptr.fits(self.size as int)
        &&& self.filename.fits(self.size as int)
        &&& self.name.fits(self.size as int)
        &&& self.first_line.fits(self.size as int)
        &&& self.first_line.width == 4
        &&& self.lnotab.fits(self.size as int)
    }

    /// What the first `size` bytes of a buffer decode to.
    pub open spec fn spec_decode(self, buf: Seq<u8>) -> Option<CodeObject> {
        if buf.len() < self.size {
            None
        } else {
            Some(
                CodeObject {
                    type_ptr: spec_read_field(buf, self.type_ptr) as u64,
                    filename: spec_read_field(buf, self.filename) as u64,
                    name: spec_read_field(buf, self.name) as u64,
                    first_line: spec_as_signed(spec_read_field(buf, self.first_line), 4) as i32,
                    lnotab: spec_read_field(buf, self.lnotab) as u64,
                },
            )
        }
    }

    /// The buffer with the fields of the structure overwritten.
    pub open spec fn spec_encode(self, buf: Seq<u8>, v: CodeObject) -> Seq<u8> {
        let b1 = spec_write_field(buf, self.type_ptr, v.type_ptr as nat);
        let b2 = spec_write_field(b1, self.filename, v.filename as nat);
        let b3 = spec_write_field(b2, self.name, v.name as nat);
        let b4 = spec_write_field(b3, self.first_line, spec_as_unsigned(v.first_line as int, 4));
        spec_write_field(b4, self.lnotab, v.lnotab as nat)
    }

    /// Decodes a code object; `None` where the buffer is too short.
    pub fn decode(&self, buf: &[u8]) -> (v: Option<CodeObject>)
        requires
            self.wf(),
        ensures
            v == self.spec_decode(buf@),
    {
        if buf.len() < self.size {
            return None;
        }
        Some(
            CodeObject {
                type_ptr: read_field(buf, self.type_ptr),
                filename: read_field(buf, self.filename),
                name: read_field(buf, self.name),
                first_line: read_signed32(buf, self.first_line),
                lnotab: read_field(buf, self.lnotab),
            },
        )
    }

    /// Writes the fields into a buffer; a buffer that is too short is left alone and
    /// `false` is returned.
    pub fn encode(&self, buf: &mut Vec<u8>, v: &CodeObject) -> (done: bool)
        requires
            self.wf(),
        ensures
            done == (old(buf)@.len() >= self.size),
            done ==> final(buf)@ == self.spec_encode(old(buf)@, *v),
            !done ==> final(buf)@ == old(buf)@,
    {
        if buf.len() < self.size {
            return false;
        }
        let ghost b0 = buf@;
        write_field(buf, self.type_ptr, v.type_ptr);
        proof { lemma_write_len(b0, self.type_ptr, v.type_ptr as nat); }
        let ghost b1 = buf@;
        write_field(buf, self.filename, v.filename);
        proof { lemma_write_len(b1, self.filename, v.filename as nat); }
        let ghost b2 = buf@;
        write_field(buf, self.name, v.name);
        proof { lemma_write_len(b2, self.name, v.name as nat); }
        let ghost b3 = buf@;
        let raw = unsigned32(v.first_line);
        write_field(buf, self.first_line, raw);
        proof { lemma_write_len(b3, self.first_line, raw as nat); }
        write_field(buf, self.lnotab, v.lnotab);
        true
    }
}

/// Decoding a code object and writing the result back reproduces the bytes.
pub proof fn lemma_code_round_trip(l: CodeLayout, buf: Seq<u8>)
    requires
        l.wf(),
        buf.len() >= l.size,
    ensures
        l.spec_encode(buf, l.spec_decode(buf).unwrap()) == buf,
{
    lemma_field_fits_u64(buf, l.type_ptr);
    lemma_field_fits_u64(buf, l.filename);
    lemma_field_fits_u64(buf, l.name);
    lemma_signed_field(buf, l.first_line);
    lemma_field_fits_u64(buf, l.lnotab);
    lemma_write_back(buf, l.type_ptr);
    lemma_write_back(buf, l.filename);
    lemma_write_back(buf, l.name);
    lemma_write_back(buf, l.first_line);
    lemma_write_back(buf, l.lnotab);
}

impl StringLayout {
    /// The fields lie inside the header.
    pub open spec fn wf(self) -> bool {
        &&& self.length.fits(self.size as int)
        &&& self.has_state ==> self.state.fits(self.size as int)
    }

    /// What the first `size` bytes of a buffer decode to.
    pub open spec fn spec_decode(self, buf: Seq<u8>) -> Option<StringHeader> {
        if buf.len() < self.size {
            None
        } else {
            Some(
                StringHeader {
                    length: spec_read_field(buf, self.length) as u64,
                    state: if self.has_state {
                        spec_read_field(buf, self.state) as u64
                    } else {
                        0
                    },
                },
            )
        }
    }

    /// The buffer with the fields of the header overwritten.
    pub open spec fn spec_encode(self, buf: Seq<u8>, v: StringHeader) -> Seq<u8> {
        let b1 = spec_write_field(buf, self.length, v.length as nat);
        if self.has_state {
            spec_write_field(b1, self.state, v.state as nat)
        } else {
            b1
        }
    }

    /// Decodes the header of a string object; `None` where the buffer is too short.
    pub fn decode(&self, buf: &[u8]) -> (v: Option<StringHeader>)
        requires
            self.wf(),
        ensures
            v == self.spec_decode(buf@),
    {
        if buf.len() < self.size {
            return None;
        }
        let state = if self.has_state {
            read_field(buf, self.state)
        } else {
            0
        };
        Some(StringHeader { length: read_field(buf, self.length), state })
    }

    /// Writes the fields into a buffer; a buffer that is too short is left alone and
    /// `false` is returned.
    pub fn encode(&self, buf: &mut Vec<u8>, v: &StringHeader) -> (done: bool)
        requires
            self.wf(),
        ensures
            done == (old(buf)@.len() >= self.size),
            done ==> final(buf)@ == self.spec_encode(old(buf)@, *v),
            !done ==> final(buf)@ == old(buf)@,
    {
        if buf.len() < self.size {
            return false;
        }
        let ghost b0 = buf@;
        write_field(buf, self.length, v.length);
        proof { lemma_write_len(b0, self.length, v.length as nat); }
        if self.has_state {
            write_field(buf, self.state, v.state);
        }
        true
    }
}

/// Decoding a string header and writing the result back reproduces the bytes.
pub proof fn lemma_string_round_trip(l: StringLayout, buf: Seq<u8>)
    requires
        l.wf(),
        buf.len() >= l.size,
    ensures
        l.spec_encode(buf, l.spec_decode(buf).unwrap()) == buf,
{
    lemma_field_fits_u64(buf, l.length);
    lemma_write_back(buf, l.length);
    if l.has_state {
        lemma_field_fits_u64(buf, l.state);
        lemma_write_back(buf, l.state);
    }
}

impl BytesLayout {
    /// The length lies inside the header.
    pub open spec fn wf(self) -> bool {
        self.length.fits(self.size as int)
    }

    /// What the first `size` bytes of a buffer decode to.
    pub open spec fn spec_decode(self, buf: Seq<u8>) -> Option<BytesHeader> {
        if buf.len() < self.size {
            None
        } else {
            Some(BytesHeader { length: spec_read_field(buf, self.length) as u64 })
        }
    }

    /// The buffer with the length overwritten.
    pub open spec fn spec_encode(self, buf: Seq<u8>, v: BytesHeader) -> Seq<u8> {
        spec_write_field(buf, self.length, v.length as nat)
    }

    /// Decodes the header of a bytes object; `None` where the buffer is too short.
    pub fn decode(&self, buf: &[u8]) -> (v: Option<BytesHeader>)
        requires
            self.wf(),
        ensures
            v == self.spec_decode(buf@),
    {
        if buf.len() < self.size {
            return None;
        }
        Some(BytesHeader { length: read_field(buf, self.length) })
    }

    /// Writes the length into a buffer; a buffer that is too short is left alone and
    /// `false` is returned.
    pub fn encode(&self, buf: &mut Vec<u8>, v: &BytesHeader) -> (done: bool)
        requires
            self.wf(),
        ensures
            done == (old(buf)@.len() >= self.size),
            done ==> final(buf)@ == self.spec_encode(old(buf)@, *v),
            !done ==> final(buf)@ == old(buf)@,
    {
        if buf.len() < self.size {
            return false;
        }
        write_field(buf, self.length, v.length);
        true
    }
}

/// Decoding a bytes header and writing the result back reproduces the bytes.
pub proof fn lemma_bytes_round_trip(l: BytesLayout, buf: Seq<u8>)
    requires
        l.wf(),
        buf.len() >= l.size,
    ensures
        l.spec_encode(buf, l.spec_decode(buf).unwrap()) == buf,
{
    lemma_field_fits_u64(buf, l.length);
    lemma_write_back(buf, l.length);
}

impl TupleLayout {
    /// The length lies inside the header.
    pub open spec fn wf(self) -> bool {
        self.length.fits(self.size as int)
    }

    /// What the first `size` bytes of a buffer decode to.
    pub open spec fn spec_decode(self, buf: Seq<u8>) -> Option<TupleHeader> {
        if buf.len() < self.size {
            None
        } else {
            Some(TupleHeader { length: spec_read_field(buf, self.length) as u64 })
        }
    }

    /// The buffer with the length overwritten.
    pub open spec fn spec_encode(self, buf: Seq<u8>, v: TupleHeader) -> Seq<u8> {
        spec_write_field(buf, self.length, v.length as nat)
    }

    /// Decodes the header of a tuple object; `None` where the buffer is too short.
    pub fn decode(&self, buf: &[u8]) -> (v: Option<TupleHeader>)
        requires
            self.wf(),
        ensures
            v == self.spec_decode(buf@),
    {
        if buf.len() < self.size {
            return None;
        }
        Some(TupleHeader { length: read_field(buf, self.length) })
    }

    /// Writes the length into a buffer; a buffer that is too short is left alone and
    /// `false` is returned.
    pub fn encode(&self, buf: &mut Vec<u8>, v: &TupleHeader) -> (done: bool)
        requires
            self.wf(),
        ensures
            done == (old(buf)@.len() >= self.size),
            done ==> final(buf)@ == self.spec_encode(old(buf)@, *v),
            !done ==> final(buf)@ == old(buf)@,
    {
        if buf.len() < self.size {
            return false;
        }
        write_field(buf, self.length, v.length);
        true
    }
}

/// Decoding a tuple header and writing the result back reproduces the bytes.
pub proof fn lemma_tuple_round_trip(l: TupleLayout, buf: Seq<u8>)
    requires
        l.wf(),
        buf.len() >= l.size,
    ensures
        l.spec_encode(buf, l.spec_decode(buf).unwrap()) == buf,
{
    lemma_field_fits_u64(buf, l.length);
    lemma_write_back(buf, l.length);
}

impl DictLayout {
    /// Every field lies inside the structure.
    pub open spec fn wf(self) -> bool {
        &&& self.used.fits(self.size as int)
        &&& self.table.fits(self.size as int)
    }

    /// The two fields share no byte.
    pub open spec fn distinct(self) -> bool {
        self.used.disjoint(self.table)
    }

    /// What the first `size` bytes of a buffer decode to.
    pub open spec fn spec_decode(self, buf: Seq<u8>) -> Option<DictObject> {
        if buf.len() < self.size {
            None
        } else {
            Some(
                DictObject {
                    used: spec_read_field(buf, self.used) as u64,
                    table: spec_read_field(buf, self.table) as u64,
                },
            )
        }
    }

    /// The buffer with the fields of the structure overwritten.
    pub open spec fn spec_encode(self, buf: Seq<u8>, v: DictObject) -> Seq<u8> {
        let b1 = spec_write_field(buf, self.used, v.used as nat);
        spec_write_field(b1, self.table, v.table as nat)
    }

    /// Decodes a dict object; `None` where the buffer is too short.
    pub fn decode(&self, buf: &[u8]) -> (v: Option<DictObject>)
        requires
            self.wf(),
        ensures
            v == self.spec_decode(buf@),
    {
        if buf.len() < self.size {
            return None;
        }
        Some(DictObject { used: read_field(buf, self.used), table: read_field(buf, self.table) })
    }

    /// Writes the fields into a buffer; a buffer that is too short is left alone and
    /// `false` is returned.
    pub fn encode(&self, buf: &mut Vec<u8>, v: &DictObject) -> (done: bool)
        requires
            self.wf(),
        ensures
            done == (old(buf)@.len() >= self.size),
            done ==> final(buf)@ == self.spec_encode(old(buf)@, *v),
            !done ==> final(buf)@ == old(buf)@,
    {
        if buf.len() < self.size {
            return false;
        }
        let ghost b0 = buf@;
        write_field(buf, self.used, v.used);
        proof { lemma_write_len(b0, self.used, v.used as nat); }
        write_field(buf, self.table, v.table);
        true
    }
}

/// Decoding a dict object and writing the result back reproduces the bytes.
pub proof fn lemma_dict_round_trip(l: DictLayout, buf: Seq<u8>)
    requires
        l.wf(),
        buf.len() >= l.size,
    ensures
        l.spec_encode(buf, l.spec_decode(buf).unwrap()) == buf,
{
    lemma_field_fits_u64(buf, l.used);
    lemma_field_fits_u64(buf, l.table);
    lemma_write_back(buf, l.used);
    lemma_write_back(buf, l.table);
}

impl TypeLayout {
    /// The name lies inside the structure.
    pub open spec fn wf(self) -> bool {
        self.name.fits(self.size as int)
    }

    /// What the first `size` bytes of a buffer decode to.
    pub open spec fn spec_decode(self, buf: Seq<u8>) -> Option<TypeObject> {
        if buf.len() < self.size {
            None
        } else {
            Some(TypeObject { name: spec_read_field(buf, self.name) as u64 })
        }
    }

    /// The buffer with the name overwritten.
    pub open spec fn spec_encode(self, buf: Seq<u8>, v: TypeObject) -> Seq<u8> {
        spec_write_field(buf, self.name, v.name as nat)
    }

    /// Decodes a type object; `None` where the buffer is too short.
    pub fn decode(&self, buf: &[u8]) -> (v: Option<TypeObject>)
        requires
            self.wf(),
        ensures
            v == self.spec_decode(buf@),
    {
        if buf.len() < self.size {
            return None;
        }
        Some(TypeObject { name: read_field(buf, self.name) })
    }

    /// Writes the name into a buffer; a buffer that is too short is left alone and
    /// `false` is returned.
    pub fn encode(&self, buf: &mut Vec<u8>, v: &TypeObject) -> (done: bool)
        requires
            self.wf(),
        ensures
            done == (old(buf)@.len() >= self.size),
            done ==> final(buf)@ == self.spec_encode(old(buf)@, *v),
            !done ==> final(buf)@ == old(buf)@,
    {
        if buf.len() < self.size {
            return false;
        }
        write_field(buf, self.name, v.name);
        true
    }
}

/// Decoding a type object and writing the result back reproduces the bytes.
pub proof fn lemma_type_round_trip(l: TypeLayout, buf: Seq<u8>)
    requires
        l.wf(),
        buf.len() >= l.size,
    ensures
        l.spec_encode(buf, l.spec_decode(buf).unwrap()) == buf,
{
    lemma_field_fits_u64(buf, l.name);
    lemma_write_back(buf, l.name);
}

impl Layout {
    /// Every structure's layout is well formed, and a pointer is four or eight
    /// bytes wide.
    pub open spec fn wf(self) -> bool {
        &&& self.pointer_width == 4 || self.pointer_width == 8
        &&& self.interp.wf()
        &&& self.thread.wf()
        &&& self.frame.wf()
        &&& self.code.wf()
        &&& self.string.wf()
        &&& self.bytes.wf()
        &&& self.tuple.wf()
        &&& self.dict.wf()
        &&& self.type_object.wf()
    }
}

/// A number fits a field: it is below 256 to the power of the field's width.
pub open spec fn spec_fits_field(value: u64, f: FieldLayout) -> bool {
    value < pow256(f.width as nat)
}

/// One more write, to a field that shares no byte with `g`, leaves the number
/// that `g` holds and the length of the buffer as they were.
proof fn lemma_write_keeps(buf: Seq<u8>, f: FieldLayout, g: FieldLayout, value: nat)
    requires
        f.fits(buf.len() as int),
        g.fits(buf.len() as int),
        f.disjoint(g),
    ensures
        spec_read_field(spec_write_field(buf, f, value), g) == spec_read_field(buf, g),
        spec_write_field(buf, f, value).len() == buf.len(),
{
    lemma_read_other(buf, f, g, value);
    lemma_write_len(buf, f, value);
}

/// A signed number of 32 bits written to a field of four bytes reads back.
proof fn lemma_signed_written(buf: Seq<u8>, f: FieldLayout, value: i32)
    requires
        f.fits(buf.len() as int),
        f.width == 4,
    ensures
        spec_as_signed(
            spec_read_field(spec_write_field(buf, f, spec_as_unsigned(value as int, 4)), f),
            4,
        ) == value,
        spec_write_field(buf, f, spec_as_unsigned(value as int, 4)).len() == buf.len(),
{
    lemma_pow256_values();
    lemma_read_written(buf, f, spec_as_unsigned(value as int, 4));
}

impl InterpreterLayout {
    /// No two fields share a byte.
    pub open spec fn distinct(self) -> bool {
        &&& self.next.disjoint(self.tstate_head)
        &&& self.next.disjoint(self.gil_holder)
        &&& self.tstate_head.disjoint(self.gil_holder)
    }
}

/// Writing an interpreter-state and decoding the buffer gives the fields back,
/// where no two fields share a byte and each number fits its field.
pub proof fn lemma_interpreter_written(l: InterpreterLayout, buf: Seq<u8>, v: InterpreterState)
    requires
        l.wf(),
        l.distinct(),
        buf.len() >= l.size,
        spec_fits_field(v.next, l.next),
        spec_fits_field(v.tstate_head, l.tstate_head),
        spec_fits_field(v.gil_holder, l.gil_holder),
    ensures
        l.spec_decode(l.spec_encode(buf, v)) == Some(v),
{
    let b1 = spec_write_field(buf, l.next, v.next as nat);
    lemma_read_written(buf, l.next, v.next as nat);
    let b2 = spec_write_field(b1, l.tstate_head, v.tstate_head as nat);
    lemma_read_written(b1, l.tstate_head, v.tstate_head as nat);
    lemma_write_keeps(b1, l.tstate_head, l.next, v.tstate_head as nat);
    lemma_read_written(b2, l.gil_holder, v.gil_holder as nat);
    lemma_write_keeps(b2, l.gil_holder, l.next, v.gil_holder as nat);
    lemma_write_keeps(b2, l.gil_holder, l.tstate_head, v.gil_holder as nat);
}

impl ThreadLayout {
    /// No two fields share a byte.
    pub open spec fn distinct(self) -> bool {
        &&& self.next.disjoint(self.interp)
        &&& self.next.disjoint(self.frame)
        &&& self.next.disjoint(self.thread_id)
        &&& self.interp.disjoint(self.frame)
        &&& self.interp.disjoint(self.thread_id)
        &&& self.frame.disjoint(self.thread_id)
    }
}

/// Writing a thread-state and decoding the buffer gives the fields back, where no
/// two fields share a byte and each number fits its field.
pub proof fn lemma_thread_written(l: ThreadLayout, buf: Seq<u8>, v: ThreadState)
    requires
        l.wf(),
        l.distinct(),
        buf.len() >= l.size,
        spec_fits_field(v.next, l.next),
        spec_fits_field(v.interp, l.interp),
        spec_fits_field(v.frame, l.frame),
        spec_fits_field(v.thread_id, l.thread_id),
    ensures
        l.spec_decode(l.spec_encode(buf, v)) == Some(v),
{
    let b1 = spec_write_field(buf, l.next, v.next as nat);
    lemma_read_written(buf, l.next, v.next as nat);
    let b2 = spec_write_field(b1, l.interp, v.interp as nat);
    lemma_read_written(b1, l.interp, v.interp as nat);
    lemma_write_keeps(b1, l.interp, l.next, v.interp as nat);
    let b3 = spec_write_field(b2, l.frame, v.frame as nat);
    lemma_read_written(b2, l.frame, v.frame as nat);
    lemma_write_keeps(b2, l.frame, l.next, v.frame as nat);
    lemma_write_keeps(b2, l.frame, l.interp, v.frame as nat);
    lemma_read_written(b3, l.thread_id, v.thread_id as nat);
    lemma_write_keeps(b3, l.thread_id, l.next, v.thread_id as nat);
    lemma_write_keeps(b3, l.thread_id, l.interp, v.thread_id as nat);
    lemma_write_keeps(b3, l.thread_id, l.frame, v.thread_id as nat);
}

impl FrameLayout {
    /// No two fields share a byte.
    pub open spec fn distinct(self) -> bool {
        &&& self.back.disjoint(self.code)
        &&& self.back.disjoint(self.lasti)
        &&& self.code.disjoint(self.lasti)
    }
}

/// Writing a frame object and decoding the buffer gives the fields back, where no
/// two fields share a byte and each number fits its field.
pub proof fn lemma_frame_written(l: FrameLayout, buf: Seq<u8>, v: FrameObject)
    requires
        l.wf(),
        l.distinct(),
        buf.len() >= l.size,
        spec_fits_field(v.back, l.back),
        spec_fits_field(v.code, l.code),
    ensures
        l.spec_decode(l.spec_encode(buf, v)) == Some(v),
{
    let b1 = spec_write_field(buf, l.back, v.back as nat);
    lemma_read_written(buf, l.back, v.back as nat);
    let b2 = spec_write_field(b1, l.code, v.code as nat);
    lemma_read_written(b1, l.code, v.code as nat);
    lemma_write_keeps(b1, l.code, l.back, v.code as nat);
    let raw = spec_as_unsigned(v.lasti as int, 4);
    lemma_signed_written(b2, l.lasti, v.lasti);
    lemma_write_keeps(b2, l.lasti, l.back, raw);
    lemma_write_keeps(b2, l.lasti, l.code, raw);
}

impl CodeLayout {
    /// No two fields share a byte.
    pub open spec fn distinct(self) -> bool {
        &&& self.type_ptr.disjoint(self.filename)
        &&& self.type_ptr.disjoint(self.name)
        &&& self.type_ptr.disjoint(self.first_line)
        &&& self.type_ptr.disjoint(self.lnotab)
        &&& self.filename.disjoint(self.name)
        &&& self.filename.disjoint(self.first_line)
        &&& self.filename.disjoint(self.lnotab)
        &&& self.name.disjoint(self.first_line)
        &&& self.name.disjoint(self.lnotab)
        &&& self.first_line.disjoint(self.lnotab)
    }
}

/// Writing a code object and decoding the buffer gives the fields back, where no
/// two fields share a byte and each number fits its field.
pub proof fn lemma_code_written(l: CodeLayout, buf: Seq<u8>, v: CodeObject)
    requires
        l.wf(),
        l.distinct(),
        buf.len() >= l.size,
        spec_fits_field(v.type_ptr, l.type_ptr),
        spec_fits_field(v.filename, l.filename),
        spec_fits_field(v.name, l.name),
        spec_fits_field(v.lnotab, l.lnotab),
    ensures
        l.spec_decode(l.spec_encode(buf, v)) == Some(v),
{
    let b1 = spec_write_field(buf, l.type_ptr, v.type_ptr as nat);
    lemma_read_written(buf, l.type_ptr, v.type_ptr as nat);
    let b2 = spec_write_field(b1, l.filename, v.filename as nat);
    lemma_read_written(b1, l.filename, v.filename as nat);
    lemma_write_keeps(b1, l.filename, l.type_ptr, v.filename as nat);
    let b3 = spec_write_field(b2, l.name, v.name as nat);
    lemma_read_written(b2, l.name, v.name as nat);
    lemma_write_keeps(b2, l.name, l.type_ptr, v.name as nat);
    lemma_write_keeps(b2, l.name, l.filename, v.name as nat);
    let raw = spec_as_unsigned(v.first_line as int, 4);
    let b4 = spec_write_field(b3, l.first_line, raw);
    lemma_signed_written(b3, l.first_line, v.first_line);
    lemma_write_keeps(b3, l.first_line, l.type_ptr, raw);
    lemma_write_keeps(b3, l.first_line, l.filename, raw);
    lemma_write_keeps(b3, l.first_line, l.name, raw);
    lemma_read_written(b4, l.lnotab, v.lnotab as nat);
    lemma_write_keeps(b4, l.lnotab, l.type_ptr, v.lnotab as nat);
    lemma_write_keeps(b4, l.lnotab, l.filename, v.lnotab as nat);
    lemma_write_keeps(b4, l.lnotab, l.name, v.lnotab as nat);
    lemma_write_keeps(b4, l.lnotab, l.first_line, v.lnotab as nat);
}

/// Writing a string header and decoding the buffer gives the fields back, where
/// the two fields share no byte and each number fits its field; a layout without
/// a state word decodes the state as zero.
pub proof fn lemma_string_written(l: StringLayout, buf: Seq<u8>, v: StringHeader)
    requires
        l.wf(),
        l.has_state ==> l.length.disjoint(l.state) && spec_fits_field(v.state, l.state),
        !l.has_state ==> v.state == 0,
        buf.len() >= l.size,
        spec_fits_field(v.length, l.length),
    ensures
        l.spec_decode(l.spec_encode(buf, v)) == Some(v),
{
    let b1 = spec_write_field(buf, l.length, v.length as nat);
    lemma_read_written(buf, l.length, v.length as nat);
    if l.has_state {
        lemma_read_written(b1, l.state, v.state as nat);
        lemma_write_keeps(b1, l.state, l.length, v.state as nat);
    }
}

/// Writing a bytes header and decoding the buffer gives the length back, where it
/// fits its field.
pub proof fn lemma_bytes_written(l: BytesLayout, buf: Seq<u8>, v: BytesHeader)
    requires
        l.wf(),
        buf.len() >= l.size,
        spec_fits_field(v.length, l.length),
    ensures
        l.spec_decode(l.spec_encode(buf, v)) == Some(v),
{
    lemma_read_written(buf, l.length, v.length as nat);
}

/// Writing a tuple header and decoding the buffer gives the length back, where
/// it fits its field.
pub proof fn lemma_tuple_written(l: TupleLayout, buf: Seq<u8>, v: TupleHeader)
    requires
        l.wf(),
        buf.len() >= l.size,
        spec_fits_field(v.length, l.length),
    ensures
        l.spec_decode(l.spec_encode(buf, v)) == Some(v),
{
    lemma_read_written(buf, l.length, v.length as nat);
}

/// Writing a dict object and decoding the buffer gives the fields back, where the
/// two fields share no byte and each number fits its field.
pub proof fn lemma_dict_written(l: DictLayout, buf: Seq<u8>, v: DictObject)
    requires
        l.wf(),
        l.distinct(),
        buf.len() >= l.size,
        spec_fits_field(v.used, l.used),
        spec_fits_field(v.table, l.table),
    ensures
        l.spec_decode(l.spec_encode(buf, v)) == Some(v),
{
    let b1 = spec_write_field(buf, l.used, v.used as nat);
    lemma_read_written(buf, l.used, v.used as nat);
    lemma_read_written(b1, l.table, v.table as nat);
    lemma_write_keeps(b1, l.table, l.used, v.table as nat);
}

/// Writing a type object and decoding the buffer gives the name back, where it
/// fits its field.
pub proof fn lemma_type_written(l: TypeLayout, buf: Seq<u8>, v: TypeObject)
    requires
        l.wf(),
        buf.len() >= l.size,
        spec_fits_field(v.name, l.name),
    ensures
        l.spec_decode(l.spec_encode(buf, v)) == Some(v),
{
    lemma_read_written(buf, l.name, v.name as nat);
}

impl Layout {
    /// In no structure do two fields share a byte.
    pub open spec fn distinct(self) -> bool {
        &&& self.interp.distinct()
        &&& self.thread.distinct()
        &&& self.frame.distinct()
        &&& self.code.distinct()
        &&& self.dict.distinct()
        &&& self.string.has_state ==> self.string.length.disjoint(self.string.state)
    }
}

} // verus!
