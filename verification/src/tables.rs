//! The layout tables: one set of descriptors for each supported interpreter
//! version, for targets with pointers of eight bytes.

use vstd::prelude::*;
use crate::bytes::FieldLayout;
use crate::layout::{
    lemma_bytes_round_trip, lemma_code_round_trip, lemma_dict_round_trip, lemma_frame_round_trip,
    lemma_interpreter_round_trip, lemma_string_round_trip, lemma_thread_round_trip,
    lemma_tuple_round_trip, lemma_type_round_trip, BytesLayout, CodeLayout, DictLayout,
    FrameLayout, InterpreterLayout, Layout, StringLayout, ThreadLayout, TupleLayout, TypeLayout,
    Version,
};

verus! {

/// The width of a pointer, in bytes, on the targets that the tables are for.
pub const POINTER_WIDTH: usize = 8;

/// Whether a layout table exists for a version; the patch level plays no part.
pub open spec fn spec_supported(major: u64, minor: u64) -> bool {
    (major == 2 && minor == 7) || (major == 3 && 3 <= minor <= 7)
}

/// A pointer field.
pub open spec fn spec_pointer(offset: usize) -> FieldLayout {
    FieldLayout { offset, width: 8 }
}

/// A field of four bytes.
pub open spec fn spec_word(offset: usize) -> FieldLayout {
    FieldLayout { offset, width: 4 }
}

/// A pointer field.
#[verifier::when_used_as_spec(spec_pointer)]
pub fn pointer(offset: usize) -> (f: FieldLayout)
    ensures
        f == spec_pointer(offset),
{
    FieldLayout { offset, width: 8 }
}

/// A field of four bytes.
#[verifier::when_used_as_spec(spec_word)]
pub fn word(offset: usize) -> (f: FieldLayout)
    ensures
        f == spec_word(offset),
{
    FieldLayout { offset, width: 4 }
}

/// The interpreter-state, alike in every supported version.
pub open spec fn spec_interpreter_layout() -> InterpreterLayout {
    InterpreterLayout { size: 24, next: pointer(0), tstate_head: pointer(8), gil_holder: pointer(16) }
}

/// The thread-state of a version.
pub open spec fn spec_thread_layout(major: u64, minor: u64) -> ThreadLayout {
    if major == 2 || minor == 3 {
        ThreadLayout {
            size: 152,
            next: pointer(0),
            interp: pointer(8),
            frame: pointer(16),
            thread_id: pointer(144),
        }
    } else if minor <= 6 {
        ThreadLayout {
            size: 160,
            next: pointer(8),
            interp: pointer(16),
            frame: pointer(24),
            thread_id: pointer(152),
        }
    } else {
        ThreadLayout {
            size: 184,
            next: pointer(8),
            interp: pointer(16),
            frame: pointer(24),
            thread_id: pointer(176),
        }
    }
}

/// The frame object of a version.
pub open spec fn spec_frame_layout(major: u64, minor: u64) -> FrameLayout {
    if major == 2 || minor <= 6 {
        FrameLayout { size: 128, back: pointer(24), code: pointer(32), lasti: word(120) }
    } else {
        FrameLayout { size: 112, back: pointer(24), code: pointer(32), lasti: word(104) }
    }
}

/// The code object of a version.
pub open spec fn spec_code_layout(major: u64, minor: u64) -> CodeLayout {
    if major == 2 {
        CodeLayout {
            size: 112,
            type_ptr: pointer(8),
            filename: pointer(80),
            name: pointer(88),
            first_line: word(96),
            lnotab: pointer(104),
        }
    } else if minor <= 5 {
        CodeLayout {
            size: 128,
            type_ptr: pointer(8),
            filename: pointer(96),
            name: pointer(104),
            first_line: word(112),
            lnotab: pointer(120),
        }
    } else {
        CodeLayout {
            size: 120,
            type_ptr: pointer(8),
            filename: pointer(96),
            name: pointer(104),
            first_line: word(36),
            lnotab: pointer(112),
        }
    }
}

/// The string object of a version.
pub open spec fn spec_string_layout(major: u64) -> StringLayout {
    if major == 2 {
        StringLayout {
            size: 24,
            length: pointer(16),
            state: word(0),
            has_state: false,
            ascii_data: 36,
            unicode_data: 36,
        }
    } else {
        StringLayout {
            size: 48,
            length: pointer(16),
            state: word(32),
            has_state: true,
            ascii_data: 48,
            unicode_data: 72,
        }
    }
}

/// The bytes object of a version.
pub open spec fn spec_bytes_layout(major: u64) -> BytesLayout {
    if major == 2 {
        BytesLayout { size: 24, length: pointer(16), data: 36 }
    } else {
        BytesLayout { size: 24, length: pointer(16), data: 32 }
    }
}

/// The tuple object, alike in every supported version.
pub open spec fn spec_tuple_layout() -> TupleLayout {
    TupleLayout { size: 24, length: pointer(16), items: 24 }
}

/// The dict object of a version.
pub open spec fn spec_dict_layout(major: u64, minor: u64) -> DictLayout {
    if major == 2 {
        DictLayout { size: 48, used: pointer(24), table: pointer(40) }
    } else if minor <= 5 {
        DictLayout { size: 32, used: pointer(16), table: pointer(24) }
    } else {
        DictLayout { size: 40, used: pointer(16), table: pointer(32) }
    }
}

/// The type object, alike in every supported version.
pub open spec fn spec_type_layout() -> TypeLayout {
    TypeLayout { size: 32, name: pointer(24) }
}

/// The layouts of a version, where it is supported.
pub open spec fn spec_layout_for(major: u64, minor: u64) -> Option<Layout> {
    if spec_supported(major, minor) {
        Some(
            Layout {
                major,
                minor,
                pointer_width: 8,
                signed_line_deltas: major == 3 && minor >= 6,
                runtime_thread: if major == 3 && minor == 7 {
                    1392
                } else {
                    0
                },
                interp: spec_interpreter_layout(),
                thread: spec_thread_layout(major, minor),
                frame: spec_frame_layout(major, minor),
                code: spec_code_layout(major, minor),
                string: spec_string_layout(major),
                bytes: spec_bytes_layout(major),
                tuple: spec_tuple_layout(),
                dict: spec_dict_layout(major, minor),
                type_object: spec_type_layout(),
            },
        )
    } else {
        None
    }
}

/// Tells whether a layout table exists for a version.
pub fn supported(version: &Version) -> (yes: bool)
    ensures
        yes == spec_supported(version.major, version.minor),
{
    (version.major == 2 && version.minor == 7) || (version.major == 3 && 3 <= version.minor
        && version.minor <= 7)
}

/// Selects the layouts of a version by its major and minor number; `None` where the
/// version is not supported.
pub fn layout_for(version: &Version) -> (layout: Option<Layout>)
    ensures
        layout == spec_layout_for(version.major, version.minor),
        layout matches Some(l) ==> l.wf(),
{
    if !supported(version) {
        return None;
    }
    let major = version.major;
    let minor = version.minor;
    let thread = if major == 2 || minor == 3 {
        ThreadLayout {
            size: 152,
            next: pointer(0),
            interp: pointer(8),
            frame: pointer(16),
            thread_id: pointer(144),
        }
    } else if minor <= 6 {
        ThreadLayout {
            size: 160,
            next: pointer(8),
            interp: pointer(16),
            frame: pointer(24),
            thread_id: pointer(152),
        }
    } else {
        ThreadLayout {
            size: 184,
            next: pointer(8),
            interp: pointer(16),
            frame: pointer(24),
            thread_id: pointer(176),
        }
    };
    let frame = if major == 2 || minor <= 6 {
        FrameLayout { size: 128, back: pointer(24), code: pointer(32), lasti: word(120) }
    } else {
        FrameLayout { size: 112, back: pointer(24), code: pointer(32), lasti: word(104) }
    };
    let code = if major == 2 {
        CodeLayout {
            size: 112,
            type_ptr: pointer(8),
            filename: pointer(80),
            name: pointer(88),
            first_line: word(96),
            lnotab: pointer(104),
        }
    } else if minor <= 5 {
        CodeLayout {
            size: 128,
            type_ptr: pointer(8),
            filename: pointer(96),
            name: pointer(104),
            first_line: word(112),
            lnotab: pointer(120),
        }
    } else {
        CodeLayout {
            size: 120,
            type_ptr: pointer(8),
            filename: pointer(96),
            name: pointer(104),
            first_line: word(36),
            lnotab: pointer(112),
        }
    };
    let string = if major == 2 {
        StringLayout {
            size: 24,
            length: pointer(16),
            state: word(0),
            has_state: false,
            ascii_data: 36,
            unicode_data: 36,
        }
    } else {
        StringLayout {
            size: 48,
            length: pointer(16),
            state: word(32),
            has_state: true,
            ascii_data: 48,
            unicode_data: 72,
        }
    };
    let bytes = if major == 2 {
        BytesLayout { size: 24, length: pointer(16), data: 36 }
    } else {
        BytesLayout { size: 24, length: pointer(16), data: 32 }
    };
    let dict = if major == 2 {
        DictLayout { size: 48, used: pointer(24), table: pointer(40) }
    } else if minor <= 5 {
        DictLayout { size: 32, used: pointer(16), table: pointer(24) }
    } else {
        DictLayout { size: 40, used: pointer(16), table: pointer(32) }
    };
    Some(
        Layout {
            major,
            minor,
            pointer_width: 8,
            signed_line_deltas: major == 3 && minor >= 6,
            runtime_thread: if major == 3 && minor == 7 {
                1392
            } else {
                0
            },
            interp: InterpreterLayout {
                size: 24,
                next: pointer(0),
                tstate_head: pointer(8),
                gil_holder: pointer(16),
            },
            thread,
            frame,
            code,
            string,
            bytes,
            tuple: TupleLayout { size: 24, length: pointer(16), items: 24 },
            dict,
            type_object: TypeLayout { size: 32, name: pointer(24) },
        },
    )
}

/// There is a table for exactly the supported versions, it carries the version it
/// was selected by, it is well formed, and in none of its structures do two
/// fields share a byte.
pub proof fn lemma_tables_well_formed(major: u64, minor: u64)
    ensures
        spec_layout_for(major, minor).is_some() <==> spec_supported(major, minor),
        spec_layout_for(major, minor) matches Some(l) ==> l.wf() && l.distinct() && l.major
            == major && l.minor == minor && l.pointer_width == POINTER_WIDTH,
{
}

/// For every supported version and each of its structures: decoding a buffer of
/// the structure's size and writing the decoded fields back reproduces the bytes.
pub proof fn lemma_every_version_round_trips(major: u64, minor: u64, buf: Seq<u8>)
    requires
        spec_supported(major, minor),
    ensures
        ({
            let l = spec_layout_for(major, minor).unwrap();
            &&& buf.len() >= l.interp.size ==> l.interp.spec_encode(
                buf,
                l.interp.spec_decode(buf).unwrap(),
            ) == buf
            &&& buf.len() >= l.thread.size ==> l.thread.spec_encode(
                buf,
                l.thread.spec_decode(buf).unwrap(),
            ) == buf
            &&& buf.len() >= l.frame.size ==> l.frame.spec_encode(
                buf,
                l.frame.spec_decode(buf).unwrap(),
            ) == buf
            &&& buf.len() >= l.code.size ==> l.code.spec_encode(
                buf,
                l.code.spec_decode(buf).unwrap(),
            ) == buf
            &&& buf.len() >= l.string.size ==> l.string.spec_encode(
                buf,
                l.string.spec_decode(buf).unwrap(),
            ) == buf
            &&& buf.len() >= l.bytes.size ==> l.bytes.spec_encode(
                buf,
                l.bytes.spec_decode(buf).unwrap(),
            ) == buf
            &&& buf.len() >= l.tuple.size ==> l.tuple.spec_encode(
                buf,
                l.tuple.spec_decode(buf).unwrap(),
            ) == buf
            &&& buf.len() >= l.dict.size ==> l.dict.spec_encode(
                buf,
                l.dict.spec_decode(buf).unwrap(),
            ) == buf
            &&& buf.len() >= l.type_object.size ==> l.type_object.spec_encode(
                buf,
                l.type_object.spec_decode(buf).unwrap(),
            ) == buf
        }),
{
    let l = spec_layout_for(major, minor).unwrap();
    lemma_tables_well_formed(major, minor);
    if buf.len() >= l.interp.size {
        lemma_interpreter_round_trip(l.interp, buf);
    }
    if buf.len() >= l.thread.size {
        lemma_thread_round_trip(l.thread, buf);
    }
    if buf.len() >= l.frame.size {
        lemma_frame_round_trip(l.frame, buf);
    }
    if buf.len() >= l.code.size {
        lemma_code_round_trip(l.code, buf);
    }
    if buf.len() >= l.string.size {
        lemma_string_round_trip(l.string, buf);
    }
    if buf.len() >= l.bytes.size {
        lemma_bytes_round_trip(l.bytes, buf);
    }
    if buf.len() >= l.tuple.size {
        lemma_tuple_round_trip(l.tuple, buf);
    }
    if buf.len() >= l.dict.size {
        lemma_dict_round_trip(l.dict, buf);
    }
    if buf.len() >= l.type_object.size {
        lemma_type_round_trip(l.type_object, buf);
    }
}

} // verus!
