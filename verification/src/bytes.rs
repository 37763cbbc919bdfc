//! Little-endian numbers inside byte buffers: reading a field, writing it back,
//! and the laws that tie the two together.

use vstd::prelude::*;

verus! {

/// 256 to the power `n`.
pub open spec fn pow256(n: nat) -> nat
    decreases n,
{
    if n == 0 {
        1
    } else {
        256 * pow256((n - 1) as nat)
    }
}

/// The number that bytes stand for, least significant byte first.
pub open spec fn spec_le_value(bytes: Seq<u8>) -> nat
    decreases bytes.len(),
{
    if bytes.len() == 0 {
        0
    } else {
        bytes[0] as nat + 256 * spec_le_value(bytes.skip(1))
    }
}

/// The `width` least significant bytes of a number, least significant first.
pub open spec fn spec_le_bytes(value: nat, width: nat) -> Seq<u8>
    decreases width,
{
    if width == 0 {
        Seq::empty()
    } else {
        seq![(value % 256) as u8] + spec_le_bytes(value / 256, (width - 1) as nat)
    }
}

/// Where a field lies inside a structure: its first byte and its width in bytes.
#[derive(Clone, Copy, Debug, PartialEq, Eq, Structural)]
pub struct FieldLayout {
    pub offset: usize,
    pub width: usize,
}

impl FieldLayout {
    /// The field is one to eight bytes wide and lies inside a structure of `size`
    /// bytes.
    pub open spec fn fits(self, size: int) -> bool {
        1 <= self.width <= 8 && self.offset + self.width <= size
    }

    /// The two fields share no byte.
    pub open spec fn disjoint(self, other: FieldLayout) -> bool {
        self.offset + self.width <= other.offset || other.offset + other.width <= self.offset
    }

    /// The bytes of the field inside a buffer.
    pub open spec fn slice(self, buf: Seq<u8>) -> Seq<u8> {
        buf.subrange(self.offset as int, self.offset + self.width)
    }
}

/// The unsigned number held by a field of a buffer.
pub open spec fn spec_read_field(buf: Seq<u8>, f: FieldLayout) -> nat {
    spec_le_value(f.slice(buf))
}

/// The buffer with the field overwritten by the low bytes of `value`.
pub open spec fn spec_write_field(buf: Seq<u8>, f: FieldLayout, value: nat) -> Seq<u8> {
    buf.subrange(0, f.offset as int) + spec_le_bytes(value, f.width as nat) + buf.subrange(
        f.offset + f.width,
        buf.len() as int,
    )
}

/// The signed reading of an unsigned number of `width` bytes, in two's complement.
pub open spec fn spec_as_signed(raw: nat, width: nat) -> int {
    if 2 * raw >= pow256(width) {
        raw - pow256(width)
    } else {
        raw as int
    }
}

/// The unsigned number of `width` bytes that holds a signed one in two's complement.
pub open spec fn spec_as_unsigned(value: int, width: nat) -> nat {
    if value < 0 {
        (value + pow256(width)) as nat
    } else {
        value as nat
    }
}

/// The powers of 256 up to the eighth.
pub proof fn lemma_pow256_values()
    ensures
        pow256(0) == 1,
        pow256(1) == 0x100,
        pow256(2) == 0x1_0000,
        pow256(3) == 0x100_0000,
        pow256(4) == 0x1_0000_0000,
        pow256(5) == 0x100_0000_0000,
        pow256(6) == 0x1_0000_0000_0000,
        pow256(7) == 0x100_0000_0000_0000,
        pow256(8) == 0x1_0000_0000_0000_0000,
{
    reveal_with_fuel(pow256, 10);
}

/// Bytes stand for a number below 256 to the power of their count.
pub proof fn lemma_le_value_bound(bytes: Seq<u8>)
    ensures
        spec_le_value(bytes) < pow256(bytes.len()),
    decreases bytes.len(),
{
    if bytes.len() > 0 {
        lemma_le_value_bound(bytes.skip(1));
    }
}

/// The bytes of a number are as many as asked for.
pub proof fn lemma_le_bytes_len(value: nat, width: nat)
    ensures
        spec_le_bytes(value, width).len() == width,
    decreases width,
{
    if width > 0 {
        lemma_le_bytes_len(value / 256, (width - 1) as nat);
    }
}

/// Writing out the number that bytes stand for gives the bytes back.
pub proof fn lemma_le_bytes_of_value(bytes: Seq<u8>)
    ensures
        spec_le_bytes(spec_le_value(bytes), bytes.len()) == bytes,
    decreases bytes.len(),
{
    if bytes.len() > 0 {
        let rest = bytes.skip(1);
        lemma_le_bytes_of_value(rest);
        let v = spec_le_value(bytes);
    }
}

/// Reading the bytes of a number that fits gives the number back.
pub proof fn lemma_le_value_of_bytes(value: nat, width: nat)
    requires
        value < pow256(width),
    ensures
        spec_le_value(spec_le_bytes(value, width)) == value,
    decreases width,
{
    if width > 0 {
        lemma_le_bytes_len(value / 256, (width - 1) as nat);
        lemma_le_value_of_bytes(value / 256, (width - 1) as nat);
        let bytes = spec_le_bytes(value, width);
        assert(bytes.skip(1) =~= spec_le_bytes(value / 256, (width - 1) as nat));
    }
}

/// A field overwritten with the number it holds leaves the buffer as it was.
pub proof fn lemma_write_back(buf: Seq<u8>, f: FieldLayout)
    requires
        f.fits(buf.len() as int),
    ensures
        spec_write_field(buf, f, spec_read_field(buf, f)) == buf,
{
    lemma_le_bytes_of_value(f.slice(buf));
}

/// A field reads back the number written to it, where the number fits its width;
/// the buffer keeps its length.
pub proof fn lemma_read_written(buf: Seq<u8>, f: FieldLayout, value: nat)
    requires
        f.fits(buf.len() as int),
        value < pow256(f.width as nat),
    ensures
        spec_read_field(spec_write_field(buf, f, value), f) == value,
        spec_write_field(buf, f, value).len() == buf.len(),
{
    lemma_le_bytes_len(value, f.width as nat);
    lemma_le_value_of_bytes(value, f.width as nat);
    assert(f.slice(spec_write_field(buf, f, value)) =~= spec_le_bytes(value, f.width as nat));
}

/// Writing to one field leaves every field that shares no byte with it unchanged.
pub proof fn lemma_read_other(buf: Seq<u8>, f: FieldLayout, g: FieldLayout, value: nat)
    requires
        f.fits(buf.len() as int),
        g.fits(buf.len() as int),
        f.disjoint(g),
    ensures
        spec_read_field(spec_write_field(buf, f, value), g) == spec_read_field(buf, g),
{
    lemma_le_bytes_len(value, f.width as nat);
    assert(g.slice(spec_write_field(buf, f, value)) =~= g.slice(buf));
}

/// The signed and the unsigned reading of a number of `width` bytes undo each other.
pub proof fn lemma_signed_round_trip(raw: nat, width: nat)
    requires
        raw < pow256(width),
    ensures
        spec_as_unsigned(spec_as_signed(raw, width), width) == raw,
        spec_as_unsigned(spec_as_signed(raw, width), width) < pow256(width),
{
}

/// Reads the unsigned number held by a field that lies inside the buffer.
pub(crate) fn read_field(buf: &[u8], f: FieldLayout) -> (value: u64)
    requires
        f.fits(buf@.len() as int),
    ensures
        value == spec_read_field(buf@, f),
{
    let mut acc: u64 = 0;
    let size: usize = buf.len();
    let mut i: usize = f.offset + f.width;
    let ghost end = f.offset + f.width;
    while i > f.offset
        invariant
            f.fits(buf@.len() as int),
            end == f.offset + f.width,
            end <= size,
            f.offset <= i <= end,
            acc == spec_le_value(buf@.subrange(i as int, end)),
            acc < pow256((end - i) as nat),
        decreases i,
    {
        proof {
            lemma_pow256_values();
            let longer = buf@.subrange(i - 1, end);
            assert(longer.skip(1) =~= buf@.subrange(i as int, end));
        }
        i -= 1;
        acc = acc * 256 + buf[i] as u64;
    }
    acc
}

/// Overwrites a field that lies inside the buffer with the low bytes of a number.
pub(crate) fn write_field(buf: &mut Vec<u8>, f: FieldLayout, value: u64)
    requires
        f.fits(old(buf)@.len() as int),
    ensures
        final(buf)@ == spec_write_field(old(buf)@, f, value as nat),
{
    let mut rest: u64 = value;
    let mut i: usize = 0;
    let size: usize = buf.len();
    let ghost start = buf@;
    proof {
        lemma_le_bytes_len(value as nat, f.width as nat);
    }
    while i < f.width
        invariant
            f.fits(start.len() as int),
            start.len() == size,
            i <= f.width,
            buf@.len() == start.len(),
            buf@ == start.subrange(0, f.offset as int) + (spec_le_bytes(value as nat, f.width as nat).subrange(
                0,
                i as int,
            ) + start.subrange(f.offset + i, start.len() as int)),
            spec_le_bytes(rest as nat, (f.width - i) as nat) == spec_le_bytes(
                value as nat,
                f.width as nat,
            ).subrange(i as int, f.width as int),
            spec_le_bytes(value as nat, f.width as nat).len() == f.width,
        decreases f.width - i,
    {
        let ghost whole = spec_le_bytes(value as nat, f.width as nat);
        let ghost tail = spec_le_bytes(rest as nat, (f.width - i) as nat);
        proof {
            assert(tail[0] == whole[i as int]);
            assert(tail.subrange(1, tail.len() as int) =~= whole.subrange(i + 1, f.width as int));
        }
        buf.set(f.offset + i, (rest % 256) as u8);
        rest = rest / 256;
        i += 1;
    }
}

/// Reads a field of four bytes as a signed number.
pub(crate) fn read_signed32(buf: &[u8], f: FieldLayout) -> (value: i32)
    requires
        f.fits(buf@.len() as int),
        f.width == 4,
    ensures
        value == spec_as_signed(spec_read_field(buf@, f), 4),
{
    let raw = read_field(buf, f);
    proof {
        lemma_pow256_values();
        lemma_le_value_bound(f.slice(buf@));
    }
    if raw >= 0x8000_0000 {
        (raw as i64 - 0x1_0000_0000i64) as i32
    } else {
        raw as i32
    }
}

/// The unsigned number of four bytes that holds a signed one.
pub fn unsigned32(value: i32) -> (raw: u64)
    ensures
        raw == spec_as_unsigned(value as int, 4),
        raw < pow256(4),
{
    proof {
        lemma_pow256_values();
    }
    if value < 0 {
        (value as i64 + 0x1_0000_0000i64) as u64
    } else {
        value as u64
    }
}

/// Reads the unsigned number held by a field; `None` where the field is wider than
/// eight bytes, is empty, or does not lie inside the buffer.
pub fn field_value(buf: &[u8], f: FieldLayout) -> (value: Option<u64>)
    ensures
        match value {
            Some(v) => f.fits(buf@.len() as int) && v == spec_read_field(buf@, f),
            None => !f.fits(buf@.len() as int),
        },
{
    let size = buf.len();
    if 1 <= f.width && f.width <= 8 && f.offset <= size && f.width <= size - f.offset {
        Some(read_field(buf, f))
    } else {
        None
    }
}

/// Reads a field as a signed number of 32 bits; `None` where the field is not four
/// bytes wide or does not lie inside the buffer.
pub fn signed_value(buf: &[u8], f: FieldLayout) -> (value: Option<i32>)
    ensures
        match value {
            Some(v) => f.fits(buf@.len() as int) && f.width == 4 && v == spec_as_signed(
                spec_read_field(buf@, f),
                4,
            ),
            None => !(f.fits(buf@.len() as int) && f.width == 4),
        },
{
    let size = buf.len();
    if f.width == 4 && f.offset <= size && f.width <= size - f.offset {
        Some(read_signed32(buf, f))
    } else {
        None
    }
}

/// Overwrites a field with the low bytes of a number. A field that is wider than
/// eight bytes, is empty, or does not lie inside the buffer is not written, and
/// `false` is returned.
pub fn store_field(buf: &mut Vec<u8>, f: FieldLayout, value: u64) -> (done: bool)
    ensures
        done == f.fits(old(buf)@.len() as int),
        done ==> final(buf)@ == spec_write_field(old(buf)@, f, value as nat),
        !done ==> final(buf)@ == old(buf)@,
{
    let size = buf.len();
    if 1 <= f.width && f.width <= 8 && f.offset <= size && f.width <= size - f.offset {
        write_field(buf, f, value);
        true
    } else {
        false
    }
}

} // verus!
