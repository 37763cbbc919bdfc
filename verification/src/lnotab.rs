//! The line-number table of a code object: from the index of a bytecode
//! instruction to the source line.

use vstd::prelude::*;

verus! {

/// The line increment that a byte of the table stands for: where increments are
/// signed, a byte of 128 or more stands for a negative number.
pub open spec fn spec_line_delta(byte: u8, signed: bool) -> int {
    if signed && byte >= 128 {
        byte as int - 256
    } else {
        byte as int
    }
}

/// Walks the pairs of the table from address `addr` and line `line`: each pair adds
/// to the address, and adds to the line unless the address has gone past `lasti`,
/// where the walk ends. A byte left over at the end is not looked at.
pub open spec fn spec_line_walk(table: Seq<u8>, lasti: int, signed: bool, addr: int, line: int) -> int
    decreases table.len(),
{
    if table.len() < 2 {
        line
    } else if addr + table[0] > lasti {
        line
    } else {
        spec_line_walk(
            table.skip(2),
            lasti,
            signed,
            addr + table[0],
            line + spec_line_delta(table[1], signed),
        )
    }
}

/// The source line of the instruction at index `lasti`, for a code object whose
/// first line is `first_line`.
pub open spec fn spec_line_number(first_line: int, table: Seq<u8>, lasti: int, signed: bool) -> int {
    spec_line_walk(table, lasti, signed, 0, first_line)
}

/// Computes the source line of the instruction at index `lasti`. The result is
/// `None` exactly when the line does not fit in 32 bits.
pub fn line_number(first_line: i32, table: &[u8], lasti: i32, signed: bool) -> (line: Option<i32>)
    ensures
        match line {
            Some(v) => v == spec_line_number(first_line as int, table@, lasti as int, signed),
            None => {
                let exact = spec_line_number(first_line as int, table@, lasti as int, signed);
                exact < i32::MIN || exact > i32::MAX
            },
        },
{
    let mut i: usize = 0;
    let mut addr: i64 = 0;
    let mut current: i128 = first_line as i128;
    let size: usize = table.len();
    assert(table@.skip(0) == table@);
    let mut done = false;
    while !done && i < size && size - i >= 2
        invariant
            i <= size,
            size == table@.len(),
            i % 2 == 0,
            0 <= addr <= lasti || (addr == 0),
            -0x8000_0000 - 256 * (i as int) <= current <= 0x8000_0000 + 256 * (i as int),
            done ==> spec_line_number(first_line as int, table@, lasti as int, signed) == current,
            !done ==> spec_line_number(first_line as int, table@, lasti as int, signed)
                == spec_line_walk(
                table@.skip(i as int),
                lasti as int,
                signed,
                addr as int,
                current as int,
            ),
        decreases size - i + if done { 0int } else { 1int },
    {
        let ghost rest = table@.skip(i as int);
        assert(rest.skip(2) == table@.skip(i + 2));
        let step: i64 = table[i] as i64;
        if addr + step > lasti as i64 {
            done = true;
        } else {
            addr = addr + step;
            let byte = table[i + 1];
            let delta: i128 = if signed && byte >= 128 {
                byte as i128 - 256
            } else {
                byte as i128
            };
            current = current + delta;
            i += 2;
        }
    }
    if current < -0x8000_0000 || current > 0x7fff_ffff {
        None
    } else {
        Some(current as i32)
    }
}

/// The address that the first `k` pairs of the table add up to.
pub open spec fn spec_address_after(table: Seq<u8>, k: nat) -> int
    decreases k,
{
    if k == 0 {
        0
    } else {
        spec_address_after(table, (k - 1) as nat) + table[2 * (k - 1)]
    }
}

/// The line increments, added up, of those among the first `k` pairs whose
/// address is not past `lasti`.
pub open spec fn spec_lines_upto(table: Seq<u8>, lasti: int, signed: bool, k: nat) -> int
    decreases k,
{
    if k == 0 {
        0
    } else {
        spec_lines_upto(table, lasti, signed, (k - 1) as nat) + if spec_address_after(table, k)
            <= lasti {
            spec_line_delta(table[2 * k - 1], signed)
        } else {
            0
        }
    }
}

/// Addresses never go down from one pair to a later one.
pub proof fn lemma_address_grows(table: Seq<u8>, j: nat, k: nat)
    requires
        j <= k,
    ensures
        spec_address_after(table, j) <= spec_address_after(table, k),
    decreases k,
{
    if j < k {
        lemma_address_grows(table, j, (k - 1) as nat);
    }
}

/// Once the address is past `lasti`, no later pair adds to the line.
pub proof fn lemma_lines_stay(table: Seq<u8>, lasti: int, signed: bool, j: nat, k: nat)
    requires
        1 <= j <= k,
        spec_address_after(table, j) > lasti,
    ensures
        spec_lines_upto(table, lasti, signed, k) == spec_lines_upto(table, lasti, signed, (j - 1) as nat),
    decreases k,
{
    if j < k {
        lemma_lines_stay(table, lasti, signed, j, (k - 1) as nat);
        lemma_address_grows(table, j, k);
    }
}

/// The walk from pair `k` on adds to the line what the pairs after the first `k`
/// add up to.
pub proof fn lemma_walk_from_pair(table: Seq<u8>, lasti: int, signed: bool, k: nat, line: int)
    requires
        2 * k <= table.len(),
    ensures
        spec_line_walk(
            table.skip(2 * k as int),
            lasti,
            signed,
            spec_address_after(table, k),
            line,
        ) == line + spec_lines_upto(table, lasti, signed, table.len() / 2) - spec_lines_upto(
            table,
            lasti,
            signed,
            k,
        ),
    decreases table.len() - 2 * k,
{
    let n = table.len() / 2;
    let at: int = 2 * k as int;
    let rest = table.skip(at);
    if rest.len() < 2 {
    } else {
        assert(rest.skip(2) =~= table.skip(2 * (k + 1) as int));
        if spec_address_after(table, k + 1) > lasti {
            lemma_lines_stay(table, lasti, signed, k + 1, n);
        } else {
            lemma_walk_from_pair(
                table,
                lasti,
                signed,
                k + 1,
                line + spec_line_delta(table[at + 1], signed),
            );
        }
    }
}

/// The line of an instruction is the first line plus the line increments of all
/// pairs of the table whose address is not past the instruction.
pub proof fn lemma_line_number_is_sum(first_line: int, table: Seq<u8>, lasti: int, signed: bool)
    ensures
        spec_line_number(first_line, table, lasti, signed) == first_line + spec_lines_upto(
            table,
            lasti,
            signed,
            table.len() / 2,
        ),
{
    lemma_walk_from_pair(table, lasti, signed, 0, first_line);
    assert(table.skip(0) =~= table);
}

} // verus!
