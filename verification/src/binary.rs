//! The interpreter's binary on disk: its exported symbols, its zero-initialised
//! globals, and where it expects to be loaded. The three executable formats are
//! parsed by `goblin`; what is read out of the parsed tables is decided here.

use vstd::prelude::*;
use vstd::slice::slice_to_vec;
use crate::error::{ErrorKind, SpyError};
use crate::bytes::{field_value, spec_read_field, FieldLayout};
use crate::layout::Layout;
use crate::text::{chars_of, string_from_chars};

verus! {

/// The error type of `goblin`.
#[verifier::external_type_specification]
#[verifier::external_body]
pub struct ExGoblinError(goblin::error::Error);

/// A symbol as a table lists it: its name, where the table has one for it, its
/// value, and the table's flags for it.
pub type RawSymbol = (Option<String>, u64, u64);

/// A section or segment as a table lists it: kind, flags, address, size.
pub type RawSection = (u64, u64, u64, u64);

/// The tables of a binary: whether it is a 64-bit binary, its dynamic symbols,
/// its other symbols, its sections and its segments.
pub type RawTables = (bool, Vec<RawSymbol>, Vec<RawSymbol>, Vec<RawSection>, Vec<RawSection>);

/// The tables of a binary as a mathematical value.
pub struct TablesView {
    pub is_64: bool,
    pub dynamic: Seq<(Option<Seq<char>>, u64, u64)>,
    pub symbols: Seq<(Option<Seq<char>>, u64, u64)>,
    pub sections: Seq<RawSection>,
    pub segments: Seq<RawSection>,
}

/// The views of symbols.
pub open spec fn raw_symbols_view(v: Seq<RawSymbol>) -> Seq<(Option<Seq<char>>, u64, u64)> {
    Seq::new(v.len(), |i: int| (spec_name_view(v[i].0), v[i].1, v[i].2))
}

/// The view of a name that may be missing.
pub open spec fn spec_name_view(name: Option<String>) -> Option<Seq<char>> {
    match name {
        Some(n) => Some(n@),
        None => None,
    }
}

/// The view of tables.
pub open spec fn tables_view(t: RawTables) -> TablesView {
    TablesView {
        is_64: t.0,
        dynamic: raw_symbols_view(t.1@),
        symbols: raw_symbols_view(t.2@),
        sections: t.3@,
        segments: t.4@,
    }
}

/// The view of tables that may be missing.
pub open spec fn opt_tables(r: Result<RawTables, goblin::error::Error>) -> Option<TablesView> {
    match r {
        Ok(t) => Some(tables_view(t)),
        Err(_) => None,
    }
}

/// The tables that `goblin` reads out of an ELF binary: the dynamic symbols and
/// the symbols with their names and values, the section headers with type, flags,
/// address and size, and the program headers with type, flags, virtual address
/// and size in memory. There is no value where `goblin` rejects the bytes.
pub uninterp spec fn elf_contents(bytes: Seq<u8>) -> Option<TablesView>;

/// The tables that `goblin` reads out of a PE binary: the exports with their names
/// and relative addresses, and the sections with characteristics, relative
/// address and size. There is no value where `goblin` rejects the bytes.
pub uninterp spec fn pe_contents(bytes: Seq<u8>) -> Option<TablesView>;

/// The tables that `goblin` reads out of a Mach-O binary for one architecture:
/// the symbols with their names, values and type bytes, and the segments with
/// initial protection, address and size. There is no value where `goblin` rejects
/// the bytes.
pub uninterp spec fn macho_contents(bytes: Seq<u8>) -> Option<TablesView>;

/// Calls `goblin::elf::Elf::parse` and copies the tables out. A symbol has the
/// name that its string table holds at the symbol's name offset, or none.
#[verifier::external_body]
fn elf_tables(bytes: &[u8]) -> (r: Result<RawTables, goblin::error::Error>)
    ensures
        opt_tables(r) == elf_contents(bytes@),
{
    let e = goblin::elf::Elf::parse(bytes)?;
    Ok((
        e.is_64,
        e.dynsyms.iter().map(|s| (e.dynstrtab.get_at(s.st_name).map(String::from), s.st_value, 0)).collect(),
        e.syms.iter().map(|s| (e.strtab.get_at(s.st_name).map(String::from), s.st_value, 0)).collect(),
        e.section_headers.iter().map(|h| (h.sh_type as u64, h.sh_flags, h.sh_addr, h.sh_size)).collect(),
        e.program_headers.iter().map(|h| (h.p_type as u64, h.p_flags as u64, h.p_vaddr, h.p_memsz)).collect(),
    ))
}

/// Calls `goblin::pe::PE::parse` and copies the tables out. An export has the name
/// that the export table gives it, or none. The bytes must name no data directory
/// but that of the exports: `goblin` then reads the headers, the sections and the
/// export table, and none of the other tables of the file.
#[verifier::external_body]
fn pe_tables(bytes: &[u8]) -> (r: Result<RawTables, goblin::error::Error>)
    requires
        spec_pe_plain(bytes@),
    ensures
        opt_tables(r) == pe_contents(bytes@),
{
    let p = goblin::pe::PE::parse(bytes)?;
    Ok((
        p.is_64,
        p.exports.iter().map(|x| (x.name.map(String::from), x.rva as u64, 0)).collect(),
        Vec::new(),
        p.sections.iter().map(|s| (0, s.characteristics as u64, s.virtual_address as u64, s.virtual_size as u64)).collect(),
        Vec::new(),
    ))
}

/// Calls `goblin::mach::MachO::parse` at offset zero and copies the tables out. A
/// symbol that `goblin` cannot read fails the whole call. The bytes must have
/// passed the scan of the load commands: where an entry-point command is present,
/// `goblin` works out the entry from the address and the file offset of a segment
/// with arithmetic that is not checked.
#[verifier::external_body]
fn macho_tables(bytes: &[u8]) -> (r: Result<RawTables, goblin::error::Error>)
    requires
        spec_macho_safe(bytes@),
    ensures
        opt_tables(r) == macho_contents(bytes@),
{
    let m = goblin::mach::MachO::parse(bytes, 0)?;
    Ok((
        m.is_64,
        Vec::new(),
        m.symbols().map(|s| s.map(|(n, l)| (Some(n.to_string()), l.n_value, l.n_type as u64))).collect::<Result<_, _>>()?,
        Vec::new(),
        m.segments.iter().map(|s| (0, s.initprot as u64, s.vmaddr, s.vmsize)).collect(),
    ))
}

/// Bytes with those from `from` up to `to` set to zero.
pub open spec fn spec_blank(bytes: Seq<u8>, from: int, to: int) -> Seq<u8> {
    Seq::new(
        bytes.len(),
        |i: int|
            if from <= i < to {
                0u8
            } else {
                bytes[i]
            },
    )
}

/// Where the data directories of a PE file lie that come behind the first, the
/// one of the exports: from which byte up to which. The optional header starts 24
/// bytes behind the place that the four bytes at 0x3c name; the directories start
/// 112 bytes into it in a 64-bit file and 96 bytes in a 32-bit one, eight bytes
/// each, and the four bytes in front of them hold their count. A file without an
/// optional header, or with one directory at most, has none such. There is no
/// answer where the header does not lie inside the file, is of neither width, or
/// names more than sixteen directories.
pub open spec fn spec_pe_directories(bytes: Seq<u8>) -> Option<(usize, usize)> {
    if bytes.len() > usize::MAX - 512 {
        None
    } else {
        match spec_number_at(bytes, 0x3c, 4) {
            None => None,
            Some(pe) => if pe > bytes.len() {
                None
            } else {
                match (
                    spec_number_at(bytes, (pe + 20) as usize, 2),
                    spec_number_at(bytes, (pe + 24) as usize, 2),
                ) {
                    (Some(size), Some(magic)) => if size == 0 {
                        Some((0, 0))
                    } else if magic != 0x20b && magic != 0x10b {
                        None
                    } else {
                        let start: int = pe + 24 + if magic == 0x20b {
                            112int
                        } else {
                            96int
                        };
                        match spec_number_at(bytes, (start - 4) as usize, 4) {
                            None => None,
                            Some(count) => if count > 16 || start + 8 * count > bytes.len() {
                                None
                            } else if count <= 1 {
                                Some((0, 0))
                            } else {
                                Some(((start + 8) as usize, (start + 8 * count) as usize))
                            },
                        }
                    },
                    (Some(size), None) => if size == 0 {
                        Some((0, 0))
                    } else {
                        None
                    },
                    _ => None,
                }
            },
        }
    }
}

/// A PE file with every data directory but that of the exports blanked out.
pub open spec fn spec_pe_masked(bytes: Seq<u8>) -> Option<Seq<u8>> {
    match spec_pe_directories(bytes) {
        Some((from, to)) => Some(spec_blank(bytes, from as int, to as int)),
        None => None,
    }
}

/// Whether a PE file names no data directory but that of the exports.
pub open spec fn spec_pe_plain(bytes: Seq<u8>) -> bool {
    spec_pe_directories(bytes) matches Some((from, to)) && forall|i: int|
        from <= i < to ==> #[trigger] bytes[i] == 0
}

/// Blanking bytes out leaves every number in front of them as it was.
pub proof fn lemma_blank_keeps(bytes: Seq<u8>, from: int, to: int, offset: usize, width: usize)
    requires
        offset + width <= from || from >= to,
    ensures
        spec_number_at(spec_blank(bytes, from, to), offset, width) == spec_number_at(
            bytes,
            offset,
            width,
        ),
{
    let f = FieldLayout { offset, width };
    if f.fits(bytes.len() as int) {
        assert(f.slice(spec_blank(bytes, from, to)) =~= f.slice(bytes));
    }
}

/// A masked file names no data directory but that of the exports.
pub proof fn lemma_masked_is_plain(bytes: Seq<u8>)
    ensures
        spec_pe_masked(bytes) matches Some(masked) ==> spec_pe_plain(masked) && masked.len()
            == bytes.len(),
{
    if let Some((from, to)) = spec_pe_directories(bytes) {
        let masked = spec_blank(bytes, from as int, to as int);
        let pe = spec_number_at(bytes, 0x3c, 4).unwrap();
        lemma_blank_keeps(bytes, from as int, to as int, 0x3c, 4);
        lemma_blank_keeps(bytes, from as int, to as int, (pe + 20) as usize, 2);
        lemma_blank_keeps(bytes, from as int, to as int, (pe + 24) as usize, 2);
        if spec_number_at(bytes, (pe + 24) as usize, 2) == Some(0x20bu64) {
            lemma_blank_keeps(bytes, from as int, to as int, (pe + 24 + 108) as usize, 4);
        } else {
            lemma_blank_keeps(bytes, from as int, to as int, (pe + 24 + 92) as usize, 4);
        }
        assert(spec_pe_directories(masked) == Some((from, to)));
    }
}

/// Finds the data directories of a PE file that come behind the first.
pub fn pe_directories(bytes: &[u8]) -> (r: Option<(usize, usize)>)
    ensures
        r == spec_pe_directories(bytes@),
{
    if bytes.len() > usize::MAX - 512 {
        return None;
    }
    let pe = match number_at(bytes, 0x3c, 4) {
        Some(p) => p,
        None => {
            return None;
        },
    };
    if pe > bytes.len() as u64 {
        return None;
    }
    let at: usize = pe as usize;
    let size = match number_at(bytes, at + 20, 2) {
        Some(n) => n,
        None => {
            return None;
        },
    };
    if size == 0 {
        return Some((0, 0));
    }
    let magic = match number_at(bytes, at + 24, 2) {
        Some(n) => n,
        None => {
            return None;
        },
    };
    if magic != 0x20b && magic != 0x10b {
        return None;
    }
    let start: usize = at + 24 + if magic == 0x20b {
        112
    } else {
        96
    };
    let count = match number_at(bytes, start - 4, 4) {
        Some(n) => n,
        None => {
            return None;
        },
    };
    if count > 16 || 8 * (count as usize) > bytes.len() - start {
        return None;
    }
    if count <= 1 {
        Some((0, 0))
    } else {
        Some((start + 8, start + 8 * (count as usize)))
    }
}

/// Copies a PE file and blanks out every data directory but that of the exports,
/// so that the parser reads no table of the file that the engine has no use for.
/// There is no copy where the directories cannot be found.
pub fn pe_masked(bytes: &[u8]) -> (r: Option<Vec<u8>>)
    ensures
        match r {
            Some(masked) => spec_pe_masked(bytes@) == Some(masked@) && spec_pe_plain(masked@),
            None => spec_pe_masked(bytes@).is_none(),
        },
{
    let (from, to) = match pe_directories(bytes) {
        Some(range) => range,
        None => {
            return None;
        },
    };
    let mut masked = slice_to_vec(bytes);
    let mut i: usize = from;
    proof {
        assert(masked@ =~= spec_blank(bytes@, from as int, from as int));
    }
    while i < to
        invariant
            masked@.len() == bytes@.len(),
            from <= i,
            i <= to || to <= from,
            to <= from ==> i == from,
            to <= bytes@.len(),
            masked@ == spec_blank(bytes@, from as int, i as int),
        decreases to - i,
    {
        masked.set(i, 0);
        i += 1;
        proof {
            assert(masked@ =~= spec_blank(bytes@, from as int, i as int));
        }
    }
    proof {
        assert(masked@ =~= spec_blank(bytes@, from as int, to as int));
        lemma_masked_is_plain(bytes@);
    }
    Some(masked)
}

/// What a scan of the load commands of a Mach-O file has seen.
#[derive(Clone, Copy, Debug, PartialEq, Eq, Structural)]
pub struct MachScan {
    /// Whether an entry-point command was seen.
    pub has_main: bool,
    /// The largest entry offset of an entry-point command.
    pub entry: u64,
    /// Whether a segment has an address below its file offset.
    pub low: bool,
    /// The largest distance of a segment's address from its file offset.
    pub shift: u64,
}

/// The number that `width` bytes at `offset` hold, least significant byte first,
/// where they lie inside the file.
pub open spec fn spec_number_at(bytes: Seq<u8>, offset: usize, width: usize) -> Option<u64> {
    let f = FieldLayout { offset, width };
    if f.fits(bytes.len() as int) {
        Some(spec_read_field(bytes, f) as u64)
    } else {
        None
    }
}

/// What the scan has seen after a segment with the given address and file offset.
pub open spec fn spec_with_segment(state: MachScan, address: u64, offset: u64) -> MachScan {
    if address < offset {
        MachScan { low: true, ..state }
    } else if address - offset > state.shift {
        MachScan { shift: (address - offset) as u64, ..state }
    } else {
        state
    }
}

/// What the scan has seen after an entry-point command with the given offset.
pub open spec fn spec_with_entry(state: MachScan, entry: u64) -> MachScan {
    MachScan {
        has_main: true,
        entry: if entry > state.entry {
            entry
        } else {
            state.entry
        },
        ..state
    }
}

/// One step of the scan: the load command at `at` is looked at, and the scan goes
/// on behind it. A 64-bit segment command holds its address at byte 24 and its
/// file offset at byte 40, a 32-bit one at bytes 24 and 32; an entry-point
/// command holds its offset at byte 8. There is no step where the command does
/// not lie inside the file.
pub open spec fn spec_macho_step(bytes: Seq<u8>, at: usize, state: MachScan) -> Option<
    (usize, MachScan),
> {
    if at > bytes.len() || bytes.len() > usize::MAX - 64 {
        None
    } else {
        match (spec_number_at(bytes, at, 4), spec_number_at(bytes, (at + 4) as usize, 4)) {
            (Some(cmd), Some(size)) => {
                let seen = if cmd == 0x19 {
                    match (
                        spec_number_at(bytes, (at + 24) as usize, 8),
                        spec_number_at(bytes, (at + 40) as usize, 8),
                    ) {
                        (Some(address), Some(offset)) => Some(
                            spec_with_segment(state, address, offset),
                        ),
                        _ => None,
                    }
                } else if cmd == 0x1 {
                    match (
                        spec_number_at(bytes, (at + 24) as usize, 4),
                        spec_number_at(bytes, (at + 32) as usize, 4),
                    ) {
                        (Some(address), Some(offset)) => Some(
                            spec_with_segment(state, address, offset),
                        ),
                        _ => None,
                    }
                } else if cmd == 0x8000_0028 {
                    match spec_number_at(bytes, (at + 8) as usize, 8) {
                        Some(entry) => Some(spec_with_entry(state, entry)),
                        None => None,
                    }
                } else {
                    Some(state)
                };
                match seen {
                    Some(next) => if at + size <= bytes.len() {
                        Some(((at + size) as usize, next))
                    } else {
                        None
                    },
                    None => None,
                }
            },
            _ => None,
        }
    }
}

/// The scan of `remaining` load commands from `at` on.
pub open spec fn spec_macho_scan(bytes: Seq<u8>, at: usize, remaining: nat, state: MachScan) -> Option<
    MachScan,
>
    decreases remaining,
{
    if remaining == 0 {
        Some(state)
    } else {
        match spec_macho_step(bytes, at, state) {
            None => None,
            Some((next, seen)) => spec_macho_scan(bytes, next, (remaining - 1) as nat, seen),
        }
    }
}

/// Whether a Mach-O file can be handed to the parser. The file is little-endian;
/// its header names no more load commands than their size allows, and they lie
/// inside the file; every load command lies inside the file; and where there is
/// an entry-point command, no segment has an address below its file offset, and
/// the largest distance of a segment's address from its file offset plus the
/// largest entry offset stays within 64 bits.
pub open spec fn spec_macho_safe(bytes: Seq<u8>) -> bool {
    &&& bytes.len() >= 4
    &&& (bytes[0] == 0xcf || bytes[0] == 0xce) && bytes[1] == 0xfa && bytes[2] == 0xed && bytes[3]
        == 0xfe
    &&& spec_number_at(bytes, 16, 4) matches Some(count)
    &&& spec_number_at(bytes, 20, 4) matches Some(size)
    &&& count <= size / 8
    &&& size <= bytes.len()
    &&& spec_macho_scan(
        bytes,
        if bytes[0] == 0xcf {
            32
        } else {
            28
        },
        count as nat,
        MachScan { has_main: false, entry: 0, low: false, shift: 0 },
    ) matches Some(seen)
    &&& seen.has_main ==> !seen.low && seen.shift + seen.entry <= u64::MAX
}

/// Takes in a segment.
fn with_segment(state: MachScan, address: u64, offset: u64) -> (next: MachScan)
    ensures
        next == spec_with_segment(state, address, offset),
{
    if address < offset {
        MachScan { has_main: state.has_main, entry: state.entry, low: true, shift: state.shift }
    } else if address - offset > state.shift {
        MachScan {
            has_main: state.has_main,
            entry: state.entry,
            low: state.low,
            shift: address - offset,
        }
    } else {
        state
    }
}

/// Reads a number out of the file.
fn number_at(bytes: &[u8], offset: usize, width: usize) -> (n: Option<u64>)
    ensures
        n == spec_number_at(bytes@, offset, width),
{
    field_value(bytes, FieldLayout { offset, width })
}

/// Looks at one load command.
pub fn macho_step(bytes: &[u8], at: usize, state: MachScan) -> (r: Option<(usize, MachScan)>)
    ensures
        r == spec_macho_step(bytes@, at, state),
{
    if at > bytes.len() || bytes.len() > usize::MAX - 64 {
        return None;
    }
    let cmd = match number_at(bytes, at, 4) {
        Some(c) => c,
        None => {
            return None;
        },
    };
    let size = match number_at(bytes, at + 4, 4) {
        Some(c) => c,
        None => {
            return None;
        },
    };
    let seen = if cmd == 0x19 {
        match (number_at(bytes, at + 24, 8), number_at(bytes, at + 40, 8)) {
            (Some(address), Some(offset)) => Some(with_segment(state, address, offset)),
            _ => None,
        }
    } else if cmd == 0x1 {
        match (number_at(bytes, at + 24, 4), number_at(bytes, at + 32, 4)) {
            (Some(address), Some(offset)) => Some(with_segment(state, address, offset)),
            _ => None,
        }
    } else if cmd == 0x8000_0028 {
        match number_at(bytes, at + 8, 8) {
            Some(entry) => Some(
                MachScan {
                    has_main: true,
                    entry: if entry > state.entry {
                        entry
                    } else {
                        state.entry
                    },
                    low: state.low,
                    shift: state.shift,
                },
            ),
            None => None,
        }
    } else {
        Some(state)
    };
    match seen {
        Some(next) => {
            proof {
                crate::layout::lemma_field_fits_u64(bytes@, FieldLayout { offset: (at + 4) as usize, width: 4 });
                crate::bytes::lemma_pow256_values();
            }
            if size <= (bytes.len() - at) as u64 {
                Some((at + size as usize, next))
            } else {
                None
            }
        },
        None => None,
    }
}

/// Scans the load commands of a Mach-O file and tells whether the file can be
/// handed to the parser.
#[verifier::loop_isolation(false)]
pub fn macho_safe(bytes: &[u8]) -> (safe: bool)
    ensures
        safe == spec_macho_safe(bytes@),
{
    if bytes.len() < 4 {
        return false;
    }
    if !((bytes[0] == 0xcf || bytes[0] == 0xce) && bytes[1] == 0xfa && bytes[2] == 0xed && bytes[3]
        == 0xfe) {
        return false;
    }
    let count = match number_at(bytes, 16, 4) {
        Some(c) => c,
        None => {
            return false;
        },
    };
    let size = match number_at(bytes, 20, 4) {
        Some(c) => c,
        None => {
            return false;
        },
    };
    if count > size / 8 || size > bytes.len() as u64 {
        return false;
    }
    let start: usize = if bytes[0] == 0xcf {
        32
    } else {
        28
    };
    let ghost first = MachScan { has_main: false, entry: 0, low: false, shift: 0 };
    let mut state = MachScan { has_main: false, entry: 0, low: false, shift: 0 };
    let mut at: usize = start;
    let mut remaining: u64 = count;
    while remaining > 0
        invariant
            spec_macho_scan(bytes@, start, count as nat, first) == spec_macho_scan(
                bytes@,
                at,
                remaining as nat,
                state,
            ),
        decreases remaining,
    {
        match macho_step(bytes, at, state) {
            None => {
                return false;
            },
            Some((next, seen)) => {
                at = next;
                state = seen;
            },
        }
        remaining -= 1;
    }
    !state.has_main || (!state.low && state.shift <= u64::MAX - state.entry)
}

/// The executable formats understood.
#[derive(Clone, Copy, Debug, PartialEq, Eq, Structural)]
pub enum BinaryFormat {
    Elf,
    MachO,
    Pe,
}

/// The format that the first bytes of a binary announce.
pub open spec fn spec_detect_format(bytes: Seq<u8>) -> Option<BinaryFormat> {
    if bytes.len() >= 4 && bytes[0] == 0x7f && bytes[1] == 0x45 && bytes[2] == 0x4c && bytes[3]
        == 0x46 {
        Some(BinaryFormat::Elf)
    } else if bytes.len() >= 4 && (bytes[0] == 0xcf || bytes[0] == 0xce) && bytes[1] == 0xfa
        && bytes[2] == 0xed && bytes[3] == 0xfe {
        Some(BinaryFormat::MachO)
    } else if bytes.len() >= 4 && bytes[0] == 0xfe && bytes[1] == 0xed && bytes[2] == 0xfa && (
    bytes[3] == 0xcf || bytes[3] == 0xce) {
        Some(BinaryFormat::MachO)
    } else if bytes.len() >= 2 && bytes[0] == 0x4d && bytes[1] == 0x5a {
        Some(BinaryFormat::Pe)
    } else {
        None
    }
}

/// Tells the format of a binary from its first bytes.
pub fn detect_format(bytes: &[u8]) -> (format: Option<BinaryFormat>)
    ensures
        format == spec_detect_format(bytes@),
{
    let n = bytes.len();
    if n >= 4 && bytes[0] == 0x7f && bytes[1] == 0x45 && bytes[2] == 0x4c && bytes[3] == 0x46 {
        Some(BinaryFormat::Elf)
    } else if n >= 4 && (bytes[0] == 0xcf || bytes[0] == 0xce) && bytes[1] == 0xfa && bytes[2]
        == 0xed && bytes[3] == 0xfe {
        Some(BinaryFormat::MachO)
    } else if n >= 4 && bytes[0] == 0xfe && bytes[1] == 0xed && bytes[2] == 0xfa && (bytes[3]
        == 0xcf || bytes[3] == 0xce) {
        Some(BinaryFormat::MachO)
    } else if n >= 2 && bytes[0] == 0x4d && bytes[1] == 0x5a {
        Some(BinaryFormat::Pe)
    } else {
        None
    }
}

/// A symbol of a binary: a name and an address that is not yet relocated.
#[derive(Clone, Debug)]
pub struct SymbolRecord {
    pub name: String,
    pub address: u64,
}

/// A symbol as a mathematical value.
pub struct SymbolView {
    pub name: Seq<char>,
    pub address: u64,
}

impl View for SymbolRecord {
    type V = SymbolView;

    open spec fn view(&self) -> SymbolView {
        SymbolView { name: self.name@, address: self.address }
    }
}

/// The views of symbols.
pub open spec fn symbols_view(v: Seq<SymbolRecord>) -> Seq<SymbolView> {
    Seq::new(v.len(), |i: int| v[i]@)
}

/// What is known of a binary.
#[derive(Clone, Debug)]
pub struct BinaryInfo {
    pub format: BinaryFormat,
    /// The width of a pointer: eight bytes for a 64-bit binary, else four.
    pub pointer_width: usize,
    /// The dynamic symbols that the binary exports.
    pub exports: Vec<SymbolRecord>,
    /// The symbols that lie in a zero-initialised section.
    pub bss: Vec<SymbolRecord>,
    /// The address at which the binary expects its code to be loaded.
    pub load_address: u64,
}

/// Whether a section is zero-initialised: in ELF it has the type for sections
/// without bits in the file; in PE its characteristics name uninitialised data.
pub open spec fn spec_zero_filled(format: BinaryFormat, s: RawSection) -> bool {
    match format {
        BinaryFormat::Elf => s.0 == 8,
        BinaryFormat::Pe => (s.1 / 128) % 2 == 1,
        BinaryFormat::MachO => false,
    }
}

/// Whether an address lies in a zero-initialised section.
pub open spec fn spec_in_zero(format: BinaryFormat, sections: Seq<RawSection>, address: u64) -> bool
    decreases sections.len(),
{
    if sections.len() == 0 {
        false
    } else {
        (spec_zero_filled(format, sections[0]) && sections[0].2 <= address && address
            - sections[0].2 < sections[0].3) || spec_in_zero(format, sections.skip(1), address)
    }
}

/// Whether a segment holds the code: in ELF it is loadable and executable; in
/// Mach-O its initial protection allows execution.
pub open spec fn spec_code_segment(format: BinaryFormat, s: RawSection) -> bool {
    match format {
        BinaryFormat::Elf => s.0 == 1 && s.1 % 2 == 1,
        BinaryFormat::MachO => (s.1 / 4) % 2 == 1,
        BinaryFormat::Pe => false,
    }
}

/// The address of the first segment that holds code, or zero where there is none.
pub open spec fn spec_load_address(format: BinaryFormat, segments: Seq<RawSection>) -> u64
    decreases segments.len(),
{
    if segments.len() == 0 {
        0
    } else if spec_code_segment(format, segments[0]) {
        segments[0].2
    } else {
        spec_load_address(format, segments.skip(1))
    }
}

/// Which symbols of a table are taken.
#[derive(Clone, Copy, Debug, PartialEq, Eq, Structural)]
pub enum Pick {
    /// Those with a name and an address.
    Defined,
    /// Those with a name and an address that are marked external.
    External,
    /// Those with a name that lie in a zero-initialised section.
    ZeroFilled,
}

/// Whether a symbol is taken: it has a name, the name is not empty, and it is what
/// the pick asks for.
pub open spec fn spec_takes(
    pick: Pick,
    format: BinaryFormat,
    sections: Seq<RawSection>,
    s: (Option<Seq<char>>, u64, u64),
) -> bool {
    s.0 matches Some(name) && name.len() > 0 && match pick {
        Pick::Defined => s.1 != 0,
        Pick::External => s.1 != 0 && s.2 % 2 == 1,
        Pick::ZeroFilled => spec_in_zero(format, sections, s.1),
    }
}

/// The name under which a symbol is looked up: a Mach-O binary puts an underscore
/// in front of every name, which is taken off.
pub open spec fn spec_symbol_name(format: BinaryFormat, raw: Seq<char>) -> Seq<char> {
    if format == BinaryFormat::MachO && raw.len() > 0 && raw[0] == '_' {
        raw.skip(1)
    } else {
        raw
    }
}

/// Works out the name under which a symbol is looked up.
pub fn symbol_name(format: BinaryFormat, raw: &str) -> (name: String)
    ensures
        name@ == spec_symbol_name(format, raw@),
{
    let chars = chars_of(raw);
    let strip = match format {
        BinaryFormat::MachO => chars.len() > 0 && chars[0] == '_',
        _ => false,
    };
    if strip {
        let mut rest: Vec<char> = Vec::new();
        let mut i: usize = 1;
        while i < chars.len()
            invariant
                1 <= i <= chars@.len(),
                rest@ == chars@.subrange(1, i as int),
            decreases chars@.len() - i,
        {
            rest.push(chars[i]);
            i += 1;
        }
        string_from_chars(&rest)
    } else {
        string_from_chars(&chars)
    }
}

/// The symbols of a table that are taken, in the table's order.
pub open spec fn spec_pick(
    pick: Pick,
    format: BinaryFormat,
    sections: Seq<RawSection>,
    table: Seq<(Option<Seq<char>>, u64, u64)>,
) -> Seq<SymbolView>
    decreases table.len(),
{
    if table.len() == 0 {
        Seq::empty()
    } else {
        spec_pick(pick, format, sections, table.drop_last()) + (if spec_takes(
            pick,
            format,
            sections,
            table.last(),
        ) {
            seq![
                SymbolView {
                    name: spec_symbol_name(format, table.last().0.unwrap()),
                    address: table.last().1,
                },
            ]
        } else {
            Seq::empty()
        })
    }
}

/// What is known of a binary, as a mathematical value.
pub struct InfoView {
    pub format: BinaryFormat,
    pub pointer_width: usize,
    pub exports: Seq<SymbolView>,
    pub bss: Seq<SymbolView>,
    pub load_address: u64,
}

impl View for BinaryInfo {
    type V = InfoView;

    open spec fn view(&self) -> InfoView {
        InfoView {
            format: self.format,
            pointer_width: self.pointer_width,
            exports: symbols_view(self.exports@),
            bss: symbols_view(self.bss@),
            load_address: self.load_address,
        }
    }
}

/// What the tables of a binary say of it. The exports are the dynamic symbols
/// with a name and an address; a Mach-O binary has none of those, and its exports
/// are its external symbols. The zero-initialised globals are taken from the
/// dynamic symbols first and then from the others.
pub open spec fn spec_binary_info(format: BinaryFormat, t: TablesView) -> InfoView {
    InfoView {
        format,
        pointer_width: if t.is_64 {
            8
        } else {
            4
        },
        exports: match format {
            BinaryFormat::MachO => spec_pick(Pick::External, format, t.sections, t.symbols),
            _ => spec_pick(Pick::Defined, format, t.sections, t.dynamic),
        },
        bss: spec_pick(Pick::ZeroFilled, format, t.sections, t.dynamic) + spec_pick(
            Pick::ZeroFilled,
            format,
            t.sections,
            t.symbols,
        ),
        load_address: spec_load_address(format, t.segments),
    }
}

/// Tells whether an address lies in a zero-initialised section.
pub fn in_zero(format: BinaryFormat, sections: &Vec<RawSection>, address: u64) -> (yes: bool)
    ensures
        yes == spec_in_zero(format, sections@, address),
{
    let mut i: usize = 0;
    assert(sections@.skip(0) == sections@);
    while i < sections.len()
        invariant
            i <= sections@.len(),
            spec_in_zero(format, sections@, address) == spec_in_zero(
                format,
                sections@.skip(i as int),
                address,
            ),
        decreases sections@.len() - i,
    {
        let s = sections[i];
        proof {
            assert(sections@.skip(i as int).skip(1) == sections@.skip(i + 1));
        }
        let zero = match format {
            BinaryFormat::Elf => s.0 == 8,
            BinaryFormat::Pe => (s.1 / 128) % 2 == 1,
            BinaryFormat::MachO => false,
        };
        if zero && s.2 <= address && address - s.2 < s.3 {
            return true;
        }
        i += 1;
    }
    false
}

/// Finds the address at which the binary expects its code.
pub fn load_address(format: BinaryFormat, segments: &Vec<RawSection>) -> (address: u64)
    ensures
        address == spec_load_address(format, segments@),
{
    let mut i: usize = 0;
    assert(segments@.skip(0) == segments@);
    while i < segments.len()
        invariant
            i <= segments@.len(),
            spec_load_address(format, segments@) == spec_load_address(
                format,
                segments@.skip(i as int),
            ),
        decreases segments@.len() - i,
    {
        let s = segments[i];
        proof {
            assert(segments@.skip(i as int).skip(1) == segments@.skip(i + 1));
        }
        let code = match format {
            BinaryFormat::Elf => s.0 == 1 && s.1 % 2 == 1,
            BinaryFormat::MachO => (s.1 / 4) % 2 == 1,
            BinaryFormat::Pe => false,
        };
        if code {
            return s.2;
        }
        i += 1;
    }
    0
}

/// Appends the symbols of a table that are taken.
pub fn pick_symbols(
    out: &mut Vec<SymbolRecord>,
    pick: Pick,
    format: BinaryFormat,
    sections: &Vec<RawSection>,
    table: &Vec<RawSymbol>,
)
    ensures
        symbols_view(final(out)@) == symbols_view(old(out)@) + spec_pick(
            pick,
            format,
            sections@,
            raw_symbols_view(table@),
        ),
{
    let mut i: usize = 0;
    let ghost start = symbols_view(out@);
    let ghost all = raw_symbols_view(table@);
    while i < table.len()
        invariant
            i <= table@.len(),
            all == raw_symbols_view(table@),
            symbols_view(out@) == start + spec_pick(pick, format, sections@, all.take(i as int)),
        decreases table@.len() - i,
    {
        let entry = &table[i];
        proof {
            assert(all.take(i + 1).drop_last() == all.take(i as int));
        }
        let ghost before = symbols_view(out@);
        match &entry.0 {
            Some(name) => {
                let taken = name.as_str().unicode_len() > 0 && match pick {
                    Pick::Defined => entry.1 != 0,
                    Pick::External => entry.1 != 0 && entry.2 % 2 == 1,
                    Pick::ZeroFilled => in_zero(format, sections, entry.1),
                };
                if taken {
                    let record = SymbolRecord {
                        name: symbol_name(format, name.as_str()),
                        address: entry.1,
                    };
                    out.push(record);
                    proof {
                        let added = SymbolView {
                            name: spec_symbol_name(format, name@),
                            address: entry.1,
                        };
                        let front = spec_pick(pick, format, sections@, all.take(i as int));
                        assert(before.push(added) =~= start + (front + seq![added]));
                    }
                }
            },
            None => {},
        }
        i += 1;
    }
    proof {
        assert(all.take(i as int) == all);
    }
}

/// Reads out of the tables of a binary what the engine needs.
pub fn binary_info(format: BinaryFormat, tables: &RawTables) -> (info: BinaryInfo)
    ensures
        info@ == spec_binary_info(format, tables_view(*tables)),
{
    let mut exports: Vec<SymbolRecord> = Vec::new();
    match format {
        BinaryFormat::MachO => pick_symbols(&mut exports, Pick::External, format, &tables.3, &tables.2),
        _ => pick_symbols(&mut exports, Pick::Defined, format, &tables.3, &tables.1),
    }
    let mut bss: Vec<SymbolRecord> = Vec::new();
    pick_symbols(&mut bss, Pick::ZeroFilled, format, &tables.3, &tables.1);
    pick_symbols(&mut bss, Pick::ZeroFilled, format, &tables.3, &tables.2);
    let info = BinaryInfo {
        format,
        pointer_width: if tables.0 {
            8
        } else {
            4
        },
        exports,
        bss,
        load_address: load_address(format, &tables.4),
    };
    info
}

/// The tables that `goblin` reads out of a binary of a format. A PE file is handed
/// to `goblin` with every data directory but that of the exports blanked out, and
/// has no tables where its directories cannot be found. A Mach-O file that does
/// not pass the scan of its load commands is not handed to `goblin` and has no
/// tables.
pub open spec fn spec_contents(format: BinaryFormat, bytes: Seq<u8>) -> Option<TablesView> {
    match format {
        BinaryFormat::Elf => elf_contents(bytes),
        BinaryFormat::Pe => match spec_pe_masked(bytes) {
            Some(masked) => pe_contents(masked),
            None => None,
        },
        BinaryFormat::MachO => if spec_macho_safe(bytes) {
            macho_contents(bytes)
        } else {
            None
        },
    }
}

/// What is known of the binary that bytes hold: nothing where the first bytes
/// announce none of the formats or the parser rejects the rest.
pub open spec fn spec_parsed(bytes: Seq<u8>) -> Option<InfoView> {
    match spec_detect_format(bytes) {
        None => None,
        Some(format) => match spec_contents(format, bytes) {
            None => None,
            Some(t) => Some(spec_binary_info(format, t)),
        },
    }
}

/// Parses the bytes of a binary. The failure is of the unsupported-format kind
/// where the first bytes announce none of the formats, the data directories of a
/// PE file cannot be found, a Mach-O file does not pass the scan of its load
/// commands, or the parser rejects the rest.
pub fn parse_binary(bytes: &[u8]) -> (r: Result<BinaryInfo, SpyError>)
    ensures
        match spec_parsed(bytes@) {
            None => r matches Err(e) && e.kind == ErrorKind::UnsupportedFormat && e.causes@.len()
                == 0,
            Some(expected) => r matches Ok(info) && info@ == expected,
        },
{
    let format = match detect_format(bytes) {
        Some(f) => f,
        None => {
            return Err(SpyError::new(ErrorKind::UnsupportedFormat));
        },
    };
    let parsed = match format {
        BinaryFormat::Elf => elf_tables(bytes),
        BinaryFormat::Pe => {
            match pe_masked(bytes) {
                Some(masked) => pe_tables(masked.as_slice()),
                None => {
                    return Err(SpyError::new(ErrorKind::UnsupportedFormat));
                },
            }
        },
        BinaryFormat::MachO => {
            if !macho_safe(bytes) {
                return Err(SpyError::new(ErrorKind::UnsupportedFormat));
            }
            macho_tables(bytes)
        },
    };
    match parsed {
        Ok(tables) => Ok(binary_info(format, &tables)),
        Err(_) => Err(SpyError::new(ErrorKind::UnsupportedFormat)),
    }
}

/// The address of the first symbol with a name.
pub open spec fn spec_find_symbol(symbols: Seq<SymbolView>, name: Seq<char>) -> Option<u64>
    decreases symbols.len(),
{
    if symbols.len() == 0 {
        None
    } else if symbols[0].name == name {
        Some(symbols[0].address)
    } else {
        spec_find_symbol(symbols.skip(1), name)
    }
}

/// Looks a symbol up by name; where a name occurs more than once the first
/// occurrence counts.
pub fn find_symbol(symbols: &Vec<SymbolRecord>, name: &str) -> (address: Option<u64>)
    ensures
        address == spec_find_symbol(symbols_view(symbols@), name@),
{
    let wanted: String = name.to_owned();
    let mut i: usize = 0;
    let ghost all = symbols_view(symbols@);
    assert(all.skip(0) == all);
    while i < symbols.len()
        invariant
            i <= symbols@.len(),
            all == symbols_view(symbols@),
            wanted@ == name@,
            spec_find_symbol(all, name@) == spec_find_symbol(all.skip(i as int), name@),
        decreases symbols@.len() - i,
    {
        proof {
            assert(all.skip(i as int).skip(1) == all.skip(i + 1));
        }
        if symbols[i].name == wanted {
            return Some(symbols[i].address);
        }
        i += 1;
    }
    None
}

/// The address of a symbol in the target: the module's base is added, less the
/// address at which the binary expects its code where the base is no lower.
pub open spec fn spec_relocate(address: u64, base: u64, load_address: u64) -> Option<u64> {
    let shift: int = if base >= load_address {
        base - load_address
    } else {
        0
    };
    if address + shift <= u64::MAX {
        Some((address + shift) as u64)
    } else {
        None
    }
}

/// Relocates the address of a symbol with the base of the module that owns it.
pub fn relocate(address: u64, base: u64, load_address: u64) -> (remote: Option<u64>)
    ensures
        remote == spec_relocate(address, base, load_address),
{
    let shift: u64 = if base >= load_address {
        base - load_address
    } else {
        0
    };
    address.checked_add(shift)
}

/// The slots that the symbols of the interpreter's binary hint at, best first:
/// the exported pointer to the current thread-state, then the pointer embedded in
/// the runtime structure among the zero-initialised globals.
pub open spec fn spec_symbol_hints(info: InfoView, base: u64, l: Layout) -> Seq<u64> {
    let first = match spec_find_symbol(info.exports, "_PyThreadState_Current"@) {
        Some(a) => match spec_relocate(a, base, info.load_address) {
            Some(slot) => seq![slot],
            None => Seq::empty(),
        },
        None => Seq::empty(),
    };
    let second = match spec_find_symbol(info.bss, "_PyRuntime"@) {
        Some(a) => match spec_relocate(a, base, info.load_address) {
            Some(runtime) => if runtime + l.runtime_thread <= u64::MAX {
                seq![(runtime + l.runtime_thread) as u64]
            } else {
                Seq::empty()
            },
            None => Seq::empty(),
        },
        None => Seq::empty(),
    };
    first + second
}

/// Lists the slots that the symbols hint at.
pub fn symbol_hints(info: &BinaryInfo, base: u64, l: &Layout) -> (hints: Vec<u64>)
    ensures
        hints@ == spec_symbol_hints(info@, base, *l),
{
    let mut hints: Vec<u64> = Vec::new();
    match find_symbol(&info.exports, "_PyThreadState_Current") {
        Some(a) => match relocate(a, base, info.load_address) {
            Some(slot) => {
                hints.push(slot);
            },
            None => {},
        },
        None => {},
    }
    match find_symbol(&info.bss, "_PyRuntime") {
        Some(a) => match relocate(a, base, info.load_address) {
            Some(runtime) => match runtime.checked_add(l.runtime_thread as u64) {
                Some(slot) => {
                    hints.push(slot);
                },
                None => {},
            },
            None => {},
        },
        None => {},
    }
    hints
}

} // verus!
