//! The target's loaded modules: records sorted by base address that share no
//! address, and the record that holds a given address.

use vstd::prelude::*;
use crate::error::SpyError;
use crate::memory::error_of_io;
use crate::text::{chars_of, file_name, spec_file_name, spec_starts_with, starts_with};

verus! {

/// One mapping of the target as the operating system lists it.
#[derive(Clone, Debug)]
pub struct RawMapping {
    pub start: u64,
    pub size: u64,
    /// The file behind the mapping, if any.
    pub path: Option<String>,
    pub readable: bool,
    pub writable: bool,
    pub executable: bool,
}

/// A mapped region of the target.
#[derive(Clone, Debug)]
pub struct ModuleRecord {
    /// The file behind the region; empty where there is none.
    pub path: String,
    pub base: u64,
    pub size: u64,
    /// Whether the file is the interpreter's executable.
    pub is_interpreter: bool,
    /// Whether the file is the interpreter's shared library.
    pub is_interpreter_library: bool,
    /// Whether the target may write to the region.
    pub writable: bool,
}

/// A module record as a mathematical value.
pub struct RecordView {
    pub path: Seq<char>,
    pub base: u64,
    pub size: u64,
    pub is_interpreter: bool,
    pub is_interpreter_library: bool,
    pub writable: bool,
}

impl View for ModuleRecord {
    type V = RecordView;

    open spec fn view(&self) -> RecordView {
        RecordView {
            path: self.path@,
            base: self.base,
            size: self.size,
            is_interpreter: self.is_interpreter,
            is_interpreter_library: self.is_interpreter_library,
            writable: self.writable,
        }
    }
}

impl RecordView {
    /// The record holds the address.
    pub open spec fn contains(self, addr: u64) -> bool {
        self.base <= addr < self.base + self.size
    }

    /// The region is writable and has no file behind it, or is the one the
    /// operating system names as the heap.
    pub open spec fn heap_like(self) -> bool {
        self.writable && (self.path.len() == 0 || self.path == "[heap]"@)
    }
}

/// The views of a sequence of records.
pub open spec fn records_view(records: Seq<ModuleRecord>) -> Seq<RecordView> {
    Seq::new(records.len(), |i: int| records[i]@)
}

/// The records are not empty, end inside the address space, are sorted by base
/// address, and share no address.
pub open spec fn spec_sorted(records: Seq<RecordView>) -> bool {
    &&& forall|i: int|
        0 <= i < records.len() ==> (#[trigger] records[i]).size > 0 && records[i].base
            + records[i].size <= u64::MAX
    &&& forall|i: int, j: int|
        0 <= i < j < records.len() ==> (#[trigger] records[i]).base + records[i].size <= (
        #[trigger] records[j]).base
}

/// Whether a file name is that of the interpreter's executable.
pub open spec fn spec_is_interpreter(path: Seq<char>) -> bool {
    spec_starts_with(spec_file_name(path), "python"@)
}

/// Whether a file name is that of the interpreter's shared library.
pub open spec fn spec_is_library(path: Seq<char>) -> bool {
    spec_starts_with(spec_file_name(path), "libpython"@)
}

/// The path of a mapping: empty where no file is behind it.
pub open spec fn spec_path(m: RawMapping) -> Seq<char> {
    match m.path {
        Some(p) => p@,
        None => Seq::empty(),
    }
}

/// The record made from a mapping.
pub open spec fn spec_record(m: RawMapping) -> RecordView {
    RecordView {
        path: spec_path(m),
        base: m.start,
        size: m.size,
        is_interpreter: spec_is_interpreter(spec_path(m)),
        is_interpreter_library: spec_is_library(spec_path(m)),
        writable: m.writable,
    }
}

/// Whether a mapping becomes a record: it is not empty, ends inside the address
/// space, and starts no lower than `floor`, the end of the record before it.
pub open spec fn spec_keeps(m: RawMapping, floor: u64) -> bool {
    m.size > 0 && m.start >= floor && m.start + m.size <= u64::MAX
}

/// The records made from mappings, in order; mappings that are not kept are left
/// out.
pub open spec fn spec_build(raw: Seq<RawMapping>, floor: u64) -> Seq<RecordView>
    decreases raw.len(),
{
    if raw.len() == 0 {
        Seq::empty()
    } else if spec_keeps(raw[0], floor) {
        seq![spec_record(raw[0])] + spec_build(raw.skip(1), (raw[0].start + raw[0].size) as u64)
    } else {
        spec_build(raw.skip(1), floor)
    }
}

/// An order of mappings with one more mapping put in: the mapping `i` goes behind
/// every mapping of the order that starts no later than it does.
pub open spec fn spec_insert(order: Seq<usize>, raw: Seq<RawMapping>, i: usize) -> Seq<usize>
    decreases order.len(),
{
    if order.len() == 0 {
        seq![i]
    } else if raw[order.last() as int].start <= raw[i as int].start {
        order.push(i)
    } else {
        spec_insert(order.drop_last(), raw, i).push(order.last())
    }
}

/// The first `n` mappings in the order of their starts; mappings that start at
/// the same address keep the order in which they were listed.
pub open spec fn spec_order(raw: Seq<RawMapping>, n: nat) -> Seq<usize>
    decreases n,
{
    if n == 0 {
        Seq::empty()
    } else {
        spec_insert(spec_order(raw, (n - 1) as nat), raw, (n - 1) as usize)
    }
}

/// The mappings sorted by their starts.
pub open spec fn spec_arranged(raw: Seq<RawMapping>) -> Seq<RawMapping> {
    Seq::new(raw.len(), |k: int| raw[spec_order(raw, raw.len())[k] as int])
}

/// The records of the map made from the mappings that the operating system
/// lists: the mappings are sorted by their starts, and each becomes a record
/// unless it is empty, runs past the end of the address space, or starts before
/// the end of the record before it.
pub open spec fn spec_map_of(raw: Seq<RawMapping>) -> Seq<RecordView> {
    spec_build(spec_arranged(raw), 0)
}

/// Whether an order holds positions of mappings only.
pub open spec fn spec_in_range(order: Seq<usize>, n: int) -> bool {
    forall|k: int| 0 <= k < order.len() ==> (#[trigger] order[k]) < n
}

/// Whether the mappings start in ascending order along an order.
pub open spec fn spec_ascending(order: Seq<usize>, raw: Seq<RawMapping>) -> bool {
    forall|a: int, b: int|
        0 <= a < b < order.len() ==> raw[(#[trigger] order[a]) as int].start <= raw[(
        #[trigger] order[b]) as int].start
}

/// Putting a mapping into an order makes the order one longer, keeps every
/// position that was in it, adds the new one, and keeps the order ascending.
pub proof fn lemma_insert(order: Seq<usize>, raw: Seq<RawMapping>, i: usize)
    requires
        spec_in_range(order, raw.len() as int),
        i < raw.len(),
    ensures
        spec_insert(order, raw, i).len() == order.len() + 1,
        spec_in_range(spec_insert(order, raw, i), raw.len() as int),
        spec_insert(order, raw, i).contains(i),
        forall|x: usize| order.contains(x) ==> spec_insert(order, raw, i).contains(x),
        forall|x: usize| #[trigger] spec_insert(order, raw, i).contains(x) ==> x == i || order.contains(x),
        spec_ascending(order, raw) ==> spec_ascending(spec_insert(order, raw, i), raw),
    decreases order.len(),
{
    let out = spec_insert(order, raw, i);
    if order.len() == 0 {
        assert(out[0] == i);
    } else if raw[order.last() as int].start <= raw[i as int].start {
        assert(out.last() == i);
        assert forall|x: usize| order.contains(x) implies out.contains(x) by {
            let k = choose|k: int| 0 <= k < order.len() && order[k] == x;
            assert(out[k] == x);
        }
    } else {
        let front = order.drop_last();
        let inner = spec_insert(front, raw, i);
        lemma_insert(front, raw, i);
        assert(out == inner.push(order.last()));
        assert(out.last() == order.last());
        let w = choose|k: int| 0 <= k < inner.len() && inner[k] == i;
        assert(out[w] == i);
        assert forall|x: usize| order.contains(x) implies out.contains(x) by {
            let k = choose|k: int| 0 <= k < order.len() && order[k] == x;
            if k == order.len() - 1 {
                assert(out[out.len() - 1] == x);
            } else {
                assert(front[k] == x);
                assert(front.contains(x));
                assert(inner.contains(x));
                let j = choose|j: int| 0 <= j < inner.len() && inner[j] == x;
                assert(out[j] == x);
            }
        }
        assert forall|x: usize| #[trigger] out.contains(x) implies x == i || order.contains(x) by {
            let k = choose|k: int| 0 <= k < out.len() && out[k] == x;
            if k == out.len() - 1 {
                assert(order[order.len() - 1] == x);
            } else {
                assert(inner[k] == x);
                assert(inner.contains(x));
                if x != i {
                    let j = choose|j: int| 0 <= j < front.len() && front[j] == x;
                    assert(order[j] == x);
                }
            }
        }
        if spec_ascending(order, raw) {
            assert(spec_ascending(front, raw)) by {
                assert forall|a: int, b: int| 0 <= a < b < front.len() implies raw[(
                #[trigger] front[a]) as int].start <= raw[(#[trigger] front[b]) as int].start by {
                    assert(front[a] == order[a] && front[b] == order[b]);
                }
            }
            assert forall|a: int, b: int| 0 <= a < b < out.len() implies raw[(
            #[trigger] out[a]) as int].start <= raw[(#[trigger] out[b]) as int].start by {
                if b == out.len() - 1 {
                    let x = inner[a];
                    assert(inner[a] == x);
                    assert(inner.contains(x));
                    if x != i {
                        let j = choose|j: int| 0 <= j < front.len() && front[j] == x;
                        assert(order[j] == x);
                        assert(raw[order[j] as int].start <= raw[order[order.len() - 1] as int].start);
                    }
                } else {
                    assert(out[a] == inner[a] && out[b] == inner[b]);
                }
            }
        }
    }
}

/// The order of the first `n` mappings holds each of their positions, and only
/// those, and the mappings start in ascending order along it.
pub proof fn lemma_order(raw: Seq<RawMapping>, n: nat)
    requires
        n <= raw.len(),
        n <= usize::MAX,
    ensures
        spec_order(raw, n).len() == n,
        spec_in_range(spec_order(raw, n), n as int),
        forall|i: usize| i < n ==> spec_order(raw, n).contains(i),
        spec_ascending(spec_order(raw, n), raw),
    decreases n,
{
    if n > 0 {
        let before = spec_order(raw, (n - 1) as nat);
        lemma_order(raw, (n - 1) as nat);
        lemma_insert(before, raw, (n - 1) as usize);
        let out = spec_order(raw, n);
        assert forall|k: int| 0 <= k < out.len() implies (#[trigger] out[k]) < n by {
            assert(out.contains(out[k]));
            if out[k] != (n - 1) as usize {
                assert(before.contains(out[k]));
                let j = choose|j: int| 0 <= j < before.len() && before[j] == out[k];
                assert(before[j] < n - 1);
            }
        }
        assert forall|i: usize| i < n implies out.contains(i) by {
            if i < n - 1 {
                assert(before.contains(i));
            }
        }
    }
}

/// The position of the first record that holds an address.
pub open spec fn spec_containing(records: Seq<RecordView>, addr: u64) -> Option<int>
    decreases records.len(),
{
    if records.len() == 0 {
        None
    } else if records.last().contains(addr) {
        match spec_containing(records.drop_last(), addr) {
            Some(i) => Some(i),
            None => Some(records.len() - 1),
        }
    } else {
        spec_containing(records.drop_last(), addr)
    }
}

/// Makes the record of one mapping.
pub fn record_of(m: &RawMapping) -> (record: ModuleRecord)
    ensures
        record@ == spec_record(*m),
{
    let path = match &m.path {
        Some(p) => p.clone(),
        None => String::new(),
    };
    let chars = chars_of(path.as_str());
    let name = file_name(&chars);
    ModuleRecord {
        path,
        base: m.start,
        size: m.size,
        is_interpreter: starts_with(&name, "python"),
        is_interpreter_library: starts_with(&name, "libpython"),
        writable: m.writable,
    }
}

/// Puts one more mapping into an order.
fn insert_index(order: &mut Vec<usize>, raw: &Vec<RawMapping>, i: usize)
    requires
        i < raw@.len(),
        spec_in_range(old(order)@, raw@.len() as int),
    ensures
        final(order)@ == spec_insert(old(order)@, raw@, i),
        spec_in_range(final(order)@, raw@.len() as int),
    decreases old(order)@.len(),
{
    proof {
        lemma_insert(order@, raw@, i);
    }
    if order.len() == 0 {
        order.push(i);
        assert(order@ =~= seq![i]);
        return ;
    }
    let last = order[order.len() - 1];
    if raw[last].start <= raw[i].start {
        order.push(i);
    } else {
        let ghost whole = order@;
        order.pop();
        assert(order@ == whole.drop_last());
        assert(spec_in_range(order@, raw@.len() as int)) by {
            assert forall|k: int| 0 <= k < order@.len() implies (#[trigger] order@[k]) < raw@.len() by {
                assert(order@[k] == whole[k]);
            }
        }
        insert_index(order, raw, i);
        order.push(last);
    }
}

/// Sorts the positions of the mappings by the starts of the mappings; mappings
/// that start at the same address keep the order in which they were listed.
pub fn sorted_order(raw: &Vec<RawMapping>) -> (order: Vec<usize>)
    ensures
        order@ == spec_order(raw@, raw@.len()),
        order@.len() == raw@.len(),
        spec_in_range(order@, raw@.len() as int),
        spec_ascending(order@, raw@),
{
    let mut order: Vec<usize> = Vec::new();
    let mut i: usize = 0;
    while i < raw.len()
        invariant
            i <= raw@.len(),
            order@ == spec_order(raw@, i as nat),
            spec_in_range(order@, raw@.len() as int),
        decreases raw@.len() - i,
    {
        insert_index(&mut order, raw, i);
        i += 1;
    }
    proof {
        lemma_order(raw@, raw@.len());
    }
    order
}

/// The modules of a target.
#[derive(Clone, Debug)]
pub struct ModuleMap {
    pub records: Vec<ModuleRecord>,
}

impl ModuleMap {
    /// The records are sorted and share no address.
    pub open spec fn wf(&self) -> bool {
        spec_sorted(records_view(self.records@))
    }

    /// Builds the map from the mappings that the operating system lists. The
    /// mappings are sorted by their starts. A mapping that is empty, runs past
    /// the end of the address space, or starts before the end of the record
    /// before it is left out.
    pub fn build(raw: &Vec<RawMapping>) -> (map: ModuleMap)
        ensures
            map.wf(),
            records_view(map.records@) == spec_map_of(raw@),
    {
        let order = sorted_order(raw);
        let ghost arranged = spec_arranged(raw@);
        let mut records: Vec<ModuleRecord> = Vec::new();
        let mut floor: u64 = 0;
        let mut i: usize = 0;
        proof {
            assert(arranged.skip(0) == arranged);
        }
        while i < order.len()
            invariant
                i <= order@.len(),
                order@ == spec_order(raw@, raw@.len()),
                order@.len() == raw@.len(),
                spec_in_range(order@, raw@.len() as int),
                arranged == spec_arranged(raw@),
                spec_sorted(records_view(records@)),
                forall|k: int|
                    0 <= k < records@.len() ==> (#[trigger] records_view(records@)[k]).base
                        + records_view(records@)[k].size <= floor,
                spec_build(arranged, 0) == records_view(records@) + spec_build(
                    arranged.skip(i as int),
                    floor,
                ),
            decreases order@.len() - i,
        {
            let m = &raw[order[i]];
            let ghost rest = arranged.skip(i as int);
            let ghost before = records_view(records@);
            proof {
                assert(rest[0] == *m);
                assert(rest.skip(1) == arranged.skip(i + 1));
            }
            if m.size > 0 && m.start >= floor && m.size <= u64::MAX - m.start {
                let record = record_of(m);
                records.push(record);
                floor = m.start + m.size;
                proof {
                    let after = records_view(records@);
                    assert(after =~= before.push(spec_record(*m)));
                }
            }
            i += 1;
        }
        ModuleMap { records }
    }

    /// Finds the record that holds an address: its position, or `None` where no
    /// record holds the address.
    pub fn containing(&self, addr: u64) -> (found: Option<usize>)
        ensures
            match found {
                Some(i) => spec_containing(records_view(self.records@), addr) == Some(i as int),
                None => spec_containing(records_view(self.records@), addr).is_none(),
            },
    {
        let mut i: usize = 0;
        while i < self.records.len()
            invariant
                i <= self.records@.len(),
                spec_containing(records_view(self.records@).take(i as int), addr).is_none(),
            decreases self.records@.len() - i,
        {
            let r = &self.records[i];
            proof {
                let all = records_view(self.records@);
                assert(all.take(i + 1).drop_last() == all.take(i as int));
            }
            if r.base <= addr && addr - r.base < r.size {
                proof {
                    lemma_containing_prefix(records_view(self.records@), addr, i as int + 1);
                }
                return Some(i);
            }
            i += 1;
        }
        proof {
            assert(records_view(self.records@).take(i as int) == records_view(self.records@));
        }
        None
    }
}

/// A record found among the first `n` is the record found among them all.
pub proof fn lemma_containing_prefix(records: Seq<RecordView>, addr: u64, n: int)
    requires
        0 <= n <= records.len(),
        spec_containing(records.take(n), addr).is_some(),
    ensures
        spec_containing(records, addr) == spec_containing(records.take(n), addr),
    decreases records.len() - n,
{
    if n < records.len() {
        assert(records.take(n + 1).drop_last() == records.take(n));
        lemma_containing_prefix(records, addr, n + 1);
    } else {
        assert(records.take(n) == records);
    }
}

/// What is found holds the address and nothing before it does; nothing is found
/// exactly when no record holds the address.
pub proof fn lemma_containing_first(records: Seq<RecordView>, addr: u64)
    ensures
        match spec_containing(records, addr) {
            Some(i) => 0 <= i < records.len() && records[i].contains(addr) && forall|j: int|
                0 <= j < i ==> !(#[trigger] records[j]).contains(addr),
            None => forall|j: int| 0 <= j < records.len() ==> !(#[trigger] records[j]).contains(addr),
        },
    decreases records.len(),
{
    if records.len() > 0 {
        let front = records.drop_last();
        lemma_containing_first(front, addr);
        assert(forall|j: int| 0 <= j < front.len() ==> front[j] == records[j]);
    }
}

/// In a sorted map exactly one record holds any mapped address: two records that
/// hold the same address are the same record.
pub proof fn lemma_one_record_holds(records: Seq<RecordView>, addr: u64, i: int, j: int)
    requires
        spec_sorted(records),
        0 <= i < records.len(),
        0 <= j < records.len(),
        records[i].contains(addr),
        records[j].contains(addr),
    ensures
        i == j,
        spec_containing(records, addr) == Some(i),
{
    lemma_containing_first(records, addr);
    if i < j {
    } else if j < i {
    }
    let found = spec_containing(records, addr).unwrap();
}

/// Calls `proc_maps::get_process_maps` and copies out of each mapping its start,
/// its size, the path of its file and its three permissions. Nothing is promised
/// of what the operating system lists.
#[verifier::external_body]
fn enumerate_mappings(pid: u32) -> (r: Result<Vec<RawMapping>, std::io::Error>) {
    let maps = proc_maps::get_process_maps(pid as proc_maps::Pid)?;
    Ok(maps.iter().map(|m| RawMapping {
        start: m.start() as u64,
        size: m.size() as u64,
        path: m.filename().map(|p| p.to_string_lossy().into_owned()),
        readable: m.is_read(),
        writable: m.is_write(),
        executable: m.is_exec(),
    }).collect())
}

/// Makes the module map from the outcome of listing a process: the mappings that
/// were listed are built into the map; a failure becomes an error of the engine
/// whose only cause is the operating system's failure.
pub fn modules_from(listed: Result<Vec<RawMapping>, std::io::Error>) -> (r: Result<ModuleMap, SpyError>)
    ensures
        match listed {
            Ok(raw) => r matches Ok(map) && map.wf() && records_view(map.records@) == spec_map_of(
                raw@,
            ),
            Err(_) => r matches Err(e) && e.spec_os_failure(),
        },
{
    match listed {
        Ok(raw) => Ok(ModuleMap::build(&raw)),
        Err(e) => Err(error_of_io(&e)),
    }
}

/// Lists the modules of a running process. Whatever the operating system lists,
/// the map that comes back is the one built from the listing: it is sorted and
/// its records share no address. A listing that fails is reported as the
/// operating system's failure, with its raw code and its permission flag in the
/// only cause.
pub fn process_modules(pid: u32) -> (r: Result<ModuleMap, SpyError>)
    ensures
        r matches Ok(map) ==> map.wf() && exists|raw: Seq<RawMapping>|
            records_view(map.records@) == #[trigger] spec_map_of(raw),
        r matches Err(e) ==> e.spec_os_failure(),
{
    modules_from(enumerate_mappings(pid))
}

/// The position of the module that holds the interpreter's symbols: the first
/// record of the interpreter's shared library, or else the first record of its
/// executable.
pub open spec fn spec_interpreter_module(records: Seq<RecordView>) -> Option<int> {
    match spec_first_flagged(records, true) {
        Some(i) => Some(i),
        None => spec_first_flagged(records, false),
    }
}

/// The position of the first record flagged as the library, or as the executable.
pub open spec fn spec_first_flagged(records: Seq<RecordView>, library: bool) -> Option<int>
    decreases records.len(),
{
    if records.len() == 0 {
        None
    } else {
        match spec_first_flagged(records.drop_last(), library) {
            Some(i) => Some(i),
            None => if (library && records.last().is_interpreter_library) || (!library
                && records.last().is_interpreter) {
                Some(records.len() - 1)
            } else {
                None
            },
        }
    }
}

impl ModuleMap {
    /// Finds the first record flagged as the library, or as the executable.
    pub fn first_flagged(&self, library: bool) -> (found: Option<usize>)
        ensures
            match found {
                Some(i) => spec_first_flagged(records_view(self.records@), library) == Some(
                    i as int,
                ) && i < self.records@.len(),
                None => spec_first_flagged(records_view(self.records@), library).is_none(),
            },
    {
        let mut i: usize = 0;
        let ghost all = records_view(self.records@);
        while i < self.records.len()
            invariant
                i <= self.records@.len(),
                all == records_view(self.records@),
                spec_first_flagged(all.take(i as int), library).is_none(),
            decreases self.records@.len() - i,
        {
            let r = &self.records[i];
            proof {
                assert(all.take(i + 1).drop_last() == all.take(i as int));
            }
            if (library && r.is_interpreter_library) || (!library && r.is_interpreter) {
                proof {
                    lemma_flagged_prefix(all, library, i as int + 1);
                }
                return Some(i);
            }
            i += 1;
        }
        proof {
            assert(all.take(i as int) == all);
        }
        None
    }

    /// Finds the module that holds the interpreter's symbols.
    pub fn interpreter_module(&self) -> (found: Option<usize>)
        ensures
            match found {
                Some(i) => spec_interpreter_module(records_view(self.records@)) == Some(i as int)
                    && i < self.records@.len(),
                None => spec_interpreter_module(records_view(self.records@)).is_none(),
            },
    {
        match self.first_flagged(true) {
            Some(i) => Some(i),
            None => self.first_flagged(false),
        }
    }
}

/// A flagged record found among the first `n` is the one found among them all.
pub proof fn lemma_flagged_prefix(records: Seq<RecordView>, library: bool, n: int)
    requires
        0 <= n <= records.len(),
        spec_first_flagged(records.take(n), library).is_some(),
    ensures
        spec_first_flagged(records, library) == spec_first_flagged(records.take(n), library),
    decreases records.len() - n,
{
    if n < records.len() {
        assert(records.take(n + 1).drop_last() == records.take(n));
        lemma_flagged_prefix(records, library, n + 1);
    } else {
        assert(records.take(n) == records);
    }
}

} // verus!
