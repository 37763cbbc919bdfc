use py_spy::binary::{BinaryFormat, BinaryInfo, SymbolRecord};
use py_spy::error::{ErrorKind, SpyError};
use py_spy::layout::{
    BytesHeader, CodeObject, FrameObject, InterpreterState, Layout, StringHeader, ThreadState,
    TypeObject, Version,
};
use py_spy::locator::{locate, validate, Located};
use py_spy::maps::{ModuleMap, RawMapping};
use py_spy::memory::{MemoryImage, MemorySource, Region};
use py_spy::spy::PythonSpy;
use py_spy::tables::layout_for;
use py_spy::walker::{walk, walk_frames, walk_from, WalkLimits};

const BASE: u64 = 0x7f00_0000_1000;

struct Fixture {
    layout: Layout,
    bytes: Vec<u8>,
    code_type: u64,
}

impl Fixture {
    fn new(major: u64, minor: u64) -> Fixture {
        let layout = layout_for(&Version { major, minor, patch: 0 }).expect("supported version");
        let mut fixture = Fixture { layout, bytes: Vec::new(), code_type: 0 };
        let name = fixture.raw(b"code\0");
        let ty = fixture.reserve(layout.type_object.size);
        let mut buf = vec![0u8; layout.type_object.size];
        assert!(layout.type_object.encode(&mut buf, &TypeObject { name }));
        fixture.put(ty, &buf);
        fixture.code_type = ty;
        fixture
    }

    fn reserve(&mut self, size: usize) -> u64 {
        while self.bytes.len() % 16 != 0 {
            self.bytes.push(0xAA);
        }
        let addr = BASE + self.bytes.len() as u64;
        self.bytes.extend(std::iter::repeat(0xAA).take(size));
        addr
    }

    fn put(&mut self, addr: u64, data: &[u8]) {
        let start = (addr - BASE) as usize;
        self.bytes[start..start + data.len()].copy_from_slice(data);
    }

    fn raw(&mut self, data: &[u8]) -> u64 {
        let addr = self.reserve(data.len());
        self.put(addr, data);
        addr
    }

    fn string_with_state(&mut self, length: u64, state: u64, offset: usize, data: &[u8]) -> u64 {
        let l = self.layout.string;
        let addr = self.reserve(offset + data.len());
        let mut header = vec![0u8; l.size];
        assert!(l.encode(&mut header, &StringHeader { length, state }));
        self.put(addr, &header);
        self.put(addr + offset as u64, data);
        addr
    }

    fn string(&mut self, text: &str) -> u64 {
        let offset = self.layout.string.ascii_data;
        // one byte to a character, compact, plain text
        self.string_with_state(text.len() as u64, (1 << 2) | (1 << 5) | (1 << 6), offset, text.as_bytes())
    }

    fn bytes_object(&mut self, data: &[u8]) -> u64 {
        let l = self.layout.bytes;
        let addr = self.reserve(l.data + data.len());
        let mut header = vec![0u8; l.size];
        assert!(l.encode(&mut header, &BytesHeader { length: data.len() as u64 }));
        self.put(addr, &header);
        self.put(addr + l.data as u64, data);
        addr
    }

    fn code_with_type(&mut self, name: &str, filename: &str, first_line: i32, lnotab: &[u8], type_ptr: u64) -> u64 {
        let name = self.string(name);
        let filename = self.string(filename);
        let lnotab = self.bytes_object(lnotab);
        let l = self.layout.code;
        let addr = self.reserve(l.size);
        let mut buf = vec![0u8; l.size];
        assert!(l.encode(&mut buf, &CodeObject { type_ptr, filename, name, first_line, lnotab }));
        self.put(addr, &buf);
        addr
    }

    fn code(&mut self, name: &str, filename: &str, first_line: i32, lnotab: &[u8]) -> u64 {
        let ty = self.code_type;
        self.code_with_type(name, filename, first_line, lnotab, ty)
    }

    fn frame_at(&mut self, addr: u64, back: u64, code: u64, lasti: i32) {
        let l = self.layout.frame;
        let mut buf = vec![0u8; l.size];
        assert!(l.encode(&mut buf, &FrameObject { back, code, lasti }));
        self.put(addr, &buf);
    }

    fn frame(&mut self, back: u64, code: u64, lasti: i32) -> u64 {
        let addr = self.reserve(self.layout.frame.size);
        self.frame_at(addr, back, code, lasti);
        addr
    }

    fn thread_at(&mut self, addr: u64, next: u64, interp: u64, frame: u64, thread_id: u64) {
        let l = self.layout.thread;
        let mut buf = vec![0u8; l.size];
        assert!(l.encode(&mut buf, &ThreadState { next, interp, frame, thread_id }));
        self.put(addr, &buf);
    }

    fn interp_at(&mut self, addr: u64, head: u64, holder: u64) {
        let l = self.layout.interp;
        let mut buf = vec![0u8; l.size];
        assert!(l.encode(&mut buf, &InterpreterState { next: 0, tstate_head: head, gil_holder: holder }));
        self.put(addr, &buf);
    }

    fn pointer(&mut self, value: u64) -> u64 {
        self.raw(&value.to_le_bytes())
    }

    fn image(&self) -> MemoryImage {
        MemoryImage { regions: vec![Region { base: BASE, bytes: self.bytes.clone() }] }
    }

    fn source(&self) -> MemorySource {
        MemorySource::Image(self.image())
    }
}

/// Three threads in list order; the second holds the lock. Returns the fixture, the
/// root, and the addresses of the three thread-states.
fn three_threads(major: u64, minor: u64) -> (Fixture, u64, [u64; 3]) {
    let mut f = Fixture::new(major, minor);
    let root = f.reserve(f.layout.interp.size);
    let t1 = f.reserve(f.layout.thread.size);
    let t2 = f.reserve(f.layout.thread.size);
    let t3 = f.reserve(f.layout.thread.size);
    let main_code = f.code("<module>", "/home/user/prog.py", 1, &[0, 1, 6, 1, 44, 5]);
    let sleep_code = f.code("sleep", "/usr/lib/python3/time.py", 40, &[0, 2, 10, 3]);
    let wait_code = f.code("wait", "threading.py", 250, &[]);
    let outer = f.frame(0, main_code, 50);
    let inner = f.frame(outer, sleep_code, 10);
    let waiting = f.frame(0, wait_code, 0);
    let working = f.frame(0, main_code, 6);
    f.thread_at(t1, t2, root, waiting, 0x1001);
    f.thread_at(t2, t3, root, inner, 0x1002);
    f.thread_at(t3, 0, root, working, 0x1003);
    f.interp_at(root, t1, t2);
    (f, root, [t1, t2, t3])
}

fn describe(frames: &[py_spy::stack_trace::StackFrame]) -> Vec<(String, String, Option<String>, i32)> {
    frames
        .iter()
        .map(|f| (f.name.clone(), f.filename.clone(), f.short_filename.clone(), f.line))
        .collect()
}

#[test]
fn walk_returns_threads_in_list_order_with_frames_innermost_first() {
    let (f, root, _) = three_threads(3, 6);
    let traces = walk(&f.source(), &f.layout, &WalkLimits::standard(), root).expect("walk");
    assert_eq!(traces.len(), 3);
    assert_eq!(traces[0].thread_id, 0x1001);
    assert_eq!(traces[1].thread_id, 0x1002);
    assert_eq!(traces[2].thread_id, 0x1003);
    assert_eq!(
        describe(&traces[1].frames),
        vec![
            ("sleep".to_string(), "/usr/lib/python3/time.py".to_string(), Some("time.py".to_string()), 45),
            ("<module>".to_string(), "/home/user/prog.py".to_string(), Some("prog.py".to_string()), 8),
        ]
    );
    assert_eq!(
        describe(&traces[0].frames),
        vec![("wait".to_string(), "threading.py".to_string(), None, 250)]
    );
    assert_eq!(
        describe(&traces[2].frames),
        vec![("<module>".to_string(), "/home/user/prog.py".to_string(), Some("prog.py".to_string()), 3)]
    );
}

#[test]
fn exactly_one_of_k_threads_is_active_when_one_holds_the_lock() {
    let (f, root, _) = three_threads(3, 7);
    let traces = walk(&f.source(), &f.layout, &WalkLimits::standard(), root).expect("walk");
    assert_eq!(traces.len(), 3);
    assert_eq!(traces.iter().filter(|t| t.active).count(), 1);
    assert_eq!(traces.iter().filter(|t| t.owns_gil).count(), 1);
    assert!(traces[1].active && traces[1].owns_gil);
    assert!(!traces[0].active && !traces[2].active);
}

#[test]
fn lock_holder_without_a_frame_is_not_active() {
    let mut f = Fixture::new(3, 6);
    let root = f.reserve(f.layout.interp.size);
    let t1 = f.reserve(f.layout.thread.size);
    f.thread_at(t1, 0, root, 0, 7);
    f.interp_at(root, t1, t1);
    let traces = walk(&f.source(), &f.layout, &WalkLimits::standard(), root).expect("walk");
    assert_eq!(traces.len(), 1);
    assert!(traces[0].owns_gil);
    assert!(!traces[0].active);
    assert!(traces[0].frames.is_empty());
}

#[test]
fn walk_works_under_every_supported_layout() {
    for (major, minor) in [(2u64, 7u64), (3, 3), (3, 4), (3, 5), (3, 6), (3, 7)] {
        let (f, root, _) = three_threads(major, minor);
        let traces = walk(&f.source(), &f.layout, &WalkLimits::standard(), root).expect("walk");
        assert_eq!(traces.len(), 3, "version {}.{}", major, minor);
        assert_eq!(traces[1].frames.len(), 2);
        assert_eq!(traces[1].frames[0].name, "sleep");
        assert_eq!(traces[1].frames[0].line, 45);
        assert_eq!(traces[1].frames[1].line, 8);
    }
}

#[test]
fn two_samples_of_a_paused_target_are_identical() {
    let (f, root, _) = three_threads(3, 6);
    let source = f.source();
    let first = walk(&source, &f.layout, &WalkLimits::standard(), root).expect("walk");
    let second = walk(&source, &f.layout, &WalkLimits::standard(), root).expect("walk");
    assert_eq!(format!("{:?}", first), format!("{:?}", second));
}

#[test]
fn frame_chain_bent_into_a_cycle_ends_at_the_maximum_depth() {
    let mut f = Fixture::new(3, 6);
    let code = f.code("spin", "loop.py", 1, &[]);
    let a = f.reserve(f.layout.frame.size);
    let b = f.reserve(f.layout.frame.size);
    f.frame_at(a, b, code, 0);
    f.frame_at(b, a, code, 0);
    let limits = WalkLimits::standard();
    let frames = walk_frames(&f.source(), &f.layout, &limits, a).expect("no fatal error").expect("readable");
    assert_eq!(frames.len(), 128);
    let short = WalkLimits { max_depth: 5, ..limits };
    let frames = walk_frames(&f.source(), &f.layout, &short, a).expect("no fatal error").expect("readable");
    assert_eq!(frames.len(), 5);
}

#[test]
fn thread_list_bent_into_a_cycle_ends_at_the_maximum_count() {
    let mut f = Fixture::new(3, 6);
    let root = f.reserve(f.layout.interp.size);
    let t1 = f.reserve(f.layout.thread.size);
    let t2 = f.reserve(f.layout.thread.size);
    f.thread_at(t1, t2, root, 0, 1);
    f.thread_at(t2, t1, root, 0, 2);
    f.interp_at(root, t1, 0);
    let limits = WalkLimits { max_threads: 9, ..WalkLimits::standard() };
    let traces = walk(&f.source(), &f.layout, &limits, root).expect("walk");
    assert_eq!(traces.len(), 9);
    assert_eq!(traces[8].thread_id, 1);
}

#[test]
fn frame_without_code_is_skipped() {
    let mut f = Fixture::new(3, 5);
    let code = f.code("run", "/srv/app/run.py", 10, &[0, 1]);
    let outer = f.frame(0, code, 0);
    let bare = f.frame(outer, 0, 0);
    let inner = f.frame(bare, code, 0);
    let frames = walk_frames(&f.source(), &f.layout, &WalkLimits::standard(), inner)
        .expect("no fatal error")
        .expect("readable");
    assert_eq!(frames.len(), 2);
    assert_eq!(frames[0].line, 11);
}

#[test]
fn string_of_unsupported_kind_reads_as_unknown() {
    let mut f = Fixture::new(3, 6);
    let offset = f.layout.string.unicode_data;
    // three bytes to a character: no such kind
    let odd = f.string_with_state(2, (3 << 2) | (1 << 5), offset, b"abcdef");
    // not compact
    let loose = f.string_with_state(2, 1 << 2, offset, b"ab");
    let lnotab = f.bytes_object(&[]);
    let l = f.layout.code;
    let code = f.reserve(l.size);
    let mut buf = vec![0u8; l.size];
    let ty = f.code_type;
    assert!(l.encode(&mut buf, &CodeObject { type_ptr: ty, filename: loose, name: odd, first_line: 3, lnotab }));
    f.put(code, &buf);
    let frame = f.frame(0, code, 0);
    let frames = walk_frames(&f.source(), &f.layout, &WalkLimits::standard(), frame)
        .expect("no fatal error")
        .expect("readable");
    assert_eq!(frames.len(), 1);
    assert_eq!(frames[0].name, "<unknown>");
    assert_eq!(frames[0].filename, "<unknown>");
    assert_eq!(frames[0].short_filename, None);
    assert_eq!(frames[0].line, 3);
}

#[test]
fn wide_strings_are_decoded() {
    let mut f = Fixture::new(3, 7);
    let offset = f.layout.string.unicode_data;
    // two bytes to a character, compact, not plain: "π/é"
    let two = f.string_with_state(3, (2 << 2) | (1 << 5), offset, &[0xC0, 0x03, 0x2F, 0x00, 0xE9, 0x00]);
    // four bytes to a character: a character beyond the basic plane, and a code that is none
    let four = f.string_with_state(2, (4 << 2) | (1 << 5), offset, &[0x00, 0xF6, 0x01, 0x00, 0x00, 0xD8, 0x00, 0x00]);
    let lnotab = f.bytes_object(&[]);
    let l = f.layout.code;
    let code = f.reserve(l.size);
    let mut buf = vec![0u8; l.size];
    let ty = f.code_type;
    assert!(l.encode(&mut buf, &CodeObject { type_ptr: ty, filename: two, name: four, first_line: 1, lnotab }));
    f.put(code, &buf);
    let frame = f.frame(0, code, -1);
    let frames = walk_frames(&f.source(), &f.layout, &WalkLimits::standard(), frame)
        .expect("no fatal error")
        .expect("readable");
    assert_eq!(frames[0].filename, "\u{3C0}/\u{E9}");
    assert_eq!(frames[0].short_filename, Some("\u{E9}".to_string()));
    assert_eq!(frames[0].name, "\u{1F600}\u{FFFD}");
}

#[test]
fn thread_with_a_pointer_into_nowhere_is_dropped_and_the_others_kept() {
    let (mut f, root, threads) = three_threads(3, 6);
    // the second thread's innermost frame points outside every region
    f.thread_at(threads[1], threads[2], root, 0x10, 0x1002);
    let traces = walk(&f.source(), &f.layout, &WalkLimits::standard(), root).expect("walk");
    assert_eq!(traces.len(), 2);
    assert_eq!(traces[0].thread_id, 0x1001);
    assert_eq!(traces[1].thread_id, 0x1003);
}

#[test]
fn string_longer_than_the_limit_drops_the_thread() {
    let (f, root, _) = three_threads(3, 6);
    let limits = WalkLimits { max_text: 10, ..WalkLimits::standard() };
    let traces = walk(&f.source(), &f.layout, &limits, root).expect("walk");
    // only the thread whose names all fit remains: none of them here but the file names are longer
    assert!(traces.iter().all(|t| t.frames.iter().all(|fr| fr.filename.len() <= 10)));
    assert_eq!(traces.len(), 0);
}

#[test]
fn unreadable_root_fails_the_sample_with_a_bad_address() {
    let (f, _, _) = three_threads(3, 6);
    let err = walk(&f.source(), &f.layout, &WalkLimits::standard(), 0x20).expect_err("no root there");
    assert_eq!(err.kind, ErrorKind::BadAddress);
}

#[test]
fn failed_read_of_the_root_keeps_its_kind() {
    let (f, _, _) = three_threads(3, 6);
    let gone = SpyError::from_os("No such process".to_string(), Some(3), false);
    assert_eq!(gone.kind, ErrorKind::ProcessGone);
    let err = walk_from(&f.source(), &f.layout, &WalkLimits::standard(), Err(gone)).expect_err("root failed");
    assert_eq!(err.kind, ErrorKind::ProcessGone);
    assert!(py_spy::error::process_exitted(&err));
    let short = walk_from(&f.source(), &f.layout, &WalkLimits::standard(), Ok(vec![0u8; 3]))
        .expect_err("too short for an interpreter-state");
    assert_eq!(short.kind, ErrorKind::LayoutValidationFailed);
}

#[test]
fn validation_accepts_a_thread_state_and_names_its_interpreter() {
    let (f, root, threads) = three_threads(3, 6);
    let limits = WalkLimits::standard();
    for t in threads {
        assert_eq!(validate(&f.source(), &f.layout, &limits, t).expect("no fatal error"), Some(root));
    }
    assert_eq!(validate(&f.source(), &f.layout, &limits, 0).expect("no fatal error"), None);
    assert_eq!(validate(&f.source(), &f.layout, &limits, 0x40).expect("no fatal error"), None);
    // an interpreter-state is no thread-state
    assert_eq!(validate(&f.source(), &f.layout, &limits, root).expect("no fatal error"), None);
}

#[test]
fn validation_rejects_a_frame_whose_code_is_of_another_type() {
    let mut f = Fixture::new(3, 6);
    let other_name = f.raw(b"dict\0");
    let other_type = f.reserve(f.layout.type_object.size);
    let mut buf = vec![0u8; f.layout.type_object.size];
    assert!(f.layout.type_object.encode(&mut buf, &TypeObject { name: other_name }));
    f.put(other_type, &buf);
    let code = f.code_with_type("f", "f.py", 1, &[], other_type);
    let frame = f.frame(0, code, 0);
    let root = f.reserve(f.layout.interp.size);
    let t = f.reserve(f.layout.thread.size);
    f.thread_at(t, 0, root, frame, 1);
    f.interp_at(root, t, t);
    assert_eq!(validate(&f.source(), &f.layout, &WalkLimits::standard(), t).expect("no fatal error"), None);
}

#[test]
fn validation_rejects_a_thread_list_that_does_not_end() {
    let mut f = Fixture::new(3, 6);
    let root = f.reserve(f.layout.interp.size);
    let t1 = f.reserve(f.layout.thread.size);
    let t2 = f.reserve(f.layout.thread.size);
    f.thread_at(t1, t2, root, 0, 1);
    f.thread_at(t2, t1, root, 0, 2);
    f.interp_at(root, t1, 0);
    assert_eq!(validate(&f.source(), &f.layout, &WalkLimits::standard(), t1).expect("no fatal error"), None);
}

fn mapping(start: u64, size: u64, path: Option<&str>, writable: bool) -> RawMapping {
    RawMapping {
        start,
        size,
        path: path.map(|p| p.to_string()),
        readable: true,
        writable,
        executable: !writable,
    }
}

#[test]
fn locator_prefers_hints_and_falls_back_to_the_heap() {
    let (mut f, root, threads) = three_threads(3, 6);
    let dead = f.pointer(0x1234);
    let good = f.pointer(threads[2]);
    let size = f.bytes.len() as u64;
    let limits = WalkLimits::standard();
    let empty = ModuleMap::build(&vec![]);
    let found = locate(&f.source(), &f.layout, &limits, &vec![dead, good], &empty).expect("hinted");
    assert_eq!(found, Located { thread: threads[2], root });

    // no hints: the first slot of a heap-like region that holds a valid thread-state wins
    let heap = ModuleMap::build(&vec![
        mapping(0x1000, 0x1000, Some("/usr/bin/python3.6"), false),
        mapping(BASE, size, None, true),
    ]);
    let found = locate(&f.source(), &f.layout, &limits, &vec![], &heap).expect("scanned");
    assert_eq!(found.root, root);
    assert!(threads.contains(&found.thread));

    // a region that is not writable is not scanned
    let sealed = ModuleMap::build(&vec![mapping(BASE, size, None, false)]);
    let err = locate(&f.source(), &f.layout, &limits, &vec![dead], &sealed).expect_err("nothing valid");
    assert_eq!(err.kind, ErrorKind::RuntimeUninitialized);

    // the budget of slots is kept
    let tight = WalkLimits { max_scan: 1, ..limits };
    let err = locate(&f.source(), &f.layout, &tight, &vec![], &heap).expect_err("budget used up");
    assert_eq!(err.kind, ErrorKind::RuntimeUninitialized);
}

fn info_with(exports: Vec<(&str, u64)>, bss: Vec<(&str, u64)>) -> BinaryInfo {
    let records = |v: Vec<(&str, u64)>| -> Vec<SymbolRecord> {
        v.into_iter().map(|(name, address)| SymbolRecord { name: name.to_string(), address }).collect()
    };
    BinaryInfo {
        format: BinaryFormat::Elf,
        pointer_width: 8,
        exports: records(exports),
        bss: records(bss),
        load_address: 0,
    }
}

#[test]
fn engine_attaches_through_the_exported_symbol_and_samples() {
    let (mut f, root, threads) = three_threads(3, 6);
    let slot = f.pointer(threads[0]);
    let size = f.bytes.len() as u64;
    let modules = ModuleMap::build(&vec![mapping(BASE, size, Some("/usr/bin/python3.6"), true)]);
    let info = info_with(vec![("_PyThreadState_Current", slot - BASE)], vec![]);
    let mut spy = PythonSpy::from_info(77, f.source(), modules, &info, WalkLimits::standard()).expect("attach");
    assert_eq!(spy.pid, 77);
    assert_eq!(spy.version, Version { major: 3, minor: 6, patch: 0 });
    assert_eq!(spy.layout, f.layout);
    assert_eq!(spy.threads_root_address, root);
    assert_eq!(spy.thread, threads[0]);
    assert_eq!(spy.hints, vec![slot]);
    let traces = spy.get_stack_traces().expect("sample");
    assert_eq!(traces.len(), 3);
    assert_eq!(traces[1].frames[0].name, "sleep");
    let again = spy.get_stack_traces().expect("sample");
    assert_eq!(format!("{:?}", traces), format!("{:?}", again));
}

#[test]
fn engine_finds_the_runtime_structure_among_the_zero_initialised_globals() {
    let (mut f, root, threads) = three_threads(3, 7);
    let runtime = f.reserve(1392 + 8);
    f.put(runtime + 1392, &threads[1].to_le_bytes());
    let size = f.bytes.len() as u64;
    let modules = ModuleMap::build(&vec![mapping(BASE, size, Some("/usr/lib/libpython3.7m.so.1.0"), false)]);
    let info = info_with(vec![], vec![("_PyRuntime", runtime - BASE)]);
    let spy = PythonSpy::from_info(1, f.source(), modules, &info, WalkLimits::standard()).expect("attach");
    assert_eq!(spy.version, Version { major: 3, minor: 7, patch: 0 });
    assert_eq!(spy.threads_root_address, root);
    assert_eq!(spy.thread, threads[1]);
    assert_eq!(spy.hints, vec![runtime + 1392]);
}

#[test]
fn banner_in_memory_overrides_the_name_of_a_renamed_binary() {
    let (mut f, root, threads) = three_threads(3, 6);
    let slot = f.pointer(threads[0]);
    f.raw(b"\0\03.6.5 (default, Apr  1 2018, 05:46:30) \n[GCC 7.3.0]\0");
    let size = f.bytes.len() as u64;
    let info = info_with(vec![("_PyThreadState_Current", slot - BASE)], vec![]);

    // the path names no version: the banner decides
    let modules = ModuleMap::build(&vec![mapping(BASE, size, Some("/opt/bin/python"), true)]);
    let spy = PythonSpy::from_info(1, f.source(), modules, &info, WalkLimits::standard()).expect("attach");
    assert_eq!(spy.version, Version { major: 3, minor: 6, patch: 5 });
    assert_eq!(spy.threads_root_address, root);

    // the path names another version: the banner's is tried first
    let modules = ModuleMap::build(&vec![mapping(BASE, size, Some("/opt/bin/python3.7"), true)]);
    let spy = PythonSpy::from_info(1, f.source(), modules, &info, WalkLimits::standard()).expect("attach");
    assert_eq!(spy.version, Version { major: 3, minor: 6, patch: 5 });
    assert_eq!(spy.layout, f.layout);
}

#[test]
fn engine_construction_fails_with_the_kind_of_what_is_missing() {
    let (mut f, _, threads) = three_threads(3, 6);
    let slot = f.pointer(threads[0]);
    let size = f.bytes.len() as u64;
    let info = info_with(vec![("_PyThreadState_Current", slot - BASE)], vec![]);
    let limits = WalkLimits::standard();

    let modules = ModuleMap::build(&vec![mapping(BASE, size, Some("/usr/bin/ruby"), true)]);
    let err = PythonSpy::from_info(1, f.source(), modules, &info, limits).err().expect("no interpreter");
    assert_eq!(err.kind, ErrorKind::InterpreterNotFound);

    let modules = ModuleMap::build(&vec![mapping(BASE, size, Some("/usr/bin/python3.9"), true)]);
    let err = PythonSpy::from_info(1, f.source(), modules, &info, limits).err().expect("no table");
    assert_eq!(err.kind, ErrorKind::UnsupportedVersion);

    let modules = ModuleMap::build(&vec![mapping(BASE, size, Some("/usr/bin/python3.6"), false)]);
    let none = info_with(vec![], vec![]);
    let err = PythonSpy::from_info(1, f.source(), modules, &none, limits).err().expect("nothing validates");
    assert_eq!(err.kind, ErrorKind::RuntimeUninitialized);

    let modules = ModuleMap::build(&vec![mapping(BASE, size, Some("/usr/bin/python3.6"), false)]);
    let err = PythonSpy::new(1, f.source(), modules, b"not a binary", limits).err().expect("no format");
    assert_eq!(err.kind, ErrorKind::UnsupportedFormat);
}

#[test]
fn engine_locates_the_thread_list_anew_when_the_cached_thread_is_gone() {
    let (mut f, root, threads) = three_threads(3, 6);
    let slot = f.pointer(threads[0]);
    let size = f.bytes.len() as u64;
    let modules = ModuleMap::build(&vec![mapping(BASE, size, Some("/usr/bin/python3.6"), false)]);
    let info = info_with(vec![("_PyThreadState_Current", slot - BASE)], vec![]);
    let mut spy = PythonSpy::from_info(1, f.source(), modules, &info, WalkLimits::standard()).expect("attach");
    assert_eq!(spy.thread, threads[0]);

    // the first thread ends: the list starts at the second, the slot names the third
    f.thread_at(threads[0], 0, 0, 0, 0);
    f.interp_at(root, threads[1], threads[2]);
    f.put(slot, &threads[2].to_le_bytes());
    spy.source = f.source();
    let traces = spy.get_stack_traces().expect("sample");
    assert_eq!(spy.thread, threads[2]);
    assert_eq!(spy.threads_root_address, root);
    assert_eq!(traces.len(), 2);
    assert!(traces[1].active);

    // the runtime goes away altogether
    f.put(slot, &0u64.to_le_bytes());
    f.thread_at(threads[2], 0, 0, 0, 0);
    spy.source = f.source();
    let err = spy.get_stack_traces().expect_err("no thread list");
    assert_eq!(err.kind, ErrorKind::RuntimeUninitialized);
}

#[test]
fn sample_of_a_target_that_has_exited_fails_as_gone() {
    let (mut f, _, threads) = three_threads(3, 6);
    let slot = f.pointer(threads[0]);
    let size = f.bytes.len() as u64;
    let modules = ModuleMap::build(&vec![mapping(BASE, size, Some("/usr/bin/python3.6"), false)]);
    let info = info_with(vec![("_PyThreadState_Current", slot - BASE)], vec![]);
    let mut spy = PythonSpy::from_info(1, f.source(), modules, &info, WalkLimits::standard()).expect("attach");
    assert_eq!(spy.get_stack_traces().expect("sample").len(), 3);
    // the target goes away: no process has an identifier beyond the largest the kernel hands out
    spy.source = MemorySource::open(0x7fff_0000).expect("a handle is only a number here");
    for _ in 0..3 {
        let err = spy.get_stack_traces().expect_err("nobody there");
        assert_eq!(err.kind, ErrorKind::ProcessGone);
        assert!(py_spy::error::process_exitted(&err));
    }
}

/// One thread that sleeps: the standard library's `sleep` called from the program.
fn sleeper() -> (Fixture, u64) {
    let mut f = Fixture::new(3, 6);
    let root = f.reserve(f.layout.interp.size);
    let t = f.reserve(f.layout.thread.size);
    let main_code = f.code("<module>", "/home/user/loop.py", 1, &[0, 1, 4, 1]);
    let sleep_code = f.code("sleep", "/usr/lib/python3.6/time", 1, &[]);
    let outer = f.frame(0, main_code, 4);
    let inner = f.frame(outer, sleep_code, 0);
    f.thread_at(t, 0, root, inner, 0x7f3a_1c00_0700);
    f.interp_at(root, t, t);
    (f, root)
}

#[test]
fn dump_of_a_sleeping_target_names_sleep_in_the_innermost_frame() {
    let (f, root) = sleeper();
    let traces = walk(&f.source(), &f.layout, &WalkLimits::standard(), root).expect("walk");
    assert_eq!(traces.len(), 1);
    assert_eq!(traces[0].frames[0].name, "sleep");
    assert!(traces[0].frames[0].filename.ends_with("time"));
    let lines = py_spy::stack_trace::format_traces(&traces, true);
    assert_eq!(
        lines,
        vec![
            "Thread 0x7F3A1C000700 (active)".to_string(),
            "\t sleep (time:1)".to_string(),
            "\t <module> (loop.py:3)".to_string(),
        ]
    );
}

#[test]
fn flame_counts_follow_the_time_spent_in_each_function() {
    // the target is in `f` for nine samples out of ten and in `g` for the tenth
    let mut fixture = Fixture::new(3, 6);
    let root = fixture.reserve(fixture.layout.interp.size);
    let t = fixture.reserve(fixture.layout.thread.size);
    let code_f = fixture.code("f", "/srv/work.py", 10, &[]);
    let code_g = fixture.code("g", "/srv/work.py", 20, &[]);
    let in_f = fixture.frame(0, code_f, 0);
    let in_g = fixture.frame(0, code_g, 0);
    fixture.interp_at(root, t, t);
    let mut counts = py_spy::flame::FlameCounts::new();
    let mut state = py_spy::sampler::FlameSampler::new();
    while state.wants_sample() {
        let frame = if state.taken % 10 == 9 { in_g } else { in_f };
        fixture.thread_at(t, 0, root, frame, 1);
        let result = walk(&fixture.source(), &fixture.layout, &WalkLimits::standard(), root);
        let (next, action) = state.on_sample(py_spy::sampler::outcome_of(&result));
        state = next;
        assert_eq!(action, py_spy::sampler::FlameAction::Record);
        counts.increment(&result.expect("walk"));
    }
    assert_eq!(state.samples, 2000);
    assert_eq!(counts.lines(), vec!["f (work.py:10) 1800".to_string(), "g (work.py:20) 200".to_string()]);
    assert_eq!(counts.count_of("f (work.py:10)"), 9 * counts.count_of("g (work.py:20)"));
}

#[test]
fn sample_fails_as_gone_when_the_first_read_says_so() {
    let (mut f, root, threads) = three_threads(3, 6);
    let slot = f.pointer(threads[0]);
    let size = f.bytes.len() as u64;
    let modules = ModuleMap::build(&vec![mapping(BASE, size, Some("/usr/bin/python3.6"), false)]);
    let info = info_with(vec![("_PyThreadState_Current", slot - BASE)], vec![]);
    let mut spy = PythonSpy::from_info(1, f.source(), modules, &info, WalkLimits::standard()).expect("attach");

    let gone = SpyError::from_os("No such process (os error 3)".to_string(), Some(3), false);
    let err = spy.sample_from(Err(gone)).expect_err("the target has exited");
    assert_eq!(err.kind, ErrorKind::ProcessGone);
    assert!(py_spy::error::process_exitted(&err));
    let denied = SpyError::from_os("Operation not permitted (os error 1)".to_string(), Some(1), true);
    let err = spy.sample_from(Err(denied)).expect_err("access was taken away");
    assert_eq!(err.kind, ErrorKind::PermissionDenied);

    // a read that fails locally sends the engine looking for the thread list again
    let fault = SpyError::from_os("Bad address (os error 14)".to_string(), Some(14), false);
    let traces = spy.sample_from(Err(fault)).expect("located anew");
    assert_eq!(traces.len(), 3);
    assert_eq!((spy.thread, spy.threads_root_address), (threads[0], root));

    // the bytes of a thread-state of the target are taken at their word
    let bytes = f.image().read(threads[1], f.layout.thread.size).expect("mapped");
    let traces = spy.sample_from(Ok(bytes)).expect("validated");
    assert_eq!(traces.len(), 3);
    let traces = spy.sample_from(Ok(vec![0u8; 4])).expect("located anew");
    assert_eq!(traces.len(), 3);
}

#[test]
fn listed_modules_replace_the_engines_map_and_a_failed_listing_keeps_it() {
    let (mut f, root, threads) = three_threads(3, 6);
    let slot = f.pointer(threads[0]);
    let size = f.bytes.len() as u64;
    let modules = ModuleMap::build(&vec![mapping(BASE, size, Some("/usr/bin/python3.6"), false)]);
    let info = info_with(vec![("_PyThreadState_Current", slot - BASE)], vec![]);
    let mut spy = PythonSpy::from_info(9, f.source(), modules, &info, WalkLimits::standard()).expect("attach");
    let before = format!("{:?}", spy.modules);

    // the map of an image is never listed anew
    spy.refresh_modules();
    assert_eq!(format!("{:?}", spy.modules), before);

    spy.replace_modules(Err(SpyError::from_os("No such file or directory (os error 2)".to_string(), Some(2), false)));
    assert_eq!(format!("{:?}", spy.modules), before);

    let listed = ModuleMap::build(&vec![
        mapping(BASE, size, Some("/usr/bin/python3.6"), false),
        mapping(BASE + 0x10_0000, 0x2000, None, true),
    ]);
    let after = format!("{:?}", listed);
    spy.replace_modules(Ok(listed));
    assert_eq!(format!("{:?}", spy.modules), after);
    assert_eq!(spy.modules.records.len(), 2);
    assert_eq!((spy.pid, spy.thread, spy.threads_root_address), (9, threads[0], root));
    assert_eq!(spy.hints, vec![slot]);
    assert_eq!(spy.get_stack_traces().expect("sample").len(), 3);

    // a live target is listed anew: the map becomes that of the process
    spy.pid = own_process();
    spy.source = MemorySource::open(spy.pid).expect("open own process");
    spy.refresh_modules();
    assert_ne!(format!("{:?}", spy.modules), after);
    assert!(spy.modules.containing(f.bytes.as_ptr() as usize as u64).is_some());
    // a live target that cannot be listed keeps the map it has
    let kept = format!("{:?}", spy.modules);
    spy.pid = 0x7fff_0000;
    spy.refresh_modules();
    assert_eq!(format!("{:?}", spy.modules), kept);
}

fn own_process() -> u32 {
    let link = std::path::Path::new("/proc/self").read_link().expect("the process has an entry");
    link.to_string_lossy().parse().expect("the entry is named by the process identifier")
}

#[test]
fn binary_of_another_pointer_width_has_no_layout() {
    let (mut f, _, threads) = three_threads(3, 6);
    let slot = f.pointer(threads[0]);
    let size = f.bytes.len() as u64;
    let modules = ModuleMap::build(&vec![mapping(BASE, size, Some("/usr/bin/python3.6"), false)]);
    let mut info = info_with(vec![("_PyThreadState_Current", slot - BASE)], vec![]);
    info.pointer_width = 4;
    let err = PythonSpy::from_info(1, f.source(), modules, &info, WalkLimits::standard()).err().expect("no layout");
    assert_eq!(err.kind, ErrorKind::UnsupportedVersion);
    assert!(err.causes.is_empty());
}

#[test]
fn engine_is_kept_only_where_its_first_sample_succeeds() {
    let (mut f, root, threads) = three_threads(3, 6);
    let slot = f.pointer(threads[0]);
    let size = f.bytes.len() as u64;
    let info = info_with(vec![("_PyThreadState_Current", slot - BASE)], vec![]);
    let make = |f: &Fixture| {
        let modules = ModuleMap::build(&vec![mapping(BASE, size, Some("/usr/bin/python3.6"), false)]);
        PythonSpy::from_info(4, f.source(), modules, &info, WalkLimits::standard()).expect("attach")
    };
    let kept = make(&f).keep_if_sampled(Ok(vec![])).expect("kept");
    assert_eq!((kept.pid, kept.threads_root_address), (4, root));
    let gone = SpyError::from_os("No such process (os error 3)".to_string(), Some(3), false);
    let err = make(&f).keep_if_sampled(Err(gone)).err().expect("given up");
    assert_eq!(err.kind, ErrorKind::ProcessGone);
    assert_eq!(err.causes.len(), 1);
    assert_eq!(err.causes[0].message, "No such process (os error 3)");
    assert!(py_spy::error::process_exitted(&err));

    let modules = ModuleMap::build(&vec![mapping(BASE, size, Some("/usr/bin/python3.6"), false)]);
    let err = PythonSpy::attach(4, f.source(), modules, b"no binary", WalkLimits::standard()).err().expect("no format");
    assert_eq!(err.kind, ErrorKind::UnsupportedFormat);
}

#[test]
fn failure_of_a_read_keeps_its_causes_through_the_engine() {
    let (mut f, _, threads) = three_threads(3, 6);
    let slot = f.pointer(threads[0]);
    let size = f.bytes.len() as u64;
    let modules = ModuleMap::build(&vec![mapping(BASE, size, Some("/usr/bin/python3.6"), false)]);
    let info = info_with(vec![("_PyThreadState_Current", slot - BASE)], vec![]);
    let mut spy = PythonSpy::from_info(1, f.source(), modules, &info, WalkLimits::standard()).expect("attach");

    let refused = SpyError::from_os("Operation not permitted (os error 1)".to_string(), Some(1), true);
    let err = spy.sample_from(Err(refused)).expect_err("refused");
    assert_eq!(err.kind, ErrorKind::PermissionDenied);
    assert_eq!(err.causes.len(), 1);
    assert!(py_spy::error::permission_denied(&err));
    assert_eq!(py_spy::sampler::outcome_of(&Err(err.clone())), py_spy::sampler::Outcome::Refused);
    assert_eq!(
        py_spy::cli::failure_report(&err),
        vec!["Permission Denied: Try running again with elevated permissions by going 'sudo env \"PATH=$PATH\" !!'".to_string()]
    );

    // a live target that is gone: the failure of the read comes out of the sample with its cause
    spy.source = MemorySource::open(0x7fff_0000).expect("a handle is only a number here");
    let err = spy.get_stack_traces().expect_err("nobody there");
    assert_eq!(err.causes.len(), 1);
    assert_eq!(err.causes[0].os_code, Some(3));
    assert_eq!(py_spy::sampler::outcome_of(&Err(err)), py_spy::sampler::Outcome::Exited);
    let err = walk(&spy.source, &f.layout, &WalkLimits::standard(), 0x1000).expect_err("nobody there");
    assert_eq!(err.causes.len(), 1);
    assert!(py_spy::error::process_exitted(&err));
}

fn set(image: &mut Vec<u8>, offset: usize, bytes: &[u8]) {
    image[offset..offset + bytes.len()].copy_from_slice(bytes);
}

/// A small 64-bit ELF file that expects its code at 0x400000 and exports the
/// pointer to the current thread-state at `value`.
fn interpreter_binary(value: u64) -> Vec<u8> {
    const LOAD: u64 = 0x40_0000;
    let mut image = vec![0u8; 0x188];
    set(&mut image, 0, &[0x7f, b'E', b'L', b'F', 2, 1, 1, 0]);
    set(&mut image, 16, &3u16.to_le_bytes());
    set(&mut image, 18, &62u16.to_le_bytes());
    set(&mut image, 20, &1u32.to_le_bytes());
    set(&mut image, 32, &0x40u64.to_le_bytes());
    set(&mut image, 52, &64u16.to_le_bytes());
    set(&mut image, 54, &56u16.to_le_bytes());
    set(&mut image, 56, &2u16.to_le_bytes());
    set(&mut image, 58, &64u16.to_le_bytes());
    // loadable, readable and executable: the whole file
    set(&mut image, 0x40, &1u32.to_le_bytes());
    set(&mut image, 0x44, &5u32.to_le_bytes());
    set(&mut image, 0x50, &LOAD.to_le_bytes());
    set(&mut image, 0x58, &LOAD.to_le_bytes());
    set(&mut image, 0x60, &0x188u64.to_le_bytes());
    set(&mut image, 0x68, &0x188u64.to_le_bytes());
    set(&mut image, 0x70, &0x1000u64.to_le_bytes());
    // the dynamic segment
    set(&mut image, 0x78, &2u32.to_le_bytes());
    set(&mut image, 0x7c, &6u32.to_le_bytes());
    set(&mut image, 0x80, &0x128u64.to_le_bytes());
    set(&mut image, 0x88, &(LOAD + 0x128).to_le_bytes());
    set(&mut image, 0x90, &(LOAD + 0x128).to_le_bytes());
    set(&mut image, 0x98, &96u64.to_le_bytes());
    set(&mut image, 0xa0, &96u64.to_le_bytes());
    set(&mut image, 0xa8, &8u64.to_le_bytes());
    set(&mut image, 0xc0, b"\0_PyThreadState_Current\0");
    // the second dynamic symbol: name, global object, section, value, size
    set(&mut image, 0xe0 + 24, &1u32.to_le_bytes());
    set(&mut image, 0xe0 + 28, &[0x11, 0]);
    set(&mut image, 0xe0 + 30, &1u16.to_le_bytes());
    set(&mut image, 0xe0 + 32, &value.to_le_bytes());
    set(&mut image, 0xe0 + 40, &8u64.to_le_bytes());
    // hash table: one bucket, two chain entries
    set(&mut image, 0x110, &1u32.to_le_bytes());
    set(&mut image, 0x114, &2u32.to_le_bytes());
    let dynamic = [(4u64, LOAD + 0x110), (5, LOAD + 0xc0), (6, LOAD + 0xe0), (10, 24), (11, 24), (0, 0)];
    for (i, (tag, entry)) in dynamic.iter().enumerate() {
        set(&mut image, 0x128 + i * 16, &tag.to_le_bytes());
        set(&mut image, 0x128 + i * 16 + 8, &entry.to_le_bytes());
    }
    image
}

#[test]
fn attaching_parses_the_binary_locates_the_threads_and_takes_a_first_sample() {
    let (mut f, root, threads) = three_threads(3, 6);
    let slot = f.pointer(threads[0]);
    let size = f.bytes.len() as u64;
    let binary = interpreter_binary(0x40_0000 + (slot - BASE));
    let modules = ModuleMap::build(&vec![mapping(BASE, size, Some("/usr/bin/python3.6"), false)]);
    let mut spy = PythonSpy::attach(21, f.source(), modules, &binary, WalkLimits::standard()).expect("attach");
    assert_eq!(spy.pid, 21);
    assert_eq!(spy.version, Version { major: 3, minor: 6, patch: 0 });
    assert_eq!(spy.layout, f.layout);
    assert_eq!(spy.hints, vec![slot]);
    assert_eq!((spy.thread, spy.threads_root_address), (threads[0], root));
    assert_eq!(spy.get_stack_traces().expect("sample").len(), 3);

    // the symbol leads nowhere: no thread list validates, and no engine is kept
    let modules = ModuleMap::build(&vec![mapping(BASE, size, Some("/usr/bin/python3.6"), false)]);
    let astray = interpreter_binary(0x40_0000 + size + 0x100);
    let err = PythonSpy::attach(21, f.source(), modules, &astray, WalkLimits::standard()).err().expect("nothing valid");
    assert_eq!(err.kind, ErrorKind::RuntimeUninitialized);
    assert!(err.causes.is_empty());
    assert_eq!(
        py_spy::spy::RetryPolicy::standard().decide(1, err.kind),
        py_spy::spy::RetryAction::Retry { pause_ms: 20 }
    );
}
