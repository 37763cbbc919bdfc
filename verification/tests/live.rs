use py_spy::error::{permission_denied, process_exitted, ErrorKind};
use py_spy::maps::{modules_from, process_modules, ModuleMap, RawMapping};
use py_spy::memory::MemorySource;
use py_spy::spy::open_target;

fn own_pid() -> u32 {
    let link = std::path::Path::new("/proc/self").read_link().expect("the process has an entry");
    link.to_string_lossy().parse().expect("the entry is named by the process identifier")
}

#[test]
fn live_process_reads_what_is_in_memory() {
    let data: Vec<u8> = (0..200u32).map(|i| (i * 7 % 251) as u8).collect();
    let addr = data.as_ptr() as usize as u64;
    let source = MemorySource::open(own_pid()).expect("open own process");
    let bytes = source.read(addr + 10, 64).expect("read own memory");
    assert_eq!(bytes.len(), 64);
    assert_eq!(&bytes[..], &data[10..74]);
    let none = source.read(addr, 0).expect("empty read");
    assert!(none.is_empty());
}

#[test]
fn live_process_rejects_unmapped_address() {
    let source = MemorySource::open(own_pid()).expect("open own process");
    let err = source.read(8, 16).expect_err("nothing is mapped at the first page");
    assert_eq!(err.kind, ErrorKind::BadAddress);
    assert_eq!(err.causes.len(), 1);
}

#[test]
fn live_process_modules_are_sorted_and_hold_our_data() {
    let data: Vec<u8> = vec![1; 4096];
    let addr = data.as_ptr() as usize as u64;
    let map = process_modules(own_pid()).expect("list own mappings");
    assert!(!map.records.is_empty());
    for pair in map.records.windows(2) {
        assert!(pair[0].base + pair[0].size <= pair[1].base);
    }
    let index = map.containing(addr).expect("our buffer is mapped");
    let record = &map.records[index];
    assert!(record.base <= addr && addr < record.base + record.size);
    assert!(record.writable);
}

#[test]
fn process_that_is_gone_fails_the_read_as_gone() {
    // no process has an identifier beyond the largest the kernel hands out
    let source = MemorySource::open(0x7fff_0000).expect("a handle is only a number here");
    let err = source.read(0x1000, 8).expect_err("nobody there");
    assert_eq!(err.kind, ErrorKind::ProcessGone);
    assert!(py_spy::error::process_exitted(&err));
    assert!(!py_spy::error::permission_denied(&err));
    let err = process_modules(0x7fff_0000).err().expect("nothing to list");
    assert_eq!(err.causes.len(), 1);
    assert_eq!(err.kind, py_spy::error::kind_of_os_error(err.causes[0].os_code, err.causes[0].permission_denied));
    assert!(err.causes[0].os_code.is_some());
    let err = open_target(0x7fff_0000).err().expect("nothing to list");
    assert_eq!(err.causes.len(), 1);
    assert_eq!(err.kind, py_spy::error::kind_of_os_error(err.causes[0].os_code, err.causes[0].permission_denied));
}

#[test]
fn own_process_is_opened_with_its_modules() {
    let (source, modules) = open_target(own_pid()).expect("open own process");
    assert!(matches!(source, MemorySource::Process(_)));
    assert!(!modules.records.is_empty());
    for pair in modules.records.windows(2) {
        assert!(pair[0].base + pair[0].size <= pair[1].base);
    }
    let data: Vec<u8> = vec![5; 64];
    let addr = data.as_ptr() as usize as u64;
    assert_eq!(source.read(addr, 64).expect("read own memory"), data);
    assert!(modules.containing(addr).is_some());
}

#[test]
fn outcome_of_opening_becomes_a_source_or_the_systems_failure() {
    let handle = read_process_memory::ProcessHandle::try_from(own_pid() as read_process_memory::Pid)
        .expect("a handle to the own process");
    let source = MemorySource::from_opened(Ok(handle)).expect("the handle was granted");
    assert!(matches!(source, MemorySource::Process(_)));
    let data: Vec<u8> = vec![9; 32];
    assert_eq!(source.read(data.as_ptr() as usize as u64, 32).expect("read own memory"), data);

    let err = MemorySource::from_opened(Err(std::io::Error::from_raw_os_error(13))).err().expect("refused");
    assert_eq!(err.kind, ErrorKind::PermissionDenied);
    assert_eq!(err.causes.len(), 1);
    assert_eq!(err.causes[0].os_code, Some(13));
    assert!(err.causes[0].permission_denied);
    assert!(permission_denied(&err));

    let err = MemorySource::from_opened(Err(std::io::Error::from_raw_os_error(3))).err().expect("gone");
    assert_eq!(err.kind, ErrorKind::ProcessGone);
    assert!(process_exitted(&err));
    assert!(!permission_denied(&err));
}

#[test]
fn outcome_of_listing_becomes_the_map_or_the_systems_failure() {
    let raw = vec![
        RawMapping { start: 0x2000, size: 0x1000, path: Some("/usr/bin/python3.6".to_string()), readable: true, writable: false, executable: true },
        RawMapping { start: 0x1000, size: 0x1000, path: None, readable: true, writable: true, executable: false },
        RawMapping { start: 0x4000, size: 0x2000, path: None, readable: true, writable: true, executable: false },
    ];
    let map = modules_from(Ok(raw.clone())).expect("listed");
    let built = ModuleMap::build(&raw);
    assert_eq!(format!("{:?}", map), format!("{:?}", built));
    let kept: Vec<(u64, u64)> = map.records.iter().map(|r| (r.base, r.size)).collect();
    assert_eq!(kept, vec![(0x1000, 0x1000), (0x2000, 0x1000), (0x4000, 0x2000)]);
    assert!(map.records[1].is_interpreter);

    let err = modules_from(Err(std::io::Error::from_raw_os_error(2))).err().expect("not listed");
    assert_eq!(err.kind, ErrorKind::TransientRead);
    assert_eq!(err.causes.len(), 1);
    assert_eq!(err.causes[0].os_code, Some(2));
    let err = modules_from(Err(std::io::Error::from_raw_os_error(13))).err().expect("refused");
    assert_eq!(err.kind, ErrorKind::PermissionDenied);
    assert!(permission_denied(&err));
}
