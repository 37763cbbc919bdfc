use py_spy::error::ErrorKind;
use py_spy::layout::Version;
use py_spy::maps::{ModuleMap, RawMapping};
use py_spy::memory::{MemoryImage, MemorySource, Region};
use py_spy::version::{
    banner_version, candidates, detect, scan_banner, version_from_groups, version_from_path,
    version_in_text,
};

fn chars(s: &str) -> Vec<char> {
    s.chars().collect()
}

fn v(major: u64, minor: u64, patch: u64) -> Version {
    Version { major, minor, patch }
}

#[test]
fn version_is_read_off_the_file_name() {
    let cases = [
        ("/usr/bin/python3.6", Some(v(3, 6, 0))),
        ("/usr/lib/x86_64-linux-gnu/libpython2.7.so.1.0", Some(v(2, 7, 0))),
        ("/usr/lib/libpython3.7m.so.1.0", Some(v(3, 7, 0))),
        ("python3.10", Some(v(3, 10, 0))),
        ("/opt/python-3.5.2/bin/python", Some(v(3, 5, 0))),
        ("/opt/v1.2/bin/python3.6", Some(v(3, 6, 0))),
        ("/usr/bin/python3", None),
        ("/usr/bin/python", None),
        ("python.3", None),
        ("python3.", None),
        (".6", None),
        ("", None),
        ("python1000.1", None),
        ("python3.1000", None),
    ];
    for (path, expected) in cases {
        assert_eq!(version_from_path(&chars(path)), expected, "{:?}", path);
    }
    assert_eq!(version_in_text(&chars("a12.34b5.6")), Some(v(12, 34, 0)));
    assert_eq!(version_in_text(&chars("x.1 2.y 3.4")), Some(v(3, 4, 0)));
}

#[test]
fn banner_is_found_in_memory() {
    assert_eq!(banner_version(b"\0\0junk\03.6.5 (default, Apr  1 2018, 05:46:30) \n[GCC 7.3.0]\0"), Some(v(3, 6, 5)));
    assert_eq!(banner_version(b"2.7.15rc1 (default, Nov 12 2018, 14:31:15)"), Some(v(2, 7, 15)));
    assert_eq!(banner_version(b"3.7.0b2 (v3.7.0b2:b0ef5c979b) first; then 3.6.1 (x)"), Some(v(3, 7, 0)));
    assert_eq!(banner_version(b"3.5.2+ (default)"), None);
    assert_eq!(banner_version(b"3.8.1 (default)"), None);
    assert_eq!(banner_version(b"1.2.3 (default)"), None);
    assert_eq!(banner_version(b"3.6.5"), None);
    assert_eq!(banner_version(b"version 3.6 (default)"), None);
    assert_eq!(banner_version(b""), None);
    assert_eq!(banner_version(&[0xff, 0xfe, 0x00, 0x80]), None);
}

#[test]
fn groups_of_a_match_spell_the_version() {
    let hay = b"xx 3.7.12 yy";
    let groups = vec![Some((3, 9)), Some((3, 9)), Some((3, 4)), Some((5, 6)), Some((7, 9))];
    assert_eq!(version_from_groups(hay, &groups), Some(v(3, 7, 12)));
    // a group that took no part, lies outside the haystack, or spells no number
    let mut missing = groups.clone();
    missing[4] = None;
    assert_eq!(version_from_groups(hay, &missing), None);
    let mut outside = groups.clone();
    outside[4] = Some((7, 13));
    assert_eq!(version_from_groups(hay, &outside), None);
    let mut backwards = groups.clone();
    backwards[3] = Some((6, 5));
    assert_eq!(version_from_groups(hay, &backwards), None);
    let mut wordy = groups.clone();
    wordy[2] = Some((0, 2));
    assert_eq!(version_from_groups(hay, &wordy), None);
    let mut empty = groups.clone();
    empty[2] = Some((3, 3));
    assert_eq!(version_from_groups(hay, &empty), None);
    assert_eq!(version_from_groups(hay, &groups[..4].to_vec()), None);
    assert_eq!(version_from_groups(b"1000.1.1", &vec![None, None, Some((0, 4)), Some((5, 6)), Some((7, 8))]), None);
    assert_eq!(version_from_groups(b"999.1.1", &vec![None, None, Some((0, 3)), Some((4, 5)), Some((6, 7))]), Some(v(999, 1, 1)));
}

#[test]
fn banner_comes_first_among_the_candidates() {
    assert_eq!(candidates(Some(v(3, 6, 0)), None), vec![v(3, 6, 0)]);
    assert_eq!(candidates(None, Some(v(3, 6, 5))), vec![v(3, 6, 5)]);
    assert_eq!(candidates(Some(v(3, 6, 0)), Some(v(3, 6, 5))), vec![v(3, 6, 5)]);
    assert_eq!(candidates(Some(v(3, 7, 0)), Some(v(3, 6, 5))), vec![v(3, 6, 5), v(3, 7, 0)]);
    assert_eq!(candidates(Some(v(2, 7, 0)), Some(v(3, 6, 5))), vec![v(3, 6, 5), v(2, 7, 0)]);
    assert_eq!(candidates(Some(v(3, 9, 0)), Some(v(3, 6, 5))), vec![v(3, 6, 5)]);
    assert_eq!(candidates(Some(v(3, 6, 0)), Some(v(3, 8, 1))), vec![v(3, 6, 0)]);
    assert_eq!(candidates(Some(v(3, 9, 0)), Some(v(3, 8, 1))), vec![]);
    assert_eq!(candidates(None, None), vec![]);
}

#[test]
fn image_is_scanned_piece_by_piece() {
    let mut bytes = vec![0u8; 0x28_0000];
    let banner = b"3.5.4 (default, Sep  5 2017)";
    // across the end of the first piece of a megabyte
    let at = 0x10_0000 - 10;
    bytes[at..at + banner.len()].copy_from_slice(banner);
    let source = MemorySource::Image(MemoryImage { regions: vec![Region { base: 0x40_0000, bytes }] });
    assert_eq!(scan_banner(&source, 0x40_0000, 0x28_0000).expect("no fatal error"), Some(v(3, 5, 4)));
    // the banner lies behind what is scanned
    assert_eq!(scan_banner(&source, 0x40_0000, 0x8_0000).expect("no fatal error"), None);
    assert_eq!(scan_banner(&source, 0x40_0000, 0).expect("no fatal error"), None);
    // pieces that cannot be read are passed over
    assert_eq!(scan_banner(&source, 0x30_0000, 0x38_0000).expect("no fatal error"), Some(v(3, 5, 4)));
    assert_eq!(scan_banner(&source, 0x10_0000, 0x20_0000).expect("no fatal error"), None);
    assert_eq!(scan_banner(&source, u64::MAX - 5, 0x40_0000).expect("no fatal error"), None);
}

#[test]
fn detection_looks_at_the_path_and_at_the_banner() {
    let mapping = |start: u64, size: u64, path: &str| RawMapping {
        start,
        size,
        path: if path.is_empty() { None } else { Some(path.to_string()) },
        readable: true,
        writable: false,
        executable: false,
    };
    let mut bytes = vec![0u8; 0x2000];
    bytes[0x1800..0x1800 + 17].copy_from_slice(b"3.4.9 (default) x");
    let source = MemorySource::Image(MemoryImage { regions: vec![Region { base: 0x40_0000, bytes }] });

    let renamed = ModuleMap::build(&vec![mapping(0x40_0000, 0x1000, "/opt/bin/python3.6"), mapping(0x40_1000, 0x1000, "/opt/bin/python3.6")]);
    assert_eq!(detect(&source, &renamed).expect("two candidates"), vec![v(3, 4, 9), v(3, 6, 0)]);

    // the banner lies in a region of another file, which is not scanned
    let other = ModuleMap::build(&vec![mapping(0x40_0000, 0x1000, "/opt/bin/python3.6"), mapping(0x40_1000, 0x1000, "/lib/libc.so.6")]);
    assert_eq!(detect(&source, &other).expect("one candidate"), vec![v(3, 6, 0)]);

    let nameless = ModuleMap::build(&vec![mapping(0x40_0000, 0x1000, "/opt/bin/python")]);
    assert_eq!(detect(&source, &nameless).expect_err("no version").kind, ErrorKind::UnsupportedVersion);

    let too_new = ModuleMap::build(&vec![mapping(0x40_0000, 0x1000, "/opt/bin/python3.11")]);
    assert_eq!(detect(&source, &too_new).expect_err("no table").kind, ErrorKind::UnsupportedVersion);

    let foreign = ModuleMap::build(&vec![mapping(0x40_0000, 0x2000, "/usr/bin/node")]);
    assert_eq!(detect(&source, &foreign).expect_err("no interpreter").kind, ErrorKind::InterpreterNotFound);
}
