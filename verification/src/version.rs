//! Finding out the interpreter's version: from the name of its file, and from the
//! version banner inside its loaded image.

use vstd::prelude::*;
use vstd::slice::slice_subrange;
use crate::error::{ErrorKind, SpyError};
use crate::layout::Version;
use crate::maps::{records_view, spec_interpreter_module, ModuleMap, RecordView};
use crate::memory::{MemoryImage, MemorySource};
use crate::strings::{decode_text, spec_decode_text};
use crate::tables::{spec_supported, supported};
use crate::text::{
    chars_of, digit_value, file_name, parse_decimal, spec_digit_value, spec_file_name,
    spec_parse_bounded,
};
use crate::walker::{local_read, spec_ends_sample};

verus! {

/// The regular expression for a version banner: three dotted integers, an
/// optional release tag, a space, and the rest of the banner.
pub const BANNER_PATTERN: &'static str =
    "((2|3)\\.(3|4|5|6|7)\\.(\\d{1,2}))((a|b|c|rc)\\d{1,2})? (.{1,64})";

/// The largest number read as part of a version.
pub const MAX_VERSION_PART: u64 = 999;

/// Bytes of the image looked at in one piece.
pub const SCAN_CHUNK: usize = 0x10_0000;

/// How far one piece starts after the one before; the pieces overlap so that a
/// banner across a boundary is seen whole.
pub const SCAN_STEP: usize = 0xf_ff00;

/// The capture groups of the first match of a regular expression in a haystack,
/// as the `regex` crate finds them: for each group, the start and the end of what
/// it captured, or nothing where it took no part. There is no value where the
/// expression does not compile or does not match.
pub uninterp spec fn regex_groups(pattern: Seq<char>, haystack: Seq<u8>) -> Option<
    Seq<Option<(usize, usize)>>,
>;

/// The view of capture groups that may be missing.
pub open spec fn opt_groups(found: Option<Vec<Option<(usize, usize)>>>) -> Option<
    Seq<Option<(usize, usize)>>,
> {
    match found {
        Some(g) => Some(g@),
        None => None,
    }
}

/// Compiles the pattern with `regex::bytes::Regex::new` and searches the haystack
/// with `Regex::captures`; the groups of the first match are handed out as pairs
/// of positions.
#[verifier::external_body]
fn first_match_groups(pattern: &str, haystack: &[u8]) -> (groups: Option<Vec<Option<(usize, usize)>>>)
    ensures
        opt_groups(groups) == regex_groups(pattern@, haystack@),
{
    let re = regex::bytes::Regex::new(pattern).ok()?;
    let caps = re.captures(haystack)?;
    Some(caps.iter().map(|m| m.map(|m| (m.start(), m.end()))).collect())
}

/// The number captured by a group: the decimal number that the bytes between its
/// positions spell, where the group took part, its positions lie inside the
/// haystack, and the number is no greater than `MAX_VERSION_PART`.
pub open spec fn spec_group_number(haystack: Seq<u8>, groups: Seq<Option<(usize, usize)>>, index: int) -> Option<
    u64,
> {
    if 0 <= index < groups.len() {
        match groups[index] {
            Some((a, b)) => if a <= b <= haystack.len() {
                spec_parse_bounded(
                    spec_decode_text(haystack.subrange(a as int, b as int), 1),
                    MAX_VERSION_PART,
                )
            } else {
                None
            },
            None => None,
        }
    } else {
        None
    }
}

/// The version that the groups of a banner match spell: major, minor and patch
/// number are the second, third and fourth group.
pub open spec fn spec_version_from_groups(haystack: Seq<u8>, groups: Seq<Option<(usize, usize)>>) -> Option<
    Version,
> {
    match (
        spec_group_number(haystack, groups, 2),
        spec_group_number(haystack, groups, 3),
        spec_group_number(haystack, groups, 4),
    ) {
        (Some(major), Some(minor), Some(patch)) => Some(Version { major, minor, patch }),
        _ => None,
    }
}

/// Reads the number captured by a group.
pub fn group_number(haystack: &[u8], groups: &Vec<Option<(usize, usize)>>, index: usize) -> (n: Option<
    u64,
>)
    ensures
        n == spec_group_number(haystack@, groups@, index as int),
{
    if index >= groups.len() {
        return None;
    }
    match groups[index] {
        Some((a, b)) => {
            if a <= b && b <= haystack.len() {
                let part = slice_subrange(haystack, a, b);
                let text = decode_text(part, 1);
                parse_decimal(&text, MAX_VERSION_PART)
            } else {
                None
            }
        },
        None => None,
    }
}

/// Reads the version out of the groups of a banner match.
pub fn version_from_groups(haystack: &[u8], groups: &Vec<Option<(usize, usize)>>) -> (v: Option<Version>)
    ensures
        v == spec_version_from_groups(haystack@, groups@),
{
    let major = group_number(haystack, groups, 2);
    let minor = group_number(haystack, groups, 3);
    let patch = group_number(haystack, groups, 4);
    match (major, minor, patch) {
        (Some(major), Some(minor), Some(patch)) => Some(Version { major, minor, patch }),
        _ => None,
    }
}

/// The version of the first banner in a piece of memory.
pub open spec fn spec_banner_version(haystack: Seq<u8>) -> Option<Version> {
    match regex_groups(BANNER_PATTERN@, haystack) {
        Some(groups) => spec_version_from_groups(haystack, groups),
        None => None,
    }
}

/// Looks for a version banner in a piece of memory.
pub fn banner_version(haystack: &[u8]) -> (v: Option<Version>)
    ensures
        v == spec_banner_version(haystack@),
{
    match first_match_groups(BANNER_PATTERN, haystack) {
        Some(groups) => version_from_groups(haystack, &groups),
        None => None,
    }
}

/// The version of the first banner in `remaining` bytes of an image from `addr`
/// on, looked at piece by piece; a piece that cannot be read is passed over.
pub open spec fn spec_scan(img: MemoryImage, addr: u64, remaining: u64) -> Option<Version>
    decreases remaining,
{
    if remaining == 0 {
        None
    } else {
        let len = if remaining <= SCAN_CHUNK {
            remaining as nat
        } else {
            SCAN_CHUNK as nat
        };
        let here = match img.spec_read(addr, len) {
            Some(bytes) => spec_banner_version(bytes),
            None => None,
        };
        match here {
            Some(v) => Some(v),
            None => if remaining <= SCAN_CHUNK || addr + SCAN_STEP > u64::MAX {
                None
            } else {
                spec_scan(img, (addr + SCAN_STEP) as u64, (remaining - SCAN_STEP) as u64)
            },
        }
    }
}

/// Scans `size` bytes of the target from `base` on for a version banner.
pub fn scan_banner(src: &MemorySource, base: u64, size: u64) -> (r: Result<Option<Version>, SpyError>)
    ensures
        r matches Err(e) ==> spec_ends_sample(e),
        size == 0 ==> r == Ok::<Option<Version>, SpyError>(None),
        src.spec_image() matches Some(img) ==> r matches Ok(found) && found == spec_scan(
            img,
            base,
            size,
        ),
{
    let mut addr: u64 = base;
    let mut remaining: u64 = size;
    while remaining > 0
        invariant
            remaining <= size,
            src.spec_image() matches Some(img) ==> spec_scan(img, base, size) == spec_scan(
                img,
                addr,
                remaining,
            ),
        decreases remaining,
    {
        let len: usize = if remaining <= SCAN_CHUNK as u64 {
            remaining as usize
        } else {
            SCAN_CHUNK
        };
        match local_read(src, addr, len)? {
            Some(bytes) => {
                match banner_version(bytes.as_slice()) {
                    Some(v) => {
                        return Ok(Some(v));
                    },
                    None => {},
                }
            },
            None => {},
        }
        if remaining <= SCAN_CHUNK as u64 || addr > u64::MAX - SCAN_STEP as u64 {
            return Ok(None);
        }
        addr = addr + SCAN_STEP as u64;
        remaining = remaining - SCAN_STEP as u64;
    }
    Ok(None)
}

/// Whether a character is a decimal digit.
pub open spec fn spec_is_digit(c: char) -> bool {
    spec_digit_value(c).is_some()
}

/// Whether position `d` holds a dot with a digit on either side.
pub open spec fn spec_version_dot(s: Seq<char>, d: int) -> bool {
    0 < d < s.len() - 1 && s[d] == '.' && spec_is_digit(s[d - 1]) && spec_is_digit(s[d + 1])
}

/// The first dot with a digit on either side, at or after `from`.
pub open spec fn spec_first_dot(s: Seq<char>, from: int) -> Option<int>
    decreases s.len() - from,
{
    if from >= s.len() {
        None
    } else if spec_version_dot(s, from) {
        Some(from)
    } else {
        spec_first_dot(s, from + 1)
    }
}

/// Where the run of digits that ends before `end` starts.
pub open spec fn spec_run_start(s: Seq<char>, end: int) -> int
    decreases end,
{
    if 0 < end <= s.len() && spec_is_digit(s[end - 1]) {
        spec_run_start(s, end - 1)
    } else {
        end
    }
}

/// Where the run of digits that starts at `start` ends.
pub open spec fn spec_run_end(s: Seq<char>, start: int) -> int
    decreases s.len() - start,
{
    if 0 <= start < s.len() && spec_is_digit(s[start]) {
        spec_run_end(s, start + 1)
    } else {
        start
    }
}

/// The version that a text spells: the digits before and after its first dot that
/// has a digit on either side are the major and the minor number; the patch level
/// is not known and set to zero.
pub open spec fn spec_version_in_text(s: Seq<char>) -> Option<Version> {
    match spec_first_dot(s, 0) {
        None => None,
        Some(d) => match (
            spec_parse_bounded(s.subrange(spec_run_start(s, d), d), MAX_VERSION_PART),
            spec_parse_bounded(s.subrange(d + 1, spec_run_end(s, d + 1)), MAX_VERSION_PART),
        ) {
            (Some(major), Some(minor)) => Some(Version { major, minor, patch: 0 }),
            _ => None,
        },
    }
}

/// The version that the path of the interpreter's file spells: that of its last
/// component, or else that of the whole path.
pub open spec fn spec_version_from_path(path: Seq<char>) -> Option<Version> {
    match spec_version_in_text(spec_file_name(path)) {
        Some(v) => Some(v),
        None => spec_version_in_text(path),
    }
}

/// Tells whether a character is a decimal digit.
pub fn is_digit(c: char) -> (yes: bool)
    ensures
        yes == spec_is_digit(c),
{
    digit_value(c).is_some()
}

/// Copies the characters between two positions.
fn copy_range(s: &Vec<char>, from: usize, to: usize) -> (part: Vec<char>)
    requires
        from <= to <= s@.len(),
    ensures
        part@ == s@.subrange(from as int, to as int),
{
    let mut part: Vec<char> = Vec::new();
    let mut i: usize = from;
    while i < to
        invariant
            from <= i <= to <= s@.len(),
            part@ == s@.subrange(from as int, i as int),
        decreases to - i,
    {
        part.push(s[i]);
        i += 1;
    }
    part
}

/// Reads a version out of a text.
pub fn version_in_text(s: &Vec<char>) -> (v: Option<Version>)
    ensures
        v == spec_version_in_text(s@),
{
    let n: usize = s.len();
    let mut d: usize = 0;
    while d < n
        invariant
            d <= n,
            n == s@.len(),
            spec_first_dot(s@, 0) == spec_first_dot(s@, d as int),
        decreases n - d,
    {
        if d > 0 && n - d > 1 && s[d] == '.' && is_digit(s[d - 1]) && is_digit(s[d + 1]) {
            let mut start: usize = d;
            while start > 0 && is_digit(s[start - 1])
                invariant
                    start <= d < n,
                    n == s@.len(),
                    spec_run_start(s@, d as int) == spec_run_start(s@, start as int),
                decreases start,
            {
                start -= 1;
            }
            let mut end: usize = d + 1;
            while end < n && is_digit(s[end])
                invariant
                    d + 1 <= end <= n,
                    n == s@.len(),
                    spec_run_end(s@, d + 1) == spec_run_end(s@, end as int),
                decreases n - end,
            {
                end += 1;
            }
            let major = parse_decimal(&copy_range(s, start, d), MAX_VERSION_PART);
            let minor = parse_decimal(&copy_range(s, d + 1, end), MAX_VERSION_PART);
            return match (major, minor) {
                (Some(major), Some(minor)) => Some(Version { major, minor, patch: 0 }),
                _ => None,
            };
        }
        d += 1;
    }
    None
}

/// Reads a version out of the path of the interpreter's file.
pub fn version_from_path(path: &Vec<char>) -> (v: Option<Version>)
    ensures
        v == spec_version_from_path(path@),
{
    let name = file_name(path);
    match version_in_text(&name) {
        Some(v) => Some(v),
        None => version_in_text(path),
    }
}

/// The versions to try, best first: those of the banner and of the file's path
/// that have a layout table. The banner's comes first, since the file may have
/// been renamed; where both name the same major and minor number only the
/// banner's is tried, which knows the patch level.
pub open spec fn spec_candidates(from_path: Option<Version>, from_banner: Option<Version>) -> Seq<
    Version,
> {
    let path_ok = from_path matches Some(p) && spec_supported(p.major, p.minor);
    let banner_ok = from_banner matches Some(b) && spec_supported(b.major, b.minor);
    if path_ok && banner_ok {
        let p = from_path.unwrap();
        let b = from_banner.unwrap();
        if p.major == b.major && p.minor == b.minor {
            seq![b]
        } else {
            seq![b, p]
        }
    } else if banner_ok {
        seq![from_banner.unwrap()]
    } else if path_ok {
        seq![from_path.unwrap()]
    } else {
        Seq::empty()
    }
}

/// Lists the versions to try, best first.
pub fn candidates(from_path: Option<Version>, from_banner: Option<Version>) -> (list: Vec<Version>)
    ensures
        list@ == spec_candidates(from_path, from_banner),
{
    let path_ok = match from_path {
        Some(p) => supported(&p),
        None => false,
    };
    let banner_ok = match from_banner {
        Some(b) => supported(&b),
        None => false,
    };
    let mut list: Vec<Version> = Vec::new();
    if path_ok && banner_ok {
        let p = from_path.unwrap();
        let b = from_banner.unwrap();
        if p.major == b.major && p.minor == b.minor {
            list.push(b);
        } else {
            list.push(b);
            list.push(p);
        }
    } else if banner_ok {
        list.push(from_banner.unwrap());
    } else if path_ok {
        list.push(from_path.unwrap());
    }
    list
}

/// Every candidate has a layout table, and there is none exactly when neither
/// source names a supported version.
pub proof fn lemma_candidates_supported(from_path: Option<Version>, from_banner: Option<Version>)
    ensures
        forall|i: int|
            0 <= i < spec_candidates(from_path, from_banner).len() ==> spec_supported(
                (#[trigger] spec_candidates(from_path, from_banner)[i]).major,
                spec_candidates(from_path, from_banner)[i].minor,
            ),
        spec_candidates(from_path, from_banner).len() == 0 <==> !(from_path matches Some(p)
            && spec_supported(p.major, p.minor)) && !(from_banner matches Some(b) && spec_supported(
            b.major,
            b.minor,
        )),
{
}

/// The version of the first banner in the loaded images of the interpreter's
/// executable and library, gone through in the order of the map.
pub open spec fn spec_scan_modules(img: MemoryImage, records: Seq<RecordView>) -> Option<Version>
    decreases records.len(),
{
    if records.len() == 0 {
        None
    } else if records[0].is_interpreter || records[0].is_interpreter_library {
        match spec_scan(img, records[0].base, records[0].size) {
            Some(v) => Some(v),
            None => spec_scan_modules(img, records.skip(1)),
        }
    } else {
        spec_scan_modules(img, records.skip(1))
    }
}

/// Scans the loaded images of the interpreter's executable and library for a
/// version banner.
pub fn scan_modules(src: &MemorySource, map: &ModuleMap) -> (r: Result<Option<Version>, SpyError>)
    ensures
        r matches Err(e) ==> spec_ends_sample(e),
        src.spec_image() matches Some(img) ==> r == Ok::<Option<Version>, SpyError>(
            spec_scan_modules(img, records_view(map.records@)),
        ),
{
    let mut i: usize = 0;
    let ghost all = records_view(map.records@);
    assert(all.skip(0) == all);
    while i < map.records.len()
        invariant
            i <= map.records@.len(),
            all == records_view(map.records@),
            src.spec_image() matches Some(img) ==> spec_scan_modules(img, all) == spec_scan_modules(
                img,
                all.skip(i as int),
            ),
        decreases map.records@.len() - i,
    {
        let record = &map.records[i];
        proof {
            assert(all.skip(i as int).skip(1) == all.skip(i + 1));
        }
        if record.is_interpreter || record.is_interpreter_library {
            match scan_banner(src, record.base, record.size)? {
                Some(v) => {
                    return Ok(Some(v));
                },
                None => {},
            }
        }
        i += 1;
    }
    Ok(None)
}

/// The versions to try for the interpreter of an image, best first. The failure is
/// of the interpreter-not-found kind where no module is the interpreter, and of
/// the unsupported-version kind where neither the path of the interpreter's module
/// nor a banner in the loaded images names a version with a layout table.
pub open spec fn spec_detect(img: MemoryImage, records: Seq<RecordView>) -> Result<
    Seq<Version>,
    ErrorKind,
> {
    match spec_interpreter_module(records) {
        None => Err(ErrorKind::InterpreterNotFound),
        Some(i) => {
            let versions = spec_candidates(
                spec_version_from_path(records[i].path),
                spec_scan_modules(img, records),
            );
            if versions.len() == 0 {
                Err(ErrorKind::UnsupportedVersion)
            } else {
                Ok(versions)
            }
        },
    }
}

/// Whether versions are what detection gives for some outcome of the scan for a
/// banner: there is an interpreter module, and the versions are the candidates
/// of the version that its path names and of the banner's, if one was found.
pub open spec fn spec_detected(records: Seq<RecordView>, versions: Seq<Version>) -> bool {
    spec_interpreter_module(records) matches Some(i) && exists|banner: Option<Version>|
        versions == #[trigger] spec_candidates(spec_version_from_path(records[i].path), banner)
}

/// Detects the interpreter's version: the versions to try, best first. The path of
/// the module that holds the interpreter's symbols is looked at, then the loaded
/// images are scanned for a banner. Whatever the scan of a live target finds,
/// the versions are the candidates of the path's version and of what the scan
/// found; detection fails as interpreter-not-found exactly where no module is the
/// interpreter, and as an unsupported version only where there is no candidate.
pub fn detect(src: &MemorySource, modules: &ModuleMap) -> (r: Result<Vec<Version>, SpyError>)
    ensures
        r matches Ok(list) ==> list@.len() > 0 && forall|i: int|
            0 <= i < list@.len() ==> spec_supported((#[trigger] list@[i]).major, list@[i].minor),
        r matches Err(e) ==> spec_ends_sample(e) || (e.causes@.len() == 0 && (e.kind
            == ErrorKind::InterpreterNotFound || e.kind == ErrorKind::UnsupportedVersion)),
        spec_interpreter_module(records_view(modules.records@)).is_none() <==> (r matches Err(e)
            && e.kind == ErrorKind::InterpreterNotFound),
        r matches Ok(list) ==> spec_detected(records_view(modules.records@), list@),
        (r matches Err(e) && e.kind == ErrorKind::UnsupportedVersion) ==> spec_detected(
            records_view(modules.records@),
            Seq::empty(),
        ),
        src.spec_image() matches Some(img) ==> match spec_detect(
            img,
            records_view(modules.records@),
        ) {
            Ok(versions) => r matches Ok(list) && list@ == versions,
            Err(kind) => r matches Err(e) && e.kind == kind,
        },
{
    let index = match modules.interpreter_module() {
        Some(i) => i,
        None => {
            return Err(SpyError::new(ErrorKind::InterpreterNotFound));
        },
    };
    let path = chars_of(modules.records[index].path.as_str());
    let from_path = version_from_path(&path);
    let from_banner = scan_modules(src, modules)?;
    let versions = candidates(from_path, from_banner);
    if versions.len() == 0 {
        return Err(SpyError::new(ErrorKind::UnsupportedVersion));
    }
    proof {
        lemma_candidates_supported(from_path, from_banner);
    }
    Ok(versions)
}

/// The version that the path of the interpreter's file names selects the layout.
/// Where no banner is found and the path names a version with a layout table,
/// that version is the only candidate, and its table is the one of its major and
/// minor number; where the path names a version without a table, there is no
/// candidate, and detection fails as an unsupported version.
pub proof fn lemma_path_version_selects_table(img: MemoryImage, records: Seq<RecordView>)
    requires
        spec_interpreter_module(records) matches Some(i) && spec_version_from_path(
            records[i].path,
        ).is_some(),
        spec_scan_modules(img, records).is_none(),
    ensures
        ({
            let v = spec_version_from_path(
                records[spec_interpreter_module(records).unwrap()].path,
            ).unwrap();
            &&& spec_supported(v.major, v.minor) ==> spec_detect(img, records) == Ok::<
                Seq<Version>,
                ErrorKind,
            >(seq![v]) && (crate::tables::spec_layout_for(v.major, v.minor) matches Some(l)
                && l.major == v.major && l.minor == v.minor)
            &&& !spec_supported(v.major, v.minor) ==> spec_detect(img, records) == Err::<
                Seq<Version>,
                ErrorKind,
            >(ErrorKind::UnsupportedVersion)
        }),
{
    let v = spec_version_from_path(records[spec_interpreter_module(records).unwrap()].path).unwrap();
    crate::tables::lemma_tables_well_formed(v.major, v.minor);
    assert(spec_candidates(Some(v), None) =~= if spec_supported(v.major, v.minor) {
        seq![v]
    } else {
        Seq::<Version>::empty()
    });
}

} // verus!
