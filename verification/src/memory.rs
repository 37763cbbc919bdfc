//! Reading the target's memory: out of a live process, or out of an image of its
//! regions taken earlier.

use vstd::prelude::*;
use vstd::slice::{slice_subrange, slice_to_vec};
use crate::error::{ErrorKind, SpyError};

verus! {

/// A handle to a running process, as `read_process_memory` defines it.
#[verifier::external_type_specification]
#[verifier::external_body]
pub struct ExProcessHandle(read_process_memory::ProcessHandle);

/// The error type of the standard library's I/O.
#[verifier::external_type_specification]
#[verifier::external_body]
pub struct ExIoError(std::io::Error);

/// The most bytes that one read asks for.
pub const MAX_READ: usize = 0x10_0000;

/// Calls `read_process_memory::copy_address`: on success the bytes returned are as
/// many as were asked for. Which bytes they are, and whether the call succeeds,
/// depends on the target at the moment of the call.
#[verifier::external_body]
fn copy_remote(handle: &read_process_memory::ProcessHandle, addr: usize, len: usize) -> (r: Result<
    Vec<u8>,
    std::io::Error,
>)
    requires
        len <= MAX_READ,
    ensures
        r matches Ok(bytes) ==> bytes@.len() == len,
{
    read_process_memory::copy_address(addr, len, handle)
}

/// Calls `ProcessHandle::try_from` on a process identifier. Nothing is promised of
/// the outcome.
#[verifier::external_body]
fn open_handle(pid: u32) -> (r: Result<read_process_memory::ProcessHandle, std::io::Error>) {
    read_process_memory::ProcessHandle::try_from(pid as read_process_memory::Pid)
}

/// Calls `std::io::Error::raw_os_error`.
#[verifier::external_body]
fn io_error_code(e: &std::io::Error) -> (code: Option<i32>) {
    e.raw_os_error()
}

/// Calls `std::io::Error::kind` and tells whether the kind is `PermissionDenied`.
#[verifier::external_body]
fn io_error_is_permission_denied(e: &std::io::Error) -> (denied: bool) {
    e.kind() == std::io::ErrorKind::PermissionDenied
}

/// Renders a `std::io::Error` with its `Display` implementation.
#[verifier::external_body]
fn io_error_message(e: &std::io::Error) -> (message: String) {
    format!("{}", e)
}

/// Turns an I/O error into an error of the engine: its kind follows from the raw
/// code and the permission flag of the I/O error, which becomes the only cause.
pub fn error_of_io(e: &std::io::Error) -> (err: SpyError)
    ensures
        err.spec_os_failure(),
{
    SpyError::from_os(io_error_message(e), io_error_code(e), io_error_is_permission_denied(e))
}

/// Whether an error is one that a read gives: the operating system's failure, with
/// its raw code and its permission flag in the only cause, or a bad address that
/// the engine found by itself, with no cause.
pub open spec fn spec_read_error(e: SpyError) -> bool {
    e.spec_os_failure() || (e.kind == ErrorKind::BadAddress && e.causes@.len() == 0)
}

/// A stretch of the target's memory.
#[derive(Clone, Debug)]
pub struct Region {
    /// The remote address of the first byte.
    pub base: u64,
    pub bytes: Vec<u8>,
}

impl Region {
    /// The region holds `len` bytes from `addr` on.
    pub open spec fn covers(&self, addr: u64, len: nat) -> bool {
        self.base <= addr && (addr - self.base) + len <= self.bytes@.len()
    }

    /// The `len` bytes from `addr` on.
    pub open spec fn slice(&self, addr: u64, len: nat) -> Seq<u8> {
        self.bytes@.subrange(addr - self.base, addr - self.base + len)
    }
}

/// An image of the target's memory: regions with their bytes.
#[derive(Clone, Debug)]
pub struct MemoryImage {
    pub regions: Vec<Region>,
}

/// The bytes that the first region which holds them all gives for a read.
pub open spec fn spec_find(regions: Seq<Region>, addr: u64, len: nat) -> Option<Seq<u8>>
    decreases regions.len(),
{
    if regions.len() == 0 {
        None
    } else if regions[0].covers(addr, len) {
        Some(regions[0].slice(addr, len))
    } else {
        spec_find(regions.skip(1), addr, len)
    }
}

impl MemoryImage {
    /// What a read of `len` bytes at `addr` gives: nothing for more than `MAX_READ`
    /// bytes, no bytes for a read of none, and else the bytes of the first region
    /// that holds the whole range.
    pub open spec fn spec_read(&self, addr: u64, len: nat) -> Option<Seq<u8>> {
        if len > MAX_READ {
            None
        } else if len == 0 {
            Some(Seq::empty())
        } else {
            spec_find(self.regions@, addr, len)
        }
    }

    /// Reads `len` bytes at `addr`.
    pub fn read(&self, addr: u64, len: usize) -> (r: Option<Vec<u8>>)
        ensures
            match r {
                Some(bytes) => self.spec_read(addr, len as nat) == Some(bytes@),
                None => self.spec_read(addr, len as nat).is_none(),
            },
    {
        if len > MAX_READ {
            return None;
        }
        if len == 0 {
            return Some(Vec::new());
        }
        let mut i: usize = 0;
        assert(self.regions@.skip(0) == self.regions@);
        while i < self.regions.len()
            invariant
                i <= self.regions@.len(),
                0 < len <= MAX_READ,
                spec_find(self.regions@, addr, len as nat) == spec_find(
                    self.regions@.skip(i as int),
                    addr,
                    len as nat,
                ),
            decreases self.regions@.len() - i,
        {
            let region = &self.regions[i];
            let ghost rest = self.regions@.skip(i as int);
            assert(rest.skip(1) == self.regions@.skip(i + 1));
            let size: usize = region.bytes.len();
            if addr >= region.base && addr - region.base <= size as u64 && len as u64 <= size as u64
                - (addr - region.base) {
                let start: usize = (addr - region.base) as usize;
                let part = slice_subrange(region.bytes.as_slice(), start, start + len);
                let found = slice_to_vec(part);
                return Some(found);
            }
            i += 1;
        }
        None
    }
}

/// Where the target's memory is read from.
pub enum MemorySource {
    /// A live process. Two reads of the same address may differ.
    Process(read_process_memory::ProcessHandle),
    /// An image taken earlier. Every read is a function of the image.
    Image(MemoryImage),
}

impl MemorySource {
    /// The image behind the source, where it is one.
    pub open spec fn spec_image(&self) -> Option<MemoryImage> {
        match self {
            MemorySource::Process(_) => None,
            MemorySource::Image(img) => Some(*img),
        }
    }

    /// Makes a source from the outcome of opening a process: the handle that was
    /// granted becomes a live source; a refusal becomes an error of the engine
    /// whose only cause is the operating system's failure.
    pub fn from_opened(opened: Result<read_process_memory::ProcessHandle, std::io::Error>) -> (r:
        Result<MemorySource, SpyError>)
        ensures
            match opened {
                Ok(handle) => r == Ok::<MemorySource, SpyError>(MemorySource::Process(handle)),
                Err(_) => r matches Err(e) && e.spec_os_failure(),
            },
    {
        match opened {
            Ok(handle) => Ok(MemorySource::Process(handle)),
            Err(e) => Err(error_of_io(&e)),
        }
    }

    /// Opens a live process by its identifier. Whether the operating system grants
    /// the handle is its own matter: what is granted is a live source, never an
    /// image, and a refusal is reported as the operating system's failure, with
    /// its raw code and its permission flag in the only cause.
    pub fn open(pid: u32) -> (r: Result<MemorySource, SpyError>)
        ensures
            r matches Ok(source) ==> source matches MemorySource::Process(_) && source.spec_image().is_none(),
            r matches Err(e) ==> e.spec_os_failure(),
    {
        MemorySource::from_opened(open_handle(pid))
    }

    /// Reads `len` bytes at the remote address `addr`. On success the bytes are as
    /// many as were asked for. From an image, the outcome is that of the image's
    /// `spec_read`, and a failure is a bad address without a cause. From a live
    /// process, a read of no bytes succeeds, a read of more than `MAX_READ` bytes
    /// or at an address beyond the host's range fails with a bad address without
    /// a cause, and every other outcome is the operating system's: a failure then
    /// carries the system's raw code and permission flag in its only cause, so
    /// the engine refuses a read of a live process by itself in those two cases
    /// only.
    pub fn read(&self, addr: u64, len: usize) -> (r: Result<Vec<u8>, SpyError>)
        ensures
            r matches Ok(bytes) ==> bytes@.len() == len,
            r matches Err(e) ==> spec_read_error(e),
            len == 0 ==> r.is_ok(),
            len > MAX_READ ==> (r matches Err(e) && e.kind == ErrorKind::BadAddress && e.causes@.len()
                == 0),
            (len > 0 && addr > usize::MAX && self.spec_image().is_none()) ==> (r matches Err(e)
                && e.kind == ErrorKind::BadAddress && e.causes@.len() == 0),
            (self.spec_image().is_none() && 0 < len <= MAX_READ && addr <= usize::MAX) ==> (r matches Err(
                e,
            ) ==> e.spec_os_failure()),
            self.spec_image() matches Some(img) ==> match img.spec_read(addr, len as nat) {
                Some(bytes) => r matches Ok(b) && b@ == bytes,
                None => r matches Err(e) && e.kind == ErrorKind::BadAddress && e.causes@.len() == 0,
            },
    {
        match self {
            MemorySource::Image(img) => {
                match img.read(addr, len) {
                    Some(bytes) => {
                        proof {
                            lemma_read_len(*img, addr, len as nat);
                        }
                        Ok(bytes)
                    },
                    None => Err(SpyError::new(ErrorKind::BadAddress)),
                }
            },
            MemorySource::Process(handle) => {
                if len == 0 {
                    Ok(Vec::new())
                } else if len > MAX_READ || addr > usize::MAX as u64 {
                    Err(SpyError::new(ErrorKind::BadAddress))
                } else {
                    match copy_remote(handle, addr as usize, len) {
                        Ok(bytes) => Ok(bytes),
                        Err(e) => Err(error_of_io(&e)),
                    }
                }
            },
        }
    }
}

/// A read from an image gives as many bytes as were asked for.
pub proof fn lemma_read_len(img: MemoryImage, addr: u64, len: nat)
    ensures
        img.spec_read(addr, len) matches Some(bytes) ==> bytes.len() == len,
{
    lemma_find_len(img.regions@, addr, len);
}

/// A region found for a read gives as many bytes as were asked for.
pub proof fn lemma_find_len(regions: Seq<Region>, addr: u64, len: nat)
    ensures
        spec_find(regions, addr, len) matches Some(bytes) ==> bytes.len() == len,
    decreases regions.len(),
{
    if regions.len() > 0 && !regions[0].covers(addr, len) {
        lemma_find_len(regions.skip(1), addr, len);
    }
}

} // verus!
