//! The engine: it owns the handle to the target, the layout tables of the
//! target's version, the module map and the cached place of the thread list, and
//! hands out snapshots of the stacks of all interpreter threads.

use vstd::prelude::*;
use crate::binary::{
    parse_binary, spec_parsed, spec_symbol_hints, symbol_hints, BinaryInfo, InfoView,
};
use crate::error::{ErrorKind, SpyError};
use crate::layout::{Layout, Version};
use crate::locator::{locate, spec_locate, spec_validate, validate_from, Located};
use crate::maps::{
    process_modules, records_view, spec_interpreter_module, spec_map_of, ModuleMap, RawMapping,
    RecordView,
};
use crate::memory::{spec_read_error, MemoryImage, MemorySource};
use crate::stack_trace::{traces_view, StackTrace, TraceView};
use crate::tables::{layout_for, spec_layout_for, POINTER_WIDTH};
use crate::version::{detect, spec_detect, spec_detected};
use crate::walker::{is_fatal, spec_ends_sample, spec_is_fatal, spec_walk, walk, WalkLimits};

verus! {

/// The first of the candidate versions under whose layout the thread list is
/// located, with what was located.
pub open spec fn spec_attach(
    img: MemoryImage,
    lim: WalkLimits,
    info: InfoView,
    base: u64,
    records: Seq<RecordView>,
    versions: Seq<Version>,
) -> Option<(Version, Located)>
    decreases versions.len(),
{
    if versions.len() == 0 {
        None
    } else {
        let here = match spec_layout_for(versions[0].major, versions[0].minor) {
            None => None,
            Some(l) => spec_locate(img, l, lim, spec_symbol_hints(info, base, l), records),
        };
        match here {
            Some(found) => Some((versions[0], found)),
            None => spec_attach(img, lim, info, base, records, versions.skip(1)),
        }
    }
}

/// The thread list after the cached thread-state was validated again: where it
/// still passes, it and its interpreter-state; else what the locator finds anew.
pub open spec fn spec_relocated(
    img: MemoryImage,
    l: Layout,
    lim: WalkLimits,
    thread: u64,
    hints: Seq<u64>,
    records: Seq<RecordView>,
) -> Option<Located> {
    match spec_validate(img, l, lim, thread) {
        Some(root) => Some(Located { thread, root }),
        None => spec_locate(img, l, lim, hints, records),
    }
}

/// A snapshot of an image: the traces of the thread list as validated or located
/// anew, or the runtime-uninitialized failure where there is no valid thread
/// list.
pub open spec fn spec_sample(
    img: MemoryImage,
    l: Layout,
    lim: WalkLimits,
    thread: u64,
    hints: Seq<u64>,
    records: Seq<RecordView>,
) -> Result<Seq<TraceView>, ErrorKind> {
    match spec_relocated(img, l, lim, thread, hints, records) {
        None => Err(ErrorKind::RuntimeUninitialized),
        Some(found) => spec_walk(img, l, lim, found.root),
    }
}

/// What making an engine on an image comes to: the version and the thread list
/// under which the image validates, or the kind of failure. The module that holds
/// the interpreter's symbols is picked first; the candidate versions are those of
/// its path and of the banner in the loaded images; a binary whose pointers are
/// not as wide as those of the layout tables has no layout and fails as an
/// unsupported version; the thread list is located under the layout of each
/// candidate in turn.
pub open spec fn spec_construct(
    img: MemoryImage,
    lim: WalkLimits,
    info: InfoView,
    records: Seq<RecordView>,
) -> Result<(Version, Located), ErrorKind> {
    match spec_detect(img, records) {
        Err(kind) => Err(kind),
        Ok(versions) => if info.pointer_width != POINTER_WIDTH {
            Err(ErrorKind::UnsupportedVersion)
        } else {
            match spec_attach(
            img,
            lim,
            info,
                records[spec_interpreter_module(records).unwrap()].base,
                records,
                versions,
            ) {
                None => Err(ErrorKind::RuntimeUninitialized),
                Some(found) => Ok(found),
            }
        },
    }
}

/// What attaching to an image comes to: the version of the engine that is kept,
/// or the kind of the failure of making the engine or of its first sample.
pub open spec fn spec_attached(
    img: MemoryImage,
    lim: WalkLimits,
    info: InfoView,
    records: Seq<RecordView>,
) -> Result<Version, ErrorKind> {
    match spec_construct(img, lim, info, records) {
        Err(kind) => Err(kind),
        Ok((version, found)) => {
            let l = spec_layout_for(version.major, version.minor).unwrap();
            let base = records[spec_interpreter_module(records).unwrap()].base;
            match spec_sample(img, l, lim, found.thread, spec_symbol_hints(info, base, l), records) {
                Ok(_) => Ok(version),
                Err(kind) => Err(kind),
            }
        },
    }
}

/// Whether a version is one that detection gives for some outcome of the scan for
/// a banner.
pub open spec fn spec_version_detected(records: Seq<RecordView>, version: Version) -> bool {
    exists|versions: Seq<Version>|
        #[trigger] spec_detected(records, versions) && versions.contains(version)
}

/// Whether the outcome of making an engine is the expected one: the failure of the
/// expected kind, or an engine with the expected version, thread list and hints.
pub open spec fn spec_made(
    r: Result<PythonSpy, SpyError>,
    expected: Result<(Version, Located), ErrorKind>,
    info: InfoView,
    records: Seq<RecordView>,
) -> bool {
    match expected {
        Err(kind) => r matches Err(e) && e.kind == kind,
        Ok((v, found)) => r matches Ok(spy) && spy.version == v && spy.threads_root_address
            == found.root && spy.thread == found.thread && (spec_interpreter_module(
            records,
        ) matches Some(i) && spy.hints@ == spec_symbol_hints(info, records[i].base, spy.layout)),
    }
}

/// The engine handle.
pub struct PythonSpy {
    /// The target's process identifier.
    pub pid: u32,
    /// The interpreter's version.
    pub version: Version,
    /// The layout tables of that version.
    pub layout: Layout,
    /// How far the target's pointers are followed.
    pub limits: WalkLimits,
    /// The handle through which the target's memory is read.
    pub source: MemorySource,
    /// The interpreter-state whose thread list is walked.
    pub threads_root_address: u64,
    /// The thread-state that was validated when the root was found.
    pub thread: u64,
    /// The target's modules, as last listed.
    pub modules: ModuleMap,
    /// The slots that the symbols of the interpreter's binary hint at.
    pub hints: Vec<u64>,
}

impl PythonSpy {
    /// The layout is the table of the engine's version.
    pub open spec fn wf(&self) -> bool {
        &&& self.layout.wf()
        &&& spec_layout_for(self.version.major, self.version.minor) == Some(self.layout)
    }

    /// Makes an engine for a target whose memory, modules and interpreter binary
    /// are at hand. The module that holds the interpreter's symbols is picked,
    /// the version is read off its path and off the banner in its loaded image,
    /// and the thread list is located under the layout of each candidate version
    /// in turn. The failure is of the interpreter-not-found kind where no module
    /// is the interpreter, of the unsupported-version kind where no candidate
    /// version has a layout table or the binary's pointers are not as wide as
    /// those of the tables, and of the runtime-uninitialized kind where no
    /// thread list validates.
    #[verifier::loop_isolation(false)]
    pub fn from_info(
        pid: u32,
        source: MemorySource,
        modules: ModuleMap,
        info: &BinaryInfo,
        limits: WalkLimits,
    ) -> (r: Result<PythonSpy, SpyError>)
        ensures
            r matches Ok(spy) ==> spy.wf() && spy.pid == pid && spy.limits == limits && spy.source
                == source && spy.modules == modules,
            r matches Err(e) ==> spec_ends_sample(e) || (e.causes@.len() == 0 && (e.kind
                == ErrorKind::InterpreterNotFound || e.kind == ErrorKind::UnsupportedVersion
                || e.kind == ErrorKind::RuntimeUninitialized)),
            spec_interpreter_module(records_view(modules.records@)).is_none() <==> (r matches Err(e)
                && e.kind == ErrorKind::InterpreterNotFound),
            (r matches Err(e) && e.kind == ErrorKind::UnsupportedVersion) ==> (info.pointer_width
                != POINTER_WIDTH || spec_detected(records_view(modules.records@), Seq::empty())),
            r matches Ok(spy) ==> info.pointer_width == POINTER_WIDTH && (spec_interpreter_module(
                records_view(modules.records@),
            ) matches Some(i) && spy.hints@ == spec_symbol_hints(
                info@,
                records_view(modules.records@)[i].base,
                spy.layout,
            )) && spec_version_detected(records_view(modules.records@), spy.version),
            source.spec_image() matches Some(img) ==> spec_made(
                r,
                spec_construct(img, limits, info@, records_view(modules.records@)),
                info@,
                records_view(modules.records@),
            ),
    {
        let versions = detect(&source, &modules)?;
        if info.pointer_width != POINTER_WIDTH {
            return Err(SpyError::new(ErrorKind::UnsupportedVersion));
        }
        let index = match modules.interpreter_module() {
            Some(i) => i,
            None => {
                return Err(SpyError::new(ErrorKind::InterpreterNotFound));
            },
        };
        let base = modules.records[index].base;
        let ghost records = records_view(modules.records@);
        let mut k: usize = 0;
        assert(versions@.skip(0) == versions@);
        while k < versions.len()
            invariant
                k <= versions@.len(),
                records == records_view(modules.records@),
                source.spec_image() matches Some(img) ==> spec_attach(
                    img,
                    limits,
                    info@,
                    base,
                    records,
                    versions@,
                ) == spec_attach(img, limits, info@, base, records, versions@.skip(k as int)),
            decreases versions@.len() - k,
        {
            let version = versions[k];
            proof {
                assert(versions@.skip(k as int).skip(1) == versions@.skip(k + 1));
            }
            match layout_for(&version) {
                Some(layout) => {
                    let hints = symbol_hints(info, base, &layout);
                    match locate(&source, &layout, &limits, &hints, &modules) {
                        Ok(found) => {
                            return Ok(
                                PythonSpy {
                                    pid,
                                    version,
                                    layout,
                                    limits,
                                    source,
                                    threads_root_address: found.root,
                                    thread: found.thread,
                                    modules,
                                    hints,
                                },
                            );
                        },
                        Err(e) => {
                            if is_fatal(e.kind) {
                                return Err(e);
                            }
                        },
                    }
                },
                None => {},
            }
            k += 1;
        }
        Err(SpyError::new(ErrorKind::RuntimeUninitialized))
    }

    /// Makes an engine from the bytes of the interpreter's binary: the binary is
    /// parsed, then the engine is made as `from_info` does. A binary that cannot
    /// be parsed fails with the unsupported-format kind.
    pub fn new(pid: u32, source: MemorySource, modules: ModuleMap, binary: &[u8], limits: WalkLimits) -> (r:
        Result<PythonSpy, SpyError>)
        ensures
            r matches Ok(spy) ==> spy.wf() && spy.pid == pid && spy.limits == limits && spy.source
                == source && spy.modules == modules,
            r matches Err(e) ==> spec_ends_sample(e) || (e.causes@.len() == 0 && (e.kind
                == ErrorKind::InterpreterNotFound || e.kind == ErrorKind::UnsupportedVersion
                || e.kind == ErrorKind::RuntimeUninitialized || e.kind
                == ErrorKind::UnsupportedFormat)),
            spec_parsed(binary@).is_none() <==> (r matches Err(e) && e.kind
                == ErrorKind::UnsupportedFormat),
            (spec_parsed(binary@).is_some() && spec_interpreter_module(
                records_view(modules.records@),
            ).is_none()) <==> (r matches Err(e) && e.kind == ErrorKind::InterpreterNotFound),
            (r matches Err(e) && e.kind == ErrorKind::UnsupportedVersion) ==> (spec_parsed(
                binary@,
            ) matches Some(info) && (info.pointer_width != POINTER_WIDTH || spec_detected(
                records_view(modules.records@),
                Seq::empty(),
            ))),
            spec_parsed(binary@) matches Some(info) ==> (source.spec_image() matches Some(img)
                ==> spec_made(
                r,
                spec_construct(img, limits, info, records_view(modules.records@)),
                info,
                records_view(modules.records@),
            )),
    {
        let info = parse_binary(binary)?;
        PythonSpy::from_info(pid, source, modules, &info, limits)
    }

    /// Decides from a first sample whether an engine is kept: it is where the
    /// sample succeeded; where it failed, the engine is given up and the
    /// sample's failure is the outcome.
    pub fn keep_if_sampled(self, sampled: Result<Vec<StackTrace>, SpyError>) -> (r: Result<
        PythonSpy,
        SpyError,
    >)
        ensures
            match sampled {
                Ok(_) => r == Ok::<PythonSpy, SpyError>(self),
                Err(e) => r == Err::<PythonSpy, SpyError>(e),
            },
    {
        match sampled {
            Ok(_) => Ok(self),
            Err(e) => Err(e),
        }
    }

    /// Attaches to a target: an engine is made as `new` does, a first sample is
    /// taken, and the engine is kept only where that sample succeeded. A failure
    /// is that of making the engine or that of the first sample.
    pub fn attach(pid: u32, source: MemorySource, modules: ModuleMap, binary: &[u8], limits: WalkLimits) -> (r:
        Result<PythonSpy, SpyError>)
        ensures
            r matches Ok(spy) ==> spy.wf() && spy.pid == pid && spy.limits == limits && spy.source
                == source,
            r matches Err(e) ==> spec_read_error(e) || (e.causes@.len() == 0 && (e.kind
                == ErrorKind::InterpreterNotFound || e.kind == ErrorKind::UnsupportedVersion
                || e.kind == ErrorKind::RuntimeUninitialized || e.kind
                == ErrorKind::UnsupportedFormat)),
            spec_parsed(binary@).is_none() <==> (r matches Err(e) && e.kind
                == ErrorKind::UnsupportedFormat),
            (spec_parsed(binary@).is_some() && spec_interpreter_module(
                records_view(modules.records@),
            ).is_none()) <==> (r matches Err(e) && e.kind == ErrorKind::InterpreterNotFound),
            (r matches Err(e) && e.kind == ErrorKind::UnsupportedVersion) ==> (spec_parsed(
                binary@,
            ) matches Some(info) && (info.pointer_width != POINTER_WIDTH || spec_detected(
                records_view(modules.records@),
                Seq::empty(),
            ))),
            spec_parsed(binary@) matches Some(info) ==> (source.spec_image() matches Some(img)
                ==> match spec_attached(img, limits, info, records_view(modules.records@)) {
                Ok(version) => r matches Ok(spy) && spy.version == version,
                Err(kind) => r matches Err(e) && e.kind == kind,
            }),
    {
        let mut spy = PythonSpy::new(pid, source, modules, binary, limits)?;
        let sampled = spy.get_stack_traces();
        spy.keep_if_sampled(sampled)
    }

    /// Takes in the outcome of listing the target's modules anew: a map that was
    /// listed replaces the engine's map; after a listing that failed the engine's
    /// map stays as it is. Nothing else of the engine changes.
    pub fn replace_modules(&mut self, listed: Result<ModuleMap, SpyError>)
        ensures
            spec_same_but_modules(*old(self), *final(self)),
            match listed {
                Ok(map) => final(self).modules == map,
                Err(_) => final(self).modules == old(self).modules,
            },
    {
        match listed {
            Ok(map) => {
                self.modules = map;
            },
            Err(_) => {},
        }
    }

    /// Lists the modules of a live target anew and keeps the new map; the map
    /// of an image, and the map of a live target that cannot be listed, stay as
    /// they are.
    pub fn refresh_modules(&mut self)
        ensures
            final(self).pid == old(self).pid,
            final(self).version == old(self).version,
            final(self).layout == old(self).layout,
            final(self).limits == old(self).limits,
            final(self).source == old(self).source,
            final(self).threads_root_address == old(self).threads_root_address,
            final(self).thread == old(self).thread,
            final(self).hints == old(self).hints,
            old(self).source.spec_image().is_some() ==> final(self).modules == old(self).modules,
            old(self).modules.wf() ==> final(self).modules.wf(),
    {
        match &self.source {
            MemorySource::Image(_) => {},
            MemorySource::Process(_) => {
                let listed = process_modules(self.pid);
                self.replace_modules(listed);
            },
        }
    }

    /// Takes a snapshot of the stacks of all interpreter threads from the result of
    /// reading the cached thread-state. Where that read has failed with a kind
    /// that ends the sample, as it does once the target has exited, the sample
    /// fails with the same kind. Else the thread-state is validated; where it no
    /// longer passes, the modules of a live target are listed anew and the thread
    /// list is located anew, and the sample fails with the runtime-uninitialized
    /// kind where there is none. The traces are bounded by the limits, whatever
    /// the target's memory holds; from an image, and with the read that the image
    /// gives, they are those of `spec_sample`.
    pub fn sample_from(&mut self, thread_read: Result<Vec<u8>, SpyError>) -> (r: Result<
        Vec<StackTrace>,
        SpyError,
    >)
        requires
            old(self).wf(),
        ensures
            spec_kept(*old(self), *final(self)),
            spec_bounded(r, old(self).limits),
            spec_place_kept(*old(self), *final(self), r),
            spec_failed_as_given(r, thread_read),

            thread_read matches Err(e) ==> (spec_is_fatal(e.kind) ==> r == Err::<
                Vec<StackTrace>,
                SpyError,
            >(e)),
            old(self).source.spec_image() matches Some(img) ==> (spec_agrees(
                thread_read,
                img.spec_read(old(self).thread, old(self).layout.thread.size as nat),
            ) ==> spec_sampled(img, *old(self), *final(self), r)),
    {
        match validate_from(&self.source, &self.layout, &self.limits, thread_read)? {
            Some(root) => {
                self.threads_root_address = root;
            },
            None => {
                self.refresh_modules();
                let found = locate(&self.source, &self.layout, &self.limits, &self.hints, &self.modules)?;
                self.thread = found.thread;
                self.threads_root_address = found.root;
            },
        }
        walk(&self.source, &self.layout, &self.limits, self.threads_root_address)
    }

    /// Takes a snapshot of the stacks of all interpreter threads: the cached
    /// thread-state is read, and the sample is taken as `sample_from` does. The
    /// traces are bounded by the limits, whatever the target's memory holds; from
    /// an image they are those of `spec_sample`.
    pub fn get_stack_traces(&mut self) -> (r: Result<Vec<StackTrace>, SpyError>)
        requires
            old(self).wf(),
        ensures
            spec_kept(*old(self), *final(self)),
            spec_bounded(r, old(self).limits),
            spec_place_kept(*old(self), *final(self), r),
            spec_failed_as_read(r),
            old(self).source.spec_image() matches Some(img) ==> spec_sampled(
                img,
                *old(self),
                *final(self),
                r,
            ),
    {
        let thread_read = self.source.read(self.thread, self.layout.thread.size);
        self.sample_from(thread_read)
    }
}

/// Whether two engines differ in their module maps at most.
pub open spec fn spec_same_but_modules(before: PythonSpy, after: PythonSpy) -> bool {
    &&& after.pid == before.pid
    &&& after.version == before.version
    &&& after.layout == before.layout
    &&& after.limits == before.limits
    &&& after.source == before.source
    &&& after.threads_root_address == before.threads_root_address
    &&& after.thread == before.thread
    &&& after.hints == before.hints
}

/// What a sample leaves as it was: the engine stays well formed and keeps its
/// target, version, layout, limits and hints; the module map of an image is kept,
/// and a module map that was well formed stays so.
pub open spec fn spec_kept(before: PythonSpy, after: PythonSpy) -> bool {
    &&& after.wf()
    &&& after.pid == before.pid
    &&& after.version == before.version
    &&& after.layout == before.layout
    &&& after.limits == before.limits
    &&& after.source == before.source
    &&& after.hints == before.hints
    &&& before.source.spec_image().is_some() ==> after.modules == before.modules
    &&& before.modules.wf() ==> after.modules.wf()
}

/// Whether a sample that found no thread list left the cached thread-state and
/// interpreter-state as they were.
pub open spec fn spec_place_kept(
    before: PythonSpy,
    after: PythonSpy,
    r: Result<Vec<StackTrace>, SpyError>,
) -> bool {
    (r matches Err(e) && e.kind == ErrorKind::RuntimeUninitialized) ==> after.thread
        == before.thread && after.threads_root_address == before.threads_root_address
}

/// Whether a failed sample hands on a failure as it was given: that of the first
/// read, where it ends the sample; else the operating system's failure of a later
/// read, with the system's raw code and permission flag in its only cause; else
/// one that the engine found by itself, which has no cause.
pub open spec fn spec_failed_as_given(
    r: Result<Vec<StackTrace>, SpyError>,
    thread_read: Result<Vec<u8>, SpyError>,
) -> bool {
    r matches Err(e) ==> ((spec_is_fatal(e.kind) && thread_read == Err::<Vec<u8>, SpyError>(e))
        || spec_read_error(e) || (e.causes@.len() == 0 && e.kind
        == ErrorKind::RuntimeUninitialized))
}

/// Whether a failed sample of the engine is one that the target gave or the engine
/// found: the operating system's failure of a read, with the system's raw code and
/// permission flag in its only cause, or a failure without a cause.
pub open spec fn spec_failed_as_read(r: Result<Vec<StackTrace>, SpyError>) -> bool {
    r matches Err(e) ==> (spec_read_error(e) || (e.causes@.len() == 0 && e.kind
        == ErrorKind::RuntimeUninitialized))
}

/// The traces of a sample are no more than the limit of threads, each with no
/// more frames than the limit of depth.
pub open spec fn spec_bounded(r: Result<Vec<StackTrace>, SpyError>, lim: WalkLimits) -> bool {
    r matches Ok(traces) ==> traces@.len() <= lim.max_threads && forall|i: int|
        0 <= i < traces@.len() ==> (#[trigger] traces@[i]).frames@.len() <= lim.max_depth
}

/// Whether the result of a read is what an image gives for it: the same bytes, or
/// a local failure where the image gives none.
pub open spec fn spec_agrees(read: Result<Vec<u8>, SpyError>, expected: Option<Seq<u8>>) -> bool {
    match expected {
        Some(bytes) => read matches Ok(b) && b@ == bytes,
        None => read matches Err(e) && !spec_is_fatal(e.kind),
    }
}

/// Whether a sample of an image came out as `spec_sample` says, and left behind
/// the thread-state and the interpreter-state that `spec_relocated` names, or
/// those it had where no thread list is found.
pub open spec fn spec_sampled(
    img: MemoryImage,
    before: PythonSpy,
    after: PythonSpy,
    r: Result<Vec<StackTrace>, SpyError>,
) -> bool {
    let records = records_view(before.modules.records@);
    &&& match spec_relocated(
        img,
        before.layout,
        before.limits,
        before.thread,
        before.hints@,
        records,
    ) {
        Some(found) => after.thread == found.thread && after.threads_root_address == found.root,
        None => after.thread == before.thread && after.threads_root_address
            == before.threads_root_address,
    }
    &&& match spec_sample(img, before.layout, before.limits, before.thread, before.hints@, records) {
        Ok(expected) => r matches Ok(traces) && traces_view(traces@) == expected,
        Err(kind) => r matches Err(e) && e.kind == kind,
    }
}

/// Opens a running process and lists its modules. What comes back on success is
/// a live source, never an image, and a module map built from what the operating
/// system listed, sorted and without shared addresses. Where the operating system
/// refuses the handle or the listing, its failure is reported, with its raw code
/// and its permission flag in the only cause.
pub fn open_target(pid: u32) -> (r: Result<(MemorySource, ModuleMap), SpyError>)
    ensures
        r matches Ok(target) ==> target.0 matches MemorySource::Process(_)
            && target.0.spec_image().is_none() && target.1.wf() && exists|raw: Seq<RawMapping>|
            records_view(target.1.records@) == #[trigger] spec_map_of(raw),
        r matches Err(e) ==> e.spec_os_failure(),
{
    let source = MemorySource::open(pid)?;
    let modules = process_modules(pid)?;
    Ok((source, modules))
}

/// How often and how patiently attaching is tried.
#[derive(Clone, Copy, Debug, PartialEq, Eq, Structural)]
pub struct RetryPolicy {
    /// The number of attempts after which the last failure is final.
    pub max_attempts: u64,
    /// The pause between two attempts, in milliseconds.
    pub pause_ms: u64,
}

/// What to do after a failed attempt to attach.
#[derive(Clone, Copy, Debug, PartialEq, Eq, Structural)]
pub enum RetryAction {
    /// Pause for so many milliseconds, then try again.
    Retry { pause_ms: u64 },
    /// Give up and report the failure.
    GiveUp,
}

/// The kinds of failure that no further attempt can mend.
pub open spec fn spec_is_final(kind: ErrorKind) -> bool {
    kind == ErrorKind::PermissionDenied || kind == ErrorKind::UnsupportedVersion || kind
        == ErrorKind::InterpreterNotFound
}

impl RetryPolicy {
    /// Three attempts, twenty milliseconds apart.
    pub fn standard() -> (p: RetryPolicy)
        ensures
            p == (RetryPolicy { max_attempts: 3, pause_ms: 20 }),
    {
        RetryPolicy { max_attempts: 3, pause_ms: 20 }
    }

    /// What to do after the attempt number `attempts_made` has failed: give up
    /// where the failure is final in kind or the attempts are used up, else try
    /// again after the pause.
    pub open spec fn spec_decide(self, attempts_made: u64, kind: ErrorKind) -> RetryAction {
        if spec_is_final(kind) || attempts_made >= self.max_attempts {
            RetryAction::GiveUp
        } else {
            RetryAction::Retry { pause_ms: self.pause_ms }
        }
    }

    /// Decides what to do after a failed attempt to attach.
    pub fn decide(&self, attempts_made: u64, kind: ErrorKind) -> (action: RetryAction)
        ensures
            action == self.spec_decide(attempts_made, kind),
    {
        let last = match kind {
            ErrorKind::PermissionDenied => true,
            ErrorKind::UnsupportedVersion => true,
            ErrorKind::InterpreterNotFound => true,
            _ => false,
        };
        if last || attempts_made >= self.max_attempts {
            RetryAction::GiveUp
        } else {
            RetryAction::Retry { pause_ms: self.pause_ms }
        }
    }
}

/// Idempotent sampling. A sample leaves behind the thread-state it validated or
/// located. On an image that does not change, the next sample validates that
/// thread-state, ends at the same interpreter-state, and so returns the same
/// traces or the same failure.
pub proof fn lemma_sampling_idempotent(
    img: MemoryImage,
    l: Layout,
    lim: WalkLimits,
    thread: u64,
    hints: Seq<u64>,
    records: Seq<RecordView>,
)
    ensures
        match spec_relocated(img, l, lim, thread, hints, records) {
            Some(found) => spec_relocated(img, l, lim, found.thread, hints, records) == Some(found)
                && spec_sample(img, l, lim, found.thread, hints, records) == spec_sample(
                img,
                l,
                lim,
                thread,
                hints,
                records,
            ),
            None => spec_sample(img, l, lim, thread, hints, records) == Err::<
                Seq<TraceView>,
                ErrorKind,
            >(ErrorKind::RuntimeUninitialized),
        },
{
    crate::locator::lemma_located_is_valid(img, l, lim, hints, records);
}

/// Whether the tests that go by the cause chain find an error by its kind: an
/// error of the process-gone kind passes the exit test, and an error is of the
/// permission-denied kind exactly when it passes the permission test.
pub open spec fn spec_found_by_tests(e: SpyError) -> bool {
    &&& e.kind == ErrorKind::ProcessGone ==> e.spec_process_exitted()
    &&& e.kind == ErrorKind::PermissionDenied <==> e.spec_permission_denied()
}

/// Every failure that the engine hands out is found by the tests that go by the
/// cause chain. Such a failure is the operating system's failure of a read, with
/// the system's raw code and permission flag in its only cause, or one that the
/// engine found by itself, which has no cause and is of neither kind. So a sample
/// or an attach that fails because the target is gone is counted as an exit by
/// the sampling loops, and one that fails because access was refused ends them
/// and is reported with the permission hint.
pub proof fn lemma_engine_failures_are_found(e: SpyError)
    requires
        spec_read_error(e) || (e.causes@.len() == 0 && e.kind != ErrorKind::ProcessGone && e.kind
            != ErrorKind::PermissionDenied),
    ensures
        spec_found_by_tests(e),
        e.kind == ErrorKind::PermissionDenied ==> crate::sampler::spec_outcome(
            Err::<Vec<StackTrace>, SpyError>(e),
        ) == crate::sampler::Outcome::Refused && crate::cli::spec_failure_report(e) =~= seq![
            crate::cli::spec_permission_hint(),
        ],
        e.kind == ErrorKind::ProcessGone ==> crate::sampler::spec_outcome(
            Err::<Vec<StackTrace>, SpyError>(e),
        ) == crate::sampler::Outcome::Exited,
{
    if e.spec_os_failure() {
        crate::error::lemma_os_failure_is_found(e);
    }
}

/// A failed sample is found by the tests that go by the cause chain.
pub proof fn lemma_failed_sample_is_found(r: Result<Vec<StackTrace>, SpyError>)
    requires
        spec_failed_as_read(r),
    ensures
        r matches Err(e) ==> spec_found_by_tests(e),
{
    if let Err(e) = r {
        lemma_engine_failures_are_found(e);
    }
}

} // verus!
