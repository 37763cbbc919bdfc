//! Error kinds, cause chains, and the tests that callers run on a failed sample.

use vstd::prelude::*;

verus! {

/// The kinds of failure the engine reports.
#[derive(Clone, Copy, Debug, PartialEq, Eq, Structural)]
pub enum ErrorKind {
    /// The target exited, a mapping disappeared, or the handle was invalidated.
    ProcessGone,
    /// The operating system refused access to the target.
    PermissionDenied,
    /// The address lies in no mapped region, or the read ran past the end of one.
    BadAddress,
    /// The interpreter binary could not be read.
    UnreadableBinary,
    /// The binary is in none of the executable formats understood.
    UnsupportedFormat,
    /// No layout table matches the interpreter's version.
    UnsupportedVersion,
    /// No module of the target is recognisable as the interpreter.
    InterpreterNotFound,
    /// Candidates for the thread list exist but none validates yet.
    RuntimeUninitialized,
    /// Remote bytes do not form the structure that was expected.
    LayoutValidationFailed,
    /// The operating system returned a short or interrupted read.
    TransientRead,
    /// The command line names what cannot be a process.
    InvalidArgument,
}

/// Operating-system codes that mean the target process no longer exists.
pub open spec fn is_exit_code(code: int) -> bool {
    code == 3 || code == 60 || code == 299
}

/// Operating-system codes that mean the address cannot be read.
pub open spec fn is_bad_address_code(code: int) -> bool {
    code == 5 || code == 14
}

/// One link of a cause chain, as plain values.
#[derive(Clone, Debug)]
pub struct Cause {
    /// What went wrong, for the reporter.
    pub message: String,
    /// The raw operating-system error code, where the cause is an I/O error that has one.
    pub os_code: Option<i32>,
    /// Whether the cause is an I/O error of the permission-denied kind.
    pub permission_denied: bool,
}

impl Cause {
    /// Whether this cause says that the target process is gone.
    pub open spec fn says_exited(&self) -> bool {
        self.os_code matches Some(code) && is_exit_code(code as int)
    }
}

/// A failure with its chain of causes, outermost first.
#[derive(Clone, Debug)]
pub struct SpyError {
    pub kind: ErrorKind,
    pub causes: Vec<Cause>,
}

/// The kind of failure that an operating-system error stands for.
pub open spec fn spec_kind_of_os_error(os_code: Option<i32>, permission_denied: bool) -> ErrorKind {
    if permission_denied {
        ErrorKind::PermissionDenied
    } else {
        match os_code {
            Some(code) => if is_exit_code(code as int) {
                ErrorKind::ProcessGone
            } else if is_bad_address_code(code as int) {
                ErrorKind::BadAddress
            } else {
                ErrorKind::TransientRead
            },
            None => ErrorKind::TransientRead,
        }
    }
}

/// Classifies an operating-system error by its raw code and its permission flag.
pub fn kind_of_os_error(os_code: Option<i32>, permission_denied: bool) -> (kind: ErrorKind)
    ensures
        kind == spec_kind_of_os_error(os_code, permission_denied),
{
    if permission_denied {
        return ErrorKind::PermissionDenied;
    }
    match os_code {
        Some(code) => {
            if code == 3 || code == 60 || code == 299 {
                ErrorKind::ProcessGone
            } else if code == 5 || code == 14 {
                ErrorKind::BadAddress
            } else {
                ErrorKind::TransientRead
            }
        },
        None => ErrorKind::TransientRead,
    }
}

impl SpyError {
    /// An error of the given kind with an empty cause chain.
    pub fn new(kind: ErrorKind) -> (e: SpyError)
        ensures
            e.kind == kind,
            e.causes@.len() == 0,
    {
        SpyError { kind, causes: Vec::new() }
    }

    /// An error whose single cause is an operating-system error.
    pub fn from_os(message: String, os_code: Option<i32>, permission_denied: bool) -> (e: SpyError)
        ensures
            e.kind == spec_kind_of_os_error(os_code, permission_denied),
            e.causes@.len() == 1,
            e.causes@[0].message == message,
            e.causes@[0].os_code == os_code,
            e.causes@[0].permission_denied == permission_denied,
    {
        let kind = kind_of_os_error(os_code, permission_denied);
        let mut causes: Vec<Cause> = Vec::new();
        causes.push(Cause { message, os_code, permission_denied });
        SpyError { kind, causes }
    }

    /// Puts a higher-level kind and message in front of the chain.
    pub fn context(self, kind: ErrorKind, message: String) -> (e: SpyError)
        ensures
            e.kind == kind,
            e.causes@.len() == self.causes@.len() + 1,
            e.causes@[0].message == message,
            e.causes@[0].os_code.is_none(),
            !e.causes@[0].permission_denied,
            forall|i: int| 0 <= i < self.causes@.len() ==> e.causes@[i + 1] == self.causes@[i],
    {
        let mut causes: Vec<Cause> = Vec::new();
        causes.push(Cause { message, os_code: None, permission_denied: false });
        let mut rest = self.causes;
        causes.append(&mut rest);
        SpyError { kind, causes }
    }

    /// Whether the error stands for one failure of the operating system: that
    /// failure is its only cause, and its kind is the one that the raw code and the
    /// permission flag of the cause classify as.
    pub open spec fn spec_os_failure(&self) -> bool {
        &&& self.causes@.len() == 1
        &&& self.kind == spec_kind_of_os_error(
            self.causes@[0].os_code,
            self.causes@[0].permission_denied,
        )
    }

    /// Whether some cause in the chain says that the target process is gone.
    pub open spec fn spec_process_exitted(&self) -> bool {
        exists|i: int| 0 <= i < self.causes@.len() && (#[trigger] self.causes@[i]).says_exited()
    }

    /// Whether some cause in the chain is a permission-denied I/O error.
    pub open spec fn spec_permission_denied(&self) -> bool {
        exists|i: int| 0 <= i < self.causes@.len() && (#[trigger] self.causes@[i]).permission_denied
    }
}

/// Tells whether an error came about because the target process exited: some cause
/// in its chain carries one of the operating-system codes 3, 60 or 299.
pub fn process_exitted(err: &SpyError) -> (gone: bool)
    ensures
        gone == err.spec_process_exitted(),
{
    let mut i: usize = 0;
    while i < err.causes.len()
        invariant
            i <= err.causes@.len(),
            forall|j: int| 0 <= j < i ==> !(#[trigger] err.causes@[j]).says_exited(),
        decreases err.causes@.len() - i,
    {
        match err.causes[i].os_code {
            Some(code) => {
                if code == 3 || code == 60 || code == 299 {
                    return true;
                }
            },
            None => {},
        }
        i += 1;
    }
    false
}

/// Tells whether an error came about because access was refused: some cause in its
/// chain is a permission-denied I/O error.
pub fn permission_denied(err: &SpyError) -> (denied: bool)
    ensures
        denied == err.spec_permission_denied(),
{
    let mut i: usize = 0;
    while i < err.causes.len()
        invariant
            i <= err.causes@.len(),
            forall|j: int| 0 <= j < i ==> !(#[trigger] err.causes@[j]).permission_denied,
        decreases err.causes@.len() - i,
    {
        if err.causes[i].permission_denied {
            return true;
        }
        i += 1;
    }
    false
}

/// An error that stands for one failure of the operating system and is of the
/// process-gone kind is found by the exit test; one of the permission-denied kind
/// is found by the permission test.
pub proof fn lemma_os_failure_is_found(e: SpyError)
    requires
        e.spec_os_failure(),
    ensures
        e.kind == ErrorKind::ProcessGone ==> e.spec_process_exitted() && !e.spec_permission_denied(),
        e.kind == ErrorKind::PermissionDenied <==> e.spec_permission_denied(),
{
    if e.causes@[0].says_exited() {
        assert(e.spec_process_exitted());
    }
    if e.causes@[0].permission_denied {
        assert(e.spec_permission_denied());
    }
}

/// An error built from one operating-system error is of the process-gone kind exactly
/// when the exit test finds it and access was not refused, and of the
/// permission-denied kind exactly when the permission test finds it.
pub proof fn lemma_os_error_tests_agree_with_kind(e: SpyError, os_code: Option<i32>, permission_denied: bool)
    requires
        e.kind == spec_kind_of_os_error(os_code, permission_denied),
        e.causes@.len() == 1,
        e.causes@[0].os_code == os_code,
        e.causes@[0].permission_denied == permission_denied,
    ensures
        e.kind == ErrorKind::PermissionDenied <==> e.spec_permission_denied(),
        e.kind == ErrorKind::ProcessGone <==> (e.spec_process_exitted() && !permission_denied),
{
}

} // verus!
