//! The runtime's errors, and the texts they are shown with.
use crate::text::concat_text;
use vstd::prelude::*;
use vstd::std_specs::convert::FromSpecImpl;

verus! {

/// An I/O error of the host, carried through without being read.
#[verifier::external_type_specification]
#[verifier::external_body]
pub struct ExIoError(std::io::Error);

/// The error number of a failed system call, as `nix` reports it.
#[verifier::external_type_specification]
#[verifier::external_body]
pub struct ExErrno(nix::errno::Errno);

/// Every way in which running a sandbox can fail.
#[derive(Debug)]
pub enum JarError {
    InvalidArgs(String),
    Validation(String),
    Execution(String),
    Io(std::io::Error),
    Syscall(nix::errno::Errno),
}

/// What the library reads of a failed I/O operation: whether the host
/// refused it for want of permission, and the error's text.
#[derive(Debug)]
pub struct IoFailure {
    pub permission_denied: bool,
    pub message: String,
}

/// The text of an I/O error.
///
/// Calls `<std::io::Error as Display>::fmt`. Nothing is stated of the text:
/// it comes from the operating system's description of the error.
#[verifier::external_body]
fn io_error_text(e: &std::io::Error) -> (r: String) {
    format!("{}", e)
}

/// How `nix` writes the system call error with number `code`: the error's
/// name, `": "` and its fixed description.
pub uninterp spec fn errno_display_text(code: i32) -> Seq<char>;

/// The number of a system call's error.
///
/// Reads `*e as i32` of a `nix::errno::Errno`; nothing is stated of it.
#[verifier::external_body]
pub(crate) fn errno_code(e: &nix::errno::Errno) -> (r: i32) {
    *e as i32
}

/// The text of the system call error with number `code`.
///
/// Calls `<nix::errno::Errno as Display>::fmt` on `Errno::from_raw(code)`,
/// which writes the error's name and its description from a fixed table; the
/// text depends on `code` alone and is named, not spelled out.
#[verifier::external_body]
pub(crate) fn errno_text(code: i32) -> (r: String)
    ensures
        r@ == errno_display_text(code),
{
    format!("{}", nix::errno::Errno::from_raw(code))
}

impl JarError {
    /// The text the error is shown with.
    pub fn message(&self) -> (r: String)
        ensures
            self matches JarError::InvalidArgs(m) ==> r@ == "Argument error: "@ + m@,
            self matches JarError::Validation(m) ==> r@ == "Validation error: "@ + m@,
            self matches JarError::Execution(m) ==> r@ == "Execution error: "@ + m@,
            self is Io ==> exists|t: Seq<char>| r@ == "IO error: "@ + t,
            self is Syscall ==> exists|c: i32| r@ == "Syscall error: "@ + errno_display_text(c),
    {
        match self {
            JarError::InvalidArgs(m) => concat_text("Argument error: ", m.as_str()),
            JarError::Validation(m) => concat_text("Validation error: ", m.as_str()),
            JarError::Execution(m) => concat_text("Execution error: ", m.as_str()),
            JarError::Io(e) => {
                let t = io_error_text(e);
                concat_text("IO error: ", t.as_str())
            },
            JarError::Syscall(e) => {
                let t = errno_text(errno_code(e));
                concat_text("Syscall error: ", t.as_str())
            },
        }
    }
}

impl From<std::io::Error> for JarError {
    fn from(err: std::io::Error) -> (r: Self) {
        JarError::Io(err)
    }
}

impl FromSpecImpl<std::io::Error> for JarError {
    open spec fn obeys_from_spec() -> bool {
        true
    }

    open spec fn from_spec(v: std::io::Error) -> Self {
        JarError::Io(v)
    }
}

impl From<nix::errno::Errno> for JarError {
    fn from(err: nix::errno::Errno) -> (r: Self) {
        JarError::Syscall(err)
    }
}

impl FromSpecImpl<nix::errno::Errno> for JarError {
    open spec fn obeys_from_spec() -> bool {
        true
    }

    open spec fn from_spec(v: nix::errno::Errno) -> Self {
        JarError::Syscall(v)
    }
}

} // verus!
