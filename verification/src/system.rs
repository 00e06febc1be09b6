//! Error and option-name types shared with the socket layer.

use vstd::prelude::*;
use crate::cbpf::SocketFilterProgram;
use crate::consts::{SOL_SOCKET, SO_ATTACH_BPF, SO_ATTACH_FILTER};
use crate::ebpf::SocketFilterFd;

verus! {

/// An error number reported by, or on behalf of, the operating system.
#[derive(Debug, PartialEq, Eq, Copy, Clone, Structural)]
pub struct SystemError(pub i32);

/// Option level argument of `setsockopt`.
#[derive(Debug, PartialEq, Eq, Copy, Clone, Structural)]
pub enum Level {
    /// The socket layer itself.
    Socket,
}

impl Level {
    pub open spec fn spec_code(self) -> i32 {
        SOL_SOCKET
    }

    /// The number the system knows this level by.
    pub fn code(self) -> (code: i32)
        ensures
            code == self.spec_code(),
    {
        SOL_SOCKET
    }
}

/// Option name argument of `setsockopt`.
#[derive(Debug, PartialEq, Eq, Copy, Clone, Structural)]
pub enum Name {
    /// Attach a classic filter program.
    AttachFilter,
    /// Attach a loaded extended program by its descriptor.
    AttachBpf,
}

impl Name {
    pub open spec fn spec_code(self) -> i32 {
        match self {
            Name::AttachFilter => SO_ATTACH_FILTER,
            Name::AttachBpf => SO_ATTACH_BPF,
        }
    }

    /// The number the system knows this option by.
    pub fn code(self) -> (code: i32)
        ensures
            code == self.spec_code(),
    {
        match self {
            Name::AttachFilter => SO_ATTACH_FILTER,
            Name::AttachBpf => SO_ATTACH_BPF,
        }
    }
}

/// A value that `setsockopt` takes: under which level and which name it is passed.
pub trait SocketOption: Sized {
    spec fn spec_level() -> Level;

    spec fn spec_name() -> Name;

    /// The level argument for this kind of option.
    fn level() -> (r: Level)
        ensures
            r == Self::spec_level(),
    ;

    /// The name argument for this kind of option.
    fn name() -> (r: Name)
        ensures
            r == Self::spec_name(),
    ;
}

impl SocketOption for SocketFilterProgram {
    open spec fn spec_level() -> Level {
        Level::Socket
    }

    open spec fn spec_name() -> Name {
        Name::AttachFilter
    }

    fn level() -> (r: Level) {
        Level::Socket
    }

    fn name() -> (r: Name) {
        Name::AttachFilter
    }
}

impl SocketOption for SocketFilterFd {
    open spec fn spec_level() -> Level {
        Level::Socket
    }

    open spec fn spec_name() -> Name {
        Name::AttachBpf
    }

    fn level() -> (r: Level) {
        Level::Socket
    }

    fn name() -> (r: Name) {
        Name::AttachBpf
    }
}

/// Return values of system calls that signal failure by `-1`.
pub trait IsMinusOne: Sized {
    spec fn spec_is_minus_one(&self) -> bool;

    fn is_minus_one(&self) -> (b: bool)
        ensures
            b == self.spec_is_minus_one(),
    ;
}

impl IsMinusOne for i8 {
    open spec fn spec_is_minus_one(&self) -> bool {
        *self == -1
    }

    fn is_minus_one(&self) -> (b: bool) {
        *self == -1
    }
}

impl IsMinusOne for i16 {
    open spec fn spec_is_minus_one(&self) -> bool {
        *self == -1
    }

    fn is_minus_one(&self) -> (b: bool) {
        *self == -1
    }
}

impl IsMinusOne for i32 {
    open spec fn spec_is_minus_one(&self) -> bool {
        *self == -1
    }

    fn is_minus_one(&self) -> (b: bool) {
        *self == -1
    }
}

impl IsMinusOne for i64 {
    open spec fn spec_is_minus_one(&self) -> bool {
        *self == -1
    }

    fn is_minus_one(&self) -> (b: bool) {
        *self == -1
    }
}

impl IsMinusOne for isize {
    open spec fn spec_is_minus_one(&self) -> bool {
        *self == -1
    }

    fn is_minus_one(&self) -> (b: bool) {
        *self == -1
    }
}

/// Turns the return value `t` of a system call into a `Result`: `-1` becomes the error
/// number `errno` that the caller read right after the call, anything else is passed on.
pub fn cvt<T: IsMinusOne>(t: T, errno: i32) -> (r: Result<T, SystemError>)
    ensures
        t.spec_is_minus_one() ==> r == Err::<T, SystemError>(SystemError(errno)),
        !t.spec_is_minus_one() ==> r == Ok::<T, SystemError>(t),
{
    if t.is_minus_one() {
        Err(SystemError(errno))
    } else {
        Ok(t)
    }
}

} // verus!
