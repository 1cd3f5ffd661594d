//! The errors that a system call can report, and the numbers under which
//! they reach user space.

use axerrno::LinuxError;
use vstd::prelude::*;

verus! {

/// The Linux error names under which this kernel reports failure.
#[derive(Clone, Copy, Debug, PartialEq, Eq, Structural)]
pub enum Errno {
    /// I/O error.
    EIO,
    /// Bad file number.
    EBADF,
    /// Out of memory.
    ENOMEM,
    /// Invalid system call number.
    ENOSYS,
}

impl Errno {
    /// The number that `errno.h` gives the name.
    pub open spec fn number(self) -> int {
        match self {
            Errno::EIO => 5,
            Errno::EBADF => 9,
            Errno::ENOMEM => 12,
            Errno::ENOSYS => 38,
        }
    }
}

/// What can go wrong in a system call of this kernel.
#[derive(Clone, Copy, Debug, PartialEq, Eq, Structural)]
pub enum SysError {
    /// The address space has no room for the request, or refused to commit
    /// the mapping.
    NoMemory,
    /// The descriptor names no open file.
    InvalidDescriptor,
    /// Reading the file or writing the mapping failed.
    IoFailure,
    /// The system call number is not known.
    NoSuchCall,
}

impl SysError {
    /// The Linux name of each error.
    pub open spec fn spec_errno(self) -> Errno {
        match self {
            SysError::NoMemory => Errno::ENOMEM,
            SysError::InvalidDescriptor => Errno::EBADF,
            SysError::IoFailure => Errno::EIO,
            SysError::NoSuchCall => Errno::ENOSYS,
        }
    }

    /// The Linux name of the error.
    #[verifier::when_used_as_spec(spec_errno)]
    pub fn errno(self) -> (name: Errno)
        ensures
            name == self.errno(),
    {
        match self {
            SysError::NoMemory => Errno::ENOMEM,
            SysError::InvalidDescriptor => Errno::EBADF,
            SysError::IoFailure => Errno::EIO,
            SysError::NoSuchCall => Errno::ENOSYS,
        }
    }

    /// The Linux error number of the error.
    pub fn code(self) -> (c: i32)
        ensures
            c == self.errno().number(),
    {
        linux_code(self.errno())
    }
}

/// Trusted: calls `LinuxError::code` of `axerrno` on the variant of the
/// same name, which returns the variant's discriminant: the number that
/// `errno.h` gives the name.
#[verifier::external_body]
fn linux_code(name: Errno) -> (c: i32)
    ensures
        c == name.number(),
{
    match name {
        Errno::EIO => LinuxError::EIO.code(),
        Errno::EBADF => LinuxError::EBADF.code(),
        Errno::ENOMEM => LinuxError::ENOMEM.code(),
        Errno::ENOSYS => LinuxError::ENOSYS.code(),
    }
}

/// The value a system call hands back to user space: the result itself on
/// success, the negated error number on failure.
///
/// A result above `isize::MAX` has no non-negative representation and
/// comes out as the negative number with the same bits.
pub open spec fn return_value(res: Result<usize, SysError>) -> int {
    match res {
        Ok(v) => if v <= isize::MAX {
            v as int
        } else {
            v - usize::MAX - 1
        },
        Err(e) => -e.errno().number(),
    }
}

/// Turns the typed result of a system call into its numeric return value.
pub fn syscall_return(res: Result<usize, SysError>) -> (ret: isize)
    ensures
        ret == return_value(res),
{
    match res {
        Ok(v) => {
            if v <= isize::MAX as usize {
                v as isize
            } else {
                let low: usize = v - (isize::MAX as usize) - 1;
                (low as isize) + isize::MIN
            }
        },
        Err(e) => {
            let c: i32 = e.code();
            -(c as isize)
        },
    }
}

} // verus!
