//! The numbers of the system calls that this kernel serves.

use crate::errno::SysError;
use vstd::prelude::*;

verus! {

pub const SYS_IOCTL: usize = 29;

pub const SYS_OPENAT: usize = 56;

pub const SYS_CLOSE: usize = 57;

pub const SYS_READ: usize = 63;

pub const SYS_WRITE: usize = 64;

pub const SYS_WRITEV: usize = 66;

pub const SYS_EXIT: usize = 93;

pub const SYS_EXIT_GROUP: usize = 94;

pub const SYS_SET_TID_ADDRESS: usize = 96;

pub const SYS_MMAP: usize = 222;

/// The directory descriptor that stands for the current working directory.
pub const AT_FDCWD: i32 = -100;

/// A system call that the kernel serves.
#[derive(Clone, Copy, Debug, PartialEq, Eq, Structural)]
pub enum Syscall {
    Ioctl,
    OpenAt,
    Close,
    Read,
    Write,
    Writev,
    Exit,
    ExitGroup,
    SetTidAddress,
    Mmap,
}

impl Syscall {
    /// The number under which user space asks for the call.
    pub open spec fn number(self) -> usize {
        match self {
            Syscall::Ioctl => SYS_IOCTL,
            Syscall::OpenAt => SYS_OPENAT,
            Syscall::Close => SYS_CLOSE,
            Syscall::Read => SYS_READ,
            Syscall::Write => SYS_WRITE,
            Syscall::Writev => SYS_WRITEV,
            Syscall::Exit => SYS_EXIT,
            Syscall::ExitGroup => SYS_EXIT_GROUP,
            Syscall::SetTidAddress => SYS_SET_TID_ADDRESS,
            Syscall::Mmap => SYS_MMAP,
        }
    }

    /// The call with the number `num`, if the kernel serves one.
    pub fn from_number(num: usize) -> (call: Option<Syscall>)
        ensures
            match call {
                Some(c) => c.number() == num,
                None => forall|c: Syscall| c.number() != num,
            },
    {
        match num {
            SYS_IOCTL => Some(Syscall::Ioctl),
            SYS_OPENAT => Some(Syscall::OpenAt),
            SYS_CLOSE => Some(Syscall::Close),
            SYS_READ => Some(Syscall::Read),
            SYS_WRITE => Some(Syscall::Write),
            SYS_WRITEV => Some(Syscall::Writev),
            SYS_EXIT => Some(Syscall::Exit),
            SYS_EXIT_GROUP => Some(Syscall::ExitGroup),
            SYS_SET_TID_ADDRESS => Some(Syscall::SetTidAddress),
            SYS_MMAP => Some(Syscall::Mmap),
            _ => None,
        }
    }
}

/// Decides what a trap with the system call number `num` asks for. A
/// number that names no call is refused with `NoSuchCall`, which reaches
/// user space as `-ENOSYS`.
pub fn dispatch(num: usize) -> (call: Result<Syscall, SysError>)
    ensures
        match call {
            Ok(c) => c.number() == num,
            Err(e) => e == SysError::NoSuchCall && forall|c: Syscall| c.number() != num,
        },
{
    match Syscall::from_number(num) {
        Some(c) => Ok(c),
        None => Err(SysError::NoSuchCall),
    }
}

} // verus!
