//! Kernel HLE: the guest kernel's services re-implemented on host primitives.
pub mod equeue;
pub mod filesystem;
pub mod memory_syscalls;
pub mod threading;
pub mod time;

use vstd::prelude::*;

verus! {

/// Guest kernel error codes: negative 32-bit values of the form 0x8002XXXX.
#[derive(Clone, Copy, Debug, PartialEq, Eq, Structural)]
pub struct OrbisError(pub i32);

/// The codes, as raw values.
impl OrbisError {
    pub const OK: i32 = 0;
    /// 0x80020001
    pub const EPERM: i32 = -0x7FFD_FFFFi32;
    /// 0x80020002
    pub const ENOENT: i32 = -0x7FFD_FFFEi32;
    /// 0x80020003
    pub const ESRCH: i32 = -0x7FFD_FFFDi32;
    /// 0x80020004
    pub const EINTR: i32 = -0x7FFD_FFFCi32;
    /// 0x80020009
    pub const EBADF: i32 = -0x7FFD_FFF7i32;
    /// 0x8002000B
    pub const EDEADLK: i32 = -0x7FFD_FFF5i32;
    /// 0x8002000C
    pub const ENOMEM: i32 = -0x7FFD_FFF4i32;
    /// 0x8002000D
    pub const EACCES: i32 = -0x7FFD_FFF3i32;
    /// 0x80020010
    pub const EBUSY: i32 = -0x7FFD_FFF0i32;
    /// 0x80020016
    pub const EINVAL: i32 = -0x7FFD_FFEAi32;
    /// 0x8002003C
    pub const ETIMEDOUT: i32 = -0x7FFD_FFC4i32;
    /// 0x8002004E
    pub const ENOSYS: i32 = -0x7FFD_FFB2i32;
}

impl From<OrbisError> for i32 {
    fn from(e: OrbisError) -> (r: i32) {
        e.0
    }
}

impl vstd::std_specs::convert::FromSpecImpl<OrbisError> for i32 {
    open spec fn obeys_from_spec() -> bool {
        true
    }

    open spec fn from_spec(e: OrbisError) -> i32 {
        e.0
    }
}

/// POSIX error codes (positive, used by some calls).
#[derive(Clone, Copy, Debug, PartialEq, Eq, Structural)]
pub struct PosixError(pub i32);

/// The codes, as raw values.
impl PosixError {
    pub const OK: i32 = 0;
    pub const EPERM: i32 = 1;
    pub const ENOENT: i32 = 2;
    pub const ESRCH: i32 = 3;
    pub const EINTR: i32 = 4;
    pub const EBADF: i32 = 9;
    pub const ENOMEM: i32 = 12;
    pub const EACCES: i32 = 13;
    pub const EBUSY: i32 = 16;
    pub const EINVAL: i32 = 22;
    pub const ETIMEDOUT: i32 = 60;
    pub const ENOSYS: i32 = 78;
}

} // verus!
