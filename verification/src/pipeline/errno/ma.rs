//! The POSIX error numbers the table uses, written out so that the library
//! builds on every OS.

use vstd::prelude::*;

verus! {

pub const EPERM: i32 = 1;

pub const ENOENT: i32 = 2;

pub const EINTR: i32 = 4;

pub const EIO: i32 = 5;

pub const EBADF: i32 = 9;

pub const EAGAIN: i32 = 11;

pub const ENOMEM: i32 = 12;

pub const EACCES: i32 = 13;

pub const EBUSY: i32 = 16;

pub const EXDEV: i32 = 18;

pub const EISDIR: i32 = 21;

pub const EINVAL: i32 = 22;

pub const ETXTBSY: i32 = 26;

pub const ENOSPC: i32 = 28;

pub const EROFS: i32 = 30;

pub const ESTALE: i32 = 116;

pub const ENOTTY: i32 = 25;

pub const EOPNOTSUPP: i32 = 95;

} // verus!
