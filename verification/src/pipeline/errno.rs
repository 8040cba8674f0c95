//! From a dedupe error to a policy. Three groups must never be confused:
//! temporary errors are retried with backoff, errors of one pair leave both
//! files intact and end that pair, and errors of a whole volume park its
//! domain instead of being retried file by file.

pub mod ma;

use vstd::prelude::*;

use crate::dedupe::DedupeError;
use crate::model::{Errno, SkipReason};

use self::ma::{
    EACCES, EAGAIN, EBADF, EBUSY, EINTR, EINVAL, EIO, EISDIR, ENOENT, ENOMEM, ENOSPC, ENOTTY,
    EOPNOTSUPP, EPERM, EROFS, ESTALE, ETXTBSY, EXDEV,
};

verus! {

/// What to do after a dedupe error.
#[derive(Clone, Copy, Debug, PartialEq, Eq, Structural)]
pub enum ChinhSach {
    /// Retry at once, not counted as a failure (`EINTR`).
    ThuLaiNgay,
    /// Backoff by `attempts`.
    Backoff,
    /// Backoff and alert: a configuration problem a person must fix.
    BackoffVaCanhBao,
    /// The whole volume lacks support: park the domain until probed again.
    ParkDomain,
    /// This pair cannot be deduplicated but both files are intact.
    CapKhongDuoc(SkipReason),
    /// The file was written during the work: back to `settling`, counted.
    FingerprintDoi,
    /// Stopped (shutdown or pause): rescheduled, not counted, no event.
    Dung,
    /// A programming or kernel error: `failed` and an alert.
    ThatBai,
}

impl ChinhSach {
    /// Whether the error is worth an event in the ledger.
    pub fn ghi_event(self) -> (r: bool)
        ensures
            r == !(self == ChinhSach::Dung || self == ChinhSach::ThuLaiNgay),
    {
        match self {
            ChinhSach::Dung | ChinhSach::ThuLaiNgay => false,
            _ => true,
        }
    }

    /// Whether `attempts` grows.
    pub fn tang_attempts(self) -> (r: bool)
        ensures
            r == (self == ChinhSach::Backoff || self == ChinhSach::BackoffVaCanhBao || self
                == ChinhSach::FingerprintDoi),
    {
        match self {
            ChinhSach::Backoff | ChinhSach::BackoffVaCanhBao | ChinhSach::FingerprintDoi => true,
            _ => false,
        }
    }
}

/// The policy of an error number.
pub open spec fn errno_policy(n: i32) -> ChinhSach {
    if n == EINTR {
        ChinhSach::ThuLaiNgay
    } else if n == EOPNOTSUPP || n == ENOTTY {
        ChinhSach::ParkDomain
    } else if n == EXDEV || n == EINVAL || n == EROFS || n == ETXTBSY {
        ChinhSach::CapKhongDuoc(SkipReason::Unsupported)
    } else if n == EPERM || n == EACCES {
        ChinhSach::BackoffVaCanhBao
    } else if n == ENOSPC || n == EAGAIN || n == EBUSY || n == ENOMEM || n == EIO {
        ChinhSach::Backoff
    } else if n == ENOENT || n == ESTALE {
        ChinhSach::CapKhongDuoc(SkipReason::Unsupported)
    } else if n == EBADF || n == EISDIR {
        ChinhSach::ThatBai
    } else {
        ChinhSach::Backoff
    }
}

/// The policy of a dedupe error.
pub open spec fn policy_of(e: DedupeError) -> ChinhSach {
    match e {
        DedupeError::Stopped => ChinhSach::Dung,
        DedupeError::FingerprintChanged => ChinhSach::FingerprintDoi,
        DedupeError::Busy => ChinhSach::Backoff,
        DedupeError::NoProgress => ChinhSach::ThatBai,
        DedupeError::Errno(Errno(n)) => errno_policy(n),
        DedupeError::Io(_) => ChinhSach::Backoff,
        DedupeError::Repo(_) => ChinhSach::Backoff,
    }
}

/// Looks the error up in the table.
pub fn chinh_sach(e: &DedupeError) -> (r: ChinhSach)
    ensures
        r == policy_of(*e),
{
    match e {
        DedupeError::Stopped => ChinhSach::Dung,
        DedupeError::FingerprintChanged => ChinhSach::FingerprintDoi,
        DedupeError::Busy => ChinhSach::Backoff,
        DedupeError::NoProgress => ChinhSach::ThatBai,
        DedupeError::Errno(Errno(n)) => tu_errno(*n),
        DedupeError::Io(_) => ChinhSach::Backoff,
        DedupeError::Repo(_) => ChinhSach::Backoff,
    }
}

pub fn tu_errno(n: i32) -> (r: ChinhSach)
    ensures
        r == errno_policy(n),
{
    if n == EINTR {
        ChinhSach::ThuLaiNgay
    } else if n == EOPNOTSUPP || n == ENOTTY {
        ChinhSach::ParkDomain
    } else if n == EXDEV || n == EINVAL || n == EROFS || n == ETXTBSY {
        ChinhSach::CapKhongDuoc(SkipReason::Unsupported)
    } else if n == EPERM || n == EACCES {
        ChinhSach::BackoffVaCanhBao
    } else if n == ENOSPC || n == EAGAIN || n == EBUSY || n == ENOMEM || n == EIO {
        ChinhSach::Backoff
    } else if n == ENOENT || n == ESTALE {
        ChinhSach::CapKhongDuoc(SkipReason::Unsupported)
    } else if n == EBADF || n == EISDIR {
        ChinhSach::ThatBai
    } else {
        ChinhSach::Backoff
    }
}

/// A stop is never counted against the file nor written to the ledger, and
/// an unknown error number is retried rather than dropping the file.
pub proof fn lemma_stop_is_free_and_unknown_retries(n: i32)
    ensures
        !policy_of(DedupeError::Stopped).tang_attempts_spec(),
        !policy_of(DedupeError::Stopped).ghi_event_spec(),
        (n != EINTR && n != EOPNOTSUPP && n != ENOTTY && n != EXDEV && n != EINVAL && n != EROFS
            && n != ETXTBSY && n != EPERM && n != EACCES && n != ENOENT && n != ESTALE && n != EBADF
            && n != EISDIR) ==> errno_policy(n) == ChinhSach::Backoff,
{
}

impl ChinhSach {
    pub open spec fn tang_attempts_spec(self) -> bool {
        self == ChinhSach::Backoff || self == ChinhSach::BackoffVaCanhBao || self
            == ChinhSach::FingerprintDoi
    }

    pub open spec fn ghi_event_spec(self) -> bool {
        !(self == ChinhSach::Dung || self == ChinhSach::ThuLaiNgay)
    }
}

/// The three groups of backend errors, by their Linux numbers: only
/// `EOPNOTSUPP` (95) and `ENOTTY` (25) park the whole domain; the errors of
/// one pair (`EXDEV` 18, `EINVAL` 22, `EROFS` 30, `ETXTBSY` 26, and a file
/// gone midway, `ENOENT` 2, `ESTALE` 116) give up that pair and leave the
/// files intact; `EPERM` 1 and `EACCES` 13 back off with an alert; `EBADF` 9
/// and `EISDIR` 21 fail the row; `EINTR` 4 retries at once; every other
/// number backs off.
pub proof fn lemma_errno_groups(n: i32)
    ensures
        policy_of(DedupeError::Errno(Errno(n))) == ChinhSach::ParkDomain <==> (n == 95 || n == 25),
        policy_of(DedupeError::Errno(Errno(n))) == ChinhSach::CapKhongDuoc(SkipReason::Unsupported) <==> (n == 18 || n == 22 || n
            == 30 || n == 26 || n == 2 || n == 116),
        (policy_of(DedupeError::Errno(Errno(n))) is CapKhongDuoc) ==> policy_of(DedupeError::Errno(Errno(n)))
            == ChinhSach::CapKhongDuoc(SkipReason::Unsupported),
        policy_of(DedupeError::Errno(Errno(n))) == ChinhSach::BackoffVaCanhBao <==> (n == 1 || n == 13),
        policy_of(DedupeError::Errno(Errno(n))) == ChinhSach::ThatBai <==> (n == 9 || n == 21),
        policy_of(DedupeError::Errno(Errno(n))) == ChinhSach::ThuLaiNgay <==> n == 4,
        policy_of(DedupeError::Errno(Errno(n))) == ChinhSach::Backoff <==> !(n == 95 || n == 25 || n == 18 || n == 22 || n == 30
            || n == 26 || n == 2 || n == 116 || n == 1 || n == 13 || n == 9 || n == 21 || n == 4),
        !(policy_of(DedupeError::Errno(Errno(n))) is FingerprintDoi),
        !(policy_of(DedupeError::Errno(Errno(n))) is Dung),
{
}

/// The errors that are not numbers: a stop is rescheduled, a fingerprint
/// change sends the file back to settle, a busy lease, an I/O or a storage
/// error back off, and a backend that made no progress fails the row.
pub proof fn lemma_other_errors(e: DedupeError)
    ensures
        e is Stopped <==> policy_of(e) == ChinhSach::Dung,
        e is FingerprintChanged <==> policy_of(e) == ChinhSach::FingerprintDoi,
        (e is Busy || e is Io || e is Repo) ==> policy_of(e) == ChinhSach::Backoff,
        e is NoProgress ==> policy_of(e) == ChinhSach::ThatBai,
{
}

} // verus!
