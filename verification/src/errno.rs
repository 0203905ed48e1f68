//! Error numbers of system calls.
use vstd::prelude::*;

verus! {

/// The errors that operations report.
#[derive(Clone, Copy, PartialEq, Eq, Structural, Debug)]
pub enum SysErrNo {
    EPERM,
    ENOENT,
    EIO,
    ENXIO,
    E2BIG,
    EBADF,
    EAGAIN,
    ENOMEM,
    EACCES,
    ENOTBLK,
    EBUSY,
    EEXIST,
    EXDEV,
    ENODEV,
    ENOTDIR,
    EISDIR,
    EINVAL,
    EMFILE,
    EFBIG,
    ENOSPC,
    ESPIPE,
    EROFS,
    EMLINK,
    EPIPE,
    ERANGE,
    ENOTEMPTY,
    ELOOP,
    ENODATA,
    EOPNOTSUPP,
    ENOTCONN,
}

} // verus!
