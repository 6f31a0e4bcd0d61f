//! Kernel-facing descriptors: submission entries, completion entries, and
//! the Linux ABI constants the runtime depends on.
//!
//! A [`Sqe`] is the runtime's own, fully concrete image of one submission
//! queue entry: the operation payload plus the `user_data` word that the
//! kernel returns verbatim on the completion side. The embedding program
//! translates each [`Sqe`] into the ring's native entry format; nothing in
//! the translation may look at or change the fields. `user_data == 0` is
//! reserved for the reactor's own timeout markers.

use vstd::prelude::*;

verus! {

/// Open the file for reading only.
pub const O_RDONLY: i32 = 0;
/// Open the file for writing only.
pub const O_WRONLY: i32 = 1;
/// Open the file for reading and writing.
pub const O_RDWR: i32 = 2;
/// Create the file if it does not exist.
pub const O_CREAT: i32 = 64;
/// Truncate the file to length zero on open.
pub const O_TRUNC: i32 = 512;
/// All writes append to the end of the file.
pub const O_APPEND: i32 = 1024;

/// `openat` resolves relative paths against the current working directory.
pub const AT_FDCWD: i32 = -100;

/// IPv4 socket domain.
pub const AF_INET: i32 = 2;
/// Stream (TCP) socket type.
pub const SOCK_STREAM: i32 = 1;
/// Close-on-exec flag, or-ed into the socket type.
pub const SOCK_CLOEXEC: i32 = 524288;
/// Socket-level option namespace for `setsockopt`.
pub const SOL_SOCKET: i32 = 1;
/// Allow reuse of local addresses.
pub const SO_REUSEADDR: i32 = 2;
/// Largest backlog value the kernel accepts for `listen`.
pub const SOMAXCONN: i32 = 4096;

/// Kernel errno for "timer expired"; a timeout completion carries `-ETIME`.
pub const ETIME: i32 = 62;

/// Kernel errno for "interrupted system call": retry the wait.
pub const EINTR: i32 = 4;

/// Kernel errno for "try again": reap completions, then retry.
pub const EAGAIN: i32 = 11;

/// Kernel errno for "device or resource busy": reap completions, then
/// retry.
pub const EBUSY: i32 = 16;

/// Offset value meaning "use the file's current position". The kernel
/// sign-extends it to the signed 64-bit value -1.
pub const NO_OFFSET: u64 = 18446744073709551615;

/// The operation payload of one submission entry, one variant per opcode
/// the runtime submits. Buffer and path addresses are opaque 64-bit data:
/// the runtime never dereferences them, it only carries them to the kernel.
#[derive(Clone, Copy, Debug, PartialEq, Eq, Structural)]
pub enum Op {
    /// No operation; completes immediately with result 0. Used for yielding.
    Nop,
    /// Read `len` bytes into the buffer at `addr` from `fd` at `offset`
    /// (`NO_OFFSET` for the current position).
    Read { fd: i32, addr: u64, len: u32, offset: u64 },
    /// Write `len` bytes from the buffer at `addr` to `fd` at `offset`
    /// (`NO_OFFSET` for the current position).
    Write { fd: i32, addr: u64, len: u32, offset: u64 },
    /// Open the NUL-terminated path at `path_addr`, resolved against
    /// `dirfd`, with the given flags and creation mode.
    OpenAt { dirfd: i32, path_addr: u64, flags: i32, mode: u32 },
    /// Close the file descriptor.
    Close { fd: i32 },
    /// Flush file data and metadata; with `datasync` only the data.
    Fsync { fd: i32, datasync: bool },
    /// Preallocate `len` bytes at `offset` according to `mode`.
    Fallocate { fd: i32, offset: u64, len: u64, mode: i32 },
    /// Create a socket of the given domain, type and protocol.
    Socket { domain: i32, socket_type: i32, protocol: i32 },
    /// Accept one connection on the listening descriptor.
    Accept { fd: i32 },
    /// Send `len` bytes from the buffer at `addr` on the connected socket.
    Send { fd: i32, addr: u64, len: u32 },
    /// Receive up to `len` bytes into the buffer at `addr`.
    Recv { fd: i32, addr: u64, len: u32 },
    /// Absolute timeout at `sec`/`nsec` on the monotonic clock; completes
    /// with `-ETIME` when the deadline passes.
    Timeout { sec: u64, nsec: u32 },
}

/// One submission queue entry: the operation and the `user_data` word the
/// kernel hands back unchanged in the matching completion.
#[derive(Clone, Copy, Debug, PartialEq, Eq, Structural)]
pub struct Sqe {
    pub op: Op,
    pub user_data: u64,
}

/// One completion queue entry as the kernel posts it: the `user_data` of
/// the originating submission and the operation's result (negative values
/// are negated OS error codes).
#[derive(Clone, Copy, Debug, PartialEq, Eq, Structural)]
pub struct Cqe {
    pub user_data: u64,
    pub result: i32,
}

} // verus!
