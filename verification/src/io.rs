//! File-oriented operation constructors: open options, the `File`
//! handle, and one constructor per file opcode.
//!
//! Read and write without an offset are submitted with [`NO_OFFSET`]
//! (the kernel sign-extends it to -1 and uses the file's current
//! position); the positional variants demand a non-negative offset.

use crate::ops::{nul_terminate, OpCore};
use crate::sqe::{
    Op, AT_FDCWD, NO_OFFSET, O_APPEND, O_CREAT, O_RDONLY, O_RDWR, O_TRUNC, O_WRONLY,
};
use crate::executor::{TaskFuture, TaskPoll};
use crate::reactor::Reactor;
use crate::task::TaskRef;
use vstd::prelude::*;

verus! {

/// The open flags an [`OpenOptions`] value stands for.
pub open spec fn flags_of(o: OpenOptions) -> i32 {
    (if o.append { O_APPEND } else { 0 }) | (if o.truncate { O_TRUNC } else { 0 }) | (if o.create {
        O_CREAT
    } else {
        0
    }) | (if o.read && !o.write { O_RDONLY } else { 0 }) | (if !o.read && o.write {
        O_WRONLY
    } else {
        0
    }) | (if o.read && o.write { O_RDWR } else { 0 }) | o.custom_flags
}

/// Which mode a file is opened in: read, write, append, truncate,
/// create, extra flags, and the creation mode bits.
#[derive(Clone, Copy, Debug, PartialEq, Eq, Structural)]
pub struct OpenOptions {
    pub read: bool,
    pub write: bool,
    pub append: bool,
    pub truncate: bool,
    pub create: bool,
    pub custom_flags: i32,
    pub mode: u32,
}

impl OpenOptions {
    /// No access requested yet; files are created with mode `0o666`.
    pub fn new() -> (r: Self)
        ensures
            r == (OpenOptions {
                read: false,
                write: false,
                append: false,
                truncate: false,
                create: false,
                custom_flags: 0,
                mode: 438,
            }),
    {
        Self {
            read: false,
            write: false,
            append: false,
            truncate: false,
            create: false,
            custom_flags: 0,
            mode: 438,
        }
    }

    pub fn read(&mut self, read: bool) -> (r: &mut Self)
        ensures
            *r == (OpenOptions { read, ..*old(self) }),
            *final(self) == *final(r),
    {
        self.read = read;
        self
    }

    pub fn write(&mut self, write: bool) -> (r: &mut Self)
        ensures
            *r == (OpenOptions { write, ..*old(self) }),
            *final(self) == *final(r),
    {
        self.write = write;
        self
    }

    pub fn append(&mut self, append: bool) -> (r: &mut Self)
        ensures
            *r == (OpenOptions { append, ..*old(self) }),
            *final(self) == *final(r),
    {
        self.append = append;
        self
    }

    pub fn truncate(&mut self, truncate: bool) -> (r: &mut Self)
        ensures
            *r == (OpenOptions { truncate, ..*old(self) }),
            *final(self) == *final(r),
    {
        self.truncate = truncate;
        self
    }

    pub fn create(&mut self, create: bool) -> (r: &mut Self)
        ensures
            *r == (OpenOptions { create, ..*old(self) }),
            *final(self) == *final(r),
    {
        self.create = create;
        self
    }

    pub fn mode(&mut self, mode: u32) -> (r: &mut Self)
        ensures
            *r == (OpenOptions { mode, ..*old(self) }),
            *final(self) == *final(r),
    {
        self.mode = mode;
        self
    }

    pub fn flags(&mut self, flags: i32) -> (r: &mut Self)
        ensures
            *r == (OpenOptions { custom_flags: flags, ..*old(self) }),
            *final(self) == *final(r),
    {
        self.custom_flags = flags;
        self
    }

    /// The open flags these options stand for, as `openat` takes them.
    pub fn open_flags(&self) -> (f: i32)
        ensures
            f == flags_of(*self),
    {
        let mut flags: i32 = 0;
        if self.append {
            flags = flags | O_APPEND;
        }
        if self.truncate {
            flags = flags | O_TRUNC;
        }
        if self.create {
            flags = flags | O_CREAT;
        }
        if self.read && !self.write {
            flags = flags | O_RDONLY;
        }
        if !self.read && self.write {
            flags = flags | O_WRONLY;
        }
        if self.read && self.write {
            flags = flags | O_RDWR;
        }
        flags = flags | self.custom_flags;
        proof {
            assert(forall|x: i32| #[trigger] (0i32 | x) == x) by (bit_vector);
            assert(forall|x: i32| #[trigger] (x | 0i32) == x) by (bit_vector);
        }
        flags
    }

    /// An open operation carrying these options; `None` exactly when the
    /// path holds an embedded zero byte.
    pub fn open(&self, pathname: &Vec<u8>, path_addr: u64) -> (r: Option<OpenMeta>)
        ensures
            r is None <==> pathname@.contains(0u8),
            r matches Some(m) ==> {
                &&& m.path@ == pathname@.push(0u8)
                &&& m.op.state == crate::ops::OpState::Fresh
                &&& m.op.req.sentry == (Op::OpenAt {
                    dirfd: AT_FDCWD,
                    path_addr,
                    flags: flags_of(*self),
                    mode: self.mode,
                })
                &&& m.op.req.waker is None
            },
    {
        let flags = self.open_flags();
        open(pathname, path_addr, flags, self.mode)
    }
}

impl Default for OpenOptions {
    fn default() -> (r: Self)
        ensures
            r == (OpenOptions {
                read: false,
                write: false,
                append: false,
                truncate: false,
                create: false,
                custom_flags: 0,
                mode: 438,
            }),
    {
        Self::new()
    }
}

/// An open file descriptor whose operations are submitted through the
/// reactor.
#[derive(Clone, Copy, Debug, PartialEq, Eq, Structural)]
pub struct File {
    pub fd: i32,
}

impl File {
    /// Wrap the descriptor an open operation completed with.
    pub fn from_fd(fd: i32) -> (r: Self)
        ensures
            r.fd == fd,
    {
        Self { fd }
    }

    /// An open for reading, with default options.
    pub fn open(pathname: &Vec<u8>, path_addr: u64) -> (r: Option<OpenMeta>)
        ensures
            r is None <==> pathname@.contains(0u8),
            r matches Some(m) ==> m.op.req.sentry == (Op::OpenAt {
                dirfd: AT_FDCWD,
                path_addr,
                flags: 0,
                mode: 438,
            }),
    {
        let o = OpenOptions::new();
        let r = o.open(pathname, path_addr);
        proof {
            assert(forall|x: i32| #[trigger] (0i32 | x) == x) by (bit_vector);
            assert(forall|x: i32| #[trigger] (x | 0i32) == x) by (bit_vector);
        }
        r
    }

    /// An open that creates the file for writing.
    pub fn create(pathname: &Vec<u8>, path_addr: u64) -> (r: Option<OpenMeta>)
        ensures
            r is None <==> pathname@.contains(0u8),
            r matches Some(m) ==> m.op.req.sentry == (Op::OpenAt {
                dirfd: AT_FDCWD,
                path_addr,
                flags: O_CREAT | O_WRONLY,
                mode: 438,
            }),
    {
        let mut o = OpenOptions::new();
        o.create(true);
        o.write(true);
        let r = o.open(pathname, path_addr);
        proof {
            assert(forall|x: i32| #[trigger] (0i32 | x) == x) by (bit_vector);
            assert(forall|x: i32| #[trigger] (x | 0i32) == x) by (bit_vector);
        }
        r
    }

    pub fn options() -> (r: OpenOptions)
        ensures
            r == (OpenOptions {
                read: false,
                write: false,
                append: false,
                truncate: false,
                create: false,
                custom_flags: 0,
                mode: 438,
            }),
    {
        OpenOptions::new()
    }

    pub fn as_raw_fd(&self) -> (r: i32)
        ensures
            r == self.fd,
    {
        self.fd
    }

    /// Flush data and metadata to stable storage.
    pub fn sync_all(&self) -> (r: FsyncMeta)
        ensures
            r.op.req.sentry == (Op::Fsync { fd: self.fd, datasync: false }),
            r.op.state == crate::ops::OpState::Fresh,
    {
        fsync(self.fd)
    }

    /// Flush file data to stable storage.
    pub fn sync_data(&self) -> (r: FDatasyncMeta)
        ensures
            r.op.req.sentry == (Op::Fsync { fd: self.fd, datasync: true }),
            r.op.state == crate::ops::OpState::Fresh,
    {
        fdatasync(self.fd)
    }

    pub fn fallocate(&self, offset: u64, len: u64, mode: i32) -> (r: FallocateMeta)
        ensures
            r.op.req.sentry == (Op::Fallocate { fd: self.fd, offset, len, mode }),
            r.op.state == crate::ops::OpState::Fresh,
    {
        fallocate(self.fd, offset, len, mode)
    }

    /// Read at the current position into the caller's buffer.
    pub fn read(&self, buf_addr: u64, buf_len: u32) -> (r: ReadMeta)
        ensures
            r.op.req.sentry == (Op::Read {
                fd: self.fd,
                addr: buf_addr,
                len: buf_len,
                offset: NO_OFFSET,
            }),
            r.op.state == crate::ops::OpState::Fresh,
    {
        read(self.fd, buf_addr, buf_len)
    }

    /// Read at the given position into the caller's buffer.
    pub fn read_at(&self, buf_addr: u64, buf_len: u32, offset: i64) -> (r: ReadMeta)
        requires
            offset >= 0,
        ensures
            r.op.req.sentry == (Op::Read {
                fd: self.fd,
                addr: buf_addr,
                len: buf_len,
                offset: offset as u64,
            }),
            r.op.state == crate::ops::OpState::Fresh,
    {
        read_at(self.fd, buf_addr, buf_len, offset)
    }

    /// Write at the current position from the caller's buffer.
    pub fn write(&self, buf_addr: u64, buf_len: u32) -> (r: WriteMeta)
        ensures
            r.op.req.sentry == (Op::Write {
                fd: self.fd,
                addr: buf_addr,
                len: buf_len,
                offset: NO_OFFSET,
            }),
            r.op.state == crate::ops::OpState::Fresh,
    {
        write(self.fd, buf_addr, buf_len)
    }

    /// Write at the given position from the caller's buffer.
    pub fn write_at(&self, buf_addr: u64, buf_len: u32, offset: i64) -> (r: WriteMeta)
        requires
            offset >= 0,
        ensures
            r.op.req.sentry == (Op::Write {
                fd: self.fd,
                addr: buf_addr,
                len: buf_len,
                offset: offset as u64,
            }),
            r.op.state == crate::ops::OpState::Fresh,
    {
        write_at(self.fd, buf_addr, buf_len, offset)
    }

    /// Close the descriptor.
    pub fn close(&self) -> (r: CloseMeta)
        ensures
            r.op.req.sentry == (Op::Close { fd: self.fd }),
            r.op.state == crate::ops::OpState::Fresh,
    {
        close(self.fd)
    }
}

/// A pending read.
pub struct ReadMeta {
    pub op: OpCore,
}

impl TaskFuture for ReadMeta {
    fn poll(&mut self, task: TaskRef, reactor: &mut Reactor) -> (r: TaskPoll) {
        self.op.poll_task(task, reactor)
    }
}

/// A pending write.
pub struct WriteMeta {
    pub op: OpCore,
}

impl TaskFuture for WriteMeta {
    fn poll(&mut self, task: TaskRef, reactor: &mut Reactor) -> (r: TaskPoll) {
        self.op.poll_task(task, reactor)
    }
}

/// A pending open; owns the NUL-terminated path for the submission's
/// lifetime.
pub struct OpenMeta {
    pub op: OpCore,
    pub path: Vec<u8>,
}

impl TaskFuture for OpenMeta {
    fn poll(&mut self, task: TaskRef, reactor: &mut Reactor) -> (r: TaskPoll) {
        self.op.poll_task(task, reactor)
    }
}

/// A pending close.
pub struct CloseMeta {
    pub op: OpCore,
}

impl TaskFuture for CloseMeta {
    fn poll(&mut self, task: TaskRef, reactor: &mut Reactor) -> (r: TaskPoll) {
        self.op.poll_task(task, reactor)
    }
}

/// A pending full fsync.
pub struct FsyncMeta {
    pub op: OpCore,
}

impl TaskFuture for FsyncMeta {
    fn poll(&mut self, task: TaskRef, reactor: &mut Reactor) -> (r: TaskPoll) {
        self.op.poll_task(task, reactor)
    }
}

/// A pending data-only fsync.
pub struct FDatasyncMeta {
    pub op: OpCore,
}

impl TaskFuture for FDatasyncMeta {
    fn poll(&mut self, task: TaskRef, reactor: &mut Reactor) -> (r: TaskPoll) {
        self.op.poll_task(task, reactor)
    }
}

/// A pending fallocate.
pub struct FallocateMeta {
    pub op: OpCore,
}

impl TaskFuture for FallocateMeta {
    fn poll(&mut self, task: TaskRef, reactor: &mut Reactor) -> (r: TaskPoll) {
        self.op.poll_task(task, reactor)
    }
}

/// A read at the file's current position.
pub fn read(fd: i32, buf_addr: u64, buf_len: u32) -> (r: ReadMeta)
    ensures
        r.op.req.sentry == (Op::Read { fd, addr: buf_addr, len: buf_len, offset: NO_OFFSET }),
        r.op.state == crate::ops::OpState::Fresh,
        r.op.req.waker is None,
{
    ReadMeta { op: OpCore::new(Op::Read { fd, addr: buf_addr, len: buf_len, offset: NO_OFFSET }) }
}

/// A read at a fixed non-negative offset.
pub fn read_at(fd: i32, buf_addr: u64, buf_len: u32, offset: i64) -> (r: ReadMeta)
    requires
        offset >= 0,
    ensures
        r.op.req.sentry == (Op::Read { fd, addr: buf_addr, len: buf_len, offset: offset as u64 }),
        r.op.state == crate::ops::OpState::Fresh,
        r.op.req.waker is None,
{
    ReadMeta {
        op: OpCore::new(Op::Read { fd, addr: buf_addr, len: buf_len, offset: offset as u64 }),
    }
}

/// An open with explicit flags and mode; `None` exactly when the path
/// holds an embedded zero byte.
pub fn open(pathname: &Vec<u8>, path_addr: u64, flags: i32, mode: u32) -> (r: Option<OpenMeta>)
    ensures
        r is None <==> pathname@.contains(0u8),
        r matches Some(m) ==> {
            &&& m.path@ == pathname@.push(0u8)
            &&& m.op.state == crate::ops::OpState::Fresh
            &&& m.op.req.sentry == (Op::OpenAt { dirfd: AT_FDCWD, path_addr, flags, mode })
            &&& m.op.req.waker is None
        },
{
    match nul_terminate(pathname) {
        None => None,
        Some(path) => Some(
            OpenMeta {
                op: OpCore::new(Op::OpenAt { dirfd: AT_FDCWD, path_addr, flags, mode }),
                path,
            },
        ),
    }
}

/// A close of the descriptor.
pub fn close(fd: i32) -> (r: CloseMeta)
    ensures
        r.op.req.sentry == (Op::Close { fd }),
        r.op.state == crate::ops::OpState::Fresh,
        r.op.req.waker is None,
{
    CloseMeta { op: OpCore::new(Op::Close { fd }) }
}

/// A write at the file's current position.
pub fn write(fd: i32, buf_addr: u64, buf_len: u32) -> (r: WriteMeta)
    ensures
        r.op.req.sentry == (Op::Write { fd, addr: buf_addr, len: buf_len, offset: NO_OFFSET }),
        r.op.state == crate::ops::OpState::Fresh,
        r.op.req.waker is None,
{
    WriteMeta { op: OpCore::new(Op::Write { fd, addr: buf_addr, len: buf_len, offset: NO_OFFSET }) }
}

/// A write at a fixed non-negative offset.
pub fn write_at(fd: i32, buf_addr: u64, buf_len: u32, offset: i64) -> (r: WriteMeta)
    requires
        offset >= 0,
    ensures
        r.op.req.sentry == (Op::Write { fd, addr: buf_addr, len: buf_len, offset: offset as u64 }),
        r.op.state == crate::ops::OpState::Fresh,
        r.op.req.waker is None,
{
    WriteMeta {
        op: OpCore::new(Op::Write { fd, addr: buf_addr, len: buf_len, offset: offset as u64 }),
    }
}

/// A flush of data and metadata.
pub fn fsync(fd: i32) -> (r: FsyncMeta)
    ensures
        r.op.req.sentry == (Op::Fsync { fd, datasync: false }),
        r.op.state == crate::ops::OpState::Fresh,
        r.op.req.waker is None,
{
    FsyncMeta { op: OpCore::new(Op::Fsync { fd, datasync: false }) }
}

/// A flush of file data only.
pub fn fdatasync(fd: i32) -> (r: FDatasyncMeta)
    ensures
        r.op.req.sentry == (Op::Fsync { fd, datasync: true }),
        r.op.state == crate::ops::OpState::Fresh,
        r.op.req.waker is None,
{
    FDatasyncMeta { op: OpCore::new(Op::Fsync { fd, datasync: true }) }
}

/// A preallocation of `len` bytes at `offset`.
pub fn fallocate(fd: i32, offset: u64, len: u64, mode: i32) -> (r: FallocateMeta)
    ensures
        r.op.req.sentry == (Op::Fallocate { fd, offset, len, mode }),
        r.op.state == crate::ops::OpState::Fresh,
        r.op.req.waker is None,
{
    FallocateMeta { op: OpCore::new(Op::Fallocate { fd, offset, len, mode }) }
}

} // verus!
