//! End-to-end scenarios against a simulated kernel: the test plays the
//! embedding program's role, moving staged submissions out of the
//! reactor, acting on them against in-memory files, buffers and
//! sockets, and feeding the completion entries back.

use std::cell::RefCell;
use std::collections::HashMap;
use std::rc::Rc;

use reika::executor::{Executor, TaskFuture, TaskPoll};
use reika::io::{close, read_at, write_at, File, OpenMeta, ReadMeta, CloseMeta, WriteMeta};
use reika::net::{sockaddr_in_bytes, SockAddrV4, TcpListner, TcpStream};
use reika::ops::OpPoll;
use reika::reactor::Reactor;
use reika::sqe::{Cqe, Op, Sqe, ETIME, NO_OFFSET, O_CREAT, SOMAXCONN};
use reika::task::{TaskPool, TaskRef};

/// An in-memory stand-in for the kernel side of the ring: files are
/// keyed by path, buffers by the opaque address handles the tests chose,
/// and one TCP connection is simulated end to end.
struct FakeKernel {
    bufs: HashMap<u64, Vec<u8>>,
    files: HashMap<Vec<u8>, Vec<u8>>,
    open_files: HashMap<i32, (Vec<u8>, usize)>,
    next_fd: i32,
    log: Vec<&'static str>,
    conn_in: Vec<u8>,
    conn_in_pos: usize,
    conn_out: Vec<u8>,
}

impl FakeKernel {
    fn new() -> Self {
        Self {
            bufs: HashMap::new(),
            files: HashMap::new(),
            open_files: HashMap::new(),
            next_fd: 3,
            log: Vec::new(),
            conn_in: Vec::new(),
            conn_in_pos: 0,
            conn_out: Vec::new(),
        }
    }

    fn process(&mut self, sqe: &Sqe) -> Cqe {
        let result: i32 = match sqe.op {
            Op::Nop => {
                self.log.push("nop");
                0
            }
            Op::Timeout { .. } => {
                self.log.push("timeout");
                -ETIME
            }
            Op::OpenAt { path_addr, flags, .. } => {
                self.log.push("open");
                let path = self.bufs.get(&path_addr).cloned().unwrap_or_default();
                if !self.files.contains_key(&path) {
                    if flags & O_CREAT != 0 {
                        self.files.insert(path.clone(), Vec::new());
                    } else {
                        return Cqe { user_data: sqe.user_data, result: -2 };
                    }
                }
                let fd = self.next_fd;
                self.next_fd += 1;
                self.open_files.insert(fd, (path, 0));
                fd
            }
            Op::Read { fd, addr, len, offset } => {
                self.log.push("read");
                let (path, pos) = self.open_files.get(&fd).cloned().expect("read on closed fd");
                let data = self.files.get(&path).cloned().unwrap_or_default();
                let start = if offset == NO_OFFSET { pos } else { offset as usize };
                let start = start.min(data.len());
                let n = (len as usize).min(data.len() - start);
                let buf = self.bufs.get_mut(&addr).expect("unknown buffer");
                buf[..n].copy_from_slice(&data[start..start + n]);
                if offset == NO_OFFSET {
                    self.open_files.insert(fd, (path, start + n));
                }
                n as i32
            }
            Op::Write { fd, addr, len, offset } => {
                self.log.push("write");
                let (path, pos) = self.open_files.get(&fd).cloned().expect("write on closed fd");
                let src = self.bufs.get(&addr).cloned().expect("unknown buffer");
                let n = (len as usize).min(src.len());
                let start = if offset == NO_OFFSET { pos } else { offset as usize };
                let data = self.files.get_mut(&path).expect("file gone");
                if data.len() < start + n {
                    data.resize(start + n, 0);
                }
                data[start..start + n].copy_from_slice(&src[..n]);
                if offset == NO_OFFSET {
                    self.open_files.insert(fd, (path, start + n));
                }
                n as i32
            }
            Op::Close { fd } => {
                self.log.push("close");
                self.open_files.remove(&fd);
                0
            }
            Op::Fsync { .. } => 0,
            Op::Fallocate { .. } => 0,
            Op::Socket { .. } => {
                self.log.push("socket");
                let fd = self.next_fd;
                self.next_fd += 1;
                fd
            }
            Op::Accept { .. } => {
                self.log.push("accept");
                let fd = self.next_fd;
                self.next_fd += 1;
                fd
            }
            Op::Recv { addr, len, .. } => {
                self.log.push("recv");
                let remaining = self.conn_in.len() - self.conn_in_pos;
                let n = (len as usize).min(remaining);
                let buf = self.bufs.get_mut(&addr).expect("unknown buffer");
                buf[..n].copy_from_slice(&self.conn_in[self.conn_in_pos..self.conn_in_pos + n]);
                self.conn_in_pos += n;
                n as i32
            }
            Op::Send { addr, len, .. } => {
                self.log.push("send");
                let src = self.bufs.get(&addr).cloned().expect("unknown buffer");
                let n = (len as usize).min(src.len());
                self.conn_out.extend_from_slice(&src[..n]);
                n as i32
            }
        };
        Cqe { user_data: sqe.user_data, result }
    }
}

/// Alternate drain rounds with simulated kernel turns until every task
/// has completed or the round budget runs out.
fn drive<F: TaskFuture>(
    exec: &mut Executor,
    pool: &mut TaskPool<F>,
    reactor: &mut Reactor,
    kernel: &mut FakeKernel,
    max_rounds: usize,
) -> bool {
    for _ in 0..max_rounds {
        if exec.spawned == 0 {
            return true;
        }
        exec.run_round(pool, reactor);
        if exec.spawned == 0 {
            return true;
        }
        let staged = reactor.take_staged();
        let cqes: Vec<Cqe> = staged.iter().map(|s| kernel.process(s)).collect();
        reactor.flush_completions(exec, &mut pool.headers, &cqes, 0, false);
    }
    exec.spawned == 0
}

#[test]
fn write_then_read_round_trip() {
    // Bytes written via write_at at an offset come back verbatim from a
    // read_at at the same offset.
    let mut kernel = FakeKernel::new();
    kernel.files.insert(b"data".to_vec(), vec![0u8; 64]);
    kernel.open_files.insert(9, (b"data".to_vec(), 0));
    let payload = b"the quick brown fox".to_vec();
    kernel.bufs.insert(1, payload.clone());
    kernel.bufs.insert(2, vec![0u8; 19]);

    let mut exec = Executor::new();
    let mut reactor = Reactor::new(8);
    let mut pool: TaskPool<WriteMeta> = TaskPool::new(1);
    let t = pool.prepare_task(write_at(9, 1, 19, 24)).unwrap();
    exec.spawn_task(&mut pool, t);
    assert!(drive(&mut exec, &mut pool, &mut reactor, &mut kernel, 10));

    let mut exec = Executor::new();
    let mut pool: TaskPool<ReadMeta> = TaskPool::new(1);
    let t = pool.prepare_task(read_at(9, 2, 19, 24)).unwrap();
    exec.spawn_task(&mut pool, t);
    assert!(drive(&mut exec, &mut pool, &mut reactor, &mut kernel, 10));

    assert_eq!(kernel.bufs[&2], payload);
}

/// Open a path read-only, read up to 4096 bytes, close: the submissions
/// arrive in exactly that order and every step succeeds.
enum CatState {
    Start,
    Opening(OpenMeta),
    Reading(ReadMeta),
    Closing(CloseMeta),
    Done,
}

struct CatTask {
    state: CatState,
    path: Vec<u8>,
    path_addr: u64,
    buf_addr: u64,
    results: Rc<RefCell<Vec<i32>>>,
}

impl TaskFuture for CatTask {
    fn poll(&mut self, task: TaskRef, reactor: &mut Reactor) -> TaskPoll {
        loop {
            let state = std::mem::replace(&mut self.state, CatState::Done);
            match state {
                CatState::Start => {
                    let m = File::open(&self.path, self.path_addr).expect("clean path");
                    self.state = CatState::Opening(m);
                }
                CatState::Opening(mut m) => match m.op.poll_op(task, reactor) {
                    OpPoll::Ready(fd) => {
                        self.results.borrow_mut().push(fd);
                        let f = File::from_fd(fd);
                        self.state = CatState::Reading(f.read(self.buf_addr, 4096));
                    }
                    OpPoll::Pending => {
                        self.state = CatState::Opening(m);
                        return TaskPoll::Pending;
                    }
                    OpPoll::PendingWake => {
                        self.state = CatState::Opening(m);
                        return TaskPoll::PendingWake;
                    }
                },
                CatState::Reading(mut m) => match m.op.poll_op(task, reactor) {
                    OpPoll::Ready(n) => {
                        self.results.borrow_mut().push(n);
                        let fd = self.results.borrow()[0];
                        self.state = CatState::Closing(close(fd));
                    }
                    OpPoll::Pending => {
                        self.state = CatState::Reading(m);
                        return TaskPoll::Pending;
                    }
                    OpPoll::PendingWake => {
                        self.state = CatState::Reading(m);
                        return TaskPoll::PendingWake;
                    }
                },
                CatState::Closing(mut m) => match m.op.poll_op(task, reactor) {
                    OpPoll::Ready(c) => {
                        self.results.borrow_mut().push(c);
                        self.state = CatState::Done;
                        return TaskPoll::Ready;
                    }
                    OpPoll::Pending => {
                        self.state = CatState::Closing(m);
                        return TaskPoll::Pending;
                    }
                    OpPoll::PendingWake => {
                        self.state = CatState::Closing(m);
                        return TaskPoll::PendingWake;
                    }
                },
                CatState::Done => return TaskPoll::Ready,
            }
        }
    }
}

#[test]
fn open_read_close_in_order() {
    let mut kernel = FakeKernel::new();
    let path = b"/etc/hostname".to_vec();
    kernel.files.insert(path.clone(), b"testhost\n".to_vec());
    kernel.bufs.insert(1, path.clone());
    kernel.bufs.insert(2, vec![0u8; 4096]);

    let mut exec = Executor::new();
    let mut reactor = Reactor::new(8);
    let mut pool: TaskPool<CatTask> = TaskPool::new(1);
    let results = Rc::new(RefCell::new(Vec::new()));
    let t = pool
        .prepare_task(CatTask {
            state: CatState::Start,
            path,
            path_addr: 1,
            buf_addr: 2,
            results: results.clone(),
        })
        .unwrap();
    exec.spawn_task(&mut pool, t);
    assert!(drive(&mut exec, &mut pool, &mut reactor, &mut kernel, 20));

    let r = results.borrow();
    assert!(r[0] >= 3, "open returned a descriptor");
    assert!(r[1] >= 0, "read returned a byte count");
    assert_eq!(r[1], 9);
    assert_eq!(r[2], 0, "close returned zero");
    assert_eq!(kernel.log, vec!["open", "read", "close"]);
    assert_eq!(&kernel.bufs[&2][..9], b"testhost\n");
}

/// Copy: read from the source and write to the destination until a read
/// comes back short; the destination ends byte-for-byte equal.
enum CopyState {
    Start,
    OpeningSrc(OpenMeta),
    OpeningDst(OpenMeta),
    Reading(ReadMeta),
    Writing(WriteMeta, i32),
    ClosingSrc(CloseMeta),
    ClosingDst(CloseMeta),
    Done,
}

struct CopyTask {
    state: CopyState,
    src_path_addr: u64,
    dst_path_addr: u64,
    src_path: Vec<u8>,
    dst_path: Vec<u8>,
    buf_addr: u64,
    buf_len: u32,
    src_fd: i32,
    dst_fd: i32,
}

impl TaskFuture for CopyTask {
    fn poll(&mut self, task: TaskRef, reactor: &mut Reactor) -> TaskPoll {
        loop {
            let state = std::mem::replace(&mut self.state, CopyState::Done);
            match state {
                CopyState::Start => {
                    let m = File::open(&self.src_path, self.src_path_addr).expect("clean path");
                    self.state = CopyState::OpeningSrc(m);
                }
                CopyState::OpeningSrc(mut m) => match m.op.poll_op(task, reactor) {
                    OpPoll::Ready(fd) => {
                        assert!(fd >= 0);
                        self.src_fd = fd;
                        let mut o = File::options();
                        o.create(true);
                        o.write(true);
                        o.mode(511);
                        let m2 = o.open(&self.dst_path, self.dst_path_addr).expect("clean path");
                        self.state = CopyState::OpeningDst(m2);
                    }
                    OpPoll::Pending => {
                        self.state = CopyState::OpeningSrc(m);
                        return TaskPoll::Pending;
                    }
                    OpPoll::PendingWake => {
                        self.state = CopyState::OpeningSrc(m);
                        return TaskPoll::PendingWake;
                    }
                },
                CopyState::OpeningDst(mut m) => match m.op.poll_op(task, reactor) {
                    OpPoll::Ready(fd) => {
                        assert!(fd >= 0);
                        self.dst_fd = fd;
                        let f = File::from_fd(self.src_fd);
                        self.state = CopyState::Reading(f.read(self.buf_addr, self.buf_len));
                    }
                    OpPoll::Pending => {
                        self.state = CopyState::OpeningDst(m);
                        return TaskPoll::Pending;
                    }
                    OpPoll::PendingWake => {
                        self.state = CopyState::OpeningDst(m);
                        return TaskPoll::PendingWake;
                    }
                },
                CopyState::Reading(mut m) => match m.op.poll_op(task, reactor) {
                    OpPoll::Ready(n) => {
                        assert!(n >= 0);
                        let f = File::from_fd(self.dst_fd);
                        self.state = CopyState::Writing(f.write(self.buf_addr, n as u32), n);
                    }
                    OpPoll::Pending => {
                        self.state = CopyState::Reading(m);
                        return TaskPoll::Pending;
                    }
                    OpPoll::PendingWake => {
                        self.state = CopyState::Reading(m);
                        return TaskPoll::PendingWake;
                    }
                },
                CopyState::Writing(mut m, n) => match m.op.poll_op(task, reactor) {
                    OpPoll::Ready(w) => {
                        assert!(w >= 0);
                        if (n as u32) < self.buf_len {
                            let f = File::from_fd(self.src_fd);
                            self.state = CopyState::ClosingSrc(f.close());
                        } else {
                            let f = File::from_fd(self.src_fd);
                            self.state = CopyState::Reading(f.read(self.buf_addr, self.buf_len));
                        }
                    }
                    OpPoll::Pending => {
                        self.state = CopyState::Writing(m, n);
                        return TaskPoll::Pending;
                    }
                    OpPoll::PendingWake => {
                        self.state = CopyState::Writing(m, n);
                        return TaskPoll::PendingWake;
                    }
                },
                CopyState::ClosingSrc(mut m) => match m.op.poll_op(task, reactor) {
                    OpPoll::Ready(_) => {
                        let f = File::from_fd(self.dst_fd);
                        self.state = CopyState::ClosingDst(f.close());
                    }
                    OpPoll::Pending => {
                        self.state = CopyState::ClosingSrc(m);
                        return TaskPoll::Pending;
                    }
                    OpPoll::PendingWake => {
                        self.state = CopyState::ClosingSrc(m);
                        return TaskPoll::PendingWake;
                    }
                },
                CopyState::ClosingDst(mut m) => match m.op.poll_op(task, reactor) {
                    OpPoll::Ready(_) => {
                        self.state = CopyState::Done;
                        return TaskPoll::Ready;
                    }
                    OpPoll::Pending => {
                        self.state = CopyState::ClosingDst(m);
                        return TaskPoll::Pending;
                    }
                    OpPoll::PendingWake => {
                        self.state = CopyState::ClosingDst(m);
                        return TaskPoll::PendingWake;
                    }
                },
                CopyState::Done => return TaskPoll::Ready,
            }
        }
    }
}

#[test]
fn copy_file_byte_for_byte() {
    let mut kernel = FakeKernel::new();
    let src = b"src.txt".to_vec();
    let dst = b"dst.txt".to_vec();
    // Three full buffers and a remainder, so the loop runs four times.
    let contents: Vec<u8> = (0..13u16).flat_map(|i| vec![i as u8; 5]).collect();
    kernel.files.insert(src.clone(), contents.clone());
    kernel.bufs.insert(1, src.clone());
    kernel.bufs.insert(2, dst.clone());
    kernel.bufs.insert(3, vec![0u8; 16]);

    let mut exec = Executor::new();
    let mut reactor = Reactor::new(8);
    let mut pool: TaskPool<CopyTask> = TaskPool::new(1);
    let t = pool
        .prepare_task(CopyTask {
            state: CopyState::Start,
            src_path_addr: 1,
            dst_path_addr: 2,
            src_path: src,
            dst_path: dst.clone(),
            buf_addr: 3,
            buf_len: 16,
            src_fd: -1,
            dst_fd: -1,
        })
        .unwrap();
    exec.spawn_task(&mut pool, t);
    assert!(drive(&mut exec, &mut pool, &mut reactor, &mut kernel, 50));
    assert_eq!(kernel.files[&dst], contents);
}

/// TCP echo: accept one connection, receive into a buffer, send the
/// received bytes back, close. The client sees its payload verbatim.
enum EchoState {
    Accepting(reika::net::AcceptMeta),
    Receiving(reika::net::TcpReadMeta, TcpStream),
    Sending(reika::net::TcpWriteMeta, TcpStream),
    Closing(CloseMeta),
    Done,
}

struct EchoTask {
    state: EchoState,
    buf_addr: u64,
}

impl TaskFuture for EchoTask {
    fn poll(&mut self, task: TaskRef, reactor: &mut Reactor) -> TaskPoll {
        loop {
            let state = std::mem::replace(&mut self.state, EchoState::Done);
            match state {
                EchoState::Accepting(mut m) => match m.op.poll_op(task, reactor) {
                    OpPoll::Ready(connfd) => {
                        assert!(connfd >= 0);
                        let conn = TcpStream::new(connfd);
                        self.state = EchoState::Receiving(conn.read(self.buf_addr, 4096), conn);
                    }
                    OpPoll::Pending => {
                        self.state = EchoState::Accepting(m);
                        return TaskPoll::Pending;
                    }
                    OpPoll::PendingWake => {
                        self.state = EchoState::Accepting(m);
                        return TaskPoll::PendingWake;
                    }
                },
                EchoState::Receiving(mut m, mut conn) => match m.op.poll_op(task, reactor) {
                    OpPoll::Ready(n) => {
                        assert!(n >= 0);
                        self.state = EchoState::Sending(conn.send(self.buf_addr, n as u32), conn);
                    }
                    OpPoll::Pending => {
                        self.state = EchoState::Receiving(m, conn);
                        return TaskPoll::Pending;
                    }
                    OpPoll::PendingWake => {
                        self.state = EchoState::Receiving(m, conn);
                        return TaskPoll::PendingWake;
                    }
                },
                EchoState::Sending(mut m, mut conn) => match m.op.poll_op(task, reactor) {
                    OpPoll::Ready(n) => {
                        assert!(n >= 0);
                        self.state = EchoState::Closing(conn.close());
                    }
                    OpPoll::Pending => {
                        self.state = EchoState::Sending(m, conn);
                        return TaskPoll::Pending;
                    }
                    OpPoll::PendingWake => {
                        self.state = EchoState::Sending(m, conn);
                        return TaskPoll::PendingWake;
                    }
                },
                EchoState::Closing(mut m) => match m.op.poll_op(task, reactor) {
                    OpPoll::Ready(_) => {
                        self.state = EchoState::Done;
                        return TaskPoll::Ready;
                    }
                    OpPoll::Pending => {
                        self.state = EchoState::Closing(m);
                        return TaskPoll::Pending;
                    }
                    OpPoll::PendingWake => {
                        self.state = EchoState::Closing(m);
                        return TaskPoll::PendingWake;
                    }
                },
                EchoState::Done => return TaskPoll::Ready,
            }
        }
    }
}

#[test]
fn tcp_echo_returns_payload_verbatim() {
    let mut kernel = FakeKernel::new();
    let payload = b"hello over the wire".to_vec();
    kernel.conn_in = payload.clone();
    kernel.bufs.insert(5, vec![0u8; 4096]);

    // The bind sequence the embedding program performs: the listening
    // socket address is encoded by the library, the backlog is the
    // kernel maximum.
    let addr = SockAddrV4 { a: 127, b: 0, c: 0, d: 1, port: 2310 };
    let sockaddr = sockaddr_in_bytes(&addr);
    assert_eq!(sockaddr.len(), 16);
    assert!(SOMAXCONN > 0);
    let listener = TcpListner::new(7);

    let mut exec = Executor::new();
    let mut reactor = Reactor::new(8);
    let mut pool: TaskPool<EchoTask> = TaskPool::new(1);
    let t = pool
        .prepare_task(EchoTask { state: EchoState::Accepting(listener.accept()), buf_addr: 5 })
        .unwrap();
    exec.spawn_task(&mut pool, t);
    assert!(drive(&mut exec, &mut pool, &mut reactor, &mut kernel, 50));
    assert_eq!(kernel.conn_out, payload);
    assert_eq!(kernel.log, vec!["accept", "recv", "send", "close"]);
}
