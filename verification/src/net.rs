//! TCP surface: the listener and stream handles, their operation
//! constructors, and the IPv4 socket-address encoding the bind path
//! hands to the kernel.
//!
//! Binding itself is a short sequence of direct system calls (socket
//! creation through the ring, then `bind`, `setsockopt`, `listen`),
//! which the embedding program performs with the values these functions
//! compute. Accept, send and receive are ring-native operations. IPv6 is
//! reserved but not implemented.

use crate::executor::{TaskFuture, TaskPoll};
use crate::io::CloseMeta;
use crate::ops::OpCore;
use crate::reactor::Reactor;
use crate::sqe::{Op, AF_INET, SOCK_CLOEXEC, SOCK_STREAM};
use crate::task::TaskRef;
use vstd::prelude::*;

verus! {

/// An IPv4 socket address as plain values: the four dotted octets in
/// order, and the port in host order.
#[derive(Clone, Copy, Debug, PartialEq, Eq, Structural)]
pub struct SockAddrV4 {
    pub a: u8,
    pub b: u8,
    pub c: u8,
    pub d: u8,
    pub port: u16,
}

/// The 16 `sockaddr_in` bytes for an address: family `AF_INET` in host
/// byte order, then the port and the address in network byte order, then
/// the eight-byte zero pad.
pub open spec fn sockaddr_in_spec(addr: SockAddrV4) -> Seq<u8> {
    seq![
        2u8,
        0u8,
        (addr.port / 256) as u8,
        (addr.port % 256) as u8,
        addr.a,
        addr.b,
        addr.c,
        addr.d,
        0u8,
        0u8,
        0u8,
        0u8,
        0u8,
        0u8,
        0u8,
        0u8,
    ]
}

/// Encode an address as the `sockaddr_in` bytes `bind` takes.
pub fn sockaddr_in_bytes(addr: &SockAddrV4) -> (r: Vec<u8>)
    ensures
        r@ == sockaddr_in_spec(*addr),
        r@.len() == 16,
{
    let mut v: Vec<u8> = Vec::new();
    v.push(2);
    v.push(0);
    v.push((addr.port / 256) as u8);
    v.push((addr.port % 256) as u8);
    v.push(addr.a);
    v.push(addr.b);
    v.push(addr.c);
    v.push(addr.d);
    let mut i: usize = 0;
    while i < 8
        invariant
            i <= 8,
            v@.len() == 8 + i,
            forall|j: int| 0 <= j < 8 ==> v@[j] == sockaddr_in_spec(*addr)[j],
            forall|j: int| 8 <= j < v@.len() ==> v@[j] == 0u8,
        decreases 8 - i,
    {
        v.push(0);
        i = i + 1;
    }
    proof {
        assert(v@ =~= sockaddr_in_spec(*addr));
    }
    v
}

/// A pending receive on a connected socket.
pub struct TcpReadMeta {
    pub op: OpCore,
}

impl TaskFuture for TcpReadMeta {
    fn poll(&mut self, task: TaskRef, reactor: &mut Reactor) -> (r: TaskPoll) {
        self.op.poll_task(task, reactor)
    }
}

/// A pending send on a connected socket.
pub struct TcpWriteMeta {
    pub op: OpCore,
}

impl TaskFuture for TcpWriteMeta {
    fn poll(&mut self, task: TaskRef, reactor: &mut Reactor) -> (r: TaskPoll) {
        self.op.poll_task(task, reactor)
    }
}

/// A pending socket creation.
pub struct SocketMeta {
    pub op: OpCore,
}

impl TaskFuture for SocketMeta {
    fn poll(&mut self, task: TaskRef, reactor: &mut Reactor) -> (r: TaskPoll) {
        self.op.poll_task(task, reactor)
    }
}

/// A pending accept.
pub struct AcceptMeta {
    pub op: OpCore,
}

impl TaskFuture for AcceptMeta {
    fn poll(&mut self, task: TaskRef, reactor: &mut Reactor) -> (r: TaskPoll) {
        self.op.poll_task(task, reactor)
    }
}

/// A listening TCP socket.
#[derive(Clone, Copy, Debug, PartialEq, Eq, Structural)]
pub struct TcpListner {
    pub sock_fd: i32,
}

impl TcpListner {
    /// Wrap the descriptor once the bind sequence has finished.
    pub fn new(sock_fd: i32) -> (r: Self)
        ensures
            r.sock_fd == sock_fd,
    {
        Self { sock_fd }
    }

    /// The socket creation the bind path starts with: an IPv4 stream
    /// socket with close-on-exec, default protocol.
    pub fn socket() -> (r: SocketMeta)
        ensures
            r.op.req.sentry == (Op::Socket {
                domain: AF_INET,
                socket_type: SOCK_STREAM | SOCK_CLOEXEC,
                protocol: 0,
            }),
            r.op.state == crate::ops::OpState::Fresh,
    {
        SocketMeta {
            op: OpCore::new(
                Op::Socket {
                    domain: AF_INET,
                    socket_type: SOCK_STREAM | SOCK_CLOEXEC,
                    protocol: 0,
                },
            ),
        }
    }

    /// Accept one connection; completes with the connection descriptor.
    pub fn accept(&self) -> (r: AcceptMeta)
        ensures
            r.op.req.sentry == (Op::Accept { fd: self.sock_fd }),
            r.op.state == crate::ops::OpState::Fresh,
    {
        AcceptMeta { op: OpCore::new(Op::Accept { fd: self.sock_fd }) }
    }
}

/// A connected TCP socket.
#[derive(Clone, Copy, Debug, PartialEq, Eq, Structural)]
pub struct TcpStream {
    pub connfd: i32,
}

impl TcpStream {
    /// Wrap an accepted connection descriptor.
    pub fn new(connfd: i32) -> (r: Self)
        ensures
            r.connfd == connfd,
    {
        Self { connfd }
    }

    /// Receive up to `len` bytes into the caller's buffer; completes
    /// with the byte count, zero at end of stream.
    pub fn read(&self, buf_addr: u64, buf_len: u32) -> (r: TcpReadMeta)
        ensures
            r.op.req.sentry == (Op::Recv { fd: self.connfd, addr: buf_addr, len: buf_len }),
            r.op.state == crate::ops::OpState::Fresh,
    {
        TcpReadMeta {
            op: OpCore::new(Op::Recv { fd: self.connfd, addr: buf_addr, len: buf_len }),
        }
    }

    /// Send `len` bytes from the caller's buffer; completes with the
    /// byte count sent.
    pub fn send(&mut self, buf_addr: u64, buf_len: u32) -> (r: TcpWriteMeta)
        ensures
            r.op.req.sentry == (Op::Send { fd: old(self).connfd, addr: buf_addr, len: buf_len }),
            *final(self) == *old(self),
            r.op.state == crate::ops::OpState::Fresh,
    {
        TcpWriteMeta {
            op: OpCore::new(Op::Send { fd: self.connfd, addr: buf_addr, len: buf_len }),
        }
    }

    /// Close the connection.
    pub fn close(&mut self) -> (r: CloseMeta)
        ensures
            r.op.req.sentry == (Op::Close { fd: old(self).connfd }),
            *final(self) == *old(self),
            r.op.state == crate::ops::OpState::Fresh,
    {
        crate::io::close(self.connfd)
    }
}

} // verus!
