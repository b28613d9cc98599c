//! The socket buffer of a connection's TCP stream.
use std::io;

use socket2::SockRef;
use tokio::net::TcpStream;
use vstd::prelude::*;

verus! {

#[verifier::external_type_specification]
#[verifier::external_body]
pub struct ExTcpStream(TcpStream);

/// `SockRef::from(stream).set_recv_buffer_size(size)`; the OS decides what
/// it does.
#[verifier::external_body]
fn stream_set_recv_buffer_size(stream: &TcpStream, size: usize) -> (r: Result<(), io::Error>) {
    SockRef::from(stream).set_recv_buffer_size(size)
}

/// `SockRef::from(stream).recv_buffer_size()`; the OS decides the value.
#[verifier::external_body]
fn stream_recv_buffer_size(stream: &TcpStream) -> (r: Result<usize, io::Error>) {
    SockRef::from(stream).recv_buffer_size()
}

/// Access to the buffer size of the socket under a TCP stream. The buffer
/// sized is the receive buffer: the connection downloads.
pub trait TcpStreamExt {
    fn set_send_buf_size(&self, size: usize) -> Result<(), io::Error>;

    fn send_buf_size(&self) -> Result<usize, io::Error>;
}

impl TcpStreamExt for TcpStream {
    fn set_send_buf_size(&self, size: usize) -> Result<(), io::Error> {
        stream_set_recv_buffer_size(self, size)
    }

    fn send_buf_size(&self) -> Result<usize, io::Error> {
        stream_recv_buffer_size(self)
    }
}

} // verus!
