//! Bandwidth limits for a stream.
use std::io;

use socket2::{Domain, Socket, Type};
use vstd::prelude::*;

verus! {

#[verifier::external_type_specification]
#[verifier::external_body]
pub struct ExIoError(std::io::Error);

#[verifier::external_type_specification]
#[verifier::external_body]
pub struct ExSocket(Socket);

/// `Socket::new(Domain::IPV6, Type::STREAM, None)`; whether the OS grants
/// a socket is not known beforehand.
#[verifier::external_body]
fn new_ipv6_stream_socket() -> (r: Result<Socket, io::Error>) {
    Socket::new(Domain::IPV6, Type::STREAM, None)
}

/// `Socket::set_recv_buffer_size`; the OS decides what it does.
#[verifier::external_body]
fn set_recv_buffer_size(socket: &Socket, size: usize) -> (r: Result<(), io::Error>) {
    socket.set_recv_buffer_size(size)
}

/// `Socket::recv_buffer_size`; the OS decides the value.
#[verifier::external_body]
fn recv_buffer_size(socket: &Socket) -> (r: Result<usize, io::Error>) {
    socket.recv_buffer_size()
}

/// The error for a receive buffer of zero bytes (`io::Error::new` of kind
/// `Other`).
#[verifier::external_body]
fn zero_buffer_reported() -> io::Error {
    io::Error::new(io::ErrorKind::Other, "the system reported a receive buffer of zero bytes")
}

/// The smallest receive buffer the OS allows: what it reports after being
/// asked for a buffer of one byte.
pub fn minimal_recv_buf_size() -> (r: Result<usize, io::Error>) {
    let socket = new_ipv6_stream_socket()?;
    set_recv_buffer_size(&socket, 1)?;
    recv_buffer_size(&socket)
}

/// A bandwidth in bits per second, never zero.
#[derive(Debug, Clone, Copy)]
pub struct Bandwidth(u32);

/// The bandwidth a stream may use.
#[derive(Debug, Clone, Copy)]
pub enum BandwidthAllowed {
    Limited(Bandwidth),
    UnLimited,
}

#[derive(Debug)]
pub enum BandwidthError {
    /// On this system the bandwidth limit must be bigger than `minimum` bytes
    TooSmall { minimum: usize },
    /// Checking minimal socket buffer size
    CheckingSocketOpt(io::Error),
}

/// The bytes per second that a bandwidth of `bits` bits per second lets
/// through: an eighth, rounded up, so no bandwidth shrinks to nothing.
pub open spec fn bytes_per_second(bits: u32) -> u32 {
    (bits / 8 + if bits % 8 == 0 { 0int } else { 1int }) as u32
}

/// What `Bandwidth::bytes(n)` gives when the check of the socket buffers
/// found `minimum` (`None`: the check failed): a bandwidth of `n` when `n`
/// is at least the minimum, else `TooSmall` with that minimum.
pub open spec fn outcome_given_minimum(
    n: u32,
    minimum: Option<usize>,
    r: Result<Bandwidth, BandwidthError>,
) -> bool {
    match minimum {
        None => r matches Err(BandwidthError::CheckingSocketOpt(_)),
        Some(m) => if (n as usize) < m {
            r matches Err(BandwidthError::TooSmall { minimum }) && minimum == m
        } else {
            r matches Ok(b) && b@ == n
        },
    }
}

/// The minimum a check of the socket buffers found, `None` when it failed.
pub open spec fn found_minimum(minimum: Result<usize, io::Error>) -> Option<usize> {
    match minimum {
        Ok(m) => Some(m),
        Err(_) => None,
    }
}

impl View for Bandwidth {
    type V = u32;

    closed spec fn view(&self) -> u32 {
        self.0
    }
}

impl Bandwidth {
    #[verifier::type_invariant]
    spec fn nonzero(&self) -> bool {
        self.0 > 0
    }

    /// Bits per second.
    pub fn get(&self) -> (r: u32)
        ensures
            r == self@,
            r > 0,
    {
        proof {
            use_type_invariant(self);
        }
        self.0
    }

    /// `n` thousand bits per second: the outcome of `bytes(n * 1000)`, whose
    /// contract it has for `n * 1000`.
    pub fn kbytes(n: u32) -> (r: Result<Self, BandwidthError>)
        requires
            n * 1000 <= u32::MAX,
        ensures
            exists|m: Option<usize>| #[trigger] outcome_given_minimum((n * 1000) as u32, m, r),
            r matches Ok(b) ==> b@ == n * 1000,
            r matches Err(BandwidthError::TooSmall { minimum }) ==> n * 1000 < minimum,
            n == 0 ==> r is Err,
    {
        Self::bytes(n * 1000)
    }

    /// `n` bits per second, if the socket buffers of this system can be made
    /// small enough for it: the outcome for whatever minimum the check of
    /// the socket buffers finds. A bandwidth of zero is never granted: it is
    /// below any buffer, and should the system report a buffer of zero
    /// bytes, that report counts as a failed check.
    pub fn bytes(n: u32) -> (r: Result<Self, BandwidthError>)
        ensures
            exists|m: Option<usize>| #[trigger] outcome_given_minimum(n, m, r),
            r matches Ok(b) ==> b@ == n,
            r matches Err(BandwidthError::TooSmall { minimum }) ==> (n as usize) < minimum,
            n == 0 ==> r is Err,
    {
        let minimum = minimal_recv_buf_size();
        if n == 0 {
            if let Ok(0) = minimum {
                let r = Err(BandwidthError::CheckingSocketOpt(zero_buffer_reported()));
                assert(outcome_given_minimum(n, None, r));
                return r;
            }
        }
        let r = Self::from_minimum(n, minimum);
        assert(outcome_given_minimum(n, found_minimum(minimum), r));
        r
    }

    /// `n` bits per second given the smallest receive buffer of this system
    /// (or the error in finding it out): a bandwidth below it can not be
    /// enforced.
    pub fn from_minimum(n: u32, minimum: Result<usize, io::Error>) -> (r: Result<
        Self,
        BandwidthError,
    >)
        requires
            minimum matches Ok(m) && n >= m ==> n > 0,
        ensures
            outcome_given_minimum(n, found_minimum(minimum), r),
    {
        let minimum = match minimum {
            Err(e) => return Err(BandwidthError::CheckingSocketOpt(e)),
            Ok(m) => m,
        };
        if (n as usize) < minimum {
            return Err(BandwidthError::TooSmall { minimum });
        }
        Ok(Self(n))
    }

    pub fn practically_infinite() -> (b: Self)
        ensures
            b@ == u32::MAX,
    {
        Self(u32::MAX)
    }

    /// The bytes per second the bandwidth lets through.
    pub fn bytes_per_second(&self) -> (r: u32)
        ensures
            r == bytes_per_second(self@),
            r > 0,
    {
        proof {
            use_type_invariant(self);
        }
        self.0 / 8 + if self.0 % 8 == 0 { 0 } else { 1 }
    }

    /// The send buffer to use: the bandwidth, at most `os_default`.
    pub fn optimal_send_buf_size(&self, os_default: usize) -> (r: usize)
        ensures
            r == if (self@ as usize) < os_default { self@ as usize } else { os_default },
    {
        let own = self.0 as usize;
        if own < os_default { own } else { os_default }
    }

    /// The burst the rate limiter allows: twice the bandwidth (saturating),
    /// but at least the send buffer size.
    pub fn optimal_burst_size(&self, send_buf_size: usize) -> (r: u32)
        requires
            send_buf_size as u32 != 0,
        ensures
            r == ({
                let twice = if 2 * self@ > u32::MAX { u32::MAX } else { (2 * self@) as u32 };
                if twice > send_buf_size as u32 { twice } else { send_buf_size as u32 }
            }),
            r > 0,
    {
        let twice = if self.0 > u32::MAX / 2 { u32::MAX } else { self.0 * 2 };
        let buf = send_buf_size as u32;
        if twice > buf { twice } else { buf }
    }
}

} // verus!
