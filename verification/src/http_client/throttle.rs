//! The rate limit decisions of a throttled connection. The limiter itself
//! (a token bucket that refills with time) runs outside; this decides how it
//! is configured, which reads it must let through and what still waits.
use vstd::prelude::*;

use crate::network::{bytes_per_second, Bandwidth, BandwidthAllowed};

verus! {

/// How the socket and the limiter are set up for a bandwidth limit.
#[derive(Debug, Clone, Copy, PartialEq, Eq, Structural)]
pub struct LimiterSetup {
    /// the size to give the socket's buffer
    pub send_buf_size: usize,
    /// bytes per second the limiter lets through
    pub per_second: u32,
    /// how many bytes may go through at once
    pub burst_size: u32,
}

/// The setup for a limit of `limit` bits per second on a socket whose buffer
/// the OS made `os_socket_buf_size` bytes: the limiter counts bytes, so it
/// lets an eighth of `limit` through each second.
pub open spec fn setup_spec(limit: u32, os_socket_buf_size: usize) -> LimiterSetup {
    let send_buf = if (limit as usize) < os_socket_buf_size {
        limit as usize
    } else {
        os_socket_buf_size
    };
    let twice = if 2 * limit > u32::MAX { u32::MAX } else { (2 * limit) as u32 };
    LimiterSetup {
        send_buf_size: send_buf,
        per_second: bytes_per_second(limit),
        burst_size: if twice > send_buf as u32 { twice } else { send_buf as u32 },
    }
}

/// The throttle's state: whether a limiter is in place and how many bytes
/// of the last read it still has to let through.
pub struct Throttle {
    limited: bool,
    still_pending_bytes: u32,
}

impl Throttle {
    pub closed spec fn is_limited(&self) -> bool {
        self.limited
    }

    pub closed spec fn pending(&self) -> u32 {
        self.still_pending_bytes
    }

    /// No limiter, nothing pending.
    pub fn new() -> (t: Self)
        ensures
            !t.is_limited(),
            t.pending() == 0,
    {
        Throttle { limited: false, still_pending_bytes: 0 }
    }

    /// Puts a limiter in place for `limit`; returns how to set it up.
    pub fn set_lim(&mut self, limit: Bandwidth, os_socket_buf_size: usize) -> (s: LimiterSetup)
        requires
            (limit@ as usize) < os_socket_buf_size || os_socket_buf_size as u32 != 0,
        ensures
            s == setup_spec(limit@, os_socket_buf_size),
            final(self).is_limited(),
            final(self).pending() == old(self).pending(),
    {
        let per_second = limit.bytes_per_second();
        let send_buf_size = limit.optimal_send_buf_size(os_socket_buf_size);
        let burst_size = limit.optimal_burst_size(send_buf_size);
        self.limited = true;
        LimiterSetup { send_buf_size, per_second, burst_size }
    }

    /// Removes the limiter. The socket is set up as for a practically
    /// infinite bandwidth; returns that setup.
    pub fn remove_lim(&mut self, os_socket_buf_size: usize) -> (s: LimiterSetup)
        requires
            (u32::MAX as usize) < os_socket_buf_size || os_socket_buf_size as u32 != 0,
        ensures
            s == setup_spec(u32::MAX, os_socket_buf_size),
            !final(self).is_limited(),
            final(self).pending() == old(self).pending(),
    {
        let s = self.set_lim(Bandwidth::practically_infinite(), os_socket_buf_size);
        self.limited = false;
        s
    }

    /// Takes a change of the allowed bandwidth; returns the new setup.
    pub fn handle_bandwidth_lim_change(&mut self, change: BandwidthAllowed, os_socket_buf_size: usize) -> (s:
        LimiterSetup)
        requires
            os_socket_buf_size as u32 != 0,
        ensures
            match change {
                BandwidthAllowed::Limited(limit) => s == setup_spec(limit@, os_socket_buf_size)
                    && final(self).is_limited(),
                BandwidthAllowed::UnLimited => s == setup_spec(u32::MAX, os_socket_buf_size)
                    && !final(self).is_limited(),
            },
            final(self).pending() == old(self).pending(),
    {
        match change {
            BandwidthAllowed::Limited(limit) => self.set_lim(limit, os_socket_buf_size),
            BandwidthAllowed::UnLimited => self.remove_lim(os_socket_buf_size),
        }
    }

    /// How many bytes of a read of `n` bytes the limiter must let through:
    /// none without a limiter or for an empty read.
    pub fn bytes_to_check(&self, n: usize) -> (r: Option<u32>)
        ensures
            r == (if !self.is_limited() || n as u32 == 0 {
                None
            } else {
                Some(n as u32)
            }),
    {
        let n = n as u32;
        if !self.limited || n == 0 {
            None
        } else {
            Some(n)
        }
    }

    /// The limiter did not let `n` bytes through yet: they wait.
    pub fn check_refused(&mut self, n: u32)
        ensures
            final(self).pending() == n,
            final(self).is_limited() == old(self).is_limited(),
    {
        self.still_pending_bytes = n;
    }

    /// The bytes to check again before the next read: none when nothing is
    /// pending or no limiter is in place.
    pub fn pending_to_check(&self) -> (r: Option<u32>)
        ensures
            r == (if self.pending() == 0 || !self.is_limited() {
                None
            } else {
                Some(self.pending())
            }),
    {
        if self.still_pending_bytes == 0 || !self.limited {
            None
        } else {
            Some(self.still_pending_bytes)
        }
    }
}

} // verus!
