//! A stream's identity and the state its handle keeps.
pub mod task;

use vstd::prelude::*;

use crate::reader::CouldNotCreateRuntime;

verus! {

/// Identifies a stream among those a manager runs.
#[derive(Debug, Clone, Copy, PartialEq, Eq, Hash, Structural)]
pub struct Id(usize);

impl View for Id {
    type V = usize;

    closed spec fn view(&self) -> usize {
        self.0
    }
}

impl Id {
    /// A new id: the value of the shared counter `next_id`, which then moves
    /// on by one, wrapping around as an atomic add does.
    pub fn new(next_id: &mut usize) -> (id: Id)
        ensures
            id@ == *old(next_id),
            *final(next_id) == old(next_id).wrapping_add(1),
    {
        let id = *next_id;
        *next_id = id.wrapping_add(1);
        Id(id)
    }
}

/// Why no reader could be had for a stream.
#[derive(Debug)]
pub enum GetReaderError {
    /// the stream has a reader already; it allows one at a time
    ReaderInUse,
    CreationFailed(CouldNotCreateRuntime),
}

/// Whether a stream is paused, as its handle knows it. Pausing or
/// unpausing sends a message to the stream's task only when it changes
/// the state.
pub struct PauseSwitch {
    is_paused: bool,
}

impl PauseSwitch {
    pub closed spec fn paused(&self) -> bool {
        self.is_paused
    }

    pub fn new(start_paused: bool) -> (s: Self)
        ensures
            s.paused() == start_paused,
    {
        PauseSwitch { is_paused: start_paused }
    }

    pub fn is_paused(&self) -> (b: bool)
        ensures
            b == self.paused(),
    {
        self.is_paused
    }

    /// Pauses; returns the message to send to the task, if any.
    pub fn pause(&mut self) -> (send: Option<bool>)
        ensures
            final(self).paused(),
            send == (if old(self).paused() { None } else { Some(true) }),
    {
        if !self.is_paused {
            self.is_paused = true;
            Some(true)
        } else {
            None
        }
    }

    /// Unpauses; returns the message to send to the task, if any.
    pub fn unpause(&mut self) -> (send: Option<bool>)
        ensures
            !final(self).paused(),
            send == (if old(self).paused() { Some(false) } else { None }),
    {
        if self.is_paused {
            self.is_paused = false;
            Some(false)
        } else {
            None
        }
    }
}

} // verus!
