//! How much a store can take before the reader frees up space. The writer
//! waits while `can_write` is false; the reader frees space by reading.
use vstd::prelude::*;

verus! {

#[derive(Debug, Clone, Copy)]
pub enum Bounds {
    Unlimited,
    /// at most this many bytes, never zero
    Limited(u64),
}

/// What a `Capacity` holds.
pub struct CapacityView {
    pub max: Bounds,
    pub free: u64,
    pub can_write: bool,
}

/// The bytes a store with capacity `c` can take now.
pub open spec fn available_of(c: CapacityView) -> int {
    match c.max {
        Bounds::Unlimited => usize::MAX as int,
        Bounds::Limited(_) => (c.free as usize) as int,
    }
}

/// The free space a capacity with bound `max` starts with.
pub open spec fn full_of(max: Bounds) -> u64 {
    match max {
        Bounds::Unlimited => u64::MAX,
        Bounds::Limited(bytes) => bytes,
    }
}

/// A bound that can be used: a limit is never zero.
pub open spec fn bounds_valid(max: Bounds) -> bool {
    match max {
        Bounds::Unlimited => true,
        Bounds::Limited(bytes) => bytes > 0,
    }
}

#[derive(Debug)]
pub struct Capacity {
    max: Bounds,
    free: u64,
    can_write: bool,
}

impl View for Capacity {
    type V = CapacityView;

    closed spec fn view(&self) -> CapacityView {
        CapacityView { max: self.max, free: self.free, can_write: self.can_write }
    }
}

impl Capacity {
    /// A full capacity with bound `max`; writing is allowed.
    pub fn new(max: Bounds) -> (c: Capacity)
        requires
            bounds_valid(max),
        ensures
            c@ == (CapacityView { max, free: full_of(max), can_write: true }),
    {
        match max {
            Bounds::Limited(bytes) => Capacity { max, free: bytes, can_write: true },
            Bounds::Unlimited => Capacity { max, free: u64::MAX, can_write: true },
        }
    }

    pub fn available(&self) -> (n: usize)
        ensures
            n == available_of(self@),
    {
        if let Bounds::Unlimited = self.max {
            return usize::MAX;
        }
        self.free as usize
    }

    pub fn total(&self) -> (b: Bounds)
        ensures
            b == self@.max,
    {
        self.max
    }

    /// Whether the writer may write (it waits otherwise).
    pub fn can_write(&self) -> (b: bool)
        ensures
            b == self@.can_write,
    {
        self.can_write
    }

    /// Frees `amount` bytes. Returns whether space is available now, in which
    /// case writing is allowed again and a waiting writer is to be woken.
    pub fn add(&mut self, amount: usize) -> (notify: bool)
        requires
            old(self)@.free + amount <= u64::MAX,
        ensures
            final(self)@.max == old(self)@.max,
            final(self)@.free == old(self)@.free + amount,
            notify == (available_of(final(self)@) > 0),
            final(self)@.can_write == (notify || old(self)@.can_write),
    {
        self.free = self.free + amount as u64;
        if self.available() > 0 {
            self.can_write = true;
            true
        } else {
            false
        }
    }

    /// Takes `amount` bytes (saturating at zero); writing stops once nothing
    /// is available.
    pub fn remove(&mut self, amount: usize)
        ensures
            final(self)@.max == old(self)@.max,
            final(self)@.free == (if old(self)@.free >= amount {
                old(self)@.free - amount
            } else {
                0
            }),
            final(self)@.can_write == (available_of(final(self)@) > 0 && old(self)@.can_write),
    {
        self.free = self.free.saturating_sub(amount as u64);
        if self.available() == 0 {
            self.can_write = false;
        }
    }

    /// Back to full: all space free and writing allowed.
    pub fn reset(&mut self)
        ensures
            final(self)@ == (CapacityView {
                max: old(self)@.max,
                free: full_of(old(self)@.max),
                can_write: true,
            }),
    {
        self.free = match self.max {
            Bounds::Unlimited => u64::MAX,
            Bounds::Limited(bytes) => bytes,
        };
        self.can_write = true;
    }
}

} // verus!
