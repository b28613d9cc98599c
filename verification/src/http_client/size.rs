//! Tracks the size of the data sent via the http stream, packed into one
//! `u64` so it can be shared as a single atomic value.
use vstd::prelude::*;

use crate::http_client::response::ValidResponse;

verus! {

#[derive(Debug, Clone, Copy, PartialEq, Eq, Structural)]
pub enum SizeVariant {
    Unknown,
    Known(u64),
    StreamEnded(u64),
}

/// bit 63
pub const STREAM_ENDED_MASK: u64 = 0x8000_0000_0000_0000u64;

/// bit 62
pub const KNOWN_MASK: u64 = 0x4000_0000_0000_0000u64;

/// 2^62: sizes are kept modulo this.
pub open spec fn size_modulus() -> int {
    0x4000_0000_0000_0000
}

/// The encoding: `Unknown` is all ones; a known size has bit 62 set and an
/// ended stream bit 63, above the size's low 62 bits.
pub open spec fn encode_spec(v: SizeVariant) -> u64 {
    match v {
        SizeVariant::Unknown => u64::MAX,
        SizeVariant::Known(size) => (size_modulus() + (size as int) % size_modulus()) as u64,
        SizeVariant::StreamEnded(size) => (2 * size_modulus() + (size as int) % size_modulus()) as u64,
    }
}

pub open spec fn decode_spec(val: u64) -> SizeVariant {
    if val == u64::MAX {
        SizeVariant::Unknown
    } else if val >= 2 * size_modulus() {
        SizeVariant::StreamEnded((val - 2 * size_modulus()) as u64)
    } else {
        SizeVariant::Known(((val as int) % size_modulus()) as u64)
    }
}

/// The size a variant reports, if any.
pub open spec fn known_of(v: SizeVariant) -> Option<u64> {
    match v {
        SizeVariant::Unknown => None,
        SizeVariant::Known(size) => Some(size),
        SizeVariant::StreamEnded(size) => Some(size),
    }
}

/// The same variant with its size reduced to the low 62 bits.
pub open spec fn truncated(v: SizeVariant) -> SizeVariant {
    match v {
        SizeVariant::Unknown => SizeVariant::Unknown,
        SizeVariant::Known(size) => SizeVariant::Known(((size as int) % size_modulus()) as u64),
        SizeVariant::StreamEnded(size) => SizeVariant::StreamEnded(((size as int) % size_modulus()) as u64),
    }
}

impl SizeVariant {
    pub fn encode(&self) -> (val: u64)
        ensures
            val == encode_spec(*self),
    {
        match *self {
            Self::Unknown => u64::MAX,
            Self::Known(size) => {
                // a size of 2^62 or more is lowered instead of changing the variant
                let val = size & !STREAM_ENDED_MASK | KNOWN_MASK;
                assert(val == 0x4000_0000_0000_0000u64 + size % 0x4000_0000_0000_0000u64)
                    by (bit_vector)
                    requires
                        val == size & !0x8000_0000_0000_0000u64 | 0x4000_0000_0000_0000u64,
                ;
                val
            },
            Self::StreamEnded(size) => {
                // a size of 2^62 or more is lowered instead of changing the variant
                let val = size & !KNOWN_MASK | STREAM_ENDED_MASK;
                assert(val == 0x8000_0000_0000_0000u64 + size % 0x4000_0000_0000_0000u64)
                    by (bit_vector)
                    requires
                        val == size & !0x4000_0000_0000_0000u64 | 0x8000_0000_0000_0000u64,
                ;
                val
            },
        }
    }

    pub fn decode(val: u64) -> (v: Self)
        ensures
            v == decode_spec(val),
    {
        if val == u64::MAX {
            Self::Unknown
        } else if val & STREAM_ENDED_MASK == STREAM_ENDED_MASK {
            let size = val & !STREAM_ENDED_MASK;
            assert(val >= 0x8000_0000_0000_0000u64 && size == val - 0x8000_0000_0000_0000u64)
                by (bit_vector)
                requires
                    val & 0x8000_0000_0000_0000u64 == 0x8000_0000_0000_0000u64,
                    size == val & !0x8000_0000_0000_0000u64,
            ;
            Self::StreamEnded(size)
        } else {
            let size = val & !KNOWN_MASK;
            assert(val < 0x8000_0000_0000_0000u64 && size == val % 0x4000_0000_0000_0000u64)
                by (bit_vector)
                requires
                    val & 0x8000_0000_0000_0000u64 != 0x8000_0000_0000_0000u64,
                    size == val & !0x4000_0000_0000_0000u64,
            ;
            Self::Known(size)
        }
    }
}

/// Decoding an encoded variant gives it back with its size reduced to the
/// low 62 bits; sizes below 2^62 come back unchanged.
pub proof fn lemma_decode_encode(v: SizeVariant)
    ensures
        decode_spec(encode_spec(v)) == truncated(v),
        (match v {
            SizeVariant::Unknown => true,
            SizeVariant::Known(size) => size < size_modulus(),
            SizeVariant::StreamEnded(size) => size < size_modulus(),
        }) ==> decode_spec(encode_spec(v)) == v,
{
}

/// The size of the stream as far as it is known. The value is stored
/// encoded, as the shared form keeps it.
#[derive(Debug)]
pub struct Size {
    value: u64,
    /// responses analyzed so far; redirects do not count
    requests_analyzed: usize,
}

impl View for Size {
    type V = (SizeVariant, usize);

    closed spec fn view(&self) -> (SizeVariant, usize) {
        (decode_spec(self.value), self.requests_analyzed)
    }
}

/// Decoding is one to one on values that encoding produces.
proof fn lemma_encode_truncated(v: SizeVariant)
    ensures
        encode_spec(truncated(v)) == encode_spec(v),
        decode_spec(encode_spec(v)) == truncated(v),
        encode_spec(decode_spec(encode_spec(v))) == encode_spec(v),
{
}

impl Size {
    #[verifier::type_invariant]
    spec fn encoded(&self) -> bool {
        self.value == encode_spec(decode_spec(self.value))
    }

    /// Unknown, nothing analyzed yet.
    pub fn new() -> (s: Size)
        ensures
            s@ == (SizeVariant::Unknown, 0usize),
    {
        Size { value: SizeVariant::Unknown.encode(), requests_analyzed: 0 }
    }

    /// Stores `var`. Returns whether the stored value changed, in which case
    /// waiters are to be notified.
    pub fn set(&mut self, var: SizeVariant) -> (changed: bool)
        ensures
            final(self)@ == (decode_spec(encode_spec(var)), old(self)@.1),
            changed == (truncated(var) != old(self)@.0),
    {
        proof {
            use_type_invariant(&*self);
            lemma_encode_truncated(var);
        }
        let new = var.encode();
        let previous = self.value;
        self.value = new;
        previous != new
    }

    pub fn get(&self) -> (v: SizeVariant)
        ensures
            v == self@.0,
    {
        SizeVariant::decode(self.value)
    }

    /// The stream ended at `pos`.
    pub fn mark_stream_end(&mut self, pos: u64) -> (changed: bool)
        ensures
            final(self)@ == (truncated(SizeVariant::StreamEnded(pos)), old(self)@.1),
    {
        proof {
            lemma_decode_encode(SizeVariant::StreamEnded(pos));
        }
        self.set(SizeVariant::StreamEnded(pos))
    }

    /// Takes the size a response reports; counts the response as analyzed.
    pub fn update(&mut self, response: &ValidResponse) -> (changed: bool)
        ensures
            final(self)@.1 == old(self)@.1.wrapping_add(1),
            final(self)@.0 == match response.stream_size_spec() {
                Some(size) => truncated(SizeVariant::Known(size)),
                None => SizeVariant::Unknown,
            },
    {
        proof {
            use_type_invariant(&*self);
        }
        self.requests_analyzed = self.requests_analyzed.wrapping_add(1);
        if let Some(size) = response.stream_size() {
            proof {
                lemma_decode_encode(SizeVariant::Known(size));
            }
            self.set(SizeVariant::Known(size))
        } else {
            self.set(SizeVariant::Unknown)
        }
    }

    pub fn requests_analyzed(&self) -> (n: usize)
        ensures
            n == self@.1,
    {
        self.requests_analyzed
    }

    /// Size can be unknown even for range requests (think live-stream).
    pub fn known(&self) -> (r: Option<u64>)
        ensures
            r == known_of(self@.0),
    {
        match self.get() {
            SizeVariant::Unknown => None,
            SizeVariant::Known(size) => Some(size),
            SizeVariant::StreamEnded(size) => Some(size),
        }
    }

    /// Whether the stream is known to end at or before `pos`: its size is
    /// known and no byte at `pos` or after it will ever come, so a reader
    /// waiting for `pos` stops waiting and reports the end of the stream.
    pub fn eof_smaller_then(&self, pos: u64) -> (r: bool)
        ensures
            r == (known_of(self@.0) matches Some(eof) && eof <= pos),
    {
        match self.known() {
            Some(eof) => eof <= pos,
            None => false,
        }
    }
}

} // verus!
