//! Append-only builder for the canonical byte encoding of a value.
//!
//! Integers are written big endian, byte blocks verbatim. The phantom
//! parameter names the value that the bytes encode, so that the encoding of
//! one type cannot be handed on as the encoding of another.

use std::marker::PhantomData;
use vstd::prelude::*;

verus! {

/// The four bytes that stand for `v`, most significant byte first.
pub open spec fn u32_be_bytes(v: u32) -> Seq<u8> {
    seq![
        (v / 0x100_0000) as u8,
        (v / 0x1_0000 % 0x100) as u8,
        (v / 0x100 % 0x100) as u8,
        (v % 0x100) as u8,
    ]
}

/// The number whose big-endian bytes are the first four bytes of `b`.
pub open spec fn u32_from_be_bytes(b: Seq<u8>) -> u32
    recommends
        b.len() >= 4,
{
    (b[0] * 0x100_0000 + b[1] * 0x1_0000 + b[2] * 0x100 + b[3]) as u32
}

/// Reading back the big-endian bytes of a number gives that number.
pub proof fn lemma_u32_be_round_trip(v: u32)
    ensures
        u32_be_bytes(v).len() == 4,
        u32_from_be_bytes(u32_be_bytes(v)) == v,
{
}

/// Bytes under construction, tagged with the type they encode.
pub struct ByteBuilder<T> {
    buffer: Vec<u8>,
    phantom: PhantomData<T>,
}

/// Finished bytes, tagged with the type they encode.
pub struct ByteArray<T> {
    array: Vec<u8>,
    phantom: PhantomData<T>,
}

impl<T> View for ByteBuilder<T> {
    type V = Seq<u8>;

    closed spec fn view(&self) -> Seq<u8> {
        self.buffer@
    }
}

/// Borrowed bytes, tagged with the type they encode.
pub struct ByteSlice<'a, T> {
    slice: &'a [u8],
    phantom: PhantomData<T>,
}

impl<'a, T> View for ByteSlice<'a, T> {
    type V = Seq<u8>;

    closed spec fn view(&self) -> Seq<u8> {
        self.slice@
    }
}

impl<'a, T> ByteSlice<'a, T> {
    /// The bytes, without their tag.
    pub fn as_slice(&self) -> (s: &'a [u8])
        ensures
            s@ == self@,
    {
        self.slice
    }
}

impl<T> View for ByteArray<T> {
    type V = Seq<u8>;

    closed spec fn view(&self) -> Seq<u8> {
        self.array@
    }
}

impl<T> ByteBuilder<T> {
    /// A builder that holds no byte yet.
    pub fn new() -> (bb: Self)
        ensures
            bb@ == Seq::<u8>::empty(),
    {
        ByteBuilder { buffer: Vec::new(), phantom: PhantomData }
    }

    /// Appends one byte.
    pub fn u8(self, v: u8) -> (bb: Self)
        ensures
            bb@ == self@.push(v),
    {
        let mut buffer = self.buffer;
        buffer.push(v);
        ByteBuilder { buffer, phantom: PhantomData }
    }

    /// Appends `v` as four bytes, big endian.
    pub fn u32(self, v: u32) -> (bb: Self)
        ensures
            bb@ == self@ + u32_be_bytes(v),
    {
        let b0: u8 = (v >> 24) as u8;
        let b1: u8 = ((v >> 16) & 0xff) as u8;
        let b2: u8 = ((v >> 8) & 0xff) as u8;
        let b3: u8 = (v & 0xff) as u8;
        proof {
            assert(v >> 24 == v / 0x100_0000) by (bit_vector);
            assert((v >> 16) & 0xff == v / 0x1_0000 % 0x100) by (bit_vector);
            assert((v >> 8) & 0xff == v / 0x100 % 0x100) by (bit_vector);
            assert(v & 0xff == v % 0x100) by (bit_vector);
        }
        let mut buffer = self.buffer;
        buffer.push(b0);
        buffer.push(b1);
        buffer.push(b2);
        buffer.push(b3);
        proof {
            assert(buffer@ =~= self.buffer@ + u32_be_bytes(v));
        }
        ByteBuilder { buffer, phantom: PhantomData }
    }

    /// Appends the bytes of `v` as they are.
    pub fn bytes(self, v: &[u8]) -> (bb: Self)
        ensures
            bb@ == self@ + v@,
    {
        let mut buffer = self.buffer;
        buffer.extend_from_slice(v);
        ByteBuilder { buffer, phantom: PhantomData }
    }

    /// Ends the construction and hands out the bytes written so far.
    pub fn finalize(self) -> (ba: ByteArray<T>)
        ensures
            ba@ == self@,
    {
        ByteArray { array: self.buffer, phantom: PhantomData }
    }

    /// Ends the construction and hands out the bytes as a plain vector.
    pub fn finalize_as_vec(self) -> (v: Vec<u8>)
        ensures
            v@ == self@,
    {
        self.buffer
    }
}

impl<T> ByteArray<T> {
    /// The bytes, in the order in which they were written.
    pub fn as_slice(&self) -> (s: &[u8])
        ensures
            s@ == self@,
    {
        self.array.as_slice()
    }

    /// The bytes, borrowed with their tag.
    pub fn as_byteslice(&self) -> (s: ByteSlice<'_, T>)
        ensures
            s@ == self@,
    {
        ByteSlice { slice: self.array.as_slice(), phantom: PhantomData }
    }
}

} // verus!
