//! Reader for the canonical byte encoding: the counterpart of the byte
//! builder. It walks a byte slice from the front and fails, without moving,
//! when a field needs more bytes than are left.

use crate::byte_builder::u32_from_be_bytes;
use vstd::prelude::*;
use vstd::slice::slice_subrange;

verus! {

/// Why a read failed.
#[derive(Debug, Clone, Copy, PartialEq, Eq, Structural)]
pub enum ReadError {
    /// The field to read is `demanded` bytes wide and only `left` bytes remain.
    TooShort { left: usize, demanded: usize },
}

/// A byte slice with a read position.
pub struct ReadBuf<'a> {
    offset: usize,
    data: &'a [u8],
}

impl<'a> View for ReadBuf<'a> {
    type V = Seq<u8>;

    /// The bytes that are still to be read.
    open spec fn view(&self) -> Seq<u8> {
        self.spec_data().skip(self.spec_position() as int)
    }
}

impl<'a> ReadBuf<'a> {
    #[verifier::type_invariant]
    spec fn well_formed(self) -> bool {
        self.offset <= self.data@.len()
    }

    /// All the bytes of the underlying slice, read or not.
    pub closed spec fn spec_data(&self) -> Seq<u8> {
        self.data@
    }

    /// The number of bytes read so far.
    pub closed spec fn spec_position(&self) -> nat {
        self.offset as nat
    }

    /// A reader at the start of `slice`.
    pub fn from(slice: &'a [u8]) -> (buf: Self)
        ensures
            buf@ == slice@,
            buf.spec_data() == slice@,
            buf.spec_position() == 0,
    {
        let buf = ReadBuf { offset: 0, data: slice };
        proof {
            assert(buf@ =~= slice@);
        }
        buf
    }

    /// The number of bytes read so far.
    pub fn position(&self) -> (p: usize)
        ensures
            p == self.spec_position(),
    {
        self.offset
    }

    /// The number of bytes that are still to be read.
    pub fn left(&self) -> (n: usize)
        ensures
            n == self@.len(),
    {
        proof {
            use_type_invariant(self);
        }
        self.data.len() - self.offset
    }

    /// Whether every byte has been read.
    pub fn is_end(&self) -> (b: bool)
        ensures
            b == (self@.len() == 0),
    {
        self.left() == 0
    }

    /// Reads one byte.
    pub fn get_u8(&mut self) -> (r: Result<u8, ReadError>)
        ensures
            final(self).spec_data() == old(self).spec_data(),
            match r {
                Ok(v) => {
                    &&& old(self)@.len() >= 1
                    &&& v == old(self)@[0]
                    &&& final(self)@ == old(self)@.skip(1)
                    &&& final(self).spec_position() == old(self).spec_position() + 1
                },
                Err(e) => {
                    &&& old(self)@.len() < 1
                    &&& e == (ReadError::TooShort { left: old(self)@.len() as usize, demanded: 1 })
                    &&& *final(self) == *old(self)
                },
            },
    {
        proof {
            use_type_invariant(&*self);
        }
        let left = self.data.len() - self.offset;
        if left < 1 {
            return Err(ReadError::TooShort { left, demanded: 1 });
        }
        let v = self.data[self.offset];
        self.offset = self.offset + 1;
        proof {
            assert(final(self)@ =~= old(self)@.skip(1));
        }
        Ok(v)
    }

    /// Reads four bytes as one big-endian number.
    pub fn get_u32(&mut self) -> (r: Result<u32, ReadError>)
        ensures
            final(self).spec_data() == old(self).spec_data(),
            match r {
                Ok(v) => {
                    &&& old(self)@.len() >= 4
                    &&& v == u32_from_be_bytes(old(self)@)
                    &&& final(self)@ == old(self)@.skip(4)
                    &&& final(self).spec_position() == old(self).spec_position() + 4
                },
                Err(e) => {
                    &&& old(self)@.len() < 4
                    &&& e == (ReadError::TooShort { left: old(self)@.len() as usize, demanded: 4 })
                    &&& *final(self) == *old(self)
                },
            },
    {
        proof {
            use_type_invariant(&*self);
        }
        let left = self.data.len() - self.offset;
        if left < 4 {
            return Err(ReadError::TooShort { left, demanded: 4 });
        }
        let b0: u32 = self.data[self.offset] as u32;
        let b1: u32 = self.data[self.offset + 1] as u32;
        let b2: u32 = self.data[self.offset + 2] as u32;
        let b3: u32 = self.data[self.offset + 3] as u32;
        let v: u32 = (b0 << 24) | (b1 << 16) | (b2 << 8) | b3;
        proof {
            assert((b0 << 24) | (b1 << 16) | (b2 << 8) | b3 == b0 * 0x100_0000 + b1 * 0x1_0000 + b2
                * 0x100 + b3) by (bit_vector)
                requires
                    b0 < 0x100,
                    b1 < 0x100,
                    b2 < 0x100,
                    b3 < 0x100,
            ;
        }
        self.offset = self.offset + 4;
        proof {
            assert(final(self)@ =~= old(self)@.skip(4));
        }
        Ok(v)
    }

    /// Reads 32 bytes as they are.
    pub fn get_array_32(&mut self) -> (r: Result<[u8; 32], ReadError>)
        ensures
            final(self).spec_data() == old(self).spec_data(),
            match r {
                Ok(a) => {
                    &&& old(self)@.len() >= 32
                    &&& a@ == old(self)@.take(32)
                    &&& final(self)@ == old(self)@.skip(32)
                    &&& final(self).spec_position() == old(self).spec_position() + 32
                },
                Err(e) => {
                    &&& old(self)@.len() < 32
                    &&& e == (ReadError::TooShort { left: old(self)@.len() as usize, demanded: 32 })
                    &&& *final(self) == *old(self)
                },
            },
    {
        let s = self.get_slice(32)?;
        let mut a = [0u8; 32];
        let mut i: usize = 0;
        while i < 32
            invariant
                i <= 32,
                s@.len() == 32,
                forall|k: int| 0 <= k < i ==> a@[k] == s@[k],
            decreases 32 - i,
        {
            a[i] = s[i];
            i = i + 1;
        }
        proof {
            assert(a@ =~= s@);
        }
        Ok(a)
    }

    /// Reads `n` bytes as they are.
    pub fn get_slice(&mut self, n: usize) -> (r: Result<&'a [u8], ReadError>)
        ensures
            final(self).spec_data() == old(self).spec_data(),
            match r {
                Ok(s) => {
                    &&& old(self)@.len() >= n
                    &&& s@ == old(self)@.take(n as int)
                    &&& final(self)@ == old(self)@.skip(n as int)
                    &&& final(self).spec_position() == old(self).spec_position() + n
                },
                Err(e) => {
                    &&& old(self)@.len() < n
                    &&& e == (ReadError::TooShort { left: old(self)@.len() as usize, demanded: n })
                    &&& *final(self) == *old(self)
                },
            },
    {
        proof {
            use_type_invariant(&*self);
        }
        let left = self.data.len() - self.offset;
        if left < n {
            return Err(ReadError::TooShort { left, demanded: n });
        }
        let s = slice_subrange(self.data, self.offset, self.offset + n);
        self.offset = self.offset + n;
        proof {
            assert(s@ =~= old(self)@.take(n as int));
            assert(final(self)@ =~= old(self)@.skip(n as int));
        }
        Ok(s)
    }
}

} // verus!
