//! Digests as identifiers: a fixed number of bytes computed from the
//! canonical encoding of a value, tagged with the hash function and with the
//! type of the value, so that the identifier of one kind of value cannot
//! stand in for that of another.

use crate::byte_builder::ByteSlice;
use std::marker::PhantomData;
use vstd::prelude::*;
use vstd::std_specs::cmp::PartialEqSpecImpl;
use vstd::std_specs::convert::FromSpecImpl;

verus! {

/// The number of bytes of a digest.
pub const DIGEST_SIZE: usize = 32;

/// The Blake2b hash function with an output of 256 bits, as a tag.
#[derive(Debug)]
pub struct Blake2b256;

/// The Blake2b-256 hash of `input`: unkeyed Blake2b, 32 bytes of output.
pub uninterp spec fn blake2b_256_of(input: Seq<u8>) -> Seq<u8>;

/// `cryptoxide::hashing::blake2b_256` computes the Blake2b-256 hash of its
/// input. It feeds the whole input to a fresh unkeyed context and returns
/// the 32 bytes that the context ends with, so that the result depends on
/// the input bytes alone. It is taken on trust to be that hash.
pub assume_specification[ cryptoxide::hashing::blake2b_256 ](input: &[u8]) -> (digest: [u8; 32])
    ensures
        digest@ == blake2b_256_of(input@),
;

/// A digest made with the hash function `H` of the encoding of a `T`.
#[derive(Debug)]
pub struct DigestOf<H, T> {
    inner: [u8; 32],
    marker: PhantomData<(H, T)>,
}

impl<H, T> View for DigestOf<H, T> {
    type V = Seq<u8>;

    closed spec fn view(&self) -> Seq<u8> {
        self.inner@
    }
}

impl<H, T> DigestOf<H, T> {
    /// A digest is 32 bytes long.
    pub proof fn lemma_len(self)
        ensures
            self@.len() == DIGEST_SIZE,
    {
    }

    /// Two digests of one kind with the same bytes are the same digest.
    pub proof fn lemma_ext_equal(self, other: Self)
        ensures
            self@ == other@ <==> self == other,
    {
        if self@ == other@ {
            assert(self.inner =~= other.inner);
        }
    }

    /// The bytes of the digest.
    pub fn as_ref(&self) -> (bytes: &[u8])
        ensures
            bytes@ == self@,
    {
        self.inner.as_slice()
    }
}

impl<T> DigestOf<Blake2b256, T> {
    /// The digest of the encoding `bytes` of a `T`.
    pub fn digest_byteslice(bytes: &ByteSlice<'_, T>) -> (digest: Self)
        ensures
            digest@ == blake2b_256_of(bytes@),
    {
        DigestOf { inner: cryptoxide::hashing::blake2b_256(bytes.as_slice()), marker: PhantomData }
    }
}

impl<H, T> From<[u8; 32]> for DigestOf<H, T> {
    fn from(bytes: [u8; 32]) -> (digest: Self) {
        DigestOf { inner: bytes, marker: PhantomData }
    }
}

impl<H, T> FromSpecImpl<[u8; 32]> for DigestOf<H, T> {
    open spec fn obeys_from_spec() -> bool {
        true
    }

    closed spec fn from_spec(bytes: [u8; 32]) -> Self {
        DigestOf { inner: bytes, marker: PhantomData }
    }
}

impl<H, T> Clone for DigestOf<H, T> {
    fn clone(&self) -> (copy: Self)
        ensures
            copy == *self,
    {
        DigestOf { inner: self.inner, marker: PhantomData }
    }
}

impl<H, T> PartialEq for DigestOf<H, T> {
    fn eq(&self, other: &Self) -> (equal: bool) {
        let mut i: usize = 0;
        while i < 32
            invariant
                i <= 32,
                forall|k: int| 0 <= k < i ==> self.inner@[k] == other.inner@[k],
            decreases 32 - i,
        {
            if self.inner[i] != other.inner[i] {
                return false;
            }
            i = i + 1;
        }
        proof {
            assert(self.inner@ =~= other.inner@);
        }
        true
    }
}

impl<H, T> PartialEqSpecImpl for DigestOf<H, T> {
    open spec fn obeys_eq_spec() -> bool {
        true
    }

    open spec fn eq_spec(&self, other: &Self) -> bool {
        self@ == other@
    }
}

impl<H, T> Eq for DigestOf<H, T> {
}

/// The bytes that `DigestOf::from` keeps are the bytes it was given.
pub proof fn lemma_from_bytes<H, T>(bytes: [u8; 32])
    ensures
        <DigestOf<H, T> as vstd::std_specs::convert::FromSpec<[u8; 32]>>::from_spec(bytes)@ == bytes@,
{
}

} // verus!
