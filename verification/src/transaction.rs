//! What a certificate hands to the transaction that carries it.

use std::marker::PhantomData;
use vstd::prelude::*;

verus! {

/// The bytes of a payload, tagged with the payload's type.
pub struct PayloadData<P> {
    data: Vec<u8>,
    phantom: PhantomData<P>,
}

/// The bytes that authorise a payload, tagged with the payload's type.
pub struct PayloadAuthData<P> {
    data: Vec<u8>,
    phantom: PhantomData<P>,
}

/// The bytes of a payload, borrowed.
pub struct PayloadSlice<'a, P> {
    data: &'a [u8],
    phantom: PhantomData<P>,
}

impl<P> View for PayloadData<P> {
    type V = Seq<u8>;

    closed spec fn view(&self) -> Seq<u8> {
        self.data@
    }
}

impl<P> View for PayloadAuthData<P> {
    type V = Seq<u8>;

    closed spec fn view(&self) -> Seq<u8> {
        self.data@
    }
}

impl<'a, P> View for PayloadSlice<'a, P> {
    type V = Seq<u8>;

    closed spec fn view(&self) -> Seq<u8> {
        self.data@
    }
}

impl<P> PayloadData<P> {
    /// The payload data made of `data`.
    pub fn new(data: Vec<u8>) -> (payload: Self)
        ensures
            payload@ == data@,
    {
        PayloadData { data, phantom: PhantomData }
    }

    /// The bytes of the payload.
    pub fn as_ref(&self) -> (bytes: &[u8])
        ensures
            bytes@ == self@,
    {
        self.data.as_slice()
    }

    /// The payload, borrowed.
    pub fn borrow(&self) -> (slice: PayloadSlice<'_, P>)
        ensures
            slice@ == self@,
    {
        PayloadSlice { data: self.data.as_slice(), phantom: PhantomData }
    }
}

impl<P> PayloadAuthData<P> {
    /// The authorisation made of `data`.
    pub fn new(data: Vec<u8>) -> (auth: Self)
        ensures
            auth@ == data@,
    {
        PayloadAuthData { data, phantom: PhantomData }
    }

    /// The bytes of the authorisation.
    pub fn as_ref(&self) -> (bytes: &[u8])
        ensures
            bytes@ == self@,
    {
        self.data.as_slice()
    }
}

impl<'a, P> PayloadSlice<'a, P> {
    /// The bytes of the payload.
    pub fn as_slice(&self) -> (bytes: &'a [u8])
        ensures
            bytes@ == self@,
    {
        self.data
    }
}

/// A certificate as the bytes of its payload, with its kind.
pub enum CertificateSlice<'a> {
    /// The payload of a vote plan.
    VotePlan(PayloadSlice<'a, crate::vote_plan::VotePlan>),
}

} // verus!
