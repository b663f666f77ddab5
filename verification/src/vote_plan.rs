//! The vote plan certificate.
//!
//! A vote plan says what is voted on, until when votes are cast and until
//! when the committee publishes the result. Its canonical encoding is:
//!
//! ```text
//! offset  size  field
//! 0       4     vote_start.epoch        big endian
//! 4       4     vote_start.slot_id      big endian
//! 8       4     vote_end.epoch          big endian
//! 12      4     vote_end.slot_id        big endian
//! 16      4     committee_end.epoch     big endian
//! 20      4     committee_end.slot_id   big endian
//! 24      1     number of proposals, N
//! 25      N*33  for each proposal: 32 bytes of external id, 1 byte of options
//! ```
//!
//! The identifier of a vote plan is the Blake2b-256 digest of that encoding.

use crate::block_date::BlockDate;
use crate::byte_builder::{u32_be_bytes, u32_from_be_bytes, ByteArray, ByteBuilder};
use crate::byte_builder::lemma_u32_be_round_trip;
use crate::digest::{blake2b_256_of, lemma_from_bytes, Blake2b256, DigestOf};
use crate::mempack::{ReadBuf, ReadError};
use crate::transaction::{CertificateSlice, PayloadAuthData, PayloadData, PayloadSlice};
use std::ops::Deref;
use vstd::prelude::*;

verus! {

/// Tag for a document outside of the ledger, whatever it may be.
#[derive(Debug)]
pub struct ExternalProposalDocument;

/// The identifier of a proposal: the digest of the external document.
pub type ExternalProposalId = DigestOf<Blake2b256, ExternalProposalDocument>;

/// The identifier of a vote plan on the ledger.
pub type VotePlanId = DigestOf<Blake2b256, VotePlan>;

/// The number of bytes before the first proposal in an encoded vote plan.
pub const HEADER_SIZE: usize = 25;

/// The number of bytes of one encoded proposal.
pub const PROPOSAL_SIZE: usize = 33;

/// What is voted, until when, and until when the committee reveals the
/// result.
#[derive(Debug, PartialEq, Eq)]
pub struct VotePlan {
    vote_start: BlockDate,
    vote_end: BlockDate,
    committee_end: BlockDate,
    proposals: Proposals,
}

/// The proposals of a vote plan, in the order in which they were added.
/// There are never more than 255 of them.
#[derive(Debug, PartialEq, Eq)]
pub struct Proposals {
    proposals: Vec<Proposal>,
}

/// The number of choices of a proposal, kept in four bits.
#[derive(Debug, PartialEq, Eq)]
pub struct VoteOptions {
    num_choices: u8,
}

/// A proposal: the identifier of the document that describes it, and the
/// number of choices it offers.
#[derive(Debug, PartialEq, Eq)]
pub struct Proposal {
    external_id: ExternalProposalId,
    options: VoteOptions,
}

/// What became of a proposal handed to `Proposals::push`.
#[must_use]
pub enum PushProposal {
    /// The proposal is now the last of the collection.
    Success,
    /// The collection was full; the proposal comes back.
    Full { proposal: Proposal },
}

/// Where a date stands in the life of a vote plan.
#[derive(Debug, Clone, Copy, PartialEq, Eq, Structural)]
pub enum VotePhase {
    /// Before the start of the vote.
    NotStarted,
    /// From the start of the vote to just before its end: votes are cast.
    Voting,
    /// From the end of the vote to just before the end of the committee's
    /// time: the committee opens the ballots and publishes the result.
    CommitteeWindow,
    /// From the end of the committee's time on.
    Closed,
}

impl VotePhase {
    /// The place of the phase in the life of a vote plan, from 0 to 3.
    pub open spec fn rank(self) -> nat {
        match self {
            VotePhase::NotStarted => 0,
            VotePhase::Voting => 1,
            VotePhase::CommitteeWindow => 2,
            VotePhase::Closed => 3,
        }
    }
}

/// A proposal as a mathematical value.
pub struct ProposalView {
    pub external_id: Seq<u8>,
    pub options: u8,
}

/// A vote plan as a mathematical value.
pub struct VotePlanView {
    pub vote_start: BlockDate,
    pub vote_end: BlockDate,
    pub committee_end: BlockDate,
    pub proposals: Seq<ProposalView>,
}

impl ProposalView {
    /// The identifier is a digest and the options fit in four bits.
    pub open spec fn valid(self) -> bool {
        self.external_id.len() == 32 && self.options <= 15
    }
}

impl VotePlanView {
    /// There are at most 255 proposals, each of them valid.
    pub open spec fn valid(self) -> bool {
        &&& self.proposals.len() <= 255
        &&& forall|i: int| 0 <= i < self.proposals.len() ==> (#[trigger] self.proposals[i]).valid()
    }

    /// The vote does not end before it starts, nor the committee's time
    /// before the vote.
    pub open spec fn ordered(self) -> bool {
        self.vote_start.is_at_or_before(self.vote_end) && self.vote_end.is_at_or_before(
            self.committee_end,
        )
    }
}

/// The phase of `plan` at `date`. Each of the three dates of the plan opens
/// a phase: a date that is one of them belongs to the phase that begins
/// there.
pub open spec fn phase_at(plan: VotePlanView, date: BlockDate) -> VotePhase {
    if date.is_before(plan.vote_start) {
        VotePhase::NotStarted
    } else if date.is_before(plan.vote_end) {
        VotePhase::Voting
    } else if date.is_before(plan.committee_end) {
        VotePhase::CommitteeWindow
    } else {
        VotePhase::Closed
    }
}

/// The life of a vote plan goes one way: at a later date the plan is in the
/// same phase or in a later one.
pub proof fn lemma_phase_monotonic(plan: VotePlanView, earlier: BlockDate, later: BlockDate)
    requires
        earlier.is_at_or_before(later),
    ensures
        phase_at(plan, earlier).rank() <= phase_at(plan, later).rank(),
{
}

/// Where the dates of a plan are in order, the phase tells what has started
/// and what has finished.
pub proof fn lemma_phase_of_ordered_plan(plan: VotePlanView, date: BlockDate)
    requires
        plan.ordered(),
    ensures
        plan.vote_start.is_at_or_before(date) <==> phase_at(plan, date) != VotePhase::NotStarted,
        plan.vote_end.is_at_or_before(date) <==> phase_at(plan, date).rank() >= 2,
        plan.committee_end.is_at_or_before(date) <==> phase_at(plan, date) == VotePhase::Closed,
        plan.vote_start.is_at_or_before(date) && !plan.vote_end.is_at_or_before(date) <==> phase_at(
            plan,
            date,
        ) == VotePhase::Voting,
{
}

/// The encoding of one proposal: its identifier, then its options.
pub open spec fn encode_proposal(p: ProposalView) -> Seq<u8> {
    p.external_id.push(p.options)
}

/// The encodings of the proposals of `ps`, one after the other.
pub open spec fn encode_proposals(ps: Seq<ProposalView>) -> Seq<u8>
    decreases ps.len(),
{
    if ps.len() == 0 {
        Seq::empty()
    } else {
        encode_proposals(ps.drop_last()) + encode_proposal(ps.last())
    }
}

/// The encoding of the three dates: six numbers of four bytes.
pub open spec fn encode_dates(plan: VotePlanView) -> Seq<u8> {
    u32_be_bytes(plan.vote_start.epoch) + u32_be_bytes(plan.vote_start.slot_id) + u32_be_bytes(
        plan.vote_end.epoch,
    ) + u32_be_bytes(plan.vote_end.slot_id) + u32_be_bytes(plan.committee_end.epoch)
        + u32_be_bytes(plan.committee_end.slot_id)
}

/// The canonical encoding of a vote plan.
pub open spec fn encode(plan: VotePlanView) -> Seq<u8> {
    encode_dates(plan).push(plan.proposals.len() as u8) + encode_proposals(plan.proposals)
}

/// The length of the encoding of a vote plan with `count` proposals.
pub open spec fn encoded_size(count: nat) -> nat {
    (HEADER_SIZE + PROPOSAL_SIZE * count) as nat
}

/// The date whose epoch is written at `at` in `bytes`, and whose slot
/// follows.
pub open spec fn decode_date(bytes: Seq<u8>, at: int) -> BlockDate {
    BlockDate {
        epoch: u32_from_be_bytes(bytes.subrange(at, at + 4)),
        slot_id: u32_from_be_bytes(bytes.subrange(at + 4, at + 8)),
    }
}

/// The proposal number `i` of an encoded vote plan. Of the byte of options
/// only the low four bits count.
pub open spec fn decode_proposal(bytes: Seq<u8>, i: int) -> ProposalView {
    ProposalView {
        external_id: bytes.subrange(25 + 33 * i, 25 + 33 * i + 32),
        options: bytes[25 + 33 * i + 32] & 0x0f,
    }
}

/// The first field of the layout that `bytes` is too short for, as the
/// error that reading it gives; `None` where `bytes` holds a whole vote
/// plan.
pub open spec fn decode_failure(bytes: Seq<u8>) -> Option<ReadError> {
    let len = bytes.len();
    if len < 24 {
        Some(ReadError::TooShort { left: (len % 4) as usize, demanded: 4 })
    } else if len == 24 {
        Some(ReadError::TooShort { left: 0, demanded: 1 })
    } else if len >= encoded_size(bytes[24] as nat) {
        None
    } else if (len - 25) % 33 == 32 {
        Some(ReadError::TooShort { left: 0, demanded: 1 })
    } else {
        Some(ReadError::TooShort { left: ((len - 25) % 33) as usize, demanded: 32 })
    }
}

/// The vote plan that the front of `bytes` encodes, or the error of the
/// first field that does not fit. Bytes after the last proposal are not
/// looked at.
pub open spec fn decode(bytes: Seq<u8>) -> Result<VotePlanView, ReadError> {
    match decode_failure(bytes) {
        Some(e) => Err(e),
        None => Ok(
            VotePlanView {
                vote_start: decode_date(bytes, 0),
                vote_end: decode_date(bytes, 8),
                committee_end: decode_date(bytes, 16),
                proposals: Seq::new(bytes[24] as nat, |i: int| decode_proposal(bytes, i)),
            },
        ),
    }
}

/// The identifier of a vote plan: the digest of its encoding.
pub open spec fn vote_plan_id(plan: VotePlanView) -> Seq<u8> {
    blake2b_256_of(encode(plan))
}

/// Where each identifier is 32 bytes long, the encoding of `ps` is 33 bytes
/// for each proposal, and proposal number `i` stands at 33 times `i`.
pub proof fn lemma_encode_proposals_layout(ps: Seq<ProposalView>)
    requires
        forall|i: int| 0 <= i < ps.len() ==> (#[trigger] ps[i]).external_id.len() == 32,
    ensures
        encode_proposals(ps).len() == 33 * ps.len(),
        forall|i: int|
            0 <= i < ps.len() ==> #[trigger] encode_proposals(ps).subrange(33 * i, 33 * i + 33)
                == encode_proposal(ps[i]),
    decreases ps.len(),
{
    if ps.len() > 0 {
        let init = ps.drop_last();
        lemma_encode_proposals_layout(init);
        let whole = encode_proposals(ps);
        assert forall|i: int| 0 <= i < ps.len() implies #[trigger] whole.subrange(
            33 * i,
            33 * i + 33,
        ) == encode_proposal(ps[i]) by {
            if i < init.len() {
                assert(init[i] == ps[i]);
                assert(whole.subrange(33 * i, 33 * i + 33) =~= encode_proposals(init).subrange(
                    33 * i,
                    33 * i + 33,
                ));
            } else {
                assert(whole.subrange(33 * i, 33 * i + 33) =~= encode_proposal(ps.last()));
            }
        }
    }
}

/// The layout of an encoded vote plan: the dates in the first 24 bytes, the
/// number of proposals in the next, then 33 bytes for each proposal.
pub proof fn lemma_encode_layout(plan: VotePlanView)
    requires
        plan.valid(),
    ensures
        encode(plan).len() == encoded_size(plan.proposals.len()),
        encode(plan).subrange(0, 4) == u32_be_bytes(plan.vote_start.epoch),
        encode(plan).subrange(4, 8) == u32_be_bytes(plan.vote_start.slot_id),
        encode(plan).subrange(8, 12) == u32_be_bytes(plan.vote_end.epoch),
        encode(plan).subrange(12, 16) == u32_be_bytes(plan.vote_end.slot_id),
        encode(plan).subrange(16, 20) == u32_be_bytes(plan.committee_end.epoch),
        encode(plan).subrange(20, 24) == u32_be_bytes(plan.committee_end.slot_id),
        encode(plan)[24] == plan.proposals.len(),
        forall|i: int|
            0 <= i < plan.proposals.len() ==> #[trigger] encode(plan).subrange(
                25 + 33 * i,
                25 + 33 * i + 33,
            ) == encode_proposal(plan.proposals[i]),
{
    let e = encode(plan);
    let ps = plan.proposals;
    lemma_encode_proposals_layout(ps);
    assert(e.subrange(0, 4) =~= u32_be_bytes(plan.vote_start.epoch));
    assert(e.subrange(4, 8) =~= u32_be_bytes(plan.vote_start.slot_id));
    assert(e.subrange(8, 12) =~= u32_be_bytes(plan.vote_end.epoch));
    assert(e.subrange(12, 16) =~= u32_be_bytes(plan.vote_end.slot_id));
    assert(e.subrange(16, 20) =~= u32_be_bytes(plan.committee_end.epoch));
    assert(e.subrange(20, 24) =~= u32_be_bytes(plan.committee_end.slot_id));
    assert forall|i: int| 0 <= i < ps.len() implies #[trigger] e.subrange(
        25 + 33 * i,
        25 + 33 * i + 33,
    ) == encode_proposal(ps[i]) by {
        assert(e.subrange(25 + 33 * i, 25 + 33 * i + 33) =~= encode_proposals(ps).subrange(
            33 * i,
            33 * i + 33,
        ));
    }
}

/// Round trip: decoding the encoding of a valid vote plan gives the vote
/// plan back, whatever follows the encoding.
pub proof fn lemma_decode_encode(plan: VotePlanView, rest: Seq<u8>)
    requires
        plan.valid(),
    ensures
        decode(encode(plan) + rest) == Ok::<VotePlanView, ReadError>(plan),
{
    let e = encode(plan);
    let bytes = e + rest;
    let ps = plan.proposals;
    lemma_encode_layout(plan);
    assert(bytes[24] == e[24]);
    assert(decode_failure(bytes) is None);
    let back = decode(bytes)->Ok_0;
    assert(back.vote_start == plan.vote_start) by {
        assert(bytes.subrange(0, 4) =~= e.subrange(0, 4));
        assert(bytes.subrange(4, 8) =~= e.subrange(4, 8));
        lemma_u32_be_round_trip(plan.vote_start.epoch);
        lemma_u32_be_round_trip(plan.vote_start.slot_id);
    }
    assert(back.vote_end == plan.vote_end) by {
        assert(bytes.subrange(8, 12) =~= e.subrange(8, 12));
        assert(bytes.subrange(12, 16) =~= e.subrange(12, 16));
        lemma_u32_be_round_trip(plan.vote_end.epoch);
        lemma_u32_be_round_trip(plan.vote_end.slot_id);
    }
    assert(back.committee_end == plan.committee_end) by {
        assert(bytes.subrange(16, 20) =~= e.subrange(16, 20));
        assert(bytes.subrange(20, 24) =~= e.subrange(20, 24));
        lemma_u32_be_round_trip(plan.committee_end.epoch);
        lemma_u32_be_round_trip(plan.committee_end.slot_id);
    }
    assert(back.proposals =~= ps) by {
        assert forall|i: int| 0 <= i < ps.len() implies decode_proposal(bytes, i) == ps[i] by {
            let chunk = e.subrange(25 + 33 * i, 25 + 33 * i + 33);
            assert(chunk == encode_proposal(ps[i]));
            assert(ps[i].valid());
            assert(bytes.subrange(25 + 33 * i, 25 + 33 * i + 32) =~= chunk.subrange(0, 32));
            assert(chunk.subrange(0, 32) =~= ps[i].external_id);
            assert(bytes[25 + 33 * i + 32] == chunk[32]);
            let o = ps[i].options;
            assert(o <= 15 ==> o & 0x0f == o) by (bit_vector);
        }
    }
}

/// Round trip: decoding the encoding of a valid vote plan gives the vote
/// plan back.
pub proof fn lemma_round_trip(plan: VotePlanView)
    requires
        plan.valid(),
    ensures
        decode(encode(plan)) == Ok::<VotePlanView, ReadError>(plan),
{
    lemma_decode_encode(plan, Seq::empty());
    assert(encode(plan) + Seq::<u8>::empty() =~= encode(plan));
}

/// Two valid vote plans that differ, in a date, in a proposal or in the
/// order of their proposals, have different encodings.
pub proof fn lemma_encode_injective(a: VotePlanView, b: VotePlanView)
    requires
        a.valid(),
        b.valid(),
        a != b,
    ensures
        encode(a) != encode(b),
{
    lemma_round_trip(a);
    lemma_round_trip(b);
}

/// Two valid vote plans that differ have the same identifier only where the
/// hash function gives the same digest for their two different encodings.
pub proof fn lemma_same_id_is_a_collision(a: VotePlanView, b: VotePlanView)
    requires
        a.valid(),
        b.valid(),
        a != b,
        vote_plan_id(a) == vote_plan_id(b),
    ensures
        encode(a) != encode(b),
        blake2b_256_of(encode(a)) == blake2b_256_of(encode(b)),
{
    lemma_encode_injective(a, b);
}

/// The encoding and the identifier are functions of the vote plan's value:
/// two vote plans with the same dates and the same proposals in the same
/// order have the same encoding and the same identifier.
pub proof fn lemma_encoding_determined(a: VotePlan, b: VotePlan)
    requires
        a@ == b@,
    ensures
        encode(a@) == encode(b@),
        vote_plan_id(a@) == vote_plan_id(b@),
{
}

/// Decoding fails exactly on input that ends before the 25 bytes of the
/// dates and the count, or before the last of the proposals that the count
/// announces; and then with an error that tells how many bytes were left
/// for a field of how many.
pub proof fn lemma_decode_fails_on_short_input(bytes: Seq<u8>)
    ensures
        decode(bytes) is Err <==> bytes.len() < 25 || bytes.len() < encoded_size(bytes[24] as nat),
        decode(bytes) matches Err(ReadError::TooShort { left, demanded }) ==> left < demanded,
{
}

/// What `decode` gives is a valid vote plan.
pub proof fn lemma_decode_valid(bytes: Seq<u8>)
    ensures
        decode(bytes) matches Ok(plan) ==> plan.valid(),
{
    if let Ok(plan) = decode(bytes) {
        assert forall|i: int| 0 <= i < plan.proposals.len() implies (
        #[trigger] plan.proposals[i]).valid() by {
            let b = bytes[25 + 33 * i + 32];
            assert(b & 0x0f <= 15) by (bit_vector);
        }
    }
}

impl View for VoteOptions {
    type V = u8;

    closed spec fn view(&self) -> u8 {
        self.num_choices
    }
}

impl View for Proposal {
    type V = ProposalView;

    closed spec fn view(&self) -> ProposalView {
        ProposalView { external_id: self.external_id@, options: self.options@ }
    }
}

impl View for Proposals {
    type V = Seq<ProposalView>;

    closed spec fn view(&self) -> Seq<ProposalView> {
        self.proposals@.map_values(|p: Proposal| p@)
    }
}

impl View for VotePlan {
    type V = VotePlanView;

    closed spec fn view(&self) -> VotePlanView {
        VotePlanView {
            vote_start: self.vote_start,
            vote_end: self.vote_end,
            committee_end: self.committee_end,
            proposals: self.proposals@,
        }
    }
}

impl VoteOptions {
    /// The largest number of choices.
    pub const NUM_CHOICES_MAX: u8 = 0b0000_1111;

    #[verifier::type_invariant]
    spec fn well_formed(self) -> bool {
        self.num_choices <= 15
    }

    /// Options with `num_choices` choices. Only the low four bits of the
    /// number are kept: a number above 15 is cut down, without an error.
    pub fn new_length(num_choices: u8) -> (options: Self)
        ensures
            options@ == num_choices & 0b0000_1111,
            options@ <= 15,
            num_choices <= 15 ==> options@ == num_choices,
    {
        assert(num_choices & 0b0000_1111 <= 15) by (bit_vector);
        assert(num_choices <= 15 ==> num_choices & 0b0000_1111 == num_choices) by (bit_vector);
        Self { num_choices: num_choices & Self::NUM_CHOICES_MAX }
    }
}

impl Proposal {
    #[verifier::type_invariant]
    spec fn well_formed(self) -> bool {
        self.options.num_choices <= 15
    }

    /// The proposal for the document `external_id`, with `options`.
    pub fn new(external_id: ExternalProposalId, options: VoteOptions) -> (proposal: Self)
        ensures
            proposal@ == (ProposalView { external_id: external_id@, options: options@ }),
            proposal@.valid(),
    {
        proof {
            use_type_invariant(&options);
            external_id.lemma_len();
        }
        Self { external_id, options }
    }

    /// The identifier of the document that describes the proposal.
    pub fn external_id(&self) -> (id: &ExternalProposalId)
        ensures
            id@ == self@.external_id,
    {
        &self.external_id
    }

    /// Appends the encoding of the proposal to `bb`.
    fn serialize_in(&self, bb: ByteBuilder<VotePlan>) -> (out: ByteBuilder<VotePlan>)
        ensures
            out@ == bb@ + encode_proposal(self@),
            self@.valid(),
    {
        proof {
            use_type_invariant(self);
            self.external_id.lemma_len();
        }
        let out = bb.bytes(self.external_id.as_ref()).u8(self.options.num_choices);
        proof {
            assert(out@ =~= bb@ + encode_proposal(self@));
        }
        out
    }
}

impl Proposals {
    /// The largest number of proposals of a collection.
    pub const MAX_LEN: usize = 255;

    #[verifier::type_invariant]
    spec fn well_formed(self) -> bool {
        self.proposals@.len() <= 255
    }

    /// The view lists the proposals one by one.
    proof fn lemma_view(self)
        ensures
            self@.len() == self.proposals@.len(),
            forall|i: int| 0 <= i < self@.len() ==> self@[i] == #[trigger] self.proposals@[i]@,
    {
    }

    /// A collection without proposals.
    pub fn new() -> (proposals: Proposals)
        ensures
            proposals@ == Seq::<ProposalView>::empty(),
    {
        let proposals = Self { proposals: Vec::with_capacity(12) };
        proof {
            assert(proposals@ =~= Seq::<ProposalView>::empty());
        }
        proposals
    }

    /// Whether the collection holds as many proposals as it can.
    #[inline]
    pub fn full(&self) -> (full: bool)
        ensures
            full == (self@.len() == 255),
            self@.len() <= 255,
    {
        proof {
            use_type_invariant(self);
        }
        self.proposals.len() >= Self::MAX_LEN
    }

    /// Adds `proposal` at the end, unless the collection is full: then the
    /// collection stays as it is and the proposal comes back.
    pub fn push(&mut self, proposal: Proposal) -> (pushed: PushProposal)
        ensures
            old(self)@.len() < 255 ==> pushed is Success && final(self)@ == old(self)@.push(
                proposal@,
            ),
            old(self)@.len() >= 255 ==> pushed == (PushProposal::Full { proposal }) && *final(self)
                == *old(self),
            final(self)@.len() <= 255,
    {
        proof {
            use_type_invariant(&*self);
        }
        if self.full() {
            PushProposal::Full { proposal }
        } else {
            let mut proposals: Vec<Proposal> = Vec::new();
            std::mem::swap(&mut self.proposals, &mut proposals);
            proposals.push(proposal);
            std::mem::swap(&mut self.proposals, &mut proposals);
            proof {
                assert(final(self)@ =~= old(self)@.push(proposal@));
            }
            PushProposal::Success
        }
    }
}

impl Clone for VoteOptions {
    fn clone(&self) -> (copy: Self)
        ensures
            copy@ == self@,
    {
        proof {
            use_type_invariant(self);
        }
        Self { num_choices: self.num_choices }
    }
}

impl Clone for Proposal {
    fn clone(&self) -> (copy: Self)
        ensures
            copy@ == self@,
    {
        proof {
            use_type_invariant(self);
        }
        Self { external_id: self.external_id.clone(), options: self.options.clone() }
    }
}

impl Clone for Proposals {
    fn clone(&self) -> (copy: Self)
        ensures
            copy@ == self@,
    {
        proof {
            use_type_invariant(self);
        }
        let n: usize = self.proposals.len();
        let mut proposals: Vec<Proposal> = Vec::with_capacity(n);
        let mut i: usize = 0;
        while i < n
            invariant
                i <= n,
                n == self.proposals@.len(),
                proposals@.len() == i,
                forall|k: int| 0 <= k < i ==> (#[trigger] proposals@[k])@ == self.proposals@[k]@,
            decreases n - i,
        {
            proposals.push(self.proposals[i].clone());
            i = i + 1;
        }
        let copy = Self { proposals };
        proof {
            assert(copy@ =~= self@);
        }
        copy
    }
}

impl Clone for VotePlan {
    fn clone(&self) -> (copy: Self)
        ensures
            copy@ == self@,
    {
        Self {
            vote_start: self.vote_start,
            vote_end: self.vote_end,
            committee_end: self.committee_end,
            proposals: self.proposals.clone(),
        }
    }
}

impl Deref for Proposals {
    type Target = [Proposal];

    /// The proposals as a slice.
    fn deref(&self) -> (slice: &[Proposal])
        ensures
            slice@.len() == self@.len(),
            slice@.len() <= 255,
            forall|i: int| 0 <= i < slice@.len() ==> (#[trigger] slice@[i])@ == self@[i],
    {
        proof {
            use_type_invariant(self);
        }
        self.proposals.as_slice()
    }
}

impl VotePlan {
    /// The vote plan with these dates and proposals. The order of the dates
    /// is not looked at.
    pub fn new(
        vote_start: BlockDate,
        vote_end: BlockDate,
        committee_end: BlockDate,
        proposals: Proposals,
    ) -> (plan: Self)
        ensures
            plan@ == (VotePlanView {
                vote_start,
                vote_end,
                committee_end,
                proposals: proposals@,
            }),
    {
        Self { vote_start, vote_end, committee_end, proposals }
    }

    /// The proposals of the vote plan.
    pub fn proposals(&self) -> (proposals: &Proposals)
        ensures
            proposals@ == self@.proposals,
    {
        &self.proposals
    }

    /// The proposals of the vote plan, to add to them.
    pub fn proposals_mut(&mut self) -> (proposals: &mut Proposals)
        ensures
            proposals@ == old(self)@.proposals,
            final(self)@ == (VotePlanView { proposals: final(proposals)@, ..old(self)@ }),
    {
        &mut self.proposals
    }

    /// Whether the dates of the vote plan are in order: the vote does not
    /// end before it starts, nor the committee's time before the vote.
    pub fn dates_in_order(&self) -> (ordered: bool)
        ensures
            ordered == self@.ordered(),
    {
        self.vote_start <= self.vote_end && self.vote_end <= self.committee_end
    }

    /// The phase of the vote plan at `date`.
    pub fn phase(&self, date: BlockDate) -> (phase: VotePhase)
        ensures
            phase == phase_at(self@, date),
    {
        if date < self.vote_start {
            VotePhase::NotStarted
        } else if date < self.vote_end {
            VotePhase::Voting
        } else if date < self.committee_end {
            VotePhase::CommitteeWindow
        } else {
            VotePhase::Closed
        }
    }

    /// Whether the vote has started at `date`: the date is the start of the
    /// vote or comes after it.
    #[inline]
    pub fn vote_started(&self, date: BlockDate) -> (started: bool)
        ensures
            started == self@.vote_start.is_at_or_before(date),
    {
        self.vote_start <= date
    }

    /// Whether the vote has finished at `date`: the date is the end of the
    /// vote or comes after it.
    #[inline]
    pub fn vote_finished(&self, date: BlockDate) -> (finished: bool)
        ensures
            finished == self@.vote_end.is_at_or_before(date),
    {
        self.vote_end <= date
    }

    /// Whether votes are cast at `date`: the vote has started and has not
    /// finished.
    pub fn can_vote(&self, date: BlockDate) -> (open: bool)
        ensures
            open == (self@.vote_start.is_at_or_before(date) && !self@.vote_end.is_at_or_before(
                date,
            )),
            self@.ordered() ==> open == (phase_at(self@, date) == VotePhase::Voting),
    {
        self.vote_started(date) && !self.vote_finished(date)
    }

    /// Whether the committee's time has started at `date`: it starts where
    /// the vote ends.
    #[inline]
    pub fn committee_started(&self, date: BlockDate) -> (started: bool)
        ensures
            started == self@.vote_end.is_at_or_before(date),
    {
        self.vote_end <= date
    }

    /// Whether the committee's time has finished at `date`: the date is its
    /// end or comes after it.
    #[inline]
    pub fn committee_finished(&self, date: BlockDate) -> (finished: bool)
        ensures
            finished == self@.committee_end.is_at_or_before(date),
    {
        self.committee_end <= date
    }

    /// Appends the canonical encoding of the vote plan to `bb`.
    pub fn serialize_in(&self, bb: ByteBuilder<Self>) -> (out: ByteBuilder<Self>)
        ensures
            out@ == bb@ + encode(self@),
            self@.valid(),
    {
        let proposals: &[Proposal] = self.proposals.deref();
        let n: usize = proposals.len();
        let mut out = bb.u32(self.vote_start.epoch).u32(self.vote_start.slot_id).u32(
            self.vote_end.epoch,
        ).u32(self.vote_end.slot_id).u32(self.committee_end.epoch).u32(
            self.committee_end.slot_id,
        ).u8(n as u8);
        let ghost front = bb@ + encode_dates(self@).push(n as u8);
        proof {
            assert(out@ =~= front);
            assert(self@.proposals.take(0) =~= Seq::<ProposalView>::empty());
        }
        let mut i: usize = 0;
        while i < n
            invariant
                i <= n,
                n == proposals@.len(),
                n == self@.proposals.len(),
                n <= 255,
                forall|k: int| 0 <= k < n ==> (#[trigger] proposals@[k])@ == self@.proposals[k],
                forall|k: int| 0 <= k < i ==> (#[trigger] self@.proposals[k]).valid(),
                out@ == front + encode_proposals(self@.proposals.take(i as int)),
            decreases n - i,
        {
            out = proposals[i].serialize_in(out);
            proof {
                let before = self@.proposals.take(i as int);
                let after = self@.proposals.take(i + 1);
                assert(after.drop_last() =~= before);
                assert(after.last() == self@.proposals[i as int]);
                assert(out@ =~= front + encode_proposals(after));
            }
            i = i + 1;
        }
        proof {
            assert(self@.proposals.take(n as int) =~= self@.proposals);
            assert(out@ =~= bb@ + encode(self@));
        }
        out
    }

    /// The canonical encoding of the vote plan.
    pub fn serialize(&self) -> (bytes: ByteArray<Self>)
        ensures
            bytes@ == encode(self@),
            self@.valid(),
    {
        let bytes = self.serialize_in(ByteBuilder::new()).finalize();
        proof {
            assert(bytes@ =~= encode(self@));
        }
        bytes
    }

    /// Reads a vote plan from the front of what is left in `buf`, and leaves
    /// `buf` behind its last proposal. Where a field does not fit, the
    /// result is the error of that field and `buf` stands before it.
    pub fn read<'a>(buf: &mut ReadBuf<'a>) -> (r: Result<Self, ReadError>)
        ensures
            final(buf).spec_data() == old(buf).spec_data(),
            match decode(old(buf)@) {
                Ok(plan) => {
                    &&& r is Ok
                    &&& r->Ok_0@ == plan
                    &&& plan.valid()
                    &&& final(buf)@ == old(buf)@.skip(encoded_size(plan.proposals.len()) as int)
                },
                Err(e) => {
                    &&& r == Err::<Self, ReadError>(e)
                    &&& e matches ReadError::TooShort { left, .. }
                    &&& left <= old(buf)@.len()
                    &&& final(buf)@ == old(buf)@.skip(old(buf)@.len() - left)
                },
            },
    {
        let ghost start = buf@;
        proof {
            assert(start.skip(0) =~= start);
        }
        let vote_start = BlockDate { epoch: buf.get_u32()?, slot_id: buf.get_u32()? };
        let vote_end = BlockDate { epoch: buf.get_u32()?, slot_id: buf.get_u32()? };
        let committee_end = BlockDate { epoch: buf.get_u32()?, slot_id: buf.get_u32()? };
        proof {
            assert(vote_start == decode_date(start, 0)) by {
                assert(start.subrange(0, 4) =~= start.take(4));
                assert(start.subrange(4, 8) =~= start.skip(4).take(4));
            }
            assert(vote_end == decode_date(start, 8)) by {
                assert(start.subrange(8, 12) =~= start.skip(4).skip(4).take(4));
                assert(start.subrange(12, 16) =~= start.skip(4).skip(4).skip(4).take(4));
            }
            assert(committee_end == decode_date(start, 16)) by {
                assert(start.subrange(16, 20) =~= start.skip(4).skip(4).skip(4).skip(4).take(4));
                assert(start.subrange(20, 24) =~= start.skip(4).skip(4).skip(4).skip(4).skip(
                    4,
                ).take(4));
            }
            assert(buf@ =~= start.skip(24));
        }
        let proposal_size: usize = buf.get_u8()? as usize;
        let mut proposals: Vec<Proposal> = Vec::with_capacity(proposal_size);
        let mut i: usize = 0;
        proof {
            assert(buf@ =~= start.skip(25));
        }
        while i < proposal_size
            invariant
                i <= proposal_size,
                start == old(buf)@,
                start.len() >= 25 + 33 * i,
                proposal_size == start[24],
                buf.spec_data() == old(buf).spec_data(),
                buf@ == start.skip(25 + 33 * i),
                proposals@.len() == i,
                forall|k: int| 0 <= k < i ==> (#[trigger] proposals@[k])@ == decode_proposal(start, k),
            decreases proposal_size - i,
        {
            let id_bytes: [u8; 32] = buf.get_array_32()?;
            let external_id: ExternalProposalId = ExternalProposalId::from(id_bytes);
            let options = VoteOptions::new_length(buf.get_u8()?);
            let proposal = Proposal { external_id, options };
            proof {
                lemma_from_bytes::<Blake2b256, ExternalProposalDocument>(id_bytes);
                assert(proposal@.external_id =~= decode_proposal(start, i as int).external_id);
                assert(buf@ =~= start.skip(25 + 33 * (i + 1)));
            }
            proposals.push(proposal);
            i = i + 1;
        }
        let plan = Self {
            vote_start,
            vote_end,
            committee_end,
            proposals: Proposals { proposals },
        };
        proof {
            assert(plan@.proposals =~= Seq::new(
                start[24] as nat,
                |k: int| decode_proposal(start, k),
            ));
            lemma_decode_valid(start);
        }
        Ok(plan)
    }

    /// The vote plan that the front of `bytes` encodes. Bytes after its last
    /// proposal are not looked at. The result is an error exactly where
    /// `bytes` ends before the 25 bytes of the dates and the count, or
    /// before the last of the proposals that the count announces.
    pub fn deserialize(bytes: &[u8]) -> (r: Result<Self, ReadError>)
        ensures
            match decode(bytes@) {
                Ok(plan) => r is Ok && r->Ok_0@ == plan && plan.valid(),
                Err(e) => r == Err::<Self, ReadError>(e),
            },
            r is Err <==> bytes@.len() < 25 || bytes@.len() < 25 + 33 * bytes@[24],
    {
        let mut buf = ReadBuf::from(bytes);
        Self::read(&mut buf)
    }

    /// A vote plan has data of its own to hand to a transaction.
    pub const HAS_DATA: bool = true;

    /// A vote plan needs no authorisation of its own: the transaction that
    /// carries it is what gets signed.
    pub const HAS_AUTH: bool = false;

    /// The data of the vote plan as a payload: its canonical encoding.
    pub fn payload_data(&self) -> (data: PayloadData<Self>)
        ensures
            data@ == encode(self@),
    {
        PayloadData::new(self.serialize_in(ByteBuilder::new()).finalize_as_vec())
    }

    /// The authorisation of a vote plan as a payload: no byte at all.
    pub fn payload_auth_data(_auth: &()) -> (data: PayloadAuthData<Self>)
        ensures
            data@ == Seq::<u8>::empty(),
    {
        PayloadAuthData::new(Vec::with_capacity(0))
    }

    /// The payload of a vote plan as a certificate.
    pub fn to_certificate_slice<'a>(p: PayloadSlice<'a, Self>) -> (slice: Option<
        CertificateSlice<'a>,
    >)
        ensures
            slice == Some(CertificateSlice::VotePlan(p)),
    {
        Some(CertificateSlice::VotePlan(p))
    }

    /// The identifier of the vote plan: the digest of its encoding.
    ///
    /// This encodes and hashes the whole vote plan at each call: keep the
    /// result rather than asking for it again.
    pub fn to_id(&self) -> (id: VotePlanId)
        ensures
            id@ == vote_plan_id(self@),
    {
        let ba = self.serialize();
        DigestOf::digest_byteslice(&ba.as_byteslice())
    }
}

} // verus!
