use jormungandr_voting::block_date::BlockDate;
use jormungandr_voting::mempack::{ReadBuf, ReadError};
use jormungandr_voting::vote_plan::{
    ExternalProposalId, Proposal, Proposals, PushProposal, VoteOptions, VotePhase, VotePlan,
};

fn date(epoch: u32, slot_id: u32) -> BlockDate {
    BlockDate { epoch, slot_id }
}

fn proposal(fill: u8, choices: u8) -> Proposal {
    Proposal::new(
        ExternalProposalId::from([fill; 32]),
        VoteOptions::new_length(choices),
    )
}

fn plan_of(proposals: Vec<Proposal>) -> VotePlan {
    let mut collection = Proposals::new();
    for p in proposals {
        match collection.push(p) {
            PushProposal::Success => {}
            PushProposal::Full { .. } => panic!("more than 255 proposals"),
        }
    }
    VotePlan::new(date(0, 0), date(1, 0), date(2, 0), collection)
}

#[test]
fn serialize_deserialize() {
    let mut seed: u32 = 0x2545_f491;
    for count in [0usize, 1, 2, 3, 17, 254, 255] {
        let mut collection = Proposals::new();
        for _ in 0..count {
            let mut id = [0u8; 32];
            for b in id.iter_mut() {
                seed = seed.wrapping_mul(1_664_525).wrapping_add(1_013_904_223);
                *b = (seed >> 24) as u8;
            }
            seed = seed.wrapping_mul(1_664_525).wrapping_add(1_013_904_223);
            let options = VoteOptions::new_length((seed >> 24) as u8);
            let pushed = collection.push(Proposal::new(ExternalProposalId::from(id), options));
            assert!(matches!(pushed, PushProposal::Success));
        }
        let vote_plan = VotePlan::new(
            date(seed, seed.rotate_left(7)),
            date(u32::MAX, 0),
            date(0, u32::MAX),
            collection,
        );
        let serialized = vote_plan.serialize();
        assert_eq!(serialized.as_slice().len(), 25 + 33 * count);

        let mut buf = ReadBuf::from(serialized.as_slice());
        let decoded = VotePlan::read(&mut buf).expect("can decode encoded vote plan");
        assert!(decoded == vote_plan);
        assert!(buf.is_end());
    }
}

#[test]
fn encoding_is_bit_exact() {
    let plan = VotePlan::new(
        date(0x0102_0304, 0x0506_0708),
        date(0x1112_1314, 0x1516_1718),
        date(0x2122_2324, 0x2526_2728),
        {
            let mut ps = Proposals::new();
            let _ = ps.push(proposal(0xaa, 3));
            ps
        },
    );
    let mut expected: Vec<u8> = vec![
        0x01, 0x02, 0x03, 0x04, 0x05, 0x06, 0x07, 0x08, 0x11, 0x12, 0x13, 0x14, 0x15, 0x16, 0x17,
        0x18, 0x21, 0x22, 0x23, 0x24, 0x25, 0x26, 0x27, 0x28, 0x01,
    ];
    expected.extend_from_slice(&[0xaa; 32]);
    expected.push(3);
    assert_eq!(plan.serialize().as_slice(), expected.as_slice());
    assert_eq!(plan.payload_data().as_ref(), expected.as_slice());
}

#[test]
fn two_proposals_scenario() {
    let first = proposal(0x11, 3);
    let second = proposal(0x22, 2);
    let plan = plan_of(vec![first.clone(), second.clone()]);
    let bytes = plan.serialize();
    assert_eq!(bytes.as_slice().len(), 91);
    let decoded = VotePlan::deserialize(bytes.as_slice()).expect("a whole vote plan");
    assert!(decoded == plan);

    let swapped = plan_of(vec![second, first]);
    let swapped_bytes = swapped.serialize();
    assert_eq!(swapped_bytes.as_slice().len(), 91);
    assert_ne!(swapped_bytes.as_slice(), bytes.as_slice());
    assert!(swapped.to_id() != plan.to_id());
}

#[test]
fn same_plan_same_bytes_and_id() {
    let a = plan_of(vec![proposal(1, 1), proposal(2, 2), proposal(3, 3)]);
    let b = plan_of(vec![proposal(1, 1), proposal(2, 2), proposal(3, 3)]);
    assert_eq!(a.serialize().as_slice(), b.serialize().as_slice());
    assert!(a.to_id() == b.to_id());
    assert!(a.to_id() == a.clone().to_id());

    let other_date = VotePlan::new(date(0, 1), date(1, 0), date(2, 0), a.proposals().clone());
    assert_ne!(other_date.serialize().as_slice(), a.serialize().as_slice());
    assert!(other_date.to_id() != a.to_id());
}

#[test]
fn id_is_blake2b_256_of_encoding() {
    // Blake2b-256 of the empty plan's 25 bytes differs from that of the
    // empty input, whose digest is well known.
    let empty_input: [u8; 32] = [
        0x0e, 0x57, 0x51, 0xc0, 0x26, 0xe5, 0x43, 0xb2, 0xe8, 0xab, 0x2e, 0xb0, 0x60, 0x99, 0xda,
        0xa1, 0xd1, 0xe5, 0xdf, 0x47, 0x77, 0x8f, 0x77, 0x87, 0xfa, 0xab, 0x45, 0xcd, 0xf1, 0x2f,
        0xe3, 0xa8,
    ];
    let none: jormungandr_voting::byte_builder::ByteBuilder<VotePlan> =
        jormungandr_voting::byte_builder::ByteBuilder::new();
    let digest = jormungandr_voting::vote_plan::VotePlanId::digest_byteslice(
        &none.finalize().as_byteslice(),
    );
    assert_eq!(digest.as_ref(), &empty_input[..]);

    let plan = VotePlan::new(date(0, 0), date(0, 0), date(0, 0), Proposals::new());
    let id = plan.to_id();
    assert_eq!(id.as_ref().len(), 32);
    assert_ne!(id.as_ref(), &empty_input[..]);
    assert_ne!(id.as_ref(), &plan.serialize().as_slice()[..]);
}

#[test]
fn push_until_full() {
    let mut proposals = Proposals::new();
    assert!(!proposals.full());
    for i in 0..255u32 {
        assert!(!proposals.full());
        let pushed = proposals.push(proposal(i as u8, (i % 16) as u8));
        assert!(matches!(pushed, PushProposal::Success));
        assert_eq!(proposals.len(), (i + 1) as usize);
    }
    assert!(proposals.full());
    assert_eq!(proposals.len(), Proposals::MAX_LEN);

    let rejected = proposal(0xee, 7);
    match proposals.push(rejected.clone()) {
        PushProposal::Success => panic!("a full collection took a proposal"),
        PushProposal::Full { proposal } => assert!(proposal == rejected),
    }
    assert_eq!(proposals.len(), 255);
    assert!(proposals[254] == proposal(254, 14));
}

#[test]
fn new_length_keeps_four_bits() {
    for n in 0..=15u8 {
        let bytes = plan_of(vec![proposal(0, n)]).serialize();
        assert_eq!(bytes.as_slice()[57], n);
    }
    for n in 16..=255u8 {
        let bytes = plan_of(vec![proposal(0, n)]).serialize();
        assert_eq!(bytes.as_slice()[57], n & 0b1111);
        assert!(VoteOptions::new_length(n) == VoteOptions::new_length(n & 0b1111));
    }
    assert!(VoteOptions::new_length(3) != VoteOptions::new_length(4));
}

#[test]
fn short_header_is_rejected() {
    let whole = plan_of(vec![]).serialize();
    for len in 0..25usize {
        let err = VotePlan::deserialize(&whole.as_slice()[..len]).expect_err("too short");
        let expected = if len == 24 {
            ReadError::TooShort { left: 0, demanded: 1 }
        } else {
            ReadError::TooShort { left: len % 4, demanded: 4 }
        };
        assert_eq!(err, expected);
    }
    assert!(VotePlan::deserialize(whole.as_slice()).is_ok());
}

#[test]
fn missing_proposals_are_rejected() {
    let whole = plan_of(vec![proposal(1, 1), proposal(2, 2)]).serialize();
    let bytes = whole.as_slice();
    assert_eq!(bytes.len(), 91);
    for len in 25..91usize {
        let err = VotePlan::deserialize(&bytes[..len]).expect_err("proposals are missing");
        let into_proposal = (len - 25) % 33;
        let expected = if into_proposal == 32 {
            ReadError::TooShort { left: 0, demanded: 1 }
        } else {
            ReadError::TooShort { left: into_proposal, demanded: 32 }
        };
        assert_eq!(err, expected);
    }
    // a count of 255 with nothing behind it
    let mut header = plan_of(vec![]).serialize().as_slice().to_vec();
    header[24] = 255;
    assert_eq!(
        VotePlan::deserialize(&header),
        Err(ReadError::TooShort { left: 0, demanded: 32 })
    );
}

#[test]
fn read_stops_behind_the_last_proposal() {
    let plan = plan_of(vec![proposal(9, 9)]);
    let mut bytes = plan.serialize().as_slice().to_vec();
    bytes.extend_from_slice(&[0xff, 0xfe, 0xfd]);
    let mut buf = ReadBuf::from(&bytes);
    let decoded = VotePlan::read(&mut buf).expect("a whole vote plan and more");
    assert!(decoded == plan);
    assert_eq!(buf.position(), 58);
    assert_eq!(buf.left(), 3);
    assert!(!buf.is_end());
    assert_eq!(buf.get_u8(), Ok(0xff));
    assert!(VotePlan::deserialize(&bytes).expect("trailing bytes are not looked at") == plan);
}

#[test]
fn read_error_leaves_the_buffer_before_the_field() {
    let bytes = [0u8; 10];
    let mut buf = ReadBuf::from(&bytes);
    assert_eq!(
        VotePlan::read(&mut buf),
        Err(ReadError::TooShort { left: 2, demanded: 4 })
    );
    assert_eq!(buf.position(), 8);
    assert_eq!(buf.left(), 2);
}

#[test]
fn options_byte_is_masked_on_read() {
    let mut bytes = plan_of(vec![proposal(5, 3)]).serialize().as_slice().to_vec();
    bytes[57] = 0xf3;
    let decoded = VotePlan::deserialize(&bytes).expect("a whole vote plan");
    assert!(decoded == plan_of(vec![proposal(5, 3)]));
}

#[test]
fn phases_follow_the_dates() {
    let plan = VotePlan::new(date(1, 5), date(2, 0), date(2, 10), Proposals::new());
    let cases = [
        (date(0, 0), VotePhase::NotStarted),
        (date(1, 4), VotePhase::NotStarted),
        (date(1, 5), VotePhase::Voting),
        (date(1, 4_000_000_000), VotePhase::Voting),
        (date(2, 0), VotePhase::CommitteeWindow),
        (date(2, 9), VotePhase::CommitteeWindow),
        (date(2, 10), VotePhase::Closed),
        (date(3, 0), VotePhase::Closed),
    ];
    for (at, phase) in cases {
        assert_eq!(plan.phase(at), phase);
        assert_eq!(plan.vote_started(at), phase != VotePhase::NotStarted);
        assert_eq!(plan.can_vote(at), phase == VotePhase::Voting);
        assert_eq!(
            plan.vote_finished(at),
            phase == VotePhase::CommitteeWindow || phase == VotePhase::Closed
        );
        assert_eq!(plan.committee_started(at), plan.vote_finished(at));
        assert_eq!(plan.committee_finished(at), phase == VotePhase::Closed);
    }
}

#[test]
fn dates_order_by_epoch_then_slot() {
    assert!(date(0, 9) < date(1, 0));
    assert!(date(1, 0) < date(1, 1));
    assert!(date(1, 1) <= date(1, 1));
    assert!(!(date(2, 0) < date(1, 9)));
    assert_eq!(date(1, 1).max(date(1, 2)), date(1, 2));
}

#[test]
fn payload_has_data_and_no_auth() {
    assert!(VotePlan::HAS_DATA);
    assert!(!VotePlan::HAS_AUTH);
    assert!(VotePlan::payload_auth_data(&()).as_ref().is_empty());
    let plan = plan_of(vec![proposal(1, 2)]);
    let data = plan.payload_data();
    assert!(VotePlan::to_certificate_slice(data.borrow()).is_some());
}

#[test]
fn proposals_can_be_added_in_place() {
    let mut plan = plan_of(vec![proposal(1, 1)]);
    let before = plan.serialize().as_slice().to_vec();
    assert!(matches!(
        plan.proposals_mut().push(proposal(2, 2)),
        PushProposal::Success
    ));
    assert_eq!(plan.proposals().len(), 2);
    assert!(*plan.proposals()[1].external_id() == ExternalProposalId::from([2u8; 32]));
    let after = plan.serialize().as_slice().to_vec();
    assert_eq!(after.len(), before.len() + 33);
    assert_eq!(after[24], 2);
    assert_eq!(&after[..24], &before[..24]);
}

#[test]
fn dates_in_order_or_not() {
    let ordered = VotePlan::new(date(1, 0), date(1, 0), date(1, 1), Proposals::new());
    assert!(ordered.dates_in_order());
    let vote_ends_first = VotePlan::new(date(1, 1), date(1, 0), date(2, 0), Proposals::new());
    assert!(!vote_ends_first.dates_in_order());
    let committee_ends_first = VotePlan::new(date(0, 0), date(3, 0), date(2, 9), Proposals::new());
    assert!(!committee_ends_first.dates_in_order());
    // the constructor takes the dates as they are
    assert_eq!(vote_ends_first.serialize().as_slice().len(), 25);
}
