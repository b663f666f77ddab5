use jormungandr_voting::data::{
    Category, ChallengeType, PayloadTypeConfig, Proposal, Proposer, ReviewTag, SimpleVoteStatus,
    VitVersion, VoteOptions,
};
use jormungandr_voting::vote_plan::VotePlanId;

fn options(entries: &[(&str, u8)]) -> VoteOptions {
    VoteOptions(entries.iter().map(|(name, n)| (name.to_string(), *n)).collect())
}

fn proposal(voteplan_id: &str, payload: &str, index: i64, entries: &[(&str, u8)]) -> Proposal {
    Proposal {
        internal_id: 7,
        proposal_id: "p-7".to_string(),
        proposal_category: Category {
            category_id: "c".to_string(),
            category_name: "name".to_string(),
            category_description: "description".to_string(),
        },
        proposal_title: "title".to_string(),
        proposal_summary: "summary".to_string(),
        proposal_problem: None,
        proposal_solution: Some("solution".to_string()),
        proposal_public_key: "key".to_string(),
        proposal_funds: 10_000,
        proposal_url: "http://proposal".to_string(),
        proposal_files_url: "http://files".to_string(),
        proposal_impact_score: 3,
        challenge_id: 1,
        proposer: Proposer {
            proposer_name: "name".to_string(),
            proposer_email: "email".to_string(),
            proposer_url: "url".to_string(),
            proposer_relevant_experience: "experience".to_string(),
        },
        chain_proposal_id: b"0123abcd".to_vec(),
        chain_proposal_index: index,
        chain_vote_options: options(entries),
        chain_voteplan_id: voteplan_id.to_string(),
        chain_voteplan_payload: payload.to_string(),
        chain_vote_encryption_key: "ristretto255_votepk1xyz".to_string(),
    }
}

const ID_HEX: &str = "000102030405060708090a0b0c0d0e0f101112131415161718191A1B1C1D1E1Fff";

#[test]
fn csv_lists_names_by_number() {
    assert_eq!(options(&[("no", 1), ("yes", 0)]).as_csv_string(), "yes,no");
    assert_eq!(
        options(&[("c", 2), ("a", 0), ("d", 200), ("b", 1)]).as_csv_string(),
        "a,b,c,d"
    );
    assert_eq!(options(&[("only", 9)]).as_csv_string(), "only");
    assert_eq!(options(&[]).as_csv_string(), "");
}

#[test]
fn csv_keeps_the_order_of_equal_numbers() {
    assert_eq!(
        options(&[("x", 1), ("first", 0), ("y", 1), ("second", 0)]).as_csv_string(),
        "first,second,x,y"
    );
}

#[test]
fn option_text_is_the_name_of_the_choice() {
    let p = proposal(ID_HEX, "public", 0, &[("yes", 0), ("no", 1), ("nay", 1)]);
    assert_eq!(p.get_option_text(0), "yes");
    assert_eq!(p.get_option_text(1), "no");
}

#[test]
fn chain_proposal_id_is_read_as_text() {
    let mut p = proposal(ID_HEX, "public", 0, &[("yes", 0)]);
    assert_eq!(p.chain_proposal_id_as_str(), "0123abcd");
    p.chain_proposal_id = "h\u{e9}llo \u{4e16}".as_bytes().to_vec();
    assert_eq!(p.chain_proposal_id_as_str(), "h\u{e9}llo \u{4e16}");
}

#[test]
fn public_proposal_for_a_wallet() {
    let p = proposal(ID_HEX, "public", 258, &[("yes", 0), ("no", 1), ("blank", 2)]);
    let wallet = p.into_wallet_proposal();
    let mut id = [0u8; 32];
    for (i, b) in id.iter_mut().enumerate() {
        *b = i as u8;
    }
    assert!(wallet.vote_plan_id == VotePlanId::from(id));
    assert_eq!(wallet.index, 2);
    assert!(wallet.options == jormungandr_voting::vote_plan::VoteOptions::new_length(3));
    assert_eq!(wallet.payload_type, PayloadTypeConfig::Public);
}

#[test]
fn private_proposal_for_a_wallet() {
    let p = proposal(ID_HEX, "private", -1, &[("yes", 0), ("no", 1)]);
    let wallet = p.try_into_wallet_proposal().expect("a hexadecimal identifier");
    assert_eq!(wallet.index, 255);
    assert!(wallet.options == jormungandr_voting::vote_plan::VoteOptions::new_length(2));
    assert_eq!(
        wallet.payload_type,
        PayloadTypeConfig::Private {
            encryption_key: "ristretto255_votepk1xyz".to_string()
        }
    );
}

#[test]
fn wallet_proposal_needs_32_bytes_of_hexadecimal() {
    let short = &ID_HEX[..62];
    assert!(proposal(short, "public", 0, &[]).try_into_wallet_proposal().is_none());
    let odd = &ID_HEX[..65];
    assert!(proposal(odd, "public", 0, &[]).try_into_wallet_proposal().is_none());
    let mut bad = ID_HEX.to_string();
    bad.replace_range(10..11, "g");
    assert!(proposal(&bad, "public", 0, &[]).try_into_wallet_proposal().is_none());
    let exact = &ID_HEX[..64];
    assert!(proposal(exact, "public", 0, &[]).try_into_wallet_proposal().is_some());
}

#[test]
fn review_tags_have_their_names() {
    assert_eq!(ReviewTag::Alignment.to_string(), "Alignment");
    assert_eq!(ReviewTag::Verifiability.to_string(), "Verifiability");
    assert_eq!(ReviewTag::Feasibility.to_string(), "Feasibility");
    assert_eq!(ReviewTag::Impact.to_string(), "Impact");
    assert_eq!(ReviewTag::Auditability.to_string(), "Auditability");
}

#[test]
fn challenge_types_are_written_with_hyphens() {
    assert_eq!(ChallengeType::Simple.to_string(), "simple");
    assert_eq!(ChallengeType::CommunityChoice.to_string(), "community-choice");
}

#[test]
fn vote_status_line() {
    let status = SimpleVoteStatus {
        chain_proposal_id: "abc".to_string(),
        proposal_title: "A title".to_string(),
        choice: "yes".to_string(),
    };
    assert_eq!(status.to_string(), "# abc, 'A title' -> Choice:  yes");
}

#[test]
fn vit_version_keeps_its_text() {
    assert_eq!(VitVersion::new("1.3".to_string()).version(), "1.3");
    assert_eq!(VitVersion::default().version(), "2.0");
    assert_eq!(VitVersion::default(), VitVersion::new("2.0".to_string()));
}
