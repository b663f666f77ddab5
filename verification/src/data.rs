//! The records that a client of the voting service exchanges with it.
//!
//! These are plain values. Times are seconds since the Unix epoch.

use crate::digest::lemma_from_bytes;
use crate::digest::Blake2b256;
use crate::vote_plan::VotePlan;
use crate::vote_plan::VotePlanId;
use itertools::Itertools;
use vstd::prelude::*;
use vstd::string::StringExecFns;
use vstd::utf8::{decode_utf8, valid_utf8};

verus! {

/// A round of funding.
#[derive(Clone, Debug, PartialEq, Eq)]
pub struct Fund {
    pub id: i32,
    pub fund_name: String,
    pub fund_goal: String,
    pub registration_snapshot_time: String,
    pub voting_power_threshold: u64,
    pub fund_start_time: i64,
    pub fund_end_time: i64,
    pub next_fund_start_time: i64,
    pub chain_vote_plans: Vec<Voteplan>,
    pub challenges: Vec<Challenge>,
}

/// A vote plan as the service lists it.
#[derive(Clone, Debug, PartialEq, Eq)]
pub struct Voteplan {
    pub id: i32,
    pub chain_voteplan_id: String,
    pub chain_vote_start_time: i64,
    pub chain_vote_end_time: i64,
    pub chain_committee_end_time: i64,
    pub chain_voteplan_payload: String,
    pub chain_vote_encryption_key: String,
    pub fund_id: i32,
}

/// The category of a proposal.
#[derive(PartialEq, Eq, Debug, Clone)]
pub struct Category {
    pub category_id: String,
    pub category_name: String,
    pub category_description: String,
}

/// Who made a proposal.
#[derive(PartialEq, Eq, Debug, Clone)]
pub struct Proposer {
    pub proposer_name: String,
    pub proposer_email: String,
    pub proposer_url: String,
    pub proposer_relevant_experience: String,
}

/// A proposal as the service lists it.
#[derive(PartialEq, Eq, Debug, Clone)]
pub struct Proposal {
    pub internal_id: i64,
    pub proposal_id: String,
    pub proposal_category: Category,
    pub proposal_title: String,
    pub proposal_summary: String,
    pub proposal_problem: Option<String>,
    pub proposal_solution: Option<String>,
    pub proposal_public_key: String,
    pub proposal_funds: i64,
    pub proposal_url: String,
    pub proposal_files_url: String,
    pub proposal_impact_score: u32,
    pub challenge_id: u32,
    pub proposer: Proposer,
    pub chain_proposal_id: Vec<u8>,
    pub chain_proposal_index: i64,
    pub chain_vote_options: VoteOptions,
    pub chain_voteplan_id: String,
    pub chain_voteplan_payload: String,
    pub chain_vote_encryption_key: String,
}

/// The review of a proposal by an advisor.
#[derive(Clone, Debug, PartialEq, Eq)]
pub struct AdvisorReview {
    pub id: i32,
    pub proposal_id: i32,
    pub rating_given: i32,
    pub assessor: String,
    pub note: String,
    pub tag: ReviewTag,
}

/// What a review is about.
#[derive(Copy, Clone, Debug, Eq, PartialEq, Structural)]
pub enum ReviewTag {
    Alignment,
    Verifiability,
    Feasibility,
    Impact,
    Auditability,
}

/// A challenge that proposals answer.
#[derive(Clone, Debug, PartialEq, Eq)]
pub struct Challenge {
    pub id: i32,
    pub challenge_type: ChallengeType,
    pub title: String,
    pub description: String,
    pub rewards_total: i64,
    pub fund_id: i32,
    pub challenge_url: String,
    pub proposers_rewards: u32,
}

/// The kind of a challenge.
#[derive(Clone, Debug, PartialEq, Eq)]
pub enum ChallengeType {
    Simple,
    CommunityChoice,
}

/// The version of the service, as the service reports it.
pub struct ServiceVersion {
    pub service_version: String,
}

/// A vote that was cast, for display.
pub struct SimpleVoteStatus {
    pub chain_proposal_id: String,
    pub proposal_title: String,
    pub choice: String,
}

/// The choices of a proposal, each with its name and its number, in the
/// order in which the service lists them.
#[derive(Clone, PartialEq, Eq, Debug)]
pub struct VoteOptions(pub Vec<(String, u8)>);

/// The version of the voting service that a client expects.
#[derive(Clone, PartialEq, Eq, Debug)]
pub struct VitVersion {
    service_version: String,
}

/// How the votes of a proposal are cast.
#[derive(Clone, PartialEq, Eq, Debug)]
pub enum PayloadTypeConfig {
    /// In the open.
    Public,
    /// Encrypted to the election key, which is kept as its bech32 text.
    Private { encryption_key: String },
}

/// What a wallet needs to vote on a proposal.
#[derive(Clone, PartialEq, Eq, Debug)]
pub struct WalletProposal {
    pub vote_plan_id: VotePlanId,
    pub index: u8,
    pub options: crate::vote_plan::VoteOptions,
    pub payload_type: PayloadTypeConfig,
}

/// A name and a number, as mathematical values.
pub type OptionView = (Seq<char>, u8);

/// The entries of `options` as mathematical values.
pub open spec fn options_view(options: Seq<(String, u8)>) -> Seq<OptionView> {
    options.map_values(|entry: (String, u8)| (entry.0@, entry.1))
}

/// The entries of `options` that have the number `number`, in their order.
pub open spec fn with_number(options: Seq<OptionView>, number: u8) -> Seq<OptionView> {
    options.filter(|entry: OptionView| entry.1 == number)
}

/// The entries of `options` with a number below `bound`, by number; entries
/// with the same number keep their order.
pub open spec fn sorted_below(options: Seq<OptionView>, bound: nat) -> Seq<OptionView>
    decreases bound,
{
    if bound == 0 {
        Seq::empty()
    } else {
        sorted_below(options, (bound - 1) as nat) + with_number(options, (bound - 1) as u8)
    }
}

/// The entries of `options` by number; entries with the same number keep
/// their order.
pub open spec fn sorted_by_number(options: Seq<OptionView>) -> Seq<OptionView> {
    sorted_below(options, 256)
}

/// The texts of `parts` one after the other, with `sep` between each two.
pub open spec fn joined(parts: Seq<Seq<char>>, sep: Seq<char>) -> Seq<char>
    decreases parts.len(),
{
    if parts.len() == 0 {
        Seq::empty()
    } else if parts.len() == 1 {
        parts[0]
    } else {
        joined(parts.drop_last(), sep) + sep + parts.last()
    }
}

/// The names of `options`, in their order.
pub open spec fn names_of(options: Seq<OptionView>) -> Seq<Seq<char>> {
    options.map_values(|entry: OptionView| entry.0)
}

/// The value of a hexadecimal digit.
pub open spec fn hex_digit_value(c: char) -> int {
    if '0' <= c <= '9' {
        c as int - '0' as int
    } else if 'a' <= c <= 'f' {
        c as int - 'a' as int + 10
    } else {
        c as int - 'A' as int + 10
    }
}

/// Whether `c` is a hexadecimal digit, of either case.
pub open spec fn is_hex_digit(c: char) -> bool {
    ('0' <= c <= '9') || ('a' <= c <= 'f') || ('A' <= c <= 'F')
}

/// Whether `text` is the hexadecimal form of some bytes: an even number of
/// hexadecimal digits.
pub open spec fn is_hex(text: Seq<char>) -> bool {
    text.len() % 2 == 0 && forall|i: int| 0 <= i < text.len() ==> is_hex_digit(#[trigger] text[i])
}

/// The bytes that the hexadecimal text `text` stands for.
pub open spec fn hex_bytes(text: Seq<char>) -> Seq<u8> {
    Seq::new(
        text.len() / 2,
        |i: int| (16 * hex_digit_value(text[2 * i]) + hex_digit_value(text[2 * i + 1])) as u8,
    )
}

/// `Itertools::sorted_by_key`, with the number of an entry as its key. It
/// collects the entries into a vector and sorts that with the stable sort of
/// the standard library: the result holds the same entries by ascending
/// number, and entries with the same number in the order they had.
#[verifier::external_body]
fn sorted_by_key_number(options: &Vec<(String, u8)>) -> (sorted: Vec<(String, u8)>)
    ensures
        options_view(sorted@) == sorted_by_number(options_view(options@)),
{
    options.iter().sorted_by_key(|entry| entry.1).cloned().collect()
}

/// `Itertools::join` on texts. It writes the first text, then for each
/// further text the separator and the text; of no text it makes the empty
/// text.
#[verifier::external_body]
fn join(parts: &Vec<String>, sep: &str) -> (text: String)
    ensures
        text@ == joined(parts@.map_values(|part: String| part@), sep@),
{
    parts.iter().join(sep)
}

/// `hex::decode`. It succeeds on an even number of hexadecimal digits, upper
/// or lower case, and then gives one byte for each two digits, the first
/// digit being the high half of the byte. On anything else it fails.
#[verifier::external_body]
fn hex_decode(text: &str) -> (bytes: Option<Vec<u8>>)
    ensures
        bytes is Some <==> is_hex(text@),
        bytes matches Some(b) ==> b@ == hex_bytes(text@),
{
    hex::decode(text).ok()
}

/// `std::str::from_utf8`. It gives the bytes as text where they are valid
/// UTF-8, and fails where they are not.
#[verifier::external_body]
fn str_from_utf8(bytes: &[u8]) -> (text: Option<&str>)
    ensures
        text is Some <==> valid_utf8(bytes@),
        text matches Some(t) ==> t@ == decode_utf8(bytes@),
{
    std::str::from_utf8(bytes).ok()
}

impl ReviewTag {
    /// The name of the tag.
    pub open spec fn spec_name(self) -> Seq<char> {
        match self {
            ReviewTag::Alignment => "Alignment"@,
            ReviewTag::Verifiability => "Verifiability"@,
            ReviewTag::Feasibility => "Feasibility"@,
            ReviewTag::Impact => "Impact"@,
            ReviewTag::Auditability => "Auditability"@,
        }
    }

    /// The name of the tag.
    pub fn to_string(&self) -> (name: String)
        ensures
            name@ == self.spec_name(),
    {
        String::from_str(
            match self {
                ReviewTag::Alignment => "Alignment",
                ReviewTag::Verifiability => "Verifiability",
                ReviewTag::Feasibility => "Feasibility",
                ReviewTag::Impact => "Impact",
                ReviewTag::Auditability => "Auditability",
            },
        )
    }
}

impl ChallengeType {
    /// The name of the kind, in lower case with hyphens.
    pub open spec fn spec_name(self) -> Seq<char> {
        match self {
            ChallengeType::Simple => "simple"@,
            ChallengeType::CommunityChoice => "community-choice"@,
        }
    }

    /// The name of the kind, in lower case with hyphens.
    pub fn to_string(&self) -> (name: String)
        ensures
            name@ == self.spec_name(),
    {
        String::from_str(
            match self {
                ChallengeType::Simple => "simple",
                ChallengeType::CommunityChoice => "community-choice",
            },
        )
    }
}

impl SimpleVoteStatus {
    /// The line that shows the vote.
    pub open spec fn spec_line(&self) -> Seq<char> {
        "# "@ + self.chain_proposal_id@ + ", '"@ + self.proposal_title@ + "' -> Choice:  "@
            + self.choice@
    }

    /// The line that shows the vote: the identifier of the proposal, its
    /// title in quotes, and the choice.
    pub fn to_string(&self) -> (line: String)
        ensures
            line@ == self.spec_line(),
    {
        let mut line = String::from_str("# ");
        line.append(self.chain_proposal_id.as_str());
        line.append(", '");
        line.append(self.proposal_title.as_str());
        line.append("' -> Choice:  ");
        line.append(self.choice.as_str());
        line
    }
}

impl View for VoteOptions {
    type V = Seq<OptionView>;

    open spec fn view(&self) -> Seq<OptionView> {
        options_view(self.0@)
    }
}

impl VoteOptions {
    /// The names of the choices by ascending number, with commas between
    /// them. Choices with the same number stand in the order of the list.
    pub fn as_csv_string(&self) -> (csv: String)
        ensures
            csv@ == joined(names_of(sorted_by_number(self@)), ","@),
    {
        let sorted = sorted_by_key_number(&self.0);
        let n: usize = sorted.len();
        let mut names: Vec<String> = Vec::with_capacity(n);
        let mut i: usize = 0;
        while i < n
            invariant
                i <= n,
                n == sorted@.len(),
                names@.len() == i,
                forall|k: int| 0 <= k < i ==> (#[trigger] names@[k])@ == sorted@[k].0@,
            decreases n - i,
        {
            names.push(sorted[i].0.clone());
            i = i + 1;
        }
        proof {
            assert(names@.map_values(|part: String| part@) =~= names_of(options_view(sorted@)));
        }
        join(&names, ",")
    }
}

impl VitVersion {
    /// The version, as a mathematical value.
    pub closed spec fn spec_version(&self) -> Seq<char> {
        self.service_version@
    }

    /// The version `service_version`.
    pub fn new(service_version: String) -> (version: Self)
        ensures
            version.spec_version() == service_version@,
    {
        Self { service_version }
    }

    /// The text of the version.
    pub fn version(&self) -> (text: String)
        ensures
            text@ == self.spec_version(),
    {
        self.service_version.clone()
    }
}

impl Default for VitVersion {
    /// The version "2.0".
    fn default() -> (version: Self)
        ensures
            version.spec_version() == "2.0"@,
    {
        Self { service_version: String::from_str("2.0") }
    }
}

impl Proposal {
    /// Whether `options` has an entry with the number `choice`.
    pub open spec fn has_choice(options: Seq<OptionView>, choice: u8) -> bool {
        exists|i: int| 0 <= i < options.len() && (#[trigger] options[i]).1 == choice
    }

    /// Whether entry `i` of `options` is the first with the number `choice`.
    pub open spec fn first_with_choice(options: Seq<OptionView>, choice: u8, i: int) -> bool {
        &&& 0 <= i < options.len()
        &&& options[i].1 == choice
        &&& forall|j: int| 0 <= j < i ==> (#[trigger] options[j]).1 != choice
    }

    /// The identifier of the proposal on the chain, as text.
    pub fn chain_proposal_id_as_str(&self) -> (text: String)
        requires
            valid_utf8(self.chain_proposal_id@),
        ensures
            text@ == decode_utf8(self.chain_proposal_id@),
    {
        match str_from_utf8(self.chain_proposal_id.as_slice()) {
            Some(text) => String::from_str(text),
            None => vstd::pervasive::unreached(),
        }
    }

    /// The name of the choice with the number `choice`: that of the first
    /// entry of the options with that number.
    pub fn get_option_text(&self, choice: u8) -> (text: String)
        requires
            Self::has_choice(self.chain_vote_options@, choice),
        ensures
            exists|i: int|
                Self::first_with_choice(self.chain_vote_options@, choice, i) && text@
                    == self.chain_vote_options@[i].0,
    {
        let options = &self.chain_vote_options.0;
        let n: usize = options.len();
        let mut i: usize = 0;
        while i < n
            invariant
                i <= n,
                n == options@.len(),
                options@ == self.chain_vote_options.0@,
                forall|j: int| 0 <= j < i ==> (#[trigger] self.chain_vote_options@[j]).1 != choice,
            decreases n - i,
        {
            if options[i].1 == choice {
                let text = options[i].0.clone();
                proof {
                    assert(Self::first_with_choice(self.chain_vote_options@, choice, i as int));
                }
                return text;
            }
            i = i + 1;
        }
        vstd::pervasive::unreached()
    }

    /// Whether a wallet can take the proposal: the identifier of its vote
    /// plan must be hexadecimal text for 32 bytes or more.
    pub open spec fn wallet_ready(&self) -> bool {
        is_hex(self.chain_voteplan_id@) && self.chain_voteplan_id@.len() >= 64
    }

    /// Whether `wallet` is what a wallet needs to vote on the proposal: the
    /// first 32 bytes of the vote plan's identifier, the low byte of the
    /// proposal's index, as many choices as the proposal lists (of that
    /// number the low four bits), and the way votes are cast. Votes are
    /// public where the plan's payload is "public"; otherwise they are
    /// private, under the plan's encryption key.
    pub open spec fn wallet_form(&self, wallet: WalletProposal) -> bool {
        &&& wallet.vote_plan_id@ == hex_bytes(self.chain_voteplan_id@).take(32)
        &&& wallet.index == self.chain_proposal_index as u8
        &&& wallet.options@ == (self.chain_vote_options.0@.len() as u8) & 0x0f
        &&& match wallet.payload_type {
            PayloadTypeConfig::Public => self.chain_voteplan_payload@ == "public"@,
            PayloadTypeConfig::Private { encryption_key } => {
                &&& self.chain_voteplan_payload@ != "public"@
                &&& encryption_key@ == self.chain_vote_encryption_key@
            },
        }
    }

    /// The proposal in the form that a wallet takes, given the bytes
    /// `id_bytes` of the identifier of its vote plan.
    fn wallet_proposal_with(self, id_bytes: Vec<u8>) -> (wallet: WalletProposal)
        requires
            id_bytes@ == hex_bytes(self.chain_voteplan_id@),
            id_bytes@.len() >= 32,
        ensures
            self.wallet_form(wallet),
    {
        let chain_proposal_index = #[verifier::truncate] (self.chain_proposal_index as u8);
        let mut vote_plan_id = [0u8; 32];
        let mut i: usize = 0;
        while i < 32
            invariant
                i <= 32,
                id_bytes@.len() >= 32,
                forall|k: int| 0 <= k < i ==> vote_plan_id@[k] == id_bytes@[k],
            decreases 32 - i,
        {
            vote_plan_id[i] = id_bytes[i];
            i = i + 1;
        }
        proof {
            assert(vote_plan_id@ =~= id_bytes@.take(32));
            lemma_from_bytes::<Blake2b256, VotePlan>(vote_plan_id);
        }
        let options = crate::vote_plan::VoteOptions::new_length(
            #[verifier::truncate] (self.chain_vote_options.0.len() as u8),
        );
        let public = String::from_str("public");
        let payload_type = if self.chain_voteplan_payload == public {
            PayloadTypeConfig::Public
        } else {
            PayloadTypeConfig::Private { encryption_key: self.chain_vote_encryption_key }
        };
        WalletProposal {
            vote_plan_id: VotePlanId::from(vote_plan_id),
            index: chain_proposal_index,
            options,
            payload_type,
        }
    }

    /// The proposal in the form that a wallet takes.
    pub fn into_wallet_proposal(self) -> (wallet: WalletProposal)
        requires
            self.wallet_ready(),
        ensures
            self.wallet_form(wallet),
    {
        match hex_decode(self.chain_voteplan_id.as_str()) {
            Some(id_bytes) => self.wallet_proposal_with(id_bytes),
            None => vstd::pervasive::unreached(),
        }
    }

    /// The proposal in the form that a wallet takes; `None` where the
    /// identifier of its vote plan is not hexadecimal text for 32 bytes or
    /// more.
    pub fn try_into_wallet_proposal(self) -> (wallet: Option<WalletProposal>)
        ensures
            wallet is Some <==> self.wallet_ready(),
            wallet matches Some(w) ==> self.wallet_form(w),
    {
        match hex_decode(self.chain_voteplan_id.as_str()) {
            Some(id_bytes) => {
                if id_bytes.len() >= 32 {
                    Some(self.wallet_proposal_with(id_bytes))
                } else {
                    None
                }
            },
            None => None,
        }
    }
}

} // verus!
