//! The layout of the "real" test network: one core node, relays that trust
//! the core, and behind each relay the leaders and the legacy nodes that
//! trust that relay. Every node leads, and for each leader and each legacy
//! node there is a wallet that delegates to it.

use crate::decimal::{decimal, decimal_text};
use vstd::prelude::*;
use vstd::string::StringExecFns;

verus! {

/// The alias of the core node.
pub const CORE_NODE: &'static str = "Core";

/// The first part of the alias of a relay.
pub const RELAY_NODE: &'static str = "Relay";

/// The first part of the alias of a leader.
pub const LEADER_NODE: &'static str = "Leader";

/// The first part of the alias of a legacy node.
pub const LEGACY_NODE: &'static str = "Legacy";

/// What each wallet of the network holds at the start.
pub const INITIAL_FUNDS: u64 = 100_000;

/// How the leaders of blocks are chosen.
#[derive(Debug, Clone, Copy, PartialEq, Eq, Structural)]
pub enum ConsensusVersion {
    Bft,
    GenesisPraos,
}

/// A node of the network and the nodes it trusts.
#[derive(Debug, Clone, PartialEq, Eq)]
pub struct Node {
    pub alias: String,
    pub trusted_peers: Vec<String>,
}

/// An account to create at the start of the chain.
#[derive(Debug, Clone, PartialEq, Eq)]
pub struct WalletTemplate {
    pub alias: String,
    pub value: u64,
    pub delegate: Option<String>,
}

/// The settings of the chain, its leaders and its wallets.
#[derive(Debug, Clone, PartialEq, Eq)]
pub struct Blockchain {
    pub consensus: ConsensusVersion,
    pub slots_per_epoch: u32,
    /// In seconds.
    pub slot_duration: u8,
    /// In seconds.
    pub kes_update_speed: u32,
    /// In thousandths.
    pub active_slot_coefficient: u64,
    pub leaders: Vec<String>,
    pub wallets: Vec<WalletTemplate>,
}

/// A network to build: its nodes in the order in which they are registered,
/// and its chain.
#[derive(Debug, Clone, PartialEq, Eq)]
pub struct Scenario {
    pub title: String,
    pub topology: Vec<Node>,
    pub blockchain: Blockchain,
}

/// A node as a mathematical value.
pub struct NodeView {
    pub alias: Seq<char>,
    pub trusted_peers: Seq<Seq<char>>,
}

/// A wallet as a mathematical value.
pub struct WalletView {
    pub alias: Seq<char>,
    pub value: u64,
    pub delegate: Option<Seq<char>>,
}

/// A chain as a mathematical value.
pub struct BlockchainView {
    pub consensus: ConsensusVersion,
    pub slots_per_epoch: u32,
    pub slot_duration: u8,
    pub kes_update_speed: u32,
    pub active_slot_coefficient: u64,
    pub leaders: Seq<Seq<char>>,
    pub wallets: Seq<WalletView>,
}

/// A network as a mathematical value.
pub struct ScenarioView {
    pub title: Seq<char>,
    pub topology: Seq<NodeView>,
    pub blockchain: BlockchainView,
}

/// The texts of `names`.
pub open spec fn texts(names: Seq<String>) -> Seq<Seq<char>> {
    names.map_values(|name: String| name@)
}

/// The nodes `nodes` as mathematical values.
pub open spec fn node_views(nodes: Seq<Node>) -> Seq<NodeView> {
    nodes.map_values(|n: Node| n@)
}

/// The wallets `wallets` as mathematical values.
pub open spec fn wallet_views(wallets: Seq<WalletTemplate>) -> Seq<WalletView> {
    wallets.map_values(|w: WalletTemplate| w@)
}

impl View for Node {
    type V = NodeView;

    open spec fn view(&self) -> NodeView {
        NodeView { alias: self.alias@, trusted_peers: texts(self.trusted_peers@) }
    }
}

impl View for WalletTemplate {
    type V = WalletView;

    open spec fn view(&self) -> WalletView {
        WalletView {
            alias: self.alias@,
            value: self.value,
            delegate: match self.delegate {
                Some(name) => Some(name@),
                None => None,
            },
        }
    }
}

impl View for Blockchain {
    type V = BlockchainView;

    open spec fn view(&self) -> BlockchainView {
        BlockchainView {
            consensus: self.consensus,
            slots_per_epoch: self.slots_per_epoch,
            slot_duration: self.slot_duration,
            kes_update_speed: self.kes_update_speed,
            active_slot_coefficient: self.active_slot_coefficient,
            leaders: texts(self.leaders@),
            wallets: wallet_views(self.wallets@),
        }
    }
}

impl View for Scenario {
    type V = ScenarioView;

    open spec fn view(&self) -> ScenarioView {
        ScenarioView {
            title: self.title@,
            topology: node_views(self.topology@),
            blockchain: self.blockchain@,
        }
    }
}

/// The alias of relay number `i`.
pub open spec fn spec_relay_name(i: nat) -> Seq<char> {
    "Relay"@ + "_"@ + decimal(i)
}

/// The alias of leader number `i`.
pub open spec fn spec_leader_name(i: nat) -> Seq<char> {
    "Leader"@ + "_"@ + decimal(i)
}

/// The alias of legacy node number `i`.
pub open spec fn spec_legacy_name(i: nat) -> Seq<char> {
    "Legacy"@ + "_"@ + decimal(i)
}

/// The alias of wallet number `i`.
pub open spec fn spec_wallet_name(i: nat) -> Seq<char> {
    "leader_wallet_"@ + decimal(i)
}

/// The core node: it trusts nobody.
pub open spec fn core_node() -> NodeView {
    NodeView { alias: "Core"@, trusted_peers: Seq::empty() }
}

/// Relay number `i`: it trusts the core node.
pub open spec fn relay_node(i: nat) -> NodeView {
    NodeView { alias: spec_relay_name(i), trusted_peers: seq!["Core"@] }
}

/// Leader number `i`, behind relay number `relay`.
pub open spec fn leader_node(relay: nat, i: nat) -> NodeView {
    NodeView { alias: spec_leader_name(i), trusted_peers: seq![spec_relay_name(relay)] }
}

/// Legacy node number `i`, behind relay number `relay`.
pub open spec fn legacy_node(relay: nat, i: nat) -> NodeView {
    NodeView { alias: spec_legacy_name(i), trusted_peers: seq![spec_relay_name(relay)] }
}

/// The relays from 1 to `relays`.
pub open spec fn relay_nodes(relays: nat) -> Seq<NodeView> {
    Seq::new(relays, |i: int| relay_node((i + 1) as nat))
}

/// The first `count` leaders behind relay number `relay`, where each relay
/// has `leaders` of them. Leaders are numbered through all relays.
pub open spec fn leaders_behind(relay: nat, leaders: nat, count: nat) -> Seq<NodeView> {
    Seq::new(count, |j: int| leader_node(relay, ((relay - 1) * leaders + j + 1) as nat))
}

/// The first `count` legacy nodes behind relay number `relay`, where each
/// relay has `legacies` of them. Legacy nodes are numbered through all
/// relays.
pub open spec fn legacies_behind(relay: nat, legacies: nat, count: nat) -> Seq<NodeView> {
    Seq::new(count, |k: int| legacy_node(relay, ((relay - 1) * legacies + k + 1) as nat))
}

/// The nodes behind relay number `relay`: its leaders, then its legacy
/// nodes.
pub open spec fn nodes_behind(relay: nat, leaders: nat, legacies: nat) -> Seq<NodeView> {
    leaders_behind(relay, leaders, leaders) + legacies_behind(relay, legacies, legacies)
}

/// The nodes behind the relays from 1 to `relays`, relay after relay.
pub open spec fn nodes_behind_relays(relays: nat, leaders: nat, legacies: nat) -> Seq<NodeView>
    decreases relays,
{
    if relays == 0 {
        Seq::empty()
    } else {
        nodes_behind_relays((relays - 1) as nat, leaders, legacies) + nodes_behind(
            relays,
            leaders,
            legacies,
        )
    }
}

/// The aliases of `nodes`.
pub open spec fn aliases(nodes: Seq<NodeView>) -> Seq<Seq<char>> {
    nodes.map_values(|n: NodeView| n.alias)
}

/// The nodes of the network in the order in which they are registered: the
/// core, the relays, then what is behind each relay.
pub open spec fn real_topology(relays: nat, leaders: nat, legacies: nat) -> Seq<NodeView> {
    seq![core_node()] + relay_nodes(relays) + nodes_behind_relays(relays, leaders, legacies)
}

/// The leaders of the chain in the order in which they are added: every
/// node, the core last.
pub open spec fn real_leaders(relays: nat, leaders: nat, legacies: nat) -> Seq<Seq<char>> {
    aliases(relay_nodes(relays)) + aliases(nodes_behind_relays(relays, leaders, legacies))
        + seq!["Core"@]
}

/// The wallet number `i` that delegates to `delegate`.
pub open spec fn wallet_for(i: nat, delegate: Seq<char>) -> WalletView {
    WalletView { alias: spec_wallet_name(i), value: 100_000, delegate: Some(delegate) }
}

/// The wallets of the first `count` leaders.
pub open spec fn leader_wallets(count: nat) -> Seq<WalletView> {
    Seq::new(count, |i: int| wallet_for((i + 1) as nat, spec_leader_name((i + 1) as nat)))
}

/// The wallets of the first `count` legacy nodes.
pub open spec fn legacy_wallets(count: nat) -> Seq<WalletView> {
    Seq::new(count, |i: int| wallet_for((i + 1) as nat, spec_legacy_name((i + 1) as nat)))
}

/// The wallets of the chain in the order in which they are added: one for
/// each leader, then one for each legacy node. The wallets of both kinds are
/// numbered from 1.
pub open spec fn real_wallets(all_leaders: nat, all_legacies: nat) -> Seq<WalletView> {
    leader_wallets(all_leaders) + legacy_wallets(all_legacies)
}

/// The network with `relays` relays and, behind each of them, `leaders`
/// leaders and `legacies` legacy nodes. An epoch has 60 slots of one second,
/// keys evolve every 46800 seconds, and 700 slots in a thousand are active.
pub open spec fn real_scenario(
    title: Seq<char>,
    relays: nat,
    leaders: nat,
    legacies: nat,
    consensus: ConsensusVersion,
) -> ScenarioView {
    ScenarioView {
        title,
        topology: real_topology(relays, leaders, legacies),
        blockchain: BlockchainView {
            consensus,
            slots_per_epoch: 60,
            slot_duration: 1,
            kes_update_speed: 46800,
            active_slot_coefficient: 700,
            leaders: real_leaders(relays, leaders, legacies),
            wallets: real_wallets(relays * leaders, relays * legacies),
        },
    }
}

/// `prefix`, an underscore and `i` in decimal digits.
fn numbered(prefix: &str, i: u32) -> (name: String)
    ensures
        name@ == prefix@ + "_"@ + decimal(i as nat),
{
    let mut name = String::from_str(prefix);
    name.append("_");
    name.append(decimal_text(i).as_str());
    name
}

/// The alias of relay number `i`.
pub fn relay_name(i: u32) -> (name: String)
    ensures
        name@ == spec_relay_name(i as nat),
{
    numbered(RELAY_NODE, i)
}

/// The alias of leader number `i`.
pub fn leader_name(i: u32) -> (name: String)
    ensures
        name@ == spec_leader_name(i as nat),
{
    numbered(LEADER_NODE, i)
}

/// The alias of legacy node number `i`.
pub fn legacy_name(i: u32) -> (name: String)
    ensures
        name@ == spec_legacy_name(i as nat),
{
    numbered(LEGACY_NODE, i)
}

/// The alias of wallet number `i`.
pub fn wallet_name(i: u32) -> (name: String)
    ensures
        name@ == spec_wallet_name(i as nat),
{
    let mut name = String::from_str("leader_wallet_");
    name.append(decimal_text(i).as_str());
    name
}

/// Adds to `topology` the node `alias` that trusts `trusted_peer`, and to
/// `leaders` its alias.
fn register_leader(
    topology: &mut Vec<Node>,
    leaders: &mut Vec<String>,
    alias: String,
    trusted_peer: String,
)
    ensures
        node_views(final(topology)@) == node_views(old(topology)@).push(
            NodeView { alias: alias@, trusted_peers: seq![trusted_peer@] },
        ),
        texts(final(leaders)@) == texts(old(leaders)@).push(alias@),
{
    let mut trusted_peers: Vec<String> = Vec::new();
    trusted_peers.push(trusted_peer);
    leaders.push(alias.clone());
    let node = Node { alias, trusted_peers };
    proof {
        assert(node@.trusted_peers =~= seq![trusted_peer@]);
    }
    topology.push(node);
    proof {
        assert(node_views(final(topology)@) =~= node_views(old(topology)@).push(node@));
        assert(texts(final(leaders)@) =~= texts(old(leaders)@).push(alias@));
    }
}

/// Adds to `wallets` the wallet `alias` that delegates to `delegate`.
fn add_wallet(wallets: &mut Vec<WalletTemplate>, alias: String, delegate: String)
    ensures
        wallet_views(final(wallets)@) == wallet_views(old(wallets)@).push(
            WalletView { alias: alias@, value: 100_000, delegate: Some(delegate@) },
        ),
{
    let wallet = WalletTemplate { alias, value: INITIAL_FUNDS, delegate: Some(delegate) };
    wallets.push(wallet);
    proof {
        assert(wallet_views(final(wallets)@) =~= wallet_views(old(wallets)@).push(wallet@));
    }
}

/// The network with `relay_nodes_count` relays and, behind each of them,
/// `nodes_count_per_relay` leaders and `legacy_nodes_count_per_relay` legacy
/// nodes. The leaders of all relays together, and the legacy nodes of all
/// relays together, must be fewer than the largest number of 32 bits: they
/// are numbered with such numbers, from 1.
pub fn prepare_real_scenario(
    title: &str,
    relay_nodes_count: u32,
    nodes_count_per_relay: u32,
    legacy_nodes_count_per_relay: u32,
    consensus: ConsensusVersion,
) -> (scenario: Scenario)
    requires
        relay_nodes_count * nodes_count_per_relay < u32::MAX,
        relay_nodes_count * legacy_nodes_count_per_relay < u32::MAX,
    ensures
        scenario@ == real_scenario(
            title@,
            relay_nodes_count as nat,
            nodes_count_per_relay as nat,
            legacy_nodes_count_per_relay as nat,
            consensus,
        ),
{
    let ghost relays = relay_nodes_count as nat;
    let ghost per_relay = nodes_count_per_relay as nat;
    let ghost legacy_per_relay = legacy_nodes_count_per_relay as nat;
    let mut topology: Vec<Node> = Vec::new();
    let mut leaders: Vec<String> = Vec::new();

    topology.push(Node { alias: String::from_str(CORE_NODE), trusted_peers: Vec::new() });
    proof {
        assert(topology@[0]@.trusted_peers =~= Seq::<Seq<char>>::empty());
        assert(node_views(topology@) =~= seq![core_node()] + relay_nodes(0));
        assert(texts(leaders@) =~= aliases(relay_nodes(0)));
    }

    let mut i: u32 = 0;
    while i < relay_nodes_count
        invariant
            i <= relay_nodes_count,
            node_views(topology@) == seq![core_node()] + relay_nodes(i as nat),
            texts(leaders@) == aliases(relay_nodes(i as nat)),
        decreases relay_nodes_count - i,
    {
        register_leader(&mut topology, &mut leaders, relay_name(i + 1), String::from_str(CORE_NODE));
        proof {
            assert(relay_nodes((i + 1) as nat) =~= relay_nodes(i as nat).push(
                relay_node((i + 1) as nat),
            ));
            assert(aliases(relay_nodes((i + 1) as nat)) =~= aliases(relay_nodes(i as nat)).push(
                spec_relay_name((i + 1) as nat),
            ));
            assert(node_views(topology@) =~= seq![core_node()] + relay_nodes((i + 1) as nat));
        }
        i = i + 1;
    }

    let mut leader_counter: u32 = 1;
    let mut legacy_nodes_counter: u32 = 1;
    let ghost front = seq![core_node()] + relay_nodes(relays);
    proof {
        assert(node_views(topology@) =~= front + nodes_behind_relays(0, per_relay, legacy_per_relay));
        assert(texts(leaders@) =~= aliases(relay_nodes(relays)) + aliases(
            nodes_behind_relays(0, per_relay, legacy_per_relay),
        ));
    }

    let mut i: u32 = 0;
    while i < relay_nodes_count
        invariant
            i <= relay_nodes_count,
            relays == relay_nodes_count,
            per_relay == nodes_count_per_relay,
            legacy_per_relay == legacy_nodes_count_per_relay,
            relays * per_relay < u32::MAX,
            relays * legacy_per_relay < u32::MAX,
            front == seq![core_node()] + relay_nodes(relays),
            leader_counter == i * per_relay + 1,
            legacy_nodes_counter == i * legacy_per_relay + 1,
            node_views(topology@) == front + nodes_behind_relays(
                i as nat,
                per_relay,
                legacy_per_relay,
            ),
            texts(leaders@) == aliases(relay_nodes(relays)) + aliases(
                nodes_behind_relays(i as nat, per_relay, legacy_per_relay),
            ),
        decreases relay_nodes_count - i,
    {
        let relay = relay_name(i + 1);
        let ghost relay_number = (i + 1) as nat;
        let ghost nodes_before = node_views(topology@);
        let ghost leaders_before = texts(leaders@);
        proof {
            assert((i + 1) * per_relay <= relays * per_relay) by (nonlinear_arith)
                requires
                    i + 1 <= relays,
            ;
            assert((i + 1) * legacy_per_relay <= relays * legacy_per_relay) by (nonlinear_arith)
                requires
                    i + 1 <= relays,
            ;
            assert((i + 1) * per_relay == i * per_relay + per_relay) by (nonlinear_arith);
            assert((i + 1) * legacy_per_relay == i * legacy_per_relay + legacy_per_relay)
                by (nonlinear_arith);
            assert(nodes_before =~= nodes_before + leaders_behind(relay_number, per_relay, 0));
            assert(leaders_before =~= leaders_before + aliases(
                leaders_behind(relay_number, per_relay, 0),
            ));
        }

        let mut j: u32 = 0;
        while j < nodes_count_per_relay
            invariant
                j <= nodes_count_per_relay,
                per_relay == nodes_count_per_relay,
                relay_number == i + 1,
                relay@ == spec_relay_name(relay_number),
                i * per_relay + per_relay < u32::MAX,
                leader_counter == i * per_relay + j + 1,
                node_views(topology@) == nodes_before + leaders_behind(
                    relay_number,
                    per_relay,
                    j as nat,
                ),
                texts(leaders@) == leaders_before + aliases(
                    leaders_behind(relay_number, per_relay, j as nat),
                ),
            decreases nodes_count_per_relay - j,
        {
            register_leader(&mut topology, &mut leaders, leader_name(leader_counter), relay.clone());
            proof {
                let grown = leaders_behind(relay_number, per_relay, (j + 1) as nat);
                let before = leaders_behind(relay_number, per_relay, j as nat);
                assert(grown =~= before.push(leader_node(relay_number, leader_counter as nat)));
                assert(aliases(grown) =~= aliases(before).push(
                    spec_leader_name(leader_counter as nat),
                ));
                assert(node_views(topology@) =~= nodes_before + grown);
                assert(texts(leaders@) =~= leaders_before + aliases(grown));
            }
            leader_counter = leader_counter + 1;
            j = j + 1;
        }

        let ghost nodes_middle = node_views(topology@);
        let ghost leaders_middle = texts(leaders@);
        proof {
            assert(nodes_middle =~= nodes_middle + legacies_behind(
                relay_number,
                legacy_per_relay,
                0,
            ));
            assert(leaders_middle =~= leaders_middle + aliases(
                legacies_behind(relay_number, legacy_per_relay, 0),
            ));
        }

        let mut k: u32 = 0;
        while k < legacy_nodes_count_per_relay
            invariant
                k <= legacy_nodes_count_per_relay,
                legacy_per_relay == legacy_nodes_count_per_relay,
                relay_number == i + 1,
                relay@ == spec_relay_name(relay_number),
                i * legacy_per_relay + legacy_per_relay < u32::MAX,
                legacy_nodes_counter == i * legacy_per_relay + k + 1,
                node_views(topology@) == nodes_middle + legacies_behind(
                    relay_number,
                    legacy_per_relay,
                    k as nat,
                ),
                texts(leaders@) == leaders_middle + aliases(
                    legacies_behind(relay_number, legacy_per_relay, k as nat),
                ),
            decreases legacy_nodes_count_per_relay - k,
        {
            register_leader(
                &mut topology,
                &mut leaders,
                legacy_name(legacy_nodes_counter),
                relay.clone(),
            );
            proof {
                let grown = legacies_behind(relay_number, legacy_per_relay, (k + 1) as nat);
                let before = legacies_behind(relay_number, legacy_per_relay, k as nat);
                assert(grown =~= before.push(
                    legacy_node(relay_number, legacy_nodes_counter as nat),
                ));
                assert(aliases(grown) =~= aliases(before).push(
                    spec_legacy_name(legacy_nodes_counter as nat),
                ));
                assert(node_views(topology@) =~= nodes_middle + grown);
                assert(texts(leaders@) =~= leaders_middle + aliases(grown));
            }
            legacy_nodes_counter = legacy_nodes_counter + 1;
            k = k + 1;
        }

        proof {
            let behind = nodes_behind(relay_number, per_relay, legacy_per_relay);
            let so_far = nodes_behind_relays(i as nat, per_relay, legacy_per_relay);
            assert(node_views(topology@) =~= front + (so_far + behind));
            assert(aliases(so_far + behind) =~= aliases(so_far) + aliases(
                leaders_behind(relay_number, per_relay, per_relay),
            ) + aliases(legacies_behind(relay_number, legacy_per_relay, legacy_per_relay)));
            assert(texts(leaders@) =~= aliases(relay_nodes(relays)) + aliases(so_far + behind));
        }
        i = i + 1;
    }

    leaders.push(String::from_str(CORE_NODE));
    proof {
        assert(texts(leaders@) =~= real_leaders(relays, per_relay, legacy_per_relay));
    }

    let mut wallets: Vec<WalletTemplate> = Vec::new();
    proof {
        assert(wallet_views(wallets@) =~= leader_wallets(0));
    }
    let mut i: u32 = 1;
    while i < leader_counter
        invariant
            1 <= i <= leader_counter,
            wallet_views(wallets@) == leader_wallets((i - 1) as nat),
        decreases leader_counter - i,
    {
        add_wallet(&mut wallets, wallet_name(i), leader_name(i));
        proof {
            assert(leader_wallets(i as nat) =~= leader_wallets((i - 1) as nat).push(
                wallet_for(i as nat, spec_leader_name(i as nat)),
            ));
        }
        i = i + 1;
    }

    let ghost leader_part = wallet_views(wallets@);
    proof {
        assert(leader_part =~= leader_part + legacy_wallets(0));
    }
    let mut i: u32 = 1;
    while i < legacy_nodes_counter
        invariant
            1 <= i <= legacy_nodes_counter,
            wallet_views(wallets@) == leader_part + legacy_wallets((i - 1) as nat),
        decreases legacy_nodes_counter - i,
    {
        add_wallet(&mut wallets, wallet_name(i), legacy_name(i));
        proof {
            assert(legacy_wallets(i as nat) =~= legacy_wallets((i - 1) as nat).push(
                wallet_for(i as nat, spec_legacy_name(i as nat)),
            ));
            assert(wallet_views(wallets@) =~= leader_part + legacy_wallets(i as nat));
        }
        i = i + 1;
    }

    Scenario {
        title: String::from_str(title),
        topology,
        blockchain: Blockchain {
            consensus,
            slots_per_epoch: 60,
            slot_duration: 1,
            kes_update_speed: 46800,
            active_slot_coefficient: 700,
            leaders,
            wallets,
        },
    }
}

} // verus!
