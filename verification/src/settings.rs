//! What is decided when the settings of a test network are made: which
//! nodes get a public identity, which key signs for each leader, and what
//! the first block holds for each wallet.
//!
//! Keys, identities and certificates are made elsewhere; here are the
//! decisions, on aliases and on what each node already has.

use crate::real_network::{node_views, texts, Node, NodeView, WalletTemplate, WalletView};
use crate::real_network::wallet_views;
use vstd::prelude::*;

verus! {

/// What a node has of secrets.
#[derive(Debug, Clone, PartialEq, Eq)]
pub struct NodeSecret {
    pub alias: String,
    /// Whether the node has a key to sign blocks as a BFT leader.
    pub bft: bool,
    /// Whether the node has the keys of a stake pool.
    pub genesis: bool,
}

/// The key of a leader of the chain.
#[derive(Debug, Clone, PartialEq, Eq)]
pub enum LeaderKey {
    /// The key that the node already has.
    OfNode { alias: String },
    /// A new key, which the node keeps from now on.
    NewForNode { alias: String },
    /// A new key that nobody keeps: the leader is not a node of the network.
    New,
}

/// An entry of the first block.
#[derive(Debug, Clone, PartialEq, Eq)]
pub enum Initial {
    /// The funds of a wallet.
    Fund { wallet: String },
    /// The registration of a new stake pool, which the node runs from now on.
    StakePool { node: String },
    /// The delegation of a wallet's stake to the stake pool of a node.
    Delegation { wallet: String, node: String },
}

/// The secrets of a node as a mathematical value.
pub struct NodeSecretView {
    pub alias: Seq<char>,
    pub bft: bool,
    pub genesis: bool,
}

/// The key of a leader as a mathematical value.
pub enum LeaderKeyView {
    OfNode { alias: Seq<char> },
    NewForNode { alias: Seq<char> },
    New,
}

/// An entry of the first block as a mathematical value.
pub enum InitialView {
    Fund { wallet: Seq<char> },
    StakePool { node: Seq<char> },
    Delegation { wallet: Seq<char>, node: Seq<char> },
}

impl View for NodeSecret {
    type V = NodeSecretView;

    open spec fn view(&self) -> NodeSecretView {
        NodeSecretView { alias: self.alias@, bft: self.bft, genesis: self.genesis }
    }
}

impl View for LeaderKey {
    type V = LeaderKeyView;

    open spec fn view(&self) -> LeaderKeyView {
        match self {
            LeaderKey::OfNode { alias } => LeaderKeyView::OfNode { alias: alias@ },
            LeaderKey::NewForNode { alias } => LeaderKeyView::NewForNode { alias: alias@ },
            LeaderKey::New => LeaderKeyView::New,
        }
    }
}

impl View for Initial {
    type V = InitialView;

    open spec fn view(&self) -> InitialView {
        match self {
            Initial::Fund { wallet } => InitialView::Fund { wallet: wallet@ },
            Initial::StakePool { node } => InitialView::StakePool { node: node@ },
            Initial::Delegation { wallet, node } => InitialView::Delegation {
                wallet: wallet@,
                node: node@,
            },
        }
    }
}

/// The secrets `secrets` as mathematical values.
pub open spec fn secret_views(secrets: Seq<NodeSecret>) -> Seq<NodeSecretView> {
    secrets.map_values(|s: NodeSecret| s@)
}

/// The keys `keys` as mathematical values.
pub open spec fn key_views(keys: Seq<LeaderKey>) -> Seq<LeaderKeyView> {
    keys.map_values(|k: LeaderKey| k@)
}

/// The entries `initials` as mathematical values.
pub open spec fn initial_views(initials: Seq<Initial>) -> Seq<InitialView> {
    initials.map_values(|i: Initial| i@)
}

/// The aliases that the nodes `nodes` trust, node after node, with
/// repetitions.
pub open spec fn all_trusted(nodes: Seq<NodeView>) -> Seq<Seq<char>>
    decreases nodes.len(),
{
    if nodes.len() == 0 {
        Seq::empty()
    } else {
        all_trusted(nodes.drop_last()) + nodes.last().trusted_peers
    }
}

/// The texts of `names` without repetitions: each at the place where it
/// occurs first.
pub open spec fn distinct(names: Seq<Seq<char>>) -> Seq<Seq<char>>
    decreases names.len(),
{
    if names.len() == 0 {
        Seq::empty()
    } else if distinct(names.drop_last()).contains(names.last()) {
        distinct(names.drop_last())
    } else {
        distinct(names.drop_last()).push(names.last())
    }
}

/// The place of the first node of `nodes`, from `from` on, with the alias
/// `alias`.
pub open spec fn find_from(nodes: Seq<NodeSecretView>, alias: Seq<char>, from: int) -> Option<int>
    decreases nodes.len() - from,
{
    if from < 0 || from >= nodes.len() {
        None
    } else if nodes[from].alias == alias {
        Some(from)
    } else {
        find_from(nodes, alias, from + 1)
    }
}

/// The place of the first node of `nodes` with the alias `alias`.
pub open spec fn find_node(nodes: Seq<NodeSecretView>, alias: Seq<char>) -> Option<int> {
    find_from(nodes, alias, 0)
}

/// The key of the leader `alias`, and the nodes afterwards. A node that has
/// a key signs with it. A node that has none gets a new one and keeps it. A
/// leader that is no node gets a new key.
pub open spec fn leader_key(nodes: Seq<NodeSecretView>, alias: Seq<char>) -> (
    LeaderKeyView,
    Seq<NodeSecretView>,
) {
    match find_node(nodes, alias) {
        None => (LeaderKeyView::New, nodes),
        Some(i) => if nodes[i].bft {
            (LeaderKeyView::OfNode { alias }, nodes)
        } else {
            (
                LeaderKeyView::NewForNode { alias },
                nodes.update(i, NodeSecretView { bft: true, ..nodes[i] }),
            )
        },
    }
}

/// The keys of the leaders `leaders`, one after the other, and the nodes
/// afterwards.
pub open spec fn leader_keys(nodes: Seq<NodeSecretView>, leaders: Seq<Seq<char>>) -> (
    Seq<LeaderKeyView>,
    Seq<NodeSecretView>,
)
    decreases leaders.len(),
{
    if leaders.len() == 0 {
        (Seq::empty(), nodes)
    } else {
        let (keys, before) = leader_keys(nodes, leaders.drop_last());
        let (key, after) = leader_key(before, leaders.last());
        (keys.push(key), after)
    }
}

/// Whether each wallet of `wallets` that delegates, delegates to a node of
/// `nodes`.
pub open spec fn delegates_are_nodes(nodes: Seq<NodeSecretView>, wallets: Seq<WalletView>) -> bool {
    forall|i: int|
        0 <= i < wallets.len() ==> ((#[trigger] wallets[i]).delegate matches Some(node)
            ==> find_node(nodes, node) is Some)
}

/// What the first block holds for the wallet `wallet`, and the nodes
/// afterwards: the funds of the wallet and, where it delegates, the
/// delegation, before which stands the registration of a new stake pool
/// where the node had none.
pub open spec fn wallet_initials(nodes: Seq<NodeSecretView>, wallet: WalletView) -> (
    Seq<InitialView>,
    Seq<NodeSecretView>,
) {
    let fund = InitialView::Fund { wallet: wallet.alias };
    match wallet.delegate {
        None => (seq![fund], nodes),
        Some(node) => {
            let delegation = InitialView::Delegation { wallet: wallet.alias, node };
            match find_node(nodes, node) {
                None => (seq![fund], nodes),
                Some(i) => if nodes[i].genesis {
                    (seq![fund, delegation], nodes)
                } else {
                    (
                        seq![fund, InitialView::StakePool { node }, delegation],
                        nodes.update(i, NodeSecretView { genesis: true, ..nodes[i] }),
                    )
                },
            }
        },
    }
}

/// What the first block holds for the wallets `wallets`, wallet after
/// wallet, and the nodes afterwards.
pub open spec fn initials(nodes: Seq<NodeSecretView>, wallets: Seq<WalletView>) -> (
    Seq<InitialView>,
    Seq<NodeSecretView>,
)
    decreases wallets.len(),
{
    if wallets.len() == 0 {
        (Seq::empty(), nodes)
    } else {
        let (entries, before) = initials(nodes, wallets.drop_last());
        let (more, after) = wallet_initials(before, wallets.last());
        (entries + more, after)
    }
}

/// Whether `name` is among `names`.
fn contains(names: &Vec<String>, name: &String) -> (found: bool)
    ensures
        found == texts(names@).contains(name@),
{
    let n: usize = names.len();
    let mut i: usize = 0;
    while i < n
        invariant
            i <= n,
            n == names@.len(),
            forall|k: int| 0 <= k < i ==> (#[trigger] texts(names@)[k]) != name@,
        decreases n - i,
    {
        if names[i] == *name {
            proof {
                assert(texts(names@)[i as int] == name@);
            }
            return true;
        }
        i = i + 1;
    }
    false
}

/// The place of the first node of `nodes` with the alias `alias`.
fn find(nodes: &Vec<NodeSecret>, alias: &String) -> (place: Option<usize>)
    ensures
        match place {
            Some(i) => find_node(secret_views(nodes@), alias@) == Some(i as int) && i
                < nodes@.len(),
            None => find_node(secret_views(nodes@), alias@) is None,
        },
{
    let n: usize = nodes.len();
    let mut i: usize = 0;
    while i < n
        invariant
            i <= n,
            n == nodes@.len(),
            find_node(secret_views(nodes@), alias@) == find_from(
                secret_views(nodes@),
                alias@,
                i as int,
            ),
        decreases n - i,
    {
        if nodes[i].alias == *alias {
            return Some(i);
        }
        i = i + 1;
    }
    None
}

/// The aliases of the nodes that some node of `nodes` trusts: each of them
/// once, where it occurs first. These are the nodes that need a public
/// identity.
pub fn trusted_peers_aliases(nodes: &Vec<Node>) -> (aliases: Vec<String>)
    ensures
        texts(aliases@) == distinct(all_trusted(node_views(nodes@))),
{
    let ghost views = node_views(nodes@);
    let mut aliases: Vec<String> = Vec::new();
    let n: usize = nodes.len();
    let mut i: usize = 0;
    proof {
        assert(views.take(0) =~= Seq::<NodeView>::empty());
        assert(texts(aliases@) =~= distinct(all_trusted(views.take(0))));
    }
    while i < n
        invariant
            i <= n,
            n == nodes@.len(),
            views == node_views(nodes@),
            texts(aliases@) == distinct(all_trusted(views.take(i as int))),
        decreases n - i,
    {
        let peers = &nodes[i].trusted_peers;
        let m: usize = peers.len();
        let ghost before = all_trusted(views.take(i as int));
        let ghost peer_texts = texts(peers@);
        let mut j: usize = 0;
        proof {
            assert(before + peer_texts.take(0) =~= before);
        }
        while j < m
            invariant
                j <= m,
                m == peers@.len(),
                peer_texts == texts(peers@),
                texts(aliases@) == distinct(before + peer_texts.take(j as int)),
            decreases m - j,
        {
            proof {
                let longer = before + peer_texts.take(j + 1);
                assert(longer.drop_last() =~= before + peer_texts.take(j as int));
                assert(longer.last() == peers@[j as int]@);
            }
            if !contains(&aliases, &peers[j]) {
                aliases.push(peers[j].clone());
                proof {
                    assert(texts(aliases@) =~= distinct(before + peer_texts.take(j as int)).push(
                        peers@[j as int]@,
                    ));
                }
            }
            j = j + 1;
        }
        proof {
            let grown = views.take(i + 1);
            assert(grown.drop_last() =~= views.take(i as int));
            assert(grown.last().trusted_peers == peer_texts);
            assert(peer_texts.take(m as int) =~= peer_texts);
        }
        i = i + 1;
    }
    proof {
        assert(views.take(n as int) =~= views);
    }
    aliases
}

/// Whether a node starts without asking its peers for the chain: it does
/// where it trusts nobody.
pub fn skip_bootstrap(node: &Node) -> (skip: bool)
    ensures
        skip == (node@.trusted_peers.len() == 0),
{
    node.trusted_peers.len() == 0
}

/// Chooses the key of each leader of `leaders`, in their order, and notes in
/// `nodes` which nodes have a key afterwards.
pub fn assign_leader_keys(nodes: &mut Vec<NodeSecret>, leaders: &Vec<String>) -> (keys: Vec<
    LeaderKey,
>)
    ensures
        (key_views(keys@), secret_views(final(nodes)@)) == leader_keys(
            secret_views(old(nodes)@),
            texts(leaders@),
        ),
{
    let ghost start = secret_views(nodes@);
    let ghost names = texts(leaders@);
    let mut keys: Vec<LeaderKey> = Vec::new();
    let n: usize = leaders.len();
    let mut i: usize = 0;
    proof {
        assert(names.take(0) =~= Seq::<Seq<char>>::empty());
        assert(key_views(keys@) =~= Seq::<LeaderKeyView>::empty());
    }
    while i < n
        invariant
            i <= n,
            n == leaders@.len(),
            names == texts(leaders@),
            (key_views(keys@), secret_views(nodes@)) == leader_keys(start, names.take(i as int)),
        decreases n - i,
    {
        let alias = leaders[i].clone();
        let ghost keys_before = key_views(keys@);
        let ghost nodes_before = secret_views(nodes@);
        proof {
            let longer = names.take(i + 1);
            assert(longer.drop_last() =~= names.take(i as int));
            assert(longer.last() == alias@);
        }
        let key = match find(nodes, &alias) {
            None => LeaderKey::New,
            Some(at) => {
                if nodes[at].bft {
                    LeaderKey::OfNode { alias }
                } else {
                    let node = NodeSecret {
                        alias: nodes[at].alias.clone(),
                        bft: true,
                        genesis: nodes[at].genesis,
                    };
                    nodes.set(at, node);
                    proof {
                        assert(secret_views(nodes@) =~= nodes_before.update(
                            at as int,
                            NodeSecretView { bft: true, ..nodes_before[at as int] },
                        ));
                    }
                    LeaderKey::NewForNode { alias }
                }
            },
        };
        keys.push(key);
        proof {
            assert(key_views(keys@) =~= keys_before.push(key@));
        }
        i = i + 1;
    }
    proof {
        assert(names.take(n as int) =~= names);
    }
    keys
}

/// Whether each wallet of `wallets` that delegates, delegates to a node of
/// `nodes`.
pub fn delegates_are_known(nodes: &Vec<NodeSecret>, wallets: &Vec<WalletTemplate>) -> (known: bool)
    ensures
        known == delegates_are_nodes(secret_views(nodes@), wallet_views(wallets@)),
{
    let n: usize = wallets.len();
    let mut i: usize = 0;
    while i < n
        invariant
            i <= n,
            n == wallets@.len(),
            forall|k: int|
                0 <= k < i ==> ((#[trigger] wallet_views(wallets@)[k]).delegate matches Some(node)
                    ==> find_node(secret_views(nodes@), node) is Some),
        decreases n - i,
    {
        match &wallets[i].delegate {
            None => {},
            Some(delegation) => {
                if find(nodes, delegation).is_none() {
                    proof {
                        assert(wallet_views(wallets@)[i as int].delegate == Some(delegation@));
                    }
                    return false;
                }
                proof {
                    assert(wallet_views(wallets@)[i as int].delegate == Some(delegation@));
                }
            },
        }
        i = i + 1;
    }
    true
}

/// Lists what the first block holds for the wallets `wallets`, in their
/// order, and notes in `nodes` which nodes run a stake pool afterwards.
/// Each wallet that delegates must delegate to a node of `nodes`.
pub fn block0_initials(nodes: &mut Vec<NodeSecret>, wallets: &Vec<WalletTemplate>) -> (entries:
    Vec<Initial>)
    requires
        delegates_are_nodes(secret_views(old(nodes)@), wallet_views(wallets@)),
    ensures
        (initial_views(entries@), secret_views(final(nodes)@)) == initials(
            secret_views(old(nodes)@),
            wallet_views(wallets@),
        ),
{
    let ghost start = secret_views(nodes@);
    let ghost views = wallet_views(wallets@);
    let mut entries: Vec<Initial> = Vec::new();
    let n: usize = wallets.len();
    let mut i: usize = 0;
    proof {
        assert(views.take(0) =~= Seq::<WalletView>::empty());
        assert(initial_views(entries@) =~= Seq::<InitialView>::empty());
    }
    while i < n
        invariant
            i <= n,
            n == wallets@.len(),
            views == wallet_views(wallets@),
            (initial_views(entries@), secret_views(nodes@)) == initials(start, views.take(i as int)),
            nodes@.len() == start.len(),
            forall|k: int|
                0 <= k < start.len() ==> (#[trigger] secret_views(nodes@)[k]).alias
                    == start[k].alias,
            delegates_are_nodes(start, views),
        decreases n - i,
    {
        let wallet = &wallets[i];
        let ghost entries_before = initial_views(entries@);
        let ghost nodes_before = secret_views(nodes@);
        proof {
            let longer = views.take(i + 1);
            assert(longer.drop_last() =~= views.take(i as int));
            assert(longer.last() == wallet@);
            assert(views[i as int] == wallet@);
        }
        entries.push(Initial::Fund { wallet: wallet.alias.clone() });
        match &wallet.delegate {
            None => {
                proof {
                    assert(initial_views(entries@) =~= entries_before + seq![
                        InitialView::Fund { wallet: wallet@.alias },
                    ]);
                }
            },
            Some(delegation) => {
                proof {
                    lemma_find_by_aliases(start, nodes_before, delegation@);
                }
                match find(nodes, delegation) {
                    None => {
                        proof {
                            assert(false);
                        }
                    },
                    Some(at) => {
                        if !nodes[at].genesis {
                            let node = NodeSecret {
                                alias: nodes[at].alias.clone(),
                                bft: nodes[at].bft,
                                genesis: true,
                            };
                            nodes.set(at, node);
                            entries.push(Initial::StakePool { node: delegation.clone() });
                            proof {
                                assert(secret_views(nodes@) =~= nodes_before.update(
                                    at as int,
                                    NodeSecretView { genesis: true, ..nodes_before[at as int] },
                                ));
                            }
                        }
                        entries.push(
                            Initial::Delegation {
                                wallet: wallet.alias.clone(),
                                node: delegation.clone(),
                            },
                        );
                        proof {
                            assert(initial_views(entries@) =~= entries_before + wallet_initials(
                                nodes_before,
                                wallet@,
                            ).0);
                        }
                    },
                }
            },
        }
        i = i + 1;
    }
    proof {
        assert(views.take(n as int) =~= views);
    }
    entries
}

/// Where two lists of nodes have the same aliases at the same places, an
/// alias is found in both at the same place.
pub proof fn lemma_find_by_aliases(
    a: Seq<NodeSecretView>,
    b: Seq<NodeSecretView>,
    alias: Seq<char>,
)
    requires
        a.len() == b.len(),
        forall|k: int| 0 <= k < a.len() ==> (#[trigger] b[k]).alias == a[k].alias,
    ensures
        find_node(a, alias) == find_node(b, alias),
{
    lemma_find_from_by_aliases(a, b, alias, 0);
}

/// The same from any place on.
proof fn lemma_find_from_by_aliases(
    a: Seq<NodeSecretView>,
    b: Seq<NodeSecretView>,
    alias: Seq<char>,
    from: int,
)
    requires
        a.len() == b.len(),
        forall|k: int| 0 <= k < a.len() ==> (#[trigger] b[k]).alias == a[k].alias,
    ensures
        find_from(a, alias, from) == find_from(b, alias, from),
    decreases a.len() - from,
{
    if 0 <= from < a.len() {
        assert(b[from].alias == a[from].alias);
        if a[from].alias != alias {
            lemma_find_from_by_aliases(a, b, alias, from + 1);
        }
    }
}

} // verus!
