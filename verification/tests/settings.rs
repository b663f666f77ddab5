use jormungandr_voting::real_network::{
    prepare_real_scenario, ConsensusVersion, Node, WalletTemplate,
};
use jormungandr_voting::settings::{
    assign_leader_keys, block0_initials, skip_bootstrap, trusted_peers_aliases, Initial,
    LeaderKey, NodeSecret,
};

fn node(alias: &str, trusted: &[&str]) -> Node {
    Node {
        alias: alias.to_string(),
        trusted_peers: trusted.iter().map(|p| p.to_string()).collect(),
    }
}

fn secret(alias: &str, bft: bool, genesis: bool) -> NodeSecret {
    NodeSecret { alias: alias.to_string(), bft, genesis }
}

fn wallet(alias: &str, delegate: Option<&str>) -> WalletTemplate {
    WalletTemplate {
        alias: alias.to_string(),
        value: 100_000,
        delegate: delegate.map(|d| d.to_string()),
    }
}

fn names(list: &[&str]) -> Vec<String> {
    list.iter().map(|s| s.to_string()).collect()
}

#[test]
fn trusted_peers_are_listed_once() {
    let nodes = vec![
        node("a", &["core", "b"]),
        node("b", &["core"]),
        node("core", &[]),
        node("c", &["b", "a", "b"]),
    ];
    assert_eq!(trusted_peers_aliases(&nodes), names(&["core", "b", "a"]));
    assert!(trusted_peers_aliases(&vec![node("alone", &[])]).is_empty());
    assert!(trusted_peers_aliases(&Vec::new()).is_empty());
}

#[test]
fn trusted_peers_of_the_real_network() {
    let scenario = prepare_real_scenario("t", 2, 3, 1, ConsensusVersion::Bft);
    assert_eq!(
        trusted_peers_aliases(&scenario.topology),
        names(&["Core", "Relay_1", "Relay_2"])
    );
}

#[test]
fn a_node_without_trusted_peers_skips_bootstrap() {
    assert!(skip_bootstrap(&node("core", &[])));
    assert!(!skip_bootstrap(&node("relay", &["core"])));
}

#[test]
fn leader_keys_by_what_the_node_has() {
    let mut nodes = vec![
        secret("with_key", true, false),
        secret("without_key", false, false),
    ];
    let keys = assign_leader_keys(
        &mut nodes,
        &names(&["without_key", "stranger", "with_key", "without_key"]),
    );
    assert_eq!(
        keys,
        vec![
            LeaderKey::NewForNode { alias: "without_key".to_string() },
            LeaderKey::New,
            LeaderKey::OfNode { alias: "with_key".to_string() },
            LeaderKey::OfNode { alias: "without_key".to_string() },
        ]
    );
    assert_eq!(
        nodes,
        vec![secret("with_key", true, false), secret("without_key", true, false)]
    );
}

#[test]
fn first_block_of_wallets_and_delegations() {
    let mut nodes = vec![secret("pool", false, true), secret("fresh", true, false)];
    let wallets = vec![
        wallet("w1", None),
        wallet("w2", Some("fresh")),
        wallet("w3", Some("pool")),
        wallet("w4", Some("fresh")),
    ];
    let entries = block0_initials(&mut nodes, &wallets);
    let fund = |w: &str| Initial::Fund { wallet: w.to_string() };
    let delegation = |w: &str, n: &str| Initial::Delegation {
        wallet: w.to_string(),
        node: n.to_string(),
    };
    assert_eq!(
        entries,
        vec![
            fund("w1"),
            fund("w2"),
            Initial::StakePool { node: "fresh".to_string() },
            delegation("w2", "fresh"),
            fund("w3"),
            delegation("w3", "pool"),
            fund("w4"),
            delegation("w4", "fresh"),
        ]
    );
    assert_eq!(
        nodes,
        vec![secret("pool", false, true), secret("fresh", true, true)]
    );
}

#[test]
fn first_block_of_no_wallet_is_empty() {
    let mut nodes = vec![secret("n", false, false)];
    assert!(block0_initials(&mut nodes, &Vec::new()).is_empty());
    assert_eq!(nodes, vec![secret("n", false, false)]);
}
