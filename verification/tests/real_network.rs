use jormungandr_voting::decimal::decimal_text;
use jormungandr_voting::real_network::{
    leader_name, legacy_name, prepare_real_scenario, relay_name, wallet_name, ConsensusVersion,
    Node, WalletTemplate, CORE_NODE,
};

fn node(alias: &str, trusted: &[&str]) -> Node {
    Node {
        alias: alias.to_string(),
        trusted_peers: trusted.iter().map(|p| p.to_string()).collect(),
    }
}

fn wallet(alias: &str, delegate: &str) -> WalletTemplate {
    WalletTemplate {
        alias: alias.to_string(),
        value: 100_000,
        delegate: Some(delegate.to_string()),
    }
}

#[test]
fn names_are_a_prefix_and_a_number() {
    assert_eq!(relay_name(1), "Relay_1");
    assert_eq!(leader_name(33), "Leader_33");
    assert_eq!(legacy_name(0), "Legacy_0");
    assert_eq!(wallet_name(120), "leader_wallet_120");
    assert_eq!(relay_name(u32::MAX), "Relay_4294967295");
    assert_eq!(CORE_NODE, "Core");
}

#[test]
fn decimal_text_is_what_display_prints() {
    for n in [0u32, 1, 9, 10, 11, 99, 100, 101, 1000, 65535, 1_000_000, 4_294_967_295] {
        assert_eq!(decimal_text(n), n.to_string());
    }
}

#[test]
fn scenario_with_leaders_and_legacy_nodes() {
    let scenario = prepare_real_scenario("small", 2, 2, 1, ConsensusVersion::GenesisPraos);
    assert_eq!(scenario.title, "small");
    assert_eq!(
        scenario.topology,
        vec![
            node("Core", &[]),
            node("Relay_1", &["Core"]),
            node("Relay_2", &["Core"]),
            node("Leader_1", &["Relay_1"]),
            node("Leader_2", &["Relay_1"]),
            node("Legacy_1", &["Relay_1"]),
            node("Leader_3", &["Relay_2"]),
            node("Leader_4", &["Relay_2"]),
            node("Legacy_2", &["Relay_2"]),
        ]
    );
    let leaders: Vec<&str> = scenario.blockchain.leaders.iter().map(|s| s.as_str()).collect();
    assert_eq!(
        leaders,
        vec![
            "Relay_1", "Relay_2", "Leader_1", "Leader_2", "Legacy_1", "Leader_3", "Leader_4",
            "Legacy_2", "Core"
        ]
    );
    assert_eq!(
        scenario.blockchain.wallets,
        vec![
            wallet("leader_wallet_1", "Leader_1"),
            wallet("leader_wallet_2", "Leader_2"),
            wallet("leader_wallet_3", "Leader_3"),
            wallet("leader_wallet_4", "Leader_4"),
            wallet("leader_wallet_1", "Legacy_1"),
            wallet("leader_wallet_2", "Legacy_2"),
        ]
    );
    assert_eq!(scenario.blockchain.consensus, ConsensusVersion::GenesisPraos);
    assert_eq!(scenario.blockchain.slots_per_epoch, 60);
    assert_eq!(scenario.blockchain.slot_duration, 1);
    assert_eq!(scenario.blockchain.kes_update_speed, 46800);
    assert_eq!(scenario.blockchain.active_slot_coefficient, 700);
}

#[test]
fn scenario_of_the_real_networks() {
    let scenario = prepare_real_scenario("real_bft_Network", 3, 11, 0, ConsensusVersion::Bft);
    assert_eq!(scenario.topology.len(), 1 + 3 + 33);
    assert_eq!(scenario.blockchain.leaders.len(), 37);
    assert_eq!(scenario.blockchain.wallets.len(), 33);
    assert_eq!(scenario.topology[4], node("Leader_1", &["Relay_1"]));
    assert_eq!(scenario.topology[15], node("Leader_12", &["Relay_2"]));
    assert_eq!(scenario.topology[36], node("Leader_33", &["Relay_3"]));
    assert_eq!(scenario.blockchain.leaders[36], "Core");
    assert_eq!(
        scenario.blockchain.wallets[32],
        wallet("leader_wallet_33", "Leader_33")
    );
}

#[test]
fn scenario_without_relays_is_the_core_alone() {
    let scenario = prepare_real_scenario("alone", 0, 5, 5, ConsensusVersion::Bft);
    assert_eq!(scenario.topology, vec![node("Core", &[])]);
    assert_eq!(scenario.blockchain.leaders, vec!["Core".to_string()]);
    assert!(scenario.blockchain.wallets.is_empty());
}
