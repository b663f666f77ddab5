use cryptoxide::ed25519;
use jormungandr_voting::node::{
    BlockId, BlockService, Error, FragmentService, GossipService, Node, NodeId, SignedNodeId,
};

struct Blocks;
impl BlockService for Blocks {}

struct Fragments;
impl FragmentService for Fragments {}

struct Gossip;
impl GossipService for Gossip {}

/// A node that knows a fixed set of peers and signs with a fixed key.
struct TestNode {
    genesis: Vec<u8>,
    secret: Option<[u8; 32]>,
    known_peers: Vec<Vec<u8>>,
    blocks: Option<Blocks>,
    fragments: Option<Fragments>,
}

impl Node for TestNode {
    type BlockService = Blocks;
    type FragmentService = Fragments;
    type GossipService = Gossip;

    fn handshake(&self, peer_id: NodeId, nonce: &[u8]) -> Result<(BlockId, SignedNodeId), Error> {
        if !self.known_peers.iter().any(|p| p.as_slice() == peer_id.as_bytes()) {
            return Err(Error::UnknownPeer);
        }
        let secret = self.secret.ok_or(Error::SigningUnavailable)?;
        let (keypair, public) = ed25519::keypair(&secret);
        let signature = ed25519::signature(nonce, &keypair);
        Ok((
            BlockId::new(self.genesis.clone()),
            SignedNodeId::new(NodeId::new(public.to_vec()), signature.to_vec()),
        ))
    }

    fn block_service(&self) -> Option<&Blocks> {
        self.blocks.as_ref()
    }

    fn fragment_service(&self) -> Option<&Fragments> {
        self.fragments.as_ref()
    }

    fn gossip_service(&self) -> Option<&Gossip> {
        None
    }
}

fn test_node() -> TestNode {
    TestNode {
        genesis: vec![7u8; 32],
        secret: Some([42u8; 32]),
        known_peers: vec![vec![1, 2, 3]],
        blocks: Some(Blocks),
        fragments: None,
    }
}

fn shared<N: Node>(node: N) -> std::sync::Arc<N> {
    std::sync::Arc::new(node)
}

#[test]
fn handshake_gives_the_genesis_and_a_signature_of_the_nonce() {
    let node = shared(test_node());
    let (_, public) = ed25519::keypair(&[42u8; 32]);
    let nonce = b"a nonce chosen by the peer";
    for _ in 0..3 {
        let (genesis, signed) = node
            .handshake(NodeId::new(vec![1, 2, 3]), nonce)
            .expect("the peer is known");
        assert_eq!(genesis, BlockId::new(vec![7u8; 32]));
        assert_eq!(genesis.as_bytes(), &[7u8; 32][..]);
        assert_eq!(signed.id().as_bytes(), &public[..]);
        let mut signature = [0u8; 64];
        signature.copy_from_slice(signed.signature());
        assert!(ed25519::verify(nonce, &public, &signature));
        assert!(!ed25519::verify(b"another nonce", &public, &signature));
    }
}

#[test]
fn handshake_refuses_an_unknown_peer() {
    let node = test_node();
    assert_eq!(
        node.handshake(NodeId::new(vec![9, 9]), b"nonce").err(),
        Some(Error::UnknownPeer)
    );
}

#[test]
fn handshake_fails_without_a_key() {
    let mut node = test_node();
    node.secret = None;
    assert_eq!(
        node.handshake(NodeId::new(vec![1, 2, 3]), b"nonce").err(),
        Some(Error::SigningUnavailable)
    );
}

#[test]
fn services_are_there_or_not() {
    let node = test_node();
    assert!(node.block_service().is_some());
    assert!(node.fragment_service().is_none());
    assert!(node.gossip_service().is_none());
}

fn needs_a_shareable_value<T: Send + Sync + 'static>(_: &T) {}

#[test]
fn a_node_can_be_shared_for_the_life_of_the_process() {
    let node = shared(test_node());
    needs_a_shareable_value(&node);
    let other = node.clone();
    let first = node.handshake(NodeId::new(vec![1, 2, 3]), &[1]).map(|(g, _)| g);
    let second = other.handshake(NodeId::new(vec![1, 2, 3]), &[2]).map(|(g, _)| g);
    assert_eq!(first, Ok(BlockId::new(vec![7u8; 32])));
    assert_eq!(first, second);
}
