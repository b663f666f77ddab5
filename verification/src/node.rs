//! The contract between a blockchain node and the network layer that serves
//! its peers.
//!
//! A node answers the handshake of a peer and says which of the block,
//! fragment and gossip protocols it serves. One node serves many peers at
//! once and lives as long as the process: it is shared between threads and
//! keeps nothing that belongs to one connection.

use vstd::prelude::*;

verus! {

/// The protocol by which peers fetch and announce blocks.
pub trait BlockService {

}

/// The protocol by which peers submit and spread fragments.
pub trait FragmentService {

}

/// The protocol by which peers tell each other of the nodes they know.
pub trait GossipService {

}

/// The identity of a node on the network: its public key.
#[derive(Debug, PartialEq, Eq)]
pub struct NodeId {
    bytes: Vec<u8>,
}

/// The identifier of a block.
#[derive(Debug, PartialEq, Eq)]
pub struct BlockId {
    bytes: Vec<u8>,
}

/// The identity of a node together with its signature of a nonce.
#[derive(Debug, PartialEq, Eq)]
pub struct SignedNodeId {
    id: NodeId,
    signature: Vec<u8>,
}

/// Why a node refused a handshake.
#[derive(Debug, Clone, Copy, PartialEq, Eq, Structural)]
pub enum Error {
    /// The node does not know the peer.
    UnknownPeer,
    /// The node cannot sign: its key is out of reach.
    SigningUnavailable,
}

impl View for NodeId {
    type V = Seq<u8>;

    closed spec fn view(&self) -> Seq<u8> {
        self.bytes@
    }
}

impl View for BlockId {
    type V = Seq<u8>;

    closed spec fn view(&self) -> Seq<u8> {
        self.bytes@
    }
}

impl NodeId {
    /// The identity made of the bytes of a public key.
    pub fn new(bytes: Vec<u8>) -> (id: Self)
        ensures
            id@ == bytes@,
    {
        NodeId { bytes }
    }

    /// The bytes of the public key.
    pub fn as_bytes(&self) -> (bytes: &[u8])
        ensures
            bytes@ == self@,
    {
        self.bytes.as_slice()
    }
}

impl BlockId {
    /// The identifier made of `bytes`.
    pub fn new(bytes: Vec<u8>) -> (id: Self)
        ensures
            id@ == bytes@,
    {
        BlockId { bytes }
    }

    /// The bytes of the identifier.
    pub fn as_bytes(&self) -> (bytes: &[u8])
        ensures
            bytes@ == self@,
    {
        self.bytes.as_slice()
    }
}

impl SignedNodeId {
    /// The identity of the signer, as a mathematical value.
    pub closed spec fn spec_id(&self) -> Seq<u8> {
        self.id@
    }

    /// The signature, as a mathematical value.
    pub closed spec fn spec_signature(&self) -> Seq<u8> {
        self.signature@
    }

    /// The identity `id` with the signature that its owner made.
    pub fn new(id: NodeId, signature: Vec<u8>) -> (signed: Self)
        ensures
            signed.spec_id() == id@,
            signed.spec_signature() == signature@,
    {
        SignedNodeId { id, signature }
    }

    /// The identity of the signer.
    pub fn id(&self) -> (id: &NodeId)
        ensures
            id@ == self.spec_id(),
    {
        &self.id
    }

    /// The signature.
    pub fn signature(&self) -> (signature: &[u8])
        ensures
            signature@ == self.spec_signature(),
    {
        self.signature.as_slice()
    }
}

/// What a blockchain node offers to the network layer.
///
/// The network layer calls these from the tasks of many peers at once; a
/// node guards what it shares between them by itself. A call may wait for
/// storage or for a key store. Time limits, cancelling and retries are the
/// business of the network layer.
pub trait Node: Send + Sync + 'static {
    /// The node's way of serving blocks.
    type BlockService: BlockService + Send + Sync;

    /// The node's way of serving fragments.
    type FragmentService: FragmentService + Send + Sync;

    /// The node's way of serving gossip.
    type GossipService: GossipService + Send + Sync;

    /// Answers the handshake of the peer `peer_id`: gives the identifier of
    /// the genesis block of the node's chain, and the node's own identity
    /// with its signature of `nonce`. The answer is an error where the node
    /// does not know the peer or cannot sign.
    fn handshake(&self, peer_id: NodeId, nonce: &[u8]) -> Result<(BlockId, SignedNodeId), Error>;

    /// The block service, if the node serves blocks.
    fn block_service(&self) -> Option<&Self::BlockService>;

    /// The fragment service, if the node serves fragments.
    fn fragment_service(&self) -> Option<&Self::FragmentService>;

    /// The gossip service, if the node serves gossip.
    fn gossip_service(&self) -> Option<&Self::GossipService>;
}

} // verus!
