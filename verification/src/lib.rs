use vstd::prelude::*;

pub mod account;
pub mod amount;
pub mod block;
pub mod catchup;
pub mod chain_config;
pub mod digest;
pub mod error;
pub mod header;
pub mod init;
pub mod l1_client;
pub mod merkle;
pub mod network;
pub mod persistence;
pub mod state;
pub mod transaction;

pub use crate::chain_config::ChainConfig;
pub use crate::error::Error;
pub use crate::header::Header;
pub use crate::l1_client::L1BlockInfo;
pub use crate::state::ValidatedState;
pub use crate::transaction::{NamespaceId, Transaction};

use crate::account::FeeAccount;
use crate::catchup::{StateCatchup, StateHistory};
use crate::l1_client::L1Client;
use crate::persistence::SequencerPersistence;
use std::marker::PhantomData;

verus! {

/// The sequencer node, by the kind of network it talks over and the kind of
/// store it keeps its data in.
#[derive(Debug)]
pub struct Node<N: network::Type, P: SequencerPersistence>(pub PhantomData<(N, P)>);

/// Marker for the type bundle that the consensus engine is instantiated with.
#[derive(Clone, Copy, Debug, Default, Hash, PartialEq, Eq, PartialOrd, Ord)]
pub struct SeqTypes;

/// What a node knows from its start on and for as long as it runs.
#[derive(Clone, Debug)]
pub struct NodeState {
    node_id: u64,
    chain_config: ChainConfig,
    l1_client: L1Client,
    peers: StateCatchup,
    genesis_state: ValidatedState,
    l1_genesis: Option<L1BlockInfo>,
}

impl NodeState {
    /// The number of the node.
    pub closed spec fn spec_node_id(&self) -> u64 {
        self.node_id
    }

    /// The parameters of the chain.
    pub closed spec fn spec_chain_config(&self) -> ChainConfig {
        self.chain_config
    }

    /// The tracker of the L1 chain.
    pub closed spec fn spec_l1_client(&self) -> L1Client {
        self.l1_client
    }

    /// Where the node gets the state that it does not hold.
    pub closed spec fn spec_peers(&self) -> StateCatchup {
        self.peers
    }

    /// The state with which the chain starts.
    pub closed spec fn spec_genesis_state(&self) -> ValidatedState {
        self.genesis_state
    }

    /// The finalized L1 block with which the chain starts, if there is one.
    pub closed spec fn spec_l1_genesis(&self) -> Option<L1BlockInfo> {
        self.l1_genesis
    }

    /// Whether the state and the ledgers that the node holds are well formed.
    pub open spec fn wf(&self) -> bool {
        self.spec_genesis_state().wf() && self.spec_peers().wf()
    }

    /// A node with the given number, chain parameters, L1 tracker and source
    /// of state. Its chain starts from the state in which no account has a
    /// balance, and from no finalized L1 block.
    pub fn new(
        node_id: u64,
        chain_config: ChainConfig,
        l1_client: L1Client,
        catchup: StateCatchup,
    ) -> (node: NodeState)
        requires
            catchup.wf(),
        ensures
            node.wf(),
            node.spec_node_id() == node_id,
            node.spec_chain_config() == chain_config,
            node.spec_l1_client() == l1_client,
            node.spec_peers() == catchup,
            node.spec_genesis_state().ledger().node() == merkle::FeeNode::Empty,
            node.spec_genesis_state().config().chain_id == 35353,
            node.spec_l1_genesis() is None,
    {
        NodeState {
            node_id,
            chain_config,
            l1_client,
            peers: catchup,
            genesis_state: ValidatedState::default(),
            l1_genesis: None,
        }
    }

    /// A node for tests: number 0, the parameters of a test chain, an L1
    /// provider on this machine, and a source of state without ledgers.
    pub fn mock() -> (node: NodeState)
        ensures
            node.wf(),
            node.spec_node_id() == 0,
            node.spec_chain_config().chain_id == 35353,
            node.spec_l1_client().spec_provider() == "http://localhost:3331"@,
            node.spec_l1_client().head().number == 0,
            node.spec_peers() is Mock,
            node.spec_peers()->Mock_0.entries().len() == 0,
            node.spec_genesis_state().ledger().node() == merkle::FeeNode::Empty,
            node.spec_l1_genesis() is None,
    {
        NodeState::new(
            0,
            ChainConfig::default(),
            L1Client::new("http://localhost:3331".to_owned(), FeeAccount::zero()),
            StateCatchup::Mock(StateHistory::new()),
        )
    }

    /// The node with another L1 tracker.
    pub fn with_l1(self, l1_client: L1Client) -> (node: NodeState)
        ensures
            node.spec_l1_client() == l1_client,
            node.spec_node_id() == self.spec_node_id(),
            node.spec_chain_config() == self.spec_chain_config(),
            node.spec_peers() == self.spec_peers(),
            node.spec_genesis_state() == self.spec_genesis_state(),
            node.spec_l1_genesis() == self.spec_l1_genesis(),
    {
        let mut node = self;
        node.l1_client = l1_client;
        node
    }

    /// The node with another state for its chain to start from.
    pub fn with_genesis(self, state: ValidatedState) -> (node: NodeState)
        ensures
            node.spec_genesis_state() == state,
            node.spec_node_id() == self.spec_node_id(),
            node.spec_chain_config() == self.spec_chain_config(),
            node.spec_l1_client() == self.spec_l1_client(),
            node.spec_peers() == self.spec_peers(),
            node.spec_l1_genesis() == self.spec_l1_genesis(),
    {
        let mut node = self;
        node.genesis_state = state;
        node
    }

    /// The node with another finalized L1 block for its chain to start from.
    pub fn with_l1_genesis(self, l1_genesis: Option<L1BlockInfo>) -> (node: NodeState)
        ensures
            node.spec_l1_genesis() == l1_genesis,
            node.spec_node_id() == self.spec_node_id(),
            node.spec_chain_config() == self.spec_chain_config(),
            node.spec_l1_client() == self.spec_l1_client(),
            node.spec_peers() == self.spec_peers(),
            node.spec_genesis_state() == self.spec_genesis_state(),
    {
        let mut node = self;
        node.l1_genesis = l1_genesis;
        node
    }

    /// The tracker of the L1 chain.
    pub fn l1_client(&self) -> (l1_client: &L1Client)
        ensures
            *l1_client == self.spec_l1_client(),
    {
        &self.l1_client
    }

    /// The number of the node.
    pub fn node_id(&self) -> (node_id: u64)
        ensures
            node_id == self.spec_node_id(),
    {
        self.node_id
    }

    /// The parameters of the chain.
    pub fn chain_config(&self) -> (chain_config: ChainConfig)
        ensures
            chain_config == self.spec_chain_config(),
    {
        self.chain_config
    }

    /// Where the node gets the state that it does not hold.
    pub fn peers(&self) -> (peers: &StateCatchup)
        ensures
            *peers == self.spec_peers(),
    {
        &self.peers
    }

    /// The state with which the chain starts.
    pub fn genesis_state(&self) -> (state: &ValidatedState)
        ensures
            *state == self.spec_genesis_state(),
    {
        &self.genesis_state
    }

    /// The finalized L1 block with which the chain starts, if there is one.
    pub fn l1_genesis(&self) -> (l1_genesis: Option<L1BlockInfo>)
        ensures
            l1_genesis == self.spec_l1_genesis(),
    {
        self.l1_genesis
    }
}

impl Default for NodeState {
    /// The node for tests with the number 1.
    fn default() -> (node: NodeState)
        ensures
            node.wf(),
            node.spec_node_id() == 1,
            node.spec_chain_config().chain_id == 35353,
            node.spec_l1_client().spec_provider() == "http://localhost:3331"@,
            node.spec_peers() is Mock,
            node.spec_genesis_state().ledger().node() == merkle::FeeNode::Empty,
            node.spec_l1_genesis() is None,
    {
        NodeState::new(
            1,
            ChainConfig::default(),
            L1Client::new("http://localhost:3331".to_owned(), FeeAccount::zero()),
            StateCatchup::Mock(StateHistory::new()),
        )
    }
}

} // verus!
