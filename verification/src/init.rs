use crate::account::FeeAccount;
use crate::amount::{max_amount, FeeAmount};
use crate::catchup::{StateCatchup, StateHistory};
use crate::chain_config::ChainConfig;
use crate::l1_client::{L1BlockInfo, L1Client};
use crate::persistence::NetworkConfig;
use crate::state::{amount_with, lemma_amount_with, prefunded_ledger, ValidatedState};
use crate::NodeState;
use vstd::prelude::*;

verus! {

/// Where a node finds the network: its CDN, its orchestrator, its relay
/// server and the peers that it fetches state from.
#[derive(Debug)]
pub struct NetworkParams {
    pub cdn_endpoint: String,
    pub orchestrator_url: String,
    pub state_relay_server_url: String,
    pub state_peers: Vec<String>,
    pub libp2p_advertise_address: String,
    pub libp2p_bind_address: String,
}

/// The accounts that hold the largest balance when the chain starts.
#[derive(Debug)]
pub struct BuilderParams {
    pub prefunded_accounts: Vec<FeeAccount>,
}

/// The L1 provider and, where the chain starts from one, the number of the
/// finalized L1 block that it starts from.
#[derive(Debug)]
pub struct L1Params {
    pub url: String,
    pub finalized_block: Option<u64>,
}

/// A topic of the CDN.
#[derive(Clone, Copy, Debug)]
pub enum Topic {
    Global,
    Da,
}

/// How far the start of a node has come.
#[derive(Clone, Copy, Debug)]
pub enum InitPhase {
    LoadingConfig,
    FetchingConfig,
    SavingConfig,
    ConnectingNetworks,
    FetchingL1Genesis,
    Ready,
    Failed,
}

/// What came of the step that the start of a node asked for.
#[derive(Debug)]
pub enum InitEvent {
    /// The store was read: it held this configuration, or none.
    ConfigLoaded(Option<NetworkConfig>),
    /// The orchestrator gave this configuration.
    ConfigFetched(NetworkConfig),
    /// The configuration was stored.
    ConfigSaved,
    /// The networks are connected.
    NetworksConnected,
    /// The L1 provider returned this block.
    L1BlockFetched(L1BlockInfo),
    /// The step failed.
    Failure,
}

/// What the start of a node asks for next.
#[derive(Clone, Copy, Debug)]
pub enum InitAction {
    LoadConfig,
    FetchConfig,
    SaveConfig,
    ConnectNetworks,
    FetchL1Block { number: u64 },
    Finish,
    Abort,
}

/// The start of a node: what was asked for, and what has come in so far.
#[derive(Debug)]
pub struct NodeInit {
    pub phase: InitPhase,
    pub is_da: bool,
    pub finalized_block: Option<u64>,
    pub config: Option<NetworkConfig>,
    pub wait_for_orchestrator: bool,
    pub l1_genesis: Option<L1BlockInfo>,
}

/// The start of a node after an event. A configuration that the store holds
/// is taken, and the node rejoins its network. Where the store holds none,
/// the orchestrator is asked, what it gives is stored, and the node will
/// wait for the orchestrator before it runs. Then the networks are
/// connected, and the L1 block that the chain starts from is fetched if one
/// was asked for. An event that does not answer the step that was asked for
/// makes the start fail. Once it is ready or has failed, nothing changes.
pub open spec fn init_step(init: NodeInit, event: InitEvent) -> NodeInit {
    match init.phase {
        InitPhase::Ready => init,
        InitPhase::Failed => init,
        InitPhase::LoadingConfig => match event {
            InitEvent::ConfigLoaded(Some(config)) => NodeInit {
                phase: InitPhase::ConnectingNetworks,
                config: Some(config),
                wait_for_orchestrator: false,
                ..init
            },
            InitEvent::ConfigLoaded(None) => NodeInit { phase: InitPhase::FetchingConfig, ..init },
            _ => NodeInit { phase: InitPhase::Failed, ..init },
        },
        InitPhase::FetchingConfig => match event {
            InitEvent::ConfigFetched(config) => NodeInit {
                phase: InitPhase::SavingConfig,
                config: Some(config),
                wait_for_orchestrator: true,
                ..init
            },
            _ => NodeInit { phase: InitPhase::Failed, ..init },
        },
        InitPhase::SavingConfig => match event {
            InitEvent::ConfigSaved => NodeInit { phase: InitPhase::ConnectingNetworks, ..init },
            _ => NodeInit { phase: InitPhase::Failed, ..init },
        },
        InitPhase::ConnectingNetworks => match event {
            InitEvent::NetworksConnected => NodeInit {
                phase: if init.finalized_block is Some {
                    InitPhase::FetchingL1Genesis
                } else {
                    InitPhase::Ready
                },
                ..init
            },
            _ => NodeInit { phase: InitPhase::Failed, ..init },
        },
        InitPhase::FetchingL1Genesis => match event {
            InitEvent::L1BlockFetched(block) => if init.finalized_block == Some(block.number) {
                NodeInit { phase: InitPhase::Ready, l1_genesis: Some(block), ..init }
            } else {
                NodeInit { phase: InitPhase::Failed, ..init }
            },
            _ => NodeInit { phase: InitPhase::Failed, ..init },
        },
    }
}

/// What the start of a node asks for in its phase.
pub open spec fn init_action(init: NodeInit) -> InitAction {
    match init.phase {
        InitPhase::LoadingConfig => InitAction::LoadConfig,
        InitPhase::FetchingConfig => InitAction::FetchConfig,
        InitPhase::SavingConfig => InitAction::SaveConfig,
        InitPhase::ConnectingNetworks => InitAction::ConnectNetworks,
        InitPhase::FetchingL1Genesis => match init.finalized_block {
            Some(number) => InitAction::FetchL1Block { number },
            None => InitAction::Abort,
        },
        InitPhase::Ready => InitAction::Finish,
        InitPhase::Failed => InitAction::Abort,
    }
}

/// Whether the start of a node holds what its phase needs: a configuration
/// once one was loaded or fetched, the number of the L1 block while that
/// block is fetched, and the block itself once the start is ready.
pub open spec fn init_wf(init: NodeInit) -> bool {
    match init.phase {
        InitPhase::LoadingConfig => init.config is None && init.l1_genesis is None,
        InitPhase::FetchingConfig => init.config is None && init.l1_genesis is None,
        InitPhase::SavingConfig => init.config is Some && init.wait_for_orchestrator
            && init.l1_genesis is None,
        InitPhase::ConnectingNetworks => init.config is Some && init.l1_genesis is None,
        InitPhase::FetchingL1Genesis => init.config is Some && init.finalized_block is Some
            && init.l1_genesis is None,
        InitPhase::Ready => init.config is Some && match init.finalized_block {
            Some(number) => init.l1_genesis is Some && init.l1_genesis->0.number == number,
            None => init.l1_genesis is None,
        },
        InitPhase::Failed => true,
    }
}

/// Every step keeps the start of a node well formed, and the node waits for
/// the orchestrator exactly if its configuration came from there.
pub proof fn lemma_init_step(init: NodeInit, event: InitEvent)
    requires
        init_wf(init),
    ensures
        init_wf(init_step(init, event)),
        init_step(init, event).is_da == init.is_da,
        init_step(init, event).finalized_block == init.finalized_block,
        init.phase is LoadingConfig && init_step(init, event).phase
            is ConnectingNetworks ==> !init_step(init, event).wait_for_orchestrator,
        init.phase is FetchingConfig && init_step(init, event).phase
            is SavingConfig ==> init_step(init, event).wait_for_orchestrator,
{
}

/// The topics of the CDN that a node listens to: the global one and, for a
/// DA node, that of the DA committee.
pub fn topics(is_da: bool) -> (topics: Vec<Topic>)
    ensures
        topics@.len() == if is_da {
            2nat
        } else {
            1nat
        },
        topics@[0] is Global,
        is_da ==> topics@[1] is Da,
{
    let mut topics: Vec<Topic> = Vec::new();
    topics.push(Topic::Global);
    if is_da {
        topics.push(Topic::Da);
    }
    topics
}

/// Each of the given accounts with the largest amount.
pub open spec fn with_largest(accounts: Seq<FeeAccount>) -> Seq<(FeeAccount, FeeAmount)> {
    Seq::new(accounts.len(), |i: int| (accounts[i], amount_with(max_amount())))
}

/// The state that a chain starts from, in which each of the given accounts
/// holds the largest amount.
pub fn prefunded_genesis(chain_config: ChainConfig, accounts: &Vec<FeeAccount>) -> (state:
    ValidatedState)
    ensures
        state.wf(),
        state.config() == chain_config,
        state.ledger().node() == prefunded_ledger(with_largest(accounts@), accounts@.len()),
{
    let largest = FeeAmount::max_value();
    proof {
        lemma_amount_with(largest);
    }
    let mut prefunded: Vec<(FeeAccount, FeeAmount)> = Vec::new();
    let mut i: usize = 0;
    while i < accounts.len()
        invariant
            i <= accounts.len(),
            largest == amount_with(max_amount()),
            prefunded@ == with_largest(accounts@).subrange(0, i as int),
        decreases accounts.len() - i,
    {
        prefunded.push((accounts[i], largest));
        assert(prefunded@ =~= with_largest(accounts@).subrange(0, i + 1));
        i += 1;
    }
    assert(prefunded@ =~= with_largest(accounts@));
    ValidatedState::genesis(chain_config, &prefunded)
}

impl NodeInit {
    /// The start of a node before anything has come in. It asks for the
    /// stored configuration first.
    pub fn start(is_da: bool, l1_params: &L1Params) -> (init: NodeInit)
        ensures
            init_wf(init),
            init.phase is LoadingConfig,
            init.is_da == is_da,
            init.finalized_block == l1_params.finalized_block,
            init.config is None,
            !init.wait_for_orchestrator,
            init.l1_genesis is None,
            init_action(init) is LoadConfig,
    {
        NodeInit {
            phase: InitPhase::LoadingConfig,
            is_da,
            finalized_block: l1_params.finalized_block,
            config: None,
            wait_for_orchestrator: false,
            l1_genesis: None,
        }
    }

    /// What the start of the node asks for next.
    pub fn action(&self) -> (action: InitAction)
        ensures
            action == init_action(*self),
    {
        match self.phase {
            InitPhase::LoadingConfig => InitAction::LoadConfig,
            InitPhase::FetchingConfig => InitAction::FetchConfig,
            InitPhase::SavingConfig => InitAction::SaveConfig,
            InitPhase::ConnectingNetworks => InitAction::ConnectNetworks,
            InitPhase::FetchingL1Genesis => match self.finalized_block {
                Some(number) => InitAction::FetchL1Block { number },
                None => InitAction::Abort,
            },
            InitPhase::Ready => InitAction::Finish,
            InitPhase::Failed => InitAction::Abort,
        }
    }

    /// What a node knows once its start is ready: its number is the one that
    /// the configuration gives it, its chain starts from the state in which
    /// the builder's accounts hold the largest amount and from the L1 block
    /// that was fetched, and it gets missing state from the ledgers it has
    /// kept and then from its state peers. Returns `None` while the start is
    /// not ready. The second part of the result says whether the node has to
    /// wait for the orchestrator before it runs.
    pub fn finish(
        self,
        chain_config: ChainConfig,
        l1_client: L1Client,
        builder_params: &BuilderParams,
        local: StateHistory,
        network_params: NetworkParams,
    ) -> (r: Option<(NodeState, bool)>)
        requires
            local.wf(),
        ensures
            r is Some <==> self.phase is Ready && self.config is Some,
            r matches Some((node, wait)) ==> {
                &&& node.wf()
                &&& node.spec_node_id() == self.config->0.node_index
                &&& node.spec_chain_config() == chain_config
                &&& node.spec_l1_client() == l1_client
                &&& node.spec_peers() == (StateCatchup::LocalAndRemote {
                    local,
                    peers: network_params.state_peers,
                    attempts: 3,
                })
                &&& node.spec_genesis_state().config() == chain_config
                &&& node.spec_genesis_state().ledger().node() == prefunded_ledger(
                    with_largest(builder_params.prefunded_accounts@),
                    builder_params.prefunded_accounts@.len(),
                )
                &&& node.spec_l1_genesis() == self.l1_genesis
                &&& wait == self.wait_for_orchestrator
            },
    {
        let ready = match self.phase {
            InitPhase::Ready => true,
            _ => false,
        };
        if !ready {
            return None;
        }
        match self.config {
            None => None,
            Some(config) => {
                let genesis_state = prefunded_genesis(
                    chain_config,
                    &builder_params.prefunded_accounts,
                );
                let peers = StateCatchup::local_and_remote(local, network_params.state_peers);
                let node = NodeState::new(config.node_index, chain_config, l1_client, peers)
                    .with_genesis(genesis_state).with_l1_genesis(self.l1_genesis);
                Some((node, self.wait_for_orchestrator))
            },
        }
    }
}

/// Takes the start of a node one step further: takes in what came of the
/// step that was asked for, and says what to do next.
pub fn init_node(init: NodeInit, event: InitEvent) -> (r: (NodeInit, InitAction))
    ensures
        r.0 == init_step(init, event),
        r.1 == init_action(r.0),
{
    let NodeInit { phase, is_da, finalized_block, config, wait_for_orchestrator, l1_genesis } =
        init;
    let next = match phase {
        InitPhase::Ready => NodeInit {
            phase,
            is_da,
            finalized_block,
            config,
            wait_for_orchestrator,
            l1_genesis,
        },
        InitPhase::Failed => NodeInit {
            phase,
            is_da,
            finalized_block,
            config,
            wait_for_orchestrator,
            l1_genesis,
        },
        InitPhase::LoadingConfig => match event {
            InitEvent::ConfigLoaded(Some(loaded)) => NodeInit {
                phase: InitPhase::ConnectingNetworks,
                is_da,
                finalized_block,
                config: Some(loaded),
                wait_for_orchestrator: false,
                l1_genesis,
            },
            InitEvent::ConfigLoaded(None) => NodeInit {
                phase: InitPhase::FetchingConfig,
                is_da,
                finalized_block,
                config,
                wait_for_orchestrator,
                l1_genesis,
            },
            _ => NodeInit {
                phase: InitPhase::Failed,
                is_da,
                finalized_block,
                config,
                wait_for_orchestrator,
                l1_genesis,
            },
        },
        InitPhase::FetchingConfig => match event {
            InitEvent::ConfigFetched(fetched) => NodeInit {
                phase: InitPhase::SavingConfig,
                is_da,
                finalized_block,
                config: Some(fetched),
                wait_for_orchestrator: true,
                l1_genesis,
            },
            _ => NodeInit {
                phase: InitPhase::Failed,
                is_da,
                finalized_block,
                config,
                wait_for_orchestrator,
                l1_genesis,
            },
        },
        InitPhase::SavingConfig => match event {
            InitEvent::ConfigSaved => NodeInit {
                phase: InitPhase::ConnectingNetworks,
                is_da,
                finalized_block,
                config,
                wait_for_orchestrator,
                l1_genesis,
            },
            _ => NodeInit {
                phase: InitPhase::Failed,
                is_da,
                finalized_block,
                config,
                wait_for_orchestrator,
                l1_genesis,
            },
        },
        InitPhase::ConnectingNetworks => match event {
            InitEvent::NetworksConnected => NodeInit {
                phase: if finalized_block.is_some() {
                    InitPhase::FetchingL1Genesis
                } else {
                    InitPhase::Ready
                },
                is_da,
                finalized_block,
                config,
                wait_for_orchestrator,
                l1_genesis,
            },
            _ => NodeInit {
                phase: InitPhase::Failed,
                is_da,
                finalized_block,
                config,
                wait_for_orchestrator,
                l1_genesis,
            },
        },
        InitPhase::FetchingL1Genesis => {
            let fetched = match event {
                InitEvent::L1BlockFetched(block) => match finalized_block {
                    Some(number) => if number == block.number {
                        Some(block)
                    } else {
                        None
                    },
                    None => None,
                },
                _ => None,
            };
            match fetched {
                Some(block) => NodeInit {
                    phase: InitPhase::Ready,
                    is_da,
                    finalized_block,
                    config,
                    wait_for_orchestrator,
                    l1_genesis: Some(block),
                },
                None => NodeInit {
                    phase: InitPhase::Failed,
                    is_da,
                    finalized_block,
                    config,
                    wait_for_orchestrator,
                    l1_genesis,
                },
            }
        },
    };
    let action = next.action();
    (next, action)
}

} // verus!
