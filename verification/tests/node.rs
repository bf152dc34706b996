use sequencer::account::FeeAccount;
use sequencer::amount::{FeeAmount, Uint256};
use sequencer::catchup::{StateCatchup, StateHistory};
use sequencer::digest::Digest;
use sequencer::init::{
    init_node, prefunded_genesis, topics, BuilderParams, InitAction, InitEvent, InitPhase,
    L1Params, NetworkParams, NodeInit, Topic,
};
use sequencer::l1_client::{L1BlockInfo, L1Client};
use sequencer::network::Memory;
use sequencer::persistence::{
    HotShotAction, NetworkConfig, PersistenceError, Proposal, SequencerPersistence, StorageAdapter,
};
use sequencer::{ChainConfig, Node, NodeState, SeqTypes, ValidatedState};
use std::marker::PhantomData;

fn account(tag: u8) -> FeeAccount {
    let mut bytes = [0u8; 20];
    bytes[19] = tag;
    FeeAccount::new(bytes)
}

fn block(number: u64) -> L1BlockInfo {
    L1BlockInfo { number, timestamp: Uint256::from_u64(number), hash: Digest::zero() }
}

fn network_params() -> NetworkParams {
    NetworkParams {
        cdn_endpoint: "cdn:1737".to_string(),
        orchestrator_url: "http://orchestrator".to_string(),
        state_relay_server_url: "http://relay".to_string(),
        state_peers: vec!["http://peer-one".to_string(), "http://peer-two".to_string()],
        libp2p_advertise_address: "127.0.0.1:3000".to_string(),
        libp2p_bind_address: "0.0.0.0:3000".to_string(),
    }
}

#[derive(Default)]
struct Recorder {
    calls: Vec<String>,
    fail: bool,
}

impl Recorder {
    fn done(&mut self, call: String) -> Result<(), PersistenceError> {
        self.calls.push(call);
        if self.fail {
            Err(PersistenceError { message: "disk full".to_string() })
        } else {
            Ok(())
        }
    }
}

impl SequencerPersistence for Recorder {
    fn load_config(&mut self) -> Result<Option<NetworkConfig>, PersistenceError> {
        self.done("load_config".to_string())?;
        Ok(Some(NetworkConfig { node_index: 4, data: vec![1] }))
    }

    fn save_config(&mut self, config: &NetworkConfig) -> Result<(), PersistenceError> {
        self.done(format!("save_config {}", config.node_index))
    }

    fn append_vid(&mut self, proposal: &Proposal) -> Result<(), PersistenceError> {
        self.done(format!("append_vid {}", proposal.view))
    }

    fn append_da(&mut self, proposal: &Proposal) -> Result<(), PersistenceError> {
        self.done(format!("append_da {}", proposal.view))
    }

    fn record_action(&mut self, view: u64, action: HotShotAction) -> Result<(), PersistenceError> {
        self.done(format!("record_action {} {:?}", view, action))
    }
}

#[test]
fn node_state_is_built_from_its_parts() {
    let l1 = L1Client::new("http://l1".to_string(), account(7));
    let node = NodeState::new(3, ChainConfig::default(), l1, StateCatchup::NoOp);
    assert_eq!(node.node_id(), 3);
    assert_eq!(node.chain_config().chain_id, 35353);
    assert_eq!(node.l1_client().provider(), "http://l1");
    assert!(matches!(node.peers(), StateCatchup::NoOp));
    assert!(node.l1_genesis().is_none());
    assert_eq!(node.genesis_state().commit().bytes, ValidatedState::default().commit().bytes);
}

#[test]
fn builders_replace_one_part_and_keep_the_rest() {
    let node = NodeState::mock();
    assert_eq!(node.node_id(), 0);
    assert_eq!(node.l1_client().provider(), "http://localhost:3331");
    assert!(matches!(node.peers(), StateCatchup::Mock(_)));

    let mut other = L1Client::new("http://elsewhere".to_string(), account(1));
    other.observe_latest(block(8));
    let node = node.with_l1(other);
    assert_eq!(node.l1_client().provider(), "http://elsewhere");
    assert_eq!(node.l1_client().latest_block().number, 8);
    assert_eq!(node.node_id(), 0);

    let state =
        ValidatedState::genesis(ChainConfig::default(), &vec![(account(1), FeeAmount::from_u64(5))]);
    let commitment = state.commit();
    let node = node.with_genesis(state);
    assert_eq!(node.genesis_state().commit().bytes, commitment.bytes);
    assert_eq!(node.l1_client().provider(), "http://elsewhere");

    let node = node.with_l1_genesis(Some(block(2)));
    assert_eq!(node.l1_genesis().unwrap().number, 2);
    assert_eq!(node.genesis_state().commit().bytes, commitment.bytes);

    let default = NodeState::default();
    assert_eq!(default.node_id(), 1);
    assert_eq!(default.l1_client().provider(), "http://localhost:3331");
}

#[test]
fn markers_can_be_made() {
    let _node: Node<Memory, Recorder> = Node(PhantomData);
    assert_eq!(SeqTypes, SeqTypes::default());
}

#[test]
fn the_adapter_hands_calls_to_the_backend_in_order() {
    let mut adapter = StorageAdapter::new(Recorder::default());
    assert_eq!(adapter.load_config().unwrap().unwrap().node_index, 4);
    adapter.save_config(&NetworkConfig { node_index: 9, data: vec![] }).unwrap();
    adapter.append_vid(&Proposal { view: 1, data: vec![1] }).unwrap();
    adapter.append_da(&Proposal { view: 2, data: vec![2] }).unwrap();
    adapter.record_action(3, HotShotAction::Vote).unwrap();
    adapter.update_high_qc(&vec![1, 2]).unwrap();
    adapter.update_undecided_state(&vec![1], &vec![2]).unwrap();
    adapter.record_action(4, HotShotAction::Propose).unwrap();
    let backend = adapter.into_inner();
    assert_eq!(
        backend.calls,
        vec![
            "load_config",
            "save_config 9",
            "append_vid 1",
            "append_da 2",
            "record_action 3 Vote",
            "record_action 4 Propose"
        ]
    );
}

#[test]
fn the_adapter_hands_errors_back_and_goes_on() {
    let mut adapter = StorageAdapter::new(Recorder { calls: vec![], fail: true });
    let e = adapter.append_da(&Proposal { view: 2, data: vec![2] }).unwrap_err();
    assert_eq!(e.message, "disk full");
    assert!(adapter.load_config().is_err());
    // What is not stored cannot fail.
    assert!(adapter.update_high_qc(&vec![]).is_ok());
    assert!(adapter.update_undecided_state(&vec![], &vec![]).is_ok());
    assert!(adapter.append_vid(&Proposal { view: 3, data: vec![] }).is_err());
    assert_eq!(adapter.into_inner().calls.len(), 3);
}

#[test]
fn topics_of_a_node() {
    let plain = topics(false);
    assert_eq!(plain.len(), 1);
    assert!(matches!(plain[0], Topic::Global));
    let da = topics(true);
    assert_eq!(da.len(), 2);
    assert!(matches!(da[0], Topic::Global));
    assert!(matches!(da[1], Topic::Da));
}

#[test]
fn prefunded_accounts_hold_the_largest_amount() {
    let state = prefunded_genesis(ChainConfig::default(), &vec![account(1), account(2)]);
    assert_eq!(state.balance(&account(1)).unwrap().limbs, [u64::MAX; 4]);
    assert_eq!(state.balance(&account(2)).unwrap().limbs, [u64::MAX; 4]);
    assert!(state.balance(&account(3)).unwrap().is_zero());
    let none = prefunded_genesis(ChainConfig::default(), &vec![]);
    assert_eq!(none.commit().bytes, ValidatedState::default().commit().bytes);
}

#[test]
fn a_node_with_a_stored_config_rejoins() {
    let l1_params = L1Params { url: "http://l1".to_string(), finalized_block: None };
    let init = NodeInit::start(true, &l1_params);
    assert!(matches!(init.action(), InitAction::LoadConfig));
    let stored = NetworkConfig { node_index: 6, data: vec![1, 2] };
    let (init, action) = init_node(init, InitEvent::ConfigLoaded(Some(stored)));
    assert!(matches!(action, InitAction::ConnectNetworks));
    assert!(!init.wait_for_orchestrator);
    let (init, action) = init_node(init, InitEvent::NetworksConnected);
    assert!(matches!(action, InitAction::Finish));
    assert!(matches!(init.phase, InitPhase::Ready));
    // Once ready, nothing changes.
    let (init, action) = init_node(init, InitEvent::Failure);
    assert!(matches!(action, InitAction::Finish));

    let builder = BuilderParams { prefunded_accounts: vec![account(1)] };
    let (node, wait) = init
        .finish(
            ChainConfig::default(),
            L1Client::new(l1_params.url.clone(), FeeAccount::zero()),
            &builder,
            StateHistory::new(),
            network_params(),
        )
        .unwrap();
    assert!(!wait);
    assert_eq!(node.node_id(), 6);
    assert!(node.l1_genesis().is_none());
    assert_eq!(node.genesis_state().balance(&account(1)).unwrap().limbs, [u64::MAX; 4]);
    match node.peers() {
        StateCatchup::LocalAndRemote { peers, attempts, .. } => {
            assert_eq!(peers, &vec!["http://peer-one".to_string(), "http://peer-two".to_string()]);
            assert_eq!(*attempts, 3);
        }
        _ => panic!("the node fetches from its own ledgers and its peers"),
    }
}

#[test]
fn a_node_without_a_stored_config_asks_the_orchestrator() {
    let l1_params = L1Params { url: "http://l1".to_string(), finalized_block: Some(12) };
    let init = NodeInit::start(false, &l1_params);
    let (init, action) = init_node(init, InitEvent::ConfigLoaded(None));
    assert!(matches!(action, InitAction::FetchConfig));
    let (init, action) =
        init_node(init, InitEvent::ConfigFetched(NetworkConfig { node_index: 2, data: vec![] }));
    assert!(matches!(action, InitAction::SaveConfig));
    assert!(init.wait_for_orchestrator);
    let (init, action) = init_node(init, InitEvent::ConfigSaved);
    assert!(matches!(action, InitAction::ConnectNetworks));
    let (init, action) = init_node(init, InitEvent::NetworksConnected);
    assert!(matches!(action, InitAction::FetchL1Block { number: 12 }));
    let (init, action) = init_node(init, InitEvent::L1BlockFetched(block(12)));
    assert!(matches!(action, InitAction::Finish));
    let (node, wait) = init
        .finish(
            ChainConfig::default(),
            L1Client::new(l1_params.url.clone(), FeeAccount::zero()),
            &BuilderParams { prefunded_accounts: vec![] },
            StateHistory::new(),
            network_params(),
        )
        .unwrap();
    assert!(wait);
    assert_eq!(node.node_id(), 2);
    assert_eq!(node.l1_genesis().unwrap().number, 12);
}

#[test]
fn a_step_that_fails_ends_the_start() {
    let l1_params = L1Params { url: "http://l1".to_string(), finalized_block: Some(12) };
    let (init, action) = init_node(NodeInit::start(false, &l1_params), InitEvent::Failure);
    assert!(matches!(action, InitAction::Abort));
    assert!(matches!(init.phase, InitPhase::Failed));
    let (init, action) = init_node(init, InitEvent::ConfigLoaded(None));
    assert!(matches!(action, InitAction::Abort));
    assert!(init
        .finish(
            ChainConfig::default(),
            L1Client::new(l1_params.url.clone(), FeeAccount::zero()),
            &BuilderParams { prefunded_accounts: vec![] },
            StateHistory::new(),
            network_params(),
        )
        .is_none());

    // An answer to another question, or another block than was asked for.
    let (_, action) =
        init_node(NodeInit::start(false, &l1_params), InitEvent::NetworksConnected);
    assert!(matches!(action, InitAction::Abort));
    let stored = NetworkConfig { node_index: 6, data: vec![] };
    let (init, _) =
        init_node(NodeInit::start(false, &l1_params), InitEvent::ConfigLoaded(Some(stored)));
    let (init, _) = init_node(init, InitEvent::NetworksConnected);
    let (init, action) = init_node(init, InitEvent::L1BlockFetched(block(11)));
    assert!(matches!(action, InitAction::Abort));
    assert!(matches!(init.phase, InitPhase::Failed));

    // A start that is not ready yet cannot be finished.
    let early = NodeInit::start(false, &l1_params);
    assert!(early
        .finish(
            ChainConfig::default(),
            L1Client::new(l1_params.url.clone(), FeeAccount::zero()),
            &BuilderParams { prefunded_accounts: vec![] },
            StateHistory::new(),
            network_params(),
        )
        .is_none());
}
