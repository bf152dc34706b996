use sequencer::account::FeeAccount;
use sequencer::amount::FeeAmount;
use sequencer::block::NamespaceTable;
use sequencer::catchup::{
    accept, CatchupAction, FetchRequest, Offline, PeerTransport, StateCatchup, StateHistory,
};
use sequencer::digest::Digest;
use sequencer::merkle::{FeeMerkleTree, StateFragment};
use sequencer::{ChainConfig, Error, Header, Transaction, ValidatedState};

fn account(tag: u8) -> FeeAccount {
    let mut bytes = [0u8; 20];
    bytes[19] = tag;
    bytes[7] = tag.wrapping_mul(53);
    FeeAccount::new(bytes)
}

fn ledger() -> FeeMerkleTree {
    let mut tree = FeeMerkleTree::new();
    tree.update(&account(1), FeeAmount::from_u64(70));
    tree.update(&account(2), FeeAmount::from_u64(90));
    tree
}

fn header_at(height: u64) -> Header {
    Header {
        height,
        timestamp: 0,
        l1_head: 0,
        l1_finalized: None,
        payload_commitment: Digest::zero(),
        builder_commitment: Digest::zero(),
        ns_table: NamespaceTable::empty(),
        fee_merkle_root: Digest::zero(),
        chain_config_commitment: Digest::zero(),
    }
}

/// Peers that answer from a script, and write down who was asked.
struct Scripted {
    answers: Vec<Option<StateFragment>>,
    asked: Vec<(String, u64)>,
}

impl Scripted {
    fn new(answers: Vec<Option<StateFragment>>) -> Self {
        Scripted { answers, asked: Vec::new() }
    }
}

impl PeerTransport for Scripted {
    fn query(&mut self, peer: &String, height: u64, _request: &FetchRequest) -> Option<StateFragment> {
        self.asked.push((peer.clone(), height));
        if self.answers.is_empty() {
            None
        } else {
            self.answers.remove(0)
        }
    }
}

fn copy(fragment: &StateFragment) -> StateFragment {
    StateFragment {
        account: fragment.account,
        balance: fragment.balance,
        siblings: fragment.siblings.clone(),
    }
}

#[test]
fn accept_checks_account_and_commitment() {
    let tree = ledger();
    let request = FetchRequest { account: account(1), root: tree.commit() };
    let good = tree.prove(&account(1)).unwrap();
    assert!(accept(&request, Some(copy(&good))).is_some());
    assert!(accept(&request, None).is_none());
    let other = tree.prove(&account(2)).unwrap();
    assert!(accept(&request, Some(other)).is_none());
    let lying = StateFragment {
        account: good.account,
        balance: Some(FeeAmount::from_u64(71)),
        siblings: good.siblings.clone(),
    };
    assert!(accept(&request, Some(lying)).is_none());
    let elsewhere = FetchRequest { account: account(1), root: Digest::new([1u8; 32]) };
    assert!(accept(&elsewhere, Some(good)).is_none());
}

#[test]
fn no_op_catchup_always_fails() {
    let tree = ledger();
    let request = FetchRequest { account: account(1), root: tree.commit() };
    let catchup = StateCatchup::NoOp;
    let session = catchup.begin(50, &request);
    assert!(session.is_finished());
    assert!(matches!(session.action(), CatchupAction::Finished));
    assert!(matches!(session.into_outcome(), Err(Error::MerkleTreeError { .. })));
    let mut peers = Scripted::new(vec![Some(tree.prove(&account(1)).unwrap())]);
    let r = catchup.fetch(&mut peers, 50, &request);
    assert!(matches!(r, Err(Error::MerkleTreeError { .. })));
    assert!(peers.asked.is_empty());
}

#[test]
fn mock_catchup_answers_from_its_ledgers() {
    let tree = ledger();
    let mut history = StateHistory::new();
    history.retain(49, &FeeMerkleTree::new());
    history.retain(50, &tree);
    let catchup = StateCatchup::Mock(history);
    let request = FetchRequest { account: account(2), root: tree.commit() };
    let fragment = catchup.fetch(&mut Offline, 50, &request).unwrap();
    assert_eq!(fragment.stated().limbs, [90, 0, 0, 0]);
    assert!(fragment.verifies_against(&tree.commit()));
    // Another height, or another commitment, has no answer.
    assert!(catchup.fetch(&mut Offline, 51, &request).is_err());
    assert!(catchup.fetch(&mut Offline, 49, &request).is_err());
    let elsewhere = FetchRequest { account: account(2), root: Digest::new([1u8; 32]) };
    assert!(catchup.fetch(&mut Offline, 50, &elsewhere).is_err());
    // No peer is ever asked.
    let mut peers = Scripted::new(vec![]);
    assert!(catchup.fetch(&mut peers, 51, &request).is_err());
    assert!(peers.asked.is_empty());
}

#[test]
fn a_local_hit_asks_no_peer() {
    let tree = ledger();
    let mut local = StateHistory::new();
    local.retain(50, &tree);
    let catchup =
        StateCatchup::local_and_remote(local, vec!["http://one".to_string(), "http://two".to_string()]);
    let request = FetchRequest { account: account(1), root: tree.commit() };
    let session = catchup.begin(50, &request);
    assert!(session.is_finished());
    let mut peers = Scripted::new(vec![None]);
    let fragment = catchup.fetch(&mut peers, 50, &request).unwrap();
    assert_eq!(fragment.stated().limbs, [70, 0, 0, 0]);
    assert!(peers.asked.is_empty());
}

#[test]
fn peers_are_asked_in_order_and_each_three_times() {
    let tree = ledger();
    let catchup = StateCatchup::local_and_remote(
        StateHistory::new(),
        vec!["http://one".to_string(), "http://two".to_string()],
    );
    let request = FetchRequest { account: account(1), root: tree.commit() };
    let mut peers = Scripted::new(vec![]);
    let r = catchup.fetch(&mut peers, 50, &request);
    assert!(matches!(r, Err(Error::MerkleTreeError { .. })));
    let asked: Vec<&str> = peers.asked.iter().map(|(peer, _)| peer.as_str()).collect();
    assert_eq!(
        asked,
        vec!["http://one", "http://one", "http://one", "http://two", "http://two", "http://two"]
    );
    assert!(peers.asked.iter().all(|(_, height)| *height == 50));
}

#[test]
fn a_fragment_that_does_not_verify_is_passed_over() {
    let tree = ledger();
    let good = tree.prove(&account(1)).unwrap();
    let lying = StateFragment {
        account: good.account,
        balance: Some(FeeAmount::from_u64(71)),
        siblings: good.siblings.clone(),
    };
    let catchup = StateCatchup::local_and_remote(
        StateHistory::new(),
        vec!["http://one".to_string(), "http://two".to_string()],
    );
    let request = FetchRequest { account: account(1), root: tree.commit() };
    let mut peers =
        Scripted::new(vec![Some(copy(&lying)), None, Some(copy(&lying)), Some(copy(&good))]);
    let fragment = catchup.fetch(&mut peers, 50, &request).unwrap();
    assert_eq!(fragment.stated().limbs, [70, 0, 0, 0]);
    assert_eq!(peers.asked.len(), 4);
    assert_eq!(peers.asked[3].0, "http://two");

    // Where every answer is bad, the fetch fails.
    let mut peers = Scripted::new(vec![
        Some(copy(&lying)),
        Some(copy(&lying)),
        Some(copy(&lying)),
        Some(copy(&lying)),
        Some(copy(&lying)),
        Some(copy(&lying)),
        Some(copy(&good)),
    ]);
    assert!(catchup.fetch(&mut peers, 50, &request).is_err());
    assert_eq!(peers.asked.len(), 6);
}

#[test]
fn the_session_steps_through_attempts_and_peers() {
    let tree = ledger();
    let good = tree.prove(&account(1)).unwrap();
    let catchup = StateCatchup::LocalAndRemote {
        local: StateHistory::new(),
        peers: vec!["a".to_string(), "b".to_string()],
        attempts: 2,
    };
    let request = FetchRequest { account: account(1), root: tree.commit() };
    let session = catchup.begin(50, &request);
    assert!(matches!(session.action(), CatchupAction::QueryPeer { peer: 0, attempt: 0 }));
    let session = session.respond(None);
    assert!(matches!(session.action(), CatchupAction::QueryPeer { peer: 0, attempt: 1 }));
    let session = session.respond(None);
    assert!(matches!(session.action(), CatchupAction::QueryPeer { peer: 1, attempt: 0 }));
    let session = session.respond(Some(copy(&good)));
    assert!(matches!(session.action(), CatchupAction::Finished));
    // An ended session stays as it is.
    let session = session.respond(None);
    assert_eq!(session.into_outcome().unwrap().stated().limbs, [70, 0, 0, 0]);

    let session = catchup.begin(50, &request).respond(None).respond(None).respond(None);
    assert!(matches!(session.action(), CatchupAction::QueryPeer { peer: 1, attempt: 1 }));
    let session = session.respond(None);
    assert!(session.is_finished());
    assert!(session.into_outcome().is_err());
    // A session that is given up has no fragment.
    assert!(catchup.begin(50, &request).into_outcome().is_err());
}

#[test]
fn a_catchup_without_peers_or_attempts_fails_at_once() {
    let tree = ledger();
    let request = FetchRequest { account: account(1), root: tree.commit() };
    let none = StateCatchup::local_and_remote(StateHistory::new(), vec![]);
    assert!(none.begin(50, &request).is_finished());
    let zero = StateCatchup::LocalAndRemote {
        local: StateHistory::new(),
        peers: vec!["a".to_string()],
        attempts: 0,
    };
    assert!(zero.begin(50, &request).is_finished());
    let mut peers = Scripted::new(vec![]);
    assert!(zero.fetch(&mut peers, 50, &request).is_err());
    assert!(peers.asked.is_empty());
}

#[test]
fn apply_fetches_what_is_not_held() {
    let a = account(1);
    let b = account(2);
    let c = account(3);
    let full = ValidatedState::genesis(
        ChainConfig::default(),
        &vec![(a, FeeAmount::from_u64(70)), (b, FeeAmount::from_u64(90))],
    );
    let sparse = ValidatedState::from_commitment(full.commit(), ChainConfig::default());
    let txns = vec![
        Transaction::transfer(&a, &c, &FeeAmount::from_u64(20)),
        Transaction::transfer(&b, &a, &FeeAmount::from_u64(1)),
    ];
    let expected = full.apply_held(&txns).unwrap();

    // From a ledger that the node has kept.
    let mut local = StateHistory::new();
    local.retain(50, full.fee_merkle_tree());
    let catchup = StateCatchup::local_and_remote(local, vec!["http://one".to_string()]);
    let mut peers = Scripted::new(vec![]);
    let next = sparse.apply(&catchup, &mut peers, &header_at(50), &txns).unwrap();
    assert_eq!(next.commit().bytes, expected.commit().bytes);
    assert_eq!(next.balance(&a).unwrap().limbs, [51, 0, 0, 0]);
    assert_eq!(next.balance(&c).unwrap().limbs, [20, 0, 0, 0]);
    assert!(peers.asked.is_empty());
    // The sparse state itself is left as it is.
    assert!(sparse.balance(&a).is_none());

    // From peers, of which the first is of no use.
    let tree = full.fee_merkle_tree();
    let catchup = StateCatchup::local_and_remote(
        StateHistory::new(),
        vec!["http://one".to_string(), "http://two".to_string()],
    );
    let mut peers = Scripted::new(vec![
        None,
        None,
        Some(tree.prove(&b).unwrap()),
        Some(tree.prove(&a).unwrap()),
        Some(tree.prove(&c).unwrap()),
        Some(tree.prove(&b).unwrap()),
    ]);
    let next = sparse.apply(&catchup, &mut peers, &header_at(50), &txns).unwrap();
    assert_eq!(next.commit().bytes, expected.commit().bytes);
    assert_eq!(peers.asked.len(), 6);

    // Where the peers have nothing, the block cannot be applied.
    let mut peers = Scripted::new(vec![]);
    let r = sparse.apply(&catchup, &mut peers, &header_at(50), &txns);
    assert!(matches!(r, Err(Error::MerkleTreeError { .. })));
}

#[test]
fn pruning_drops_the_ledgers_below_a_height() {
    let tree = ledger();
    let mut history = StateHistory::new();
    history.retain(49, &tree);
    history.retain(51, &tree);
    history.retain(50, &tree);
    history.retain(48, &tree);
    assert_eq!(history.len(), 4);
    let request = FetchRequest { account: account(1), root: tree.commit() };
    assert!(history.fetch(49, &request).is_some());
    history.prune(50);
    assert_eq!(history.len(), 2);
    assert!(history.fetch(49, &request).is_none());
    assert!(history.fetch(48, &request).is_none());
    assert!(history.fetch(50, &request).is_some());
    assert!(history.fetch(51, &request).is_some());
    history.prune(u64::MAX);
    assert_eq!(history.len(), 0);
}
