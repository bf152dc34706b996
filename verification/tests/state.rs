use sequencer::account::FeeAccount;
use sequencer::amount::FeeAmount;
use sequencer::block::NamespaceTable;
use sequencer::catchup::{Offline, StateCatchup};
use sequencer::digest::Digest;
use sequencer::l1_client::L1Snapshot;
use sequencer::{ChainConfig, Error, Header, NamespaceId, NodeState, Transaction, ValidatedState};

fn account(tag: u8) -> FeeAccount {
    let mut bytes = [0u8; 20];
    bytes[19] = tag;
    bytes[3] = tag.wrapping_mul(91);
    FeeAccount::new(bytes)
}

fn header_at(height: u64) -> Header {
    Header {
        height,
        timestamp: 0,
        l1_head: 0,
        l1_finalized: None,
        payload_commitment: Digest::zero(),
        builder_commitment: Digest::zero(),
        ns_table: NamespaceTable::empty(),
        fee_merkle_root: Digest::zero(),
        chain_config_commitment: Digest::zero(),
    }
}

#[test]
fn transfer_moves_the_amount() {
    let a = account(1);
    let b = account(2);
    let genesis = ValidatedState::genesis(ChainConfig::default(), &vec![(a, FeeAmount::from_u64(500))]);
    let txns = vec![Transaction::transfer(&a, &b, &FeeAmount::from_u64(100))];
    let next = genesis.apply_held(&txns).unwrap();
    assert_eq!(next.balance(&a).unwrap().limbs, [400, 0, 0, 0]);
    assert_eq!(next.balance(&b).unwrap().limbs, [100, 0, 0, 0]);
    // The parent is left as it is.
    assert_eq!(genesis.balance(&a).unwrap().limbs, [500, 0, 0, 0]);
    assert!(genesis.balance(&b).unwrap().is_zero());
}

#[test]
fn overdraft_is_left_out_and_the_rest_of_the_block_applies() {
    let a = account(1);
    let b = account(2);
    let genesis = ValidatedState::genesis(ChainConfig::default(), &vec![(a, FeeAmount::from_u64(50))]);
    let txns = vec![
        Transaction::transfer(&a, &b, &FeeAmount::from_u64(51)),
        Transaction::transfer(&a, &b, &FeeAmount::from_u64(20)),
    ];
    let next = genesis.apply_held(&txns).unwrap();
    assert_eq!(next.balance(&a).unwrap().limbs, [30, 0, 0, 0]);
    assert_eq!(next.balance(&b).unwrap().limbs, [20, 0, 0, 0]);
}

#[test]
fn transfer_that_would_overflow_the_receiver_is_left_out() {
    let a = account(1);
    let b = account(2);
    let genesis = ValidatedState::genesis(
        ChainConfig::default(),
        &vec![(a, FeeAmount::from_u64(5)), (b, FeeAmount::max_value())],
    );
    let txns = vec![Transaction::transfer(&a, &b, &FeeAmount::from_u64(1))];
    let next = genesis.apply_held(&txns).unwrap();
    assert_eq!(next.balance(&a).unwrap().limbs, [5, 0, 0, 0]);
    assert_eq!(next.balance(&b).unwrap().limbs, [u64::MAX; 4]);
    assert_eq!(next.commit().bytes, genesis.commit().bytes);
}

#[test]
fn transfer_to_oneself_keeps_the_balance() {
    let a = account(1);
    let genesis = ValidatedState::genesis(ChainConfig::default(), &vec![(a, FeeAmount::max_value())]);
    let txns = vec![Transaction::transfer(&a, &a, &FeeAmount::from_u64(7))];
    let next = genesis.apply_held(&txns).unwrap();
    assert_eq!(next.balance(&a).unwrap().limbs, [u64::MAX; 4]);
}

#[test]
fn transactions_of_other_namespaces_change_nothing() {
    let a = account(1);
    let genesis = ValidatedState::genesis(ChainConfig::default(), &vec![(a, FeeAmount::from_u64(5))]);
    let txns = vec![
        Transaction::new(NamespaceId::default(), vec![1, 2, 3]),
        Transaction::genesis(&ChainConfig::default()),
    ];
    let next = genesis.apply_held(&txns).unwrap();
    assert_eq!(next.commit().bytes, genesis.commit().bytes);
}

#[test]
fn applying_twice_gives_the_same_commitment() {
    let a = account(1);
    let b = account(2);
    let c = account(3);
    let genesis = ValidatedState::genesis(ChainConfig::default(), &vec![(a, FeeAmount::from_u64(500))]);
    let txns = vec![
        Transaction::transfer(&a, &b, &FeeAmount::from_u64(100)),
        Transaction::transfer(&b, &c, &FeeAmount::from_u64(30)),
        Transaction::transfer(&c, &a, &FeeAmount::from_u64(31)),
    ];
    let first = genesis.apply_held(&txns).unwrap();
    let second = genesis.apply_held(&txns).unwrap();
    assert_eq!(first.commit().bytes, second.commit().bytes);
    let third = genesis
        .apply(&StateCatchup::NoOp, &mut Offline, &header_at(1), &txns)
        .unwrap();
    assert_eq!(first.commit().bytes, third.commit().bytes);
    assert_eq!(first.balance(&c).unwrap().limbs, [30, 0, 0, 0]);
}

#[test]
fn genesis_prefunds_in_order_and_later_entries_win() {
    let a = account(1);
    let state = ValidatedState::genesis(
        ChainConfig::default(),
        &vec![(a, FeeAmount::from_u64(1)), (a, FeeAmount::from_u64(2))],
    );
    assert_eq!(state.balance(&a).unwrap().limbs, [2, 0, 0, 0]);
    assert_eq!(state.chain_config().chain_id, 35353);
}

#[test]
fn prefund_account_sets_the_balance() {
    let a = account(9);
    let mut state = ValidatedState::default();
    state.prefund_account(a, FeeAmount::max_value());
    assert_eq!(state.balance(&a).unwrap().limbs, [u64::MAX; 4]);
    let same = ValidatedState::genesis(ChainConfig::default(), &vec![(a, FeeAmount::max_value())]);
    assert_eq!(state.commit().bytes, same.commit().bytes);
}

// A prefunded account pays another; the header of the block is accepted, the
// commitment moves, and a second block at the same height is refused.
#[test]
fn block_one_is_accepted_and_a_duplicate_height_is_refused() {
    let a = account(1);
    let b = account(2);
    let genesis_state =
        ValidatedState::genesis(ChainConfig::default(), &vec![(a, FeeAmount::from_u64(u64::MAX))]);
    let genesis_commitment = genesis_state.commit();
    let node = NodeState::mock().with_genesis(genesis_state);
    let genesis_header =
        Header::genesis(&node, Digest::zero(), Digest::zero(), NamespaceTable::empty());
    assert_eq!(genesis_header.fee_merkle_root.bytes, genesis_commitment.bytes);

    let txns = vec![Transaction::transfer(&a, &b, &FeeAmount::from_u64(100))];
    let state_one = node
        .genesis_state()
        .apply(node.peers(), &mut Offline, &header_at(1), &txns)
        .unwrap();
    assert_ne!(state_one.commit().bytes, genesis_commitment.bytes);
    assert_eq!(state_one.balance(&a).unwrap().limbs, [u64::MAX - 100, 0, 0, 0]);
    assert_eq!(state_one.balance(&b).unwrap().limbs, [100, 0, 0, 0]);

    let l1 = L1Snapshot { head: 0, finalized: None };
    let header_one = Header::build(
        &genesis_header,
        node.genesis_state(),
        state_one.commit(),
        &l1,
        17,
        Digest::zero(),
        Digest::zero(),
        NamespaceTable::empty(),
    );
    assert_eq!(header_one.height, 1);
    assert!(header_one.validate(&genesis_header, &txns, &state_one.commit()).is_ok());
    let accepted = node
        .genesis_state()
        .validate_and_apply(node.peers(), &mut Offline, &genesis_header, &header_one, &txns)
        .unwrap();
    assert_eq!(accepted.commit().bytes, state_one.commit().bytes);

    let more = vec![Transaction::transfer(&a, &b, &FeeAmount::from_u64(1))];
    let state_two = state_one.apply_held(&more).unwrap();
    let mut header_two = Header::build(
        &header_one,
        &state_one,
        state_two.commit(),
        &l1,
        18,
        Digest::zero(),
        Digest::zero(),
        NamespaceTable::empty(),
    );
    header_two.height = 1;
    let refused = header_two.validate(&header_one, &more, &state_two.commit());
    assert!(matches!(refused, Err(Error::IncorrectView)));
    let refused = state_one.validate_and_apply(
        node.peers(),
        &mut Offline,
        &header_one,
        &header_two,
        &more,
    );
    assert!(matches!(refused, Err(Error::IncorrectView)));
}

// A node that holds nothing of the ledger and has nowhere to fetch from
// cannot apply a block that needs a balance.
#[test]
fn apply_without_state_and_without_catchup_fails() {
    let c = account(3);
    let d = account(4);
    let full = ValidatedState::genesis(ChainConfig::default(), &vec![(c, FeeAmount::from_u64(9))]);
    let sparse = ValidatedState::from_commitment(full.commit(), ChainConfig::default());
    assert!(sparse.balance(&c).is_none());
    let txns = vec![Transaction::transfer(&c, &d, &FeeAmount::from_u64(1))];
    let r = sparse.apply(&StateCatchup::NoOp, &mut Offline, &header_at(50), &txns);
    assert!(matches!(r, Err(Error::MerkleTreeError { .. })));
    let r = sparse.apply_held(&txns);
    assert!(matches!(r, Err(Error::MerkleTreeError { .. })));
    // A block that needs no balance still applies.
    let idle = vec![Transaction::new(NamespaceId::default(), vec![7])];
    let same = sparse.apply(&StateCatchup::NoOp, &mut Offline, &header_at(50), &idle).unwrap();
    assert_eq!(same.commit().bytes, sparse.commit().bytes);
}
