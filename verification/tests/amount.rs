use sequencer::account::FeeAccount;
use sequencer::amount::{push_u64_be, FeeAmount, Uint256};
use sequencer::digest::Digest;
use sequencer::{ChainConfig, Error, NamespaceId, Transaction};

#[test]
fn checked_add_carries_between_limbs() {
    let a = Uint256 { limbs: [u64::MAX, 0, 0, 0] };
    let b = Uint256::from_u64(1);
    assert_eq!(a.checked_add(&b).unwrap().limbs, [0, 1, 0, 0]);
    let c = Uint256 { limbs: [u64::MAX, u64::MAX, u64::MAX, 0] };
    assert_eq!(c.checked_add(&b).unwrap().limbs, [0, 0, 0, 1]);
}

#[test]
fn checked_add_fails_above_the_largest_amount() {
    let max = Uint256::max_value();
    assert_eq!(max.limbs, [u64::MAX; 4]);
    assert!(max.checked_add(&Uint256::from_u64(1)).is_none());
    assert_eq!(max.checked_add(&Uint256::zero()).unwrap().limbs, [u64::MAX; 4]);
}

#[test]
fn checked_sub_borrows_between_limbs() {
    let a = Uint256 { limbs: [0, 1, 0, 0] };
    let b = Uint256::from_u64(1);
    assert_eq!(a.checked_sub(&b).unwrap().limbs, [u64::MAX, 0, 0, 0]);
    assert!(b.checked_sub(&a).is_none());
    assert!(a.checked_sub(&a).unwrap().is_zero());
}

#[test]
fn comparison_goes_by_the_number() {
    let small = Uint256 { limbs: [u64::MAX, 0, 0, 0] };
    let large = Uint256 { limbs: [0, 1, 0, 0] };
    assert!(small.le(&large));
    assert!(!large.le(&small));
    assert!(small.le(&small));
    assert!(small.same(&small));
    assert!(!small.same(&large));
    assert!(Uint256::zero().is_zero());
    assert!(!Uint256::from_u64(1).is_zero());
}

#[test]
fn bytes_are_big_endian() {
    let a = Uint256 { limbs: [0x0102030405060708, 0x1112131415161718, 0, 0xa1a2a3a4a5a6a7a8] };
    let mut out = vec![0xee];
    a.push_be_bytes(&mut out);
    assert_eq!(out.len(), 33);
    assert_eq!(out[0], 0xee);
    assert_eq!(&out[1..9], &[0xa1, 0xa2, 0xa3, 0xa4, 0xa5, 0xa6, 0xa7, 0xa8]);
    assert_eq!(&out[9..17], &[0u8; 8]);
    assert_eq!(&out[17..25], &[0x11, 0x12, 0x13, 0x14, 0x15, 0x16, 0x17, 0x18]);
    assert_eq!(&out[25..33], &[0x01, 0x02, 0x03, 0x04, 0x05, 0x06, 0x07, 0x08]);
    let back = Uint256::from_be_bytes(&out, 1);
    assert_eq!(back.limbs, a.limbs);
}

#[test]
fn bytes_agree_with_the_outside_type() {
    let a = Uint256 { limbs: [7, 8, 9, 10] };
    let mut ours = Vec::new();
    a.push_be_bytes(&mut ours);
    let mut theirs = [0u8; 32];
    ethers::types::U256(a.limbs).to_big_endian(&mut theirs);
    assert_eq!(ours, theirs.to_vec());
}

#[test]
fn u64_bytes_are_big_endian() {
    let mut out = Vec::new();
    push_u64_be(0x0102030405060708, &mut out);
    assert_eq!(out, vec![1, 2, 3, 4, 5, 6, 7, 8]);
}

#[test]
fn account_bits_and_bytes() {
    let mut bytes = [0u8; 20];
    bytes[0] = 0b1000_0001;
    bytes[19] = 0b0000_0010;
    let account = FeeAccount::new(bytes);
    assert!(account.bit(0));
    assert!(!account.bit(1));
    assert!(account.bit(7));
    assert!(!account.bit(8));
    assert!(account.bit(158));
    assert!(!account.bit(159));
    assert!(account.same(&FeeAccount::new(bytes)));
    assert!(!account.same(&FeeAccount::zero()));
    let mut out = vec![9u8];
    account.push_bytes(&mut out);
    assert_eq!(out.len(), 21);
    assert!(FeeAccount::from_bytes(&out, 1).same(&account));
}

#[test]
fn digest_helpers() {
    let zero = Digest::zero();
    assert_eq!(zero.bytes, [0u8; 32]);
    let mut bytes = [0u8; 32];
    bytes[31] = 1;
    let one = Digest::new(bytes);
    assert!(!one.same(&zero));
    assert!(one.same(&Digest::new(bytes)));
    let mut out = Vec::new();
    one.push_bytes(&mut out);
    assert_eq!(out, bytes.to_vec());
}

#[test]
fn chain_config_commits_to_its_encoding() {
    let config = ChainConfig::default();
    assert_eq!(config.chain_id, 35353);
    assert_eq!(config.max_block_size, 10240);
    assert!(config.base_fee.is_zero());
    let bytes = config.encode();
    assert_eq!(bytes.len(), 8 + 8 + 32 + 20);
    assert_eq!(&bytes[0..8], &35353u64.to_be_bytes());
    assert_eq!(&bytes[8..16], &10240u64.to_be_bytes());
    assert_eq!(config.commit().bytes, ethers::utils::keccak256(&bytes));
    // The commitment is a digest of the bytes, not the bytes themselves.
    assert_ne!(config.commit().bytes.to_vec(), bytes[..32].to_vec());
    let other = ChainConfig { chain_id: 1, ..config };
    assert_ne!(other.commit().bytes, config.commit().bytes);
}

#[test]
fn transfer_round_trip() {
    let mut from = [0u8; 20];
    from[0] = 1;
    let mut to = [0u8; 20];
    to[19] = 2;
    let amount = FeeAmount { limbs: [100, 0, 5, 0] };
    let tx = Transaction::transfer(&FeeAccount::new(from), &FeeAccount::new(to), &amount);
    assert_eq!(tx.namespace().id, sequencer::transaction::LEDGER_NAMESPACE);
    assert_eq!(tx.payload().len(), 72);
    assert!(!tx.is_genesis());
    let transfer = tx.as_transfer().unwrap();
    assert_eq!(transfer.from.bytes, from);
    assert_eq!(transfer.to.bytes, to);
    assert_eq!(transfer.amount.limbs, [100, 0, 5, 0]);
    let copy = tx.clone();
    assert_eq!(copy.payload(), tx.payload());
}

#[test]
fn only_ledger_transactions_of_the_right_length_are_transfers() {
    let plain = Transaction::new(NamespaceId::default(), vec![0u8; 72]);
    assert!(plain.as_transfer().is_none());
    let short = Transaction::new(
        NamespaceId { id: sequencer::transaction::LEDGER_NAMESPACE },
        vec![0u8; 71],
    );
    assert!(short.as_transfer().is_none());
    let exact = Transaction::new(
        NamespaceId { id: sequencer::transaction::LEDGER_NAMESPACE },
        vec![0u8; 72],
    );
    assert!(exact.as_transfer().unwrap().amount.is_zero());
    let genesis = Transaction::genesis(&ChainConfig::default());
    assert!(genesis.is_genesis());
    assert!(genesis.as_transfer().is_none());
    assert_eq!(genesis.payload(), &ChainConfig::default().encode());
}

#[test]
fn error_messages() {
    assert_eq!(Error::IncorrectParent.message(), "incorrect parent");
    assert_eq!(Error::IncorrectView.message(), "incorrect view");
    assert_eq!(Error::GenesisWrongSize.message(), "genesis block has wrong size");
    assert_eq!(Error::MissingGenesis.message(), "genesis transaction is missing");
    assert_eq!(Error::UnexpectedGenesis.message(), "unexpected genesis transaction");
    assert_eq!(Error::BlockBuilding.message(), "block building failed");
    assert_eq!(Error::MerkleTreeError { error: "x".to_string() }.message(), "x");
    assert!(matches!(Error::missing_state(), Error::MerkleTreeError { .. }));
    assert_eq!(Error::missing_state().message(), "fee ledger state is not held");
}
