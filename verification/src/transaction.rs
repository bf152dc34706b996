use crate::account::FeeAccount;
use crate::amount::{be_value, lemma_be_bytes_value, limbs_be_bytes, FeeAmount};
use crate::chain_config::{chain_config_bytes, ChainConfig};
use vstd::prelude::*;

verus! {

/// The namespace of the one transaction that opens a chain.
pub const GENESIS_NAMESPACE: u64 = 0xffff_ffff_ffff_ffff;

/// The namespace of transfers between accounts of the fee ledger.
pub const LEDGER_NAMESPACE: u64 = 0xffff_ffff_ffff_fffe;

/// The length of an encoded transfer: two accounts and an amount.
pub const TRANSFER_BYTES: usize = 72;

/// The name of the application that a transaction belongs to.
#[derive(Clone, Copy, Debug)]
pub struct NamespaceId {
    pub id: u64,
}

impl Default for NamespaceId {
    /// The namespace 0.
    fn default() -> (namespace: NamespaceId)
        ensures
            namespace.id == 0,
    {
        NamespaceId { id: 0 }
    }
}

/// A transaction: bytes that the sequencer orders for a namespace without
/// reading them, but for the two namespaces that are its own.
#[derive(Debug)]
pub struct Transaction {
    namespace: NamespaceId,
    payload: Vec<u8>,
}

/// A transfer of the fee ledger: `amount` goes from `from` to `to`.
#[derive(Clone, Copy, Debug)]
pub struct Transfer {
    pub from: FeeAccount,
    pub to: FeeAccount,
    pub amount: FeeAmount,
}

/// The bytes that stand for a transfer: the sender, the receiver, and the
/// amount with its most significant byte first.
pub open spec fn transfer_bytes(from: Seq<u8>, to: Seq<u8>, amount: FeeAmount) -> Seq<u8> {
    from + to + limbs_be_bytes(amount.limbs@)
}

/// The transfer that a transaction asks for, as sender, receiver and amount:
/// a transaction of the ledger's namespace with a payload of 72 bytes asks
/// for one, and no other transaction does.
pub open spec fn transfer_in(namespace: u64, payload: Seq<u8>) -> Option<(Seq<u8>, Seq<u8>, nat)> {
    if namespace == LEDGER_NAMESPACE && payload.len() == 72 {
        Some(
            (payload.subrange(0, 20), payload.subrange(20, 40), be_value(payload.subrange(40, 72))),
        )
    } else {
        None
    }
}

impl Transaction {
    /// The namespace of the transaction.
    pub closed spec fn spec_namespace(&self) -> u64 {
        self.namespace.id
    }

    /// The bytes of the transaction.
    pub closed spec fn spec_payload(&self) -> Seq<u8> {
        self.payload@
    }

    /// Whether the transaction is a genesis transaction.
    pub open spec fn spec_is_genesis(&self) -> bool {
        self.spec_namespace() == GENESIS_NAMESPACE
    }

    /// The transfer that the transaction asks for.
    pub open spec fn spec_transfer(&self) -> Option<(Seq<u8>, Seq<u8>, nat)> {
        transfer_in(self.spec_namespace(), self.spec_payload())
    }

    /// A transaction of the given namespace with the given bytes.
    pub fn new(namespace: NamespaceId, payload: Vec<u8>) -> (tx: Transaction)
        ensures
            tx.spec_namespace() == namespace.id,
            tx.spec_payload() == payload@,
    {
        Transaction { namespace, payload }
    }

    /// The genesis transaction of a chain: it carries the chain's parameters.
    pub fn genesis(config: &ChainConfig) -> (tx: Transaction)
        ensures
            tx.spec_is_genesis(),
            tx.spec_payload() == chain_config_bytes(*config),
    {
        Transaction { namespace: NamespaceId { id: GENESIS_NAMESPACE }, payload: config.encode() }
    }

    /// The transaction that asks for a transfer.
    pub fn transfer(from: &FeeAccount, to: &FeeAccount, amount: &FeeAmount) -> (tx: Transaction)
        ensures
            tx.spec_namespace() == LEDGER_NAMESPACE,
            tx.spec_payload() == transfer_bytes(from@, to@, *amount),
            tx.spec_transfer() == Some((from@, to@, amount@)),
    {
        let mut payload: Vec<u8> = Vec::new();
        from.push_bytes(&mut payload);
        to.push_bytes(&mut payload);
        amount.push_be_bytes(&mut payload);
        proof {
            lemma_be_bytes_value(amount.limbs@);
            assert(payload@ =~= transfer_bytes(from@, to@, *amount));
            assert(payload@.subrange(0, 20) =~= from@);
            assert(payload@.subrange(20, 40) =~= to@);
            assert(payload@.subrange(40, 72) =~= limbs_be_bytes(amount.limbs@));
        }
        Transaction { namespace: NamespaceId { id: LEDGER_NAMESPACE }, payload }
    }

    /// The namespace of the transaction.
    pub fn namespace(&self) -> (namespace: NamespaceId)
        ensures
            namespace.id == self.spec_namespace(),
    {
        self.namespace
    }

    /// The bytes of the transaction.
    pub fn payload(&self) -> (payload: &Vec<u8>)
        ensures
            payload@ == self.spec_payload(),
    {
        &self.payload
    }

    /// Whether the transaction is a genesis transaction.
    pub fn is_genesis(&self) -> (b: bool)
        ensures
            b == self.spec_is_genesis(),
    {
        self.namespace.id == GENESIS_NAMESPACE
    }

    /// The transfer that the transaction asks for, if it asks for one.
    pub fn as_transfer(&self) -> (r: Option<Transfer>)
        ensures
            r is Some <==> self.spec_transfer() is Some,
            r is Some ==> self.spec_transfer() == Some((r->0.from@, r->0.to@, r->0.amount@)),
    {
        if self.namespace.id == LEDGER_NAMESPACE && self.payload.len() == TRANSFER_BYTES {
            let from = FeeAccount::from_bytes(&self.payload, 0);
            let to = FeeAccount::from_bytes(&self.payload, 20);
            let amount = FeeAmount::from_be_bytes(&self.payload, 40);
            Some(Transfer { from, to, amount })
        } else {
            None
        }
    }

}

impl Clone for Transaction {
    fn clone(&self) -> (tx: Transaction)
        ensures
            tx.spec_namespace() == self.spec_namespace(),
            tx.spec_payload() == self.spec_payload(),
    {
        Transaction { namespace: self.namespace, payload: self.payload.clone() }
    }
}

} // verus!
