use crate::block::NamespaceTable;
use crate::digest::Digest;
use crate::error::Error;
use crate::l1_client::{L1BlockInfo, L1Client, L1Snapshot};
use crate::state::ValidatedState;
use crate::transaction::Transaction;
use crate::NodeState;
use vstd::prelude::*;

verus! {

/// The header of a block of the sequencer's chain.
#[derive(Debug)]
pub struct Header {
    pub height: u64,
    pub timestamp: u64,
    pub l1_head: u64,
    pub l1_finalized: Option<L1BlockInfo>,
    pub payload_commitment: Digest,
    pub builder_commitment: Digest,
    pub ns_table: NamespaceTable,
    pub fee_merkle_root: Digest,
    pub chain_config_commitment: Digest,
}

/// Whether a finalized L1 block does not lie behind another: no block lies
/// behind all, and a block lies behind one with a larger number.
pub open spec fn finalized_not_behind(
    later: Option<L1BlockInfo>,
    earlier: Option<L1BlockInfo>,
) -> bool {
    match earlier {
        None => true,
        Some(e) => match later {
            None => false,
            Some(l) => l.number >= e.number,
        },
    }
}

/// Whether a header follows its parent: its height is the parent's plus one,
/// and its timestamp and its L1 references do not lie behind the parent's.
pub open spec fn follows(candidate: Header, parent: Header) -> bool {
    &&& candidate.height == parent.height + 1
    &&& candidate.timestamp >= parent.timestamp
    &&& candidate.l1_head >= parent.l1_head
    &&& finalized_not_behind(candidate.l1_finalized, parent.l1_finalized)
}

/// Whether a genesis transaction stands among the given transactions.
pub open spec fn has_genesis(txns: Seq<Transaction>) -> bool {
    exists|i: int| 0 <= i < txns.len() && (#[trigger] txns[i]).spec_is_genesis()
}

/// What the validation of a header says, given its parent, the transactions
/// of its block and the commitment of the state that the block leads to.
///
/// A header at height 0 has no parent to be held against: its block must
/// hold exactly one transaction, the genesis transaction. The block of any
/// other header must hold no genesis transaction, the header must follow
/// its parent, and it must commit to the state that its block leads to. The
/// first of these that fails decides the error.
pub open spec fn validation(
    candidate: Header,
    parent: Header,
    txns: Seq<Transaction>,
    post_state: Seq<u8>,
) -> Result<(), Error> {
    if candidate.height == 0 {
        if txns.len() != 1 {
            Err(Error::GenesisWrongSize)
        } else if !txns[0].spec_is_genesis() {
            Err(Error::MissingGenesis)
        } else {
            Ok(())
        }
    } else if has_genesis(txns) {
        Err(Error::UnexpectedGenesis)
    } else if !follows(candidate, parent) {
        Err(Error::IncorrectView)
    } else if candidate.fee_merkle_root@ != post_state {
        Err(Error::IncorrectParent)
    } else {
        Ok(())
    }
}

/// The later of a parent's finalized L1 block and a fresh one.
pub open spec fn later_finalized(parent: Option<L1BlockInfo>, fresh: Option<L1BlockInfo>) -> Option<
    L1BlockInfo,
> {
    if finalized_not_behind(fresh, parent) {
        fresh
    } else {
        parent
    }
}

/// A chain of headers, each with the transactions of its block and the
/// commitment of the state that the block leads to, in which every header
/// but the first stands above height 0 and was accepted with the header
/// before it as its parent.
pub open spec fn accepted_chain(
    headers: Seq<Header>,
    blocks: Seq<Seq<Transaction>>,
    states: Seq<Seq<u8>>,
) -> bool {
    &&& blocks.len() == headers.len()
    &&& states.len() == headers.len()
    &&& forall|i: int|
        1 <= i < headers.len() ==> (#[trigger] headers[i]).height > 0 && validation(
            headers[i],
            headers[i - 1],
            blocks[i],
            states[i],
        ) is Ok
}

/// Along an accepted chain the height goes up by one with every header, and
/// the timestamp, the L1 head and the finalized L1 block never go back.
pub proof fn lemma_accepted_chain_is_monotonic(
    headers: Seq<Header>,
    blocks: Seq<Seq<Transaction>>,
    states: Seq<Seq<u8>>,
    earlier: int,
    later: int,
)
    requires
        accepted_chain(headers, blocks, states),
        0 <= earlier <= later < headers.len(),
    ensures
        headers[later].height == headers[earlier].height + (later - earlier),
        headers[later].timestamp >= headers[earlier].timestamp,
        headers[later].l1_head >= headers[earlier].l1_head,
        finalized_not_behind(headers[later].l1_finalized, headers[earlier].l1_finalized),
    decreases later - earlier,
{
    if earlier < later {
        lemma_accepted_chain_is_monotonic(headers, blocks, states, earlier, later - 1);
        assert(headers[later].height > 0);
        assert(follows(headers[later], headers[later - 1]));
    }
}

/// A block at height 0 that holds no transaction or more than one is
/// refused for its size; one whose only transaction is no genesis
/// transaction is refused for the missing genesis; and a block above height
/// 0 that holds a genesis transaction is refused for it.
pub proof fn lemma_genesis_is_unique(
    candidate: Header,
    parent: Header,
    txns: Seq<Transaction>,
    post_state: Seq<u8>,
)
    ensures
        candidate.height == 0 && txns.len() != 1 ==> validation(candidate, parent, txns, post_state)
            == Err::<(), Error>(Error::GenesisWrongSize),
        candidate.height == 0 && txns.len() == 1 && !txns[0].spec_is_genesis() ==> validation(
            candidate,
            parent,
            txns,
            post_state,
        ) == Err::<(), Error>(Error::MissingGenesis),
        candidate.height > 0 && has_genesis(txns) ==> validation(
            candidate,
            parent,
            txns,
            post_state,
        ) == Err::<(), Error>(Error::UnexpectedGenesis),
{
}

/// Whether a genesis transaction stands among the given transactions.
fn holds_genesis(txns: &Vec<Transaction>) -> (found: bool)
    ensures
        found == has_genesis(txns@),
{
    let mut i: usize = 0;
    while i < txns.len()
        invariant
            i <= txns.len(),
            forall|j: int| 0 <= j < i ==> !(#[trigger] txns@[j]).spec_is_genesis(),
        decreases txns.len() - i,
    {
        if txns[i].is_genesis() {
            return true;
        }
        i += 1;
    }
    false
}

/// Whether a finalized L1 block does not lie behind another.
fn not_behind(later: &Option<L1BlockInfo>, earlier: &Option<L1BlockInfo>) -> (b: bool)
    ensures
        b == finalized_not_behind(*later, *earlier),
{
    match earlier {
        None => true,
        Some(e) => match later {
            None => false,
            Some(l) => l.number >= e.number,
        },
    }
}

impl Header {
    /// Builds the header of the block that follows `parent`. The parameters
    /// of the chain are taken from the parent's state. The timestamp is `now`,
    /// or the parent's where the clock lies behind it. Each L1 reference is the
    /// fresh one, or the parent's where the fresh one lies behind it.
    pub fn build(
        parent: &Header,
        parent_state: &ValidatedState,
        new_state_commitment: Digest,
        l1: &L1Snapshot,
        now: u64,
        payload_commitment: Digest,
        builder_commitment: Digest,
        ns_table: NamespaceTable,
    ) -> (header: Header)
        requires
            parent.height < u64::MAX,
        ensures
            header.height == parent.height + 1,
            header.timestamp == if now >= parent.timestamp {
                now
            } else {
                parent.timestamp
            },
            header.l1_head == if l1.head >= parent.l1_head {
                l1.head
            } else {
                parent.l1_head
            },
            header.l1_finalized == later_finalized(parent.l1_finalized, l1.finalized),
            header.payload_commitment == payload_commitment,
            header.builder_commitment == builder_commitment,
            header.ns_table == ns_table,
            header.fee_merkle_root == new_state_commitment,
            header.chain_config_commitment@ == crate::digest::keccak256_of(
                crate::chain_config::chain_config_bytes(parent_state.config()),
            ),
            follows(header, *parent),
            forall|txns: Seq<Transaction>|
                !has_genesis(txns) ==> #[trigger] validation(
                    header,
                    *parent,
                    txns,
                    new_state_commitment@,
                ) is Ok,
    {
        let timestamp = if now >= parent.timestamp {
            now
        } else {
            parent.timestamp
        };
        let l1_head = if l1.head >= parent.l1_head {
            l1.head
        } else {
            parent.l1_head
        };
        let l1_finalized = if not_behind(&l1.finalized, &parent.l1_finalized) {
            l1.finalized
        } else {
            parent.l1_finalized
        };
        Header {
            height: parent.height + 1,
            timestamp,
            l1_head,
            l1_finalized,
            payload_commitment,
            builder_commitment,
            ns_table,
            fee_merkle_root: new_state_commitment,
            chain_config_commitment: parent_state.chain_config().commit(),
        }
    }

    /// Builds the header of the block that follows `parent` from what the L1
    /// tracker holds. No header is built, and the result is `BlockBuilding`,
    /// where the tracker has no L1 reference to give because the provider has
    /// never answered, or where there is no height left above the parent's.
    pub fn propose(
        parent: &Header,
        parent_state: &ValidatedState,
        new_state_commitment: Digest,
        l1_client: &L1Client,
        now: u64,
        payload_commitment: Digest,
        builder_commitment: Digest,
        ns_table: NamespaceTable,
    ) -> (r: Result<Header, Error>)
        ensures
            r is Ok <==> l1_client.spec_synced() && parent.height < u64::MAX,
            r is Err ==> r->Err_0 is BlockBuilding,
            r is Ok ==> {
                let header = r->Ok_0;
                &&& follows(header, *parent)
                &&& header.timestamp == if now >= parent.timestamp {
                    now
                } else {
                    parent.timestamp
                }
                &&& header.l1_head == if l1_client.head().number >= parent.l1_head {
                    l1_client.head().number
                } else {
                    parent.l1_head
                }
                &&& header.l1_finalized == later_finalized(
                    parent.l1_finalized,
                    l1_client.spec_finalized(),
                )
                &&& header.payload_commitment == payload_commitment
                &&& header.builder_commitment == builder_commitment
                &&& header.ns_table == ns_table
                &&& header.fee_merkle_root == new_state_commitment
                &&& header.chain_config_commitment@ == crate::digest::keccak256_of(
                    crate::chain_config::chain_config_bytes(parent_state.config()),
                )
            },
    {
        if !l1_client.is_synced() || parent.height == u64::MAX {
            return Err(Error::BlockBuilding);
        }
        let l1 = l1_client.snapshot();
        Ok(
            Header::build(
                parent,
                parent_state,
                new_state_commitment,
                &l1,
                now,
                payload_commitment,
                builder_commitment,
                ns_table,
            ),
        )
    }

    /// The header of the block at height 0 of a node's chain: its timestamp
    /// and its L1 head are 0, its finalized L1 block is the one that the node
    /// starts from, and it commits to the node's genesis state and to the
    /// parameters of the chain.
    pub fn genesis(
        instance: &NodeState,
        payload_commitment: Digest,
        builder_commitment: Digest,
        ns_table: NamespaceTable,
    ) -> (header: Header)
        ensures
            header.height == 0,
            header.timestamp == 0,
            header.l1_head == 0,
            header.l1_finalized == instance.spec_l1_genesis(),
            header.payload_commitment == payload_commitment,
            header.builder_commitment == builder_commitment,
            header.ns_table == ns_table,
            header.fee_merkle_root@ == instance.spec_genesis_state().commitment(),
            header.chain_config_commitment@ == crate::digest::keccak256_of(
                crate::chain_config::chain_config_bytes(instance.spec_chain_config()),
            ),
    {
        Header {
            height: 0,
            timestamp: 0,
            l1_head: 0,
            l1_finalized: instance.l1_genesis(),
            payload_commitment,
            builder_commitment,
            ns_table,
            fee_merkle_root: instance.genesis_state().commit(),
            chain_config_commitment: instance.chain_config().commit(),
        }
    }

    /// Validates the header against its parent, the transactions of its
    /// block and the commitment of the state that the block leads to.
    pub fn validate(&self, parent: &Header, txns: &Vec<Transaction>, post_state: &Digest) -> (r:
        Result<(), Error>)
        ensures
            r == validation(*self, *parent, txns@, post_state@),
    {
        if self.height == 0 {
            if txns.len() != 1 {
                return Err(Error::GenesisWrongSize);
            }
            if !txns[0].is_genesis() {
                return Err(Error::MissingGenesis);
            }
            return Ok(());
        }
        if holds_genesis(txns) {
            return Err(Error::UnexpectedGenesis);
        }
        if parent.height == u64::MAX || self.height != parent.height + 1 || self.timestamp
            < parent.timestamp || self.l1_head < parent.l1_head || !not_behind(
            &self.l1_finalized,
            &parent.l1_finalized,
        ) {
            return Err(Error::IncorrectView);
        }
        if !self.fee_merkle_root.same(post_state) {
            return Err(Error::IncorrectParent);
        }
        Ok(())
    }

}

impl Clone for Header {
    fn clone(&self) -> (header: Header)
        ensures
            header.height == self.height,
            header.timestamp == self.timestamp,
            header.l1_head == self.l1_head,
            header.l1_finalized == self.l1_finalized,
            header.payload_commitment == self.payload_commitment,
            header.builder_commitment == self.builder_commitment,
            header.ns_table.entries@ == self.ns_table.entries@,
            header.fee_merkle_root == self.fee_merkle_root,
            header.chain_config_commitment == self.chain_config_commitment,
    {
        Header {
            height: self.height,
            timestamp: self.timestamp,
            l1_head: self.l1_head,
            l1_finalized: self.l1_finalized,
            payload_commitment: self.payload_commitment,
            builder_commitment: self.builder_commitment,
            ns_table: self.ns_table.clone(),
            fee_merkle_root: self.fee_merkle_root,
            chain_config_commitment: self.chain_config_commitment,
        }
    }
}

} // verus!
