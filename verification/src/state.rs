use crate::account::{account_path, lemma_path_determines_account, FeeAccount};
use crate::amount::{lemma_amount_unique, max_amount, FeeAmount};
use crate::catchup::{FetchRequest, PeerTransport, StateCatchup};
use crate::chain_config::ChainConfig;
use crate::digest::Digest;
use crate::error::Error;
use crate::header::{validation, Header};
use crate::merkle::{lemma_updated, lookup, updated, FeeMerkleTree, FeeNode};
use crate::transaction::{Transaction, Transfer};
use vstd::prelude::*;

verus! {

/// The amount that stands for the number `value`.
pub open spec fn amount_with(value: nat) -> FeeAmount {
    choose|a: FeeAmount| a@ == value
}

/// An amount is the amount that stands for its number.
pub proof fn lemma_amount_with(a: FeeAmount)
    ensures
        amount_with(a@) == a,
{
    lemma_amount_unique(amount_with(a@), a);
}

/// The ledger after one transaction. A transaction that asks for no transfer
/// changes nothing. A transfer needs the balances of both accounts: where one
/// is not held the result is `None`. A transfer of more than the sender has,
/// or one that would lift the receiver above the largest amount, is left out
/// and changes nothing. Any other transfer takes the amount from the sender
/// and then gives it to the receiver.
pub open spec fn ledger_step(node: FeeNode, transfer: Option<(Seq<u8>, Seq<u8>, nat)>) -> Option<
    FeeNode,
> {
    match transfer {
        None => Some(node),
        Some((from, to, amount)) => {
            let sender = lookup(node, account_path(from), 160);
            let receiver = lookup(node, account_path(to), 160);
            if sender is None || receiver is None {
                None
            } else if sender->0 < amount {
                Some(node)
            } else {
                let debited = updated(
                    node,
                    account_path(from),
                    160,
                    amount_with((sender->0 - amount) as nat),
                );
                let credit = lookup(debited, account_path(to), 160)->0 + amount;
                if credit > max_amount() {
                    Some(node)
                } else {
                    Some(updated(debited, account_path(to), 160, amount_with(credit)))
                }
            }
        },
    }
}

/// The ledger after the first `n` of the given transactions, in their order;
/// `None` where one of them needs a balance that is not held.
pub open spec fn ledger_after(node: FeeNode, txns: Seq<Transaction>, n: nat) -> Option<FeeNode>
    decreases n,
{
    if n == 0 {
        Some(node)
    } else {
        match ledger_after(node, txns, (n - 1) as nat) {
            None => None,
            Some(before) => ledger_step(before, txns[n - 1].spec_transfer()),
        }
    }
}

/// The ledger in which the first `n` of the given accounts were given their
/// balances, in their order, starting from the empty ledger.
pub open spec fn prefunded_ledger(prefunded: Seq<(FeeAccount, FeeAmount)>, n: nat) -> FeeNode
    decreases n,
{
    if n == 0 {
        FeeNode::Empty
    } else {
        updated(
            prefunded_ledger(prefunded, (n - 1) as nat),
            account_path(prefunded[n - 1].0@),
            160,
            prefunded[n - 1].1,
        )
    }
}

/// Whether a ledger is another one with more of it held: it has the same
/// commitment, and every balance that the other holds it holds too.
pub open spec fn fills(filled: FeeMerkleTree, sparse: FeeMerkleTree) -> bool {
    &&& filled.wf()
    &&& filled.commitment() == sparse.commitment()
    &&& forall|account: Seq<u8>| #[trigger]
        sparse.balance_of(account) is Some ==> filled.balance_of(account) == sparse.balance_of(
            account,
        )
}

/// Whether `r` is what the transactions of a block make of a state whose
/// ledger holds what they need: the state with the ledger after all of them,
/// or the error of missing state where one of them needs a balance that is
/// not held.
pub open spec fn is_application(
    parent: ValidatedState,
    txns: Seq<Transaction>,
    r: Result<ValidatedState, Error>,
) -> bool {
    match ledger_after(parent.ledger().node(), txns, txns.len()) {
        Some(node) => r is Ok && r->Ok_0.wf() && r->Ok_0.ledger().node() == node
            && r->Ok_0.config() == parent.config(),
        None => r is Err && r->Err_0 is MerkleTreeError,
    }
}

/// Applying the same transactions to the same state twice either fails both
/// times or gives two states with the same ledger, and so with the same
/// commitment.
pub proof fn lemma_apply_is_deterministic(
    parent: ValidatedState,
    txns: Seq<Transaction>,
    first: Result<ValidatedState, Error>,
    second: Result<ValidatedState, Error>,
)
    requires
        is_application(parent, txns, first),
        is_application(parent, txns, second),
    ensures
        first is Ok <==> second is Ok,
        first is Ok ==> first->Ok_0.commitment() == second->Ok_0.commitment(),
{
}

/// The state that a chain of blocks has led to: the fee ledger and the
/// parameters of the chain.
#[derive(Debug)]
pub struct ValidatedState {
    fee_merkle_tree: FeeMerkleTree,
    chain_config: ChainConfig,
}

impl ValidatedState {
    /// The fee ledger of the state.
    pub closed spec fn ledger(&self) -> FeeMerkleTree {
        self.fee_merkle_tree
    }

    /// The parameters of the chain.
    pub closed spec fn config(&self) -> ChainConfig {
        self.chain_config
    }

    /// Whether the state is well formed.
    pub open spec fn wf(&self) -> bool {
        self.ledger().wf()
    }

    /// The commitment of the state: that of its fee ledger.
    pub open spec fn commitment(&self) -> Seq<u8> {
        self.ledger().commitment()
    }

    /// The state with which a chain starts: the given accounts hold the given
    /// balances, and no other account holds any.
    pub fn genesis(chain_config: ChainConfig, prefunded: &Vec<(FeeAccount, FeeAmount)>) -> (state:
        ValidatedState)
        ensures
            state.wf(),
            state.config() == chain_config,
            state.ledger().node() == prefunded_ledger(prefunded@, prefunded@.len()),
    {
        let mut tree = FeeMerkleTree::new();
        let mut i: usize = 0;
        while i < prefunded.len()
            invariant
                i <= prefunded.len(),
                tree.wf(),
                tree.node() == prefunded_ledger(prefunded@, i as nat),
            decreases prefunded.len() - i,
        {
            let (account, balance) = prefunded[i];
            tree.update(&account, balance);
            i += 1;
        }
        ValidatedState { fee_merkle_tree: tree, chain_config }
    }

    /// A state of which only the commitment is held.
    pub fn from_commitment(commitment: Digest, chain_config: ChainConfig) -> (state: ValidatedState)
        ensures
            state.wf(),
            state.config() == chain_config,
            state.ledger().node() == (FeeNode::Forgotten { digest: commitment }),
    {
        ValidatedState {
            fee_merkle_tree: FeeMerkleTree::from_commitment(commitment),
            chain_config,
        }
    }

    /// Gives an account a balance. Where the account's part of the ledger is
    /// not held, nothing changes.
    pub fn prefund_account(&mut self, account: FeeAccount, amount: FeeAmount)
        requires
            old(self).wf(),
        ensures
            final(self).wf(),
            final(self).config() == old(self).config(),
            final(self).ledger().node() == updated(
                old(self).ledger().node(),
                account_path(account@),
                160,
                amount,
            ),
    {
        self.fee_merkle_tree.update(&account, amount);
    }

    /// The commitment of the state.
    pub fn commit(&self) -> (d: Digest)
        ensures
            d@ == self.commitment(),
    {
        self.fee_merkle_tree.commit()
    }

    /// The parameters of the chain.
    pub fn chain_config(&self) -> (config: ChainConfig)
        ensures
            config == self.config(),
    {
        self.chain_config
    }

    /// The fee ledger of the state.
    pub fn fee_merkle_tree(&self) -> (tree: &FeeMerkleTree)
        ensures
            *tree == self.ledger(),
    {
        &self.fee_merkle_tree
    }

    /// The balance of an account, or `None` where its part of the ledger is
    /// not held.
    pub fn balance(&self, account: &FeeAccount) -> (r: Option<FeeAmount>)
        requires
            self.wf(),
        ensures
            r is Some <==> self.ledger().balance_of(account@) is Some,
            r is Some ==> self.ledger().balance_of(account@) == Some(r->0@),
    {
        self.fee_merkle_tree.lookup(account)
    }

    /// Applies the transactions of a block, in their order, to a state whose
    /// ledger holds every balance that they need. The state itself is left as
    /// it is. Returns `MerkleTreeError` exactly where a transfer needs a
    /// balance that is not held.
    pub fn apply_held(&self, txns: &Vec<Transaction>) -> (r: Result<ValidatedState, Error>)
        requires
            self.wf(),
        ensures
            is_application(*self, txns@, r),
    {
        let mut tree = self.fee_merkle_tree.clone();
        let mut i: usize = 0;
        while i < txns.len()
            invariant
                i <= txns.len(),
                tree.wf(),
                ledger_after(self.ledger().node(), txns@, i as nat) == Some(tree.node()),
            decreases txns.len() - i,
        {
            if let Some(transfer) = txns[i].as_transfer() {
                if !transfer_step(&mut tree, &transfer) {
                    proof {
                        lemma_ledger_after_none(
                            self.ledger().node(),
                            txns@,
                            (i + 1) as nat,
                            txns@.len(),
                        );
                    }
                    return Err(Error::missing_state());
                }
            }
            i += 1;
        }
        Ok(ValidatedState { fee_merkle_tree: tree, chain_config: self.chain_config })
    }

    /// Applies the transactions of a block to the state, which is left as it
    /// is. Where the state holds every balance that the transactions need,
    /// the result is that of `apply_held` and no source of state is asked.
    /// Else each balance that is not held is fetched for the height of the
    /// block and for the commitment of this state, and merged into a copy of
    /// the ledger, to which the transactions are then applied. Where a fetch
    /// fails, or what was fetched does not fit the ledger, the result is
    /// `MerkleTreeError`.
    pub fn apply<T: PeerTransport>(
        &self,
        catchup: &StateCatchup,
        transport: &mut T,
        header: &Header,
        txns: &Vec<Transaction>,
    ) -> (r: Result<ValidatedState, Error>)
        requires
            self.wf(),
            catchup.wf(),
        ensures
            r is Err ==> r->Err_0 is MerkleTreeError,
            r is Ok ==> r->Ok_0.wf() && r->Ok_0.config() == self.config() && exists|
                filled: FeeMerkleTree,
            |
                fills(filled, self.ledger()) && #[trigger] ledger_after(
                    filled.node(),
                    txns@,
                    txns@.len(),
                ) == Some(r->Ok_0.ledger().node()),
            ledger_after(self.ledger().node(), txns@, txns@.len()) is Some ==> is_application(
                *self,
                txns@,
                r,
            ) && *final(transport) == *old(transport),
            ledger_after(self.ledger().node(), txns@, txns@.len()) is None && catchup
                is NoOp ==> r is Err,
    {
        let direct = self.apply_held(txns);
        if direct.is_ok() {
            assert(fills(self.ledger(), self.ledger()));
            return direct;
        }
        if let StateCatchup::NoOp = catchup {
            return direct;
        }
        let root = self.fee_merkle_tree.commit();
        let mut filled = self.fee_merkle_tree.clone();
        assert(fills(filled, self.ledger()));
        let mut i: usize = 0;
        while i < txns.len()
            invariant
                i <= txns.len(),
                self.wf(),
                catchup.wf(),
                root@ == self.commitment(),
                fills(filled, self.ledger()),
                ledger_after(self.ledger().node(), txns@, txns@.len()) is None,
            decreases txns.len() - i,
        {
            if let Some(transfer) = txns[i].as_transfer() {
                if !hold(&mut filled, catchup, transport, header.height, &root, &transfer.from) {
                    return Err(Error::missing_state());
                }
                if !hold(&mut filled, catchup, transport, header.height, &root, &transfer.to) {
                    return Err(Error::missing_state());
                }
            }
            i += 1;
        }
        let completed = ValidatedState {
            fee_merkle_tree: filled,
            chain_config: self.chain_config,
        };
        completed.apply_held(txns)
    }

    /// Validates a candidate header against its parent and applies its block
    /// to the parent's state. What the header alone, or the header and its
    /// transactions, show to be wrong is reported first; then the block is
    /// applied; then the header is held against the commitment of the state
    /// that came of it.
    pub fn validate_and_apply<T: PeerTransport>(
        &self,
        catchup: &StateCatchup,
        transport: &mut T,
        parent: &Header,
        candidate: &Header,
        txns: &Vec<Transaction>,
    ) -> (r: Result<ValidatedState, Error>)
        requires
            self.wf(),
            catchup.wf(),
        ensures
            match validation(*candidate, *parent, txns@, candidate.fee_merkle_root@) {
                Err(e) => r == Err::<ValidatedState, Error>(e),
                Ok(_) => match r {
                    Ok(state) => state.wf() && validation(
                        *candidate,
                        *parent,
                        txns@,
                        state.commitment(),
                    ) is Ok,
                    Err(e) => e is MerkleTreeError || e is IncorrectParent,
                },
            },
            r is Ok && candidate.height > 0 ==> candidate.fee_merkle_root@
                == r->Ok_0.commitment(),
            validation(*candidate, *parent, txns@, candidate.fee_merkle_root@) is Ok
                && ledger_after(self.ledger().node(), txns@, txns@.len()) is None && catchup
                is NoOp ==> r is Err && r->Err_0 is MerkleTreeError,
            validation(*candidate, *parent, txns@, candidate.fee_merkle_root@) is Ok
                && ledger_after(self.ledger().node(), txns@, txns@.len()) is Some ==> {
                let node = ledger_after(self.ledger().node(), txns@, txns@.len())->0;
                &&& r is Ok <==> candidate.height == 0 || candidate.fee_merkle_root@
                    == crate::merkle::node_digest(node)
                &&& r is Ok ==> r->Ok_0.ledger().node() == node && r->Ok_0.config()
                    == self.config()
                &&& r is Err ==> r->Err_0 is IncorrectParent
                &&& *final(transport) == *old(transport)
            },
    {
        match candidate.validate(parent, txns, &candidate.fee_merkle_root) {
            Err(e) => {
                return Err(e);
            },
            Ok(_) => {},
        }
        let state = match self.apply(catchup, transport, candidate, txns) {
            Ok(state) => state,
            Err(e) => {
                return Err(e);
            },
        };
        let commitment = state.commit();
        match candidate.validate(parent, txns, &commitment) {
            Err(e) => Err(e),
            Ok(_) => Ok(state),
        }
    }
}

impl Clone for ValidatedState {
    fn clone(&self) -> (state: ValidatedState)
        ensures
            state.ledger().node() == self.ledger().node(),
            state.config() == self.config(),
    {
        ValidatedState {
            fee_merkle_tree: self.fee_merkle_tree.clone(),
            chain_config: self.chain_config,
        }
    }
}

impl Default for ValidatedState {
    /// The state of a test chain in which no account has a balance.
    fn default() -> (state: ValidatedState)
        ensures
            state.wf(),
            state.ledger().node() == FeeNode::Empty,
            state.config().chain_id == 35353,
            state.config().max_block_size == 10240,
            state.config().base_fee@ == 0,
    {
        ValidatedState {
            fee_merkle_tree: FeeMerkleTree::new(),
            chain_config: ChainConfig::default(),
        }
    }
}

/// Makes sure that a ledger holds the balance of an account, fetching it
/// where it does not. Returns whether the ledger holds it afterwards.
fn hold<T: PeerTransport>(
    filled: &mut FeeMerkleTree,
    catchup: &StateCatchup,
    transport: &mut T,
    height: u64,
    root: &Digest,
    account: &FeeAccount,
) -> (held: bool)
    requires
        old(filled).wf(),
        catchup.wf(),
    ensures
        fills(*final(filled), *old(filled)),
        held == final(filled).balance_of(account@) is Some,
        old(filled).balance_of(account@) is Some ==> *final(transport) == *old(transport),
{
    let ghost before = *filled;
    if filled.lookup(account).is_some() {
        return true;
    }
    let request = FetchRequest { account: *account, root: *root };
    match catchup.fetch(transport, height, &request) {
        Ok(fragment) => {
            let held = filled.remember(&fragment);
            held
        },
        Err(_) => false,
    }
}

/// Makes one transfer in a ledger. Returns whether the balances of both
/// accounts are held; where they are not, nothing changes.
fn transfer_step(tree: &mut FeeMerkleTree, transfer: &Transfer) -> (held: bool)
    requires
        old(tree).wf(),
    ensures
        final(tree).wf(),
        match ledger_step(
            old(tree).node(),
            Some((transfer.from@, transfer.to@, transfer.amount@)),
        ) {
            Some(node) => held && final(tree).node() == node,
            None => !held && final(tree).node() == old(tree).node(),
        },
{
    let ghost before = tree.node();
    let ghost from_path = account_path(transfer.from@);
    let ghost to_path = account_path(transfer.to@);
    let sender = tree.lookup(&transfer.from);
    let receiver = tree.lookup(&transfer.to);
    if sender.is_none() || receiver.is_none() {
        return false;
    }
    if let Some(rest) = sender.unwrap().checked_sub(&transfer.amount) {
        let same = transfer.from.same(&transfer.to);
        let base = if same {
            rest
        } else {
            receiver.unwrap()
        };
        proof {
            lemma_amount_with(rest);
            lemma_updated(before, from_path, 160, rest);
            if !same {
                if from_path == to_path {
                    lemma_path_determines_account(transfer.from@, transfer.to@);
                }
                assert(from_path.subrange(0, 160) =~= from_path);
                assert(to_path.subrange(0, 160) =~= to_path);
            }
            assert(lookup(updated(before, from_path, 160, rest), to_path, 160) == Some(base@));
        }
        if let Some(sum) = base.checked_add(&transfer.amount) {
            proof {
                lemma_amount_with(sum);
            }
            tree.update(&transfer.from, rest);
            tree.update(&transfer.to, sum);
        }
    }
    true
}

/// Once a transaction needed a balance that was not held, the rest of the
/// block does not bring the ledger back.
pub proof fn lemma_ledger_after_none(node: FeeNode, txns: Seq<Transaction>, n: nat, m: nat)
    requires
        n <= m,
        ledger_after(node, txns, n) is None,
    ensures
        ledger_after(node, txns, m) is None,
    decreases m,
{
    if n < m {
        lemma_ledger_after_none(node, txns, n, (m - 1) as nat);
    }
}

} // verus!
