use crate::account::{account_path, lemma_path_determines_account, FeeAccount};
use crate::amount::{limbs_be_bytes, FeeAmount};
use crate::digest::{keccak256, keccak256_of, zero_digest, Digest};
use vstd::prelude::*;

verus! {

/// A node of the fee ledger, a binary Merkle tree of height 160 in which the
/// bits of an account lead from the root to the account's leaf.
#[derive(Debug)]
pub enum FeeNode {
    /// A subtree in which no account has a balance.
    Empty,
    /// A subtree of which only the commitment is held.
    Forgotten { digest: Digest },
    /// The balance of the account that the path to this node spells.
    Leaf { balance: FeeAmount },
    /// An inner node.
    Branch { left: Box<FeeNode>, right: Box<FeeNode> },
}

/// A node is well formed at height `h` when its leaves stand at height 0 and
/// nowhere else.
pub open spec fn well_formed(node: FeeNode, h: nat) -> bool
    decreases node,
{
    match node {
        FeeNode::Empty => true,
        FeeNode::Forgotten { digest } => true,
        FeeNode::Leaf { balance } => h == 0,
        FeeNode::Branch { left, right } => h > 0 && well_formed(*left, (h - 1) as nat)
            && well_formed(*right, (h - 1) as nat),
    }
}

/// The bytes that are hashed for a leaf: the tag 1 and the balance.
pub open spec fn leaf_preimage(balance: FeeAmount) -> Seq<u8> {
    seq![1u8] + limbs_be_bytes(balance.limbs@)
}

/// The bytes that are hashed for an inner node: the tag 2 and the
/// commitments of the two children.
pub open spec fn branch_preimage(left: Seq<u8>, right: Seq<u8>) -> Seq<u8> {
    seq![2u8] + left + right
}

/// The commitment of a subtree.
pub open spec fn node_digest(node: FeeNode) -> Seq<u8>
    decreases node,
{
    match node {
        FeeNode::Empty => zero_digest(),
        FeeNode::Forgotten { digest } => digest@,
        FeeNode::Leaf { balance } => keccak256_of(leaf_preimage(balance)),
        FeeNode::Branch { left, right } => keccak256_of(
            branch_preimage(node_digest(*left), node_digest(*right)),
        ),
    }
}

/// The balance that a subtree at height `h` holds for the account with the
/// given path, or `None` where that part of the tree is not held.
pub open spec fn lookup(node: FeeNode, path: Seq<bool>, h: nat) -> Option<nat>
    decreases node,
{
    match node {
        FeeNode::Empty => Some(0nat),
        FeeNode::Forgotten { digest } => None,
        FeeNode::Leaf { balance } => Some(balance@),
        FeeNode::Branch { left, right } => if path[160 - h] {
            lookup(*right, path, (h - 1) as nat)
        } else {
            lookup(*left, path, (h - 1) as nat)
        },
    }
}

/// The subtree at height `h` after the account with the given path got the
/// given balance. Where the account's part of the tree is not held, nothing
/// changes.
pub open spec fn updated(node: FeeNode, path: Seq<bool>, h: nat, balance: FeeAmount) -> FeeNode
    decreases h,
{
    if h == 0 {
        match node {
            FeeNode::Empty => FeeNode::Leaf { balance },
            FeeNode::Leaf { balance: previous } => FeeNode::Leaf { balance },
            _ => node,
        }
    } else {
        match node {
            FeeNode::Empty => if path[160 - h] {
                FeeNode::Branch {
                    left: Box::new(FeeNode::Empty),
                    right: Box::new(updated(FeeNode::Empty, path, (h - 1) as nat, balance)),
                }
            } else {
                FeeNode::Branch {
                    left: Box::new(updated(FeeNode::Empty, path, (h - 1) as nat, balance)),
                    right: Box::new(FeeNode::Empty),
                }
            },
            FeeNode::Branch { left, right } => if path[160 - h] {
                FeeNode::Branch {
                    left,
                    right: Box::new(updated(*right, path, (h - 1) as nat, balance)),
                }
            } else {
                FeeNode::Branch {
                    left: Box::new(updated(*left, path, (h - 1) as nat, balance)),
                    right,
                }
            },
            _ => node,
        }
    }
}

/// Two paths that agree at one step and on all later steps agree from that
/// step on.
proof fn lemma_suffix_step(a: Seq<bool>, b: Seq<bool>, h: nat)
    requires
        0 < h <= 160,
        a.len() == 160,
        b.len() == 160,
        a[160 - h] == b[160 - h],
        a.subrange(160 - h + 1, 160) == b.subrange(160 - h + 1, 160),
    ensures
        a.subrange(160 - h, 160) == b.subrange(160 - h, 160),
{
    let sa = a.subrange(160 - h, 160);
    let sb = b.subrange(160 - h, 160);
    assert forall|i: int| 0 <= i < h implies #[trigger] sa[i] == sb[i] by {
        if i > 0 {
            assert(a.subrange(160 - h + 1, 160)[i - 1] == a[160 - h + i]);
            assert(b.subrange(160 - h + 1, 160)[i - 1] == b[160 - h + i]);
        }
    }
    assert(sa =~= sb);
}

/// An update keeps a well-formed tree well formed, leaves the account with
/// the new balance where its part of the tree is held, and changes the
/// balance of no other account.
pub proof fn lemma_updated(node: FeeNode, path: Seq<bool>, h: nat, balance: FeeAmount)
    requires
        well_formed(node, h),
        h <= 160,
        path.len() == 160,
    ensures
        well_formed(updated(node, path, h, balance), h),
        lookup(node, path, h) is Some ==> lookup(updated(node, path, h, balance), path, h) == Some(
            balance@,
        ),
        lookup(node, path, h) is None ==> updated(node, path, h, balance) == node,
        forall|other: Seq<bool>|
            other.len() == 160 && other.subrange(160 - h, 160) != path.subrange(160 - h, 160)
                ==> #[trigger] lookup(updated(node, path, h, balance), other, h) == lookup(
                node,
                other,
                h,
            ),
    decreases h,
{
    let after = updated(node, path, h, balance);
    if h == 0 {
        assert forall|other: Seq<bool>|
            other.len() == 160 && other.subrange(160 - h, 160) != path.subrange(160 - h, 160)
                implies #[trigger] lookup(after, other, h) == lookup(node, other, h) by {
            assert(other.subrange(160, 160) =~= path.subrange(160, 160));
        }
    } else {
        let below = (h - 1) as nat;
        let (left, right) = match node {
            FeeNode::Branch { left, right } => (*left, *right),
            _ => (FeeNode::Empty, FeeNode::Empty),
        };
        let child = if path[160 - h] {
            right
        } else {
            left
        };
        assert(well_formed(left, below) && well_formed(right, below));
        lemma_updated(child, path, below, balance);
        let new_child = updated(child, path, below, balance);
        if node is Branch || node is Empty {
            if path[160 - h] {
                assert(after == FeeNode::Branch {
                    left: Box::new(left),
                    right: Box::new(new_child),
                });
            } else {
                assert(after == FeeNode::Branch {
                    left: Box::new(new_child),
                    right: Box::new(right),
                });
            }
            assert(well_formed(after, h));
            assert forall|other: Seq<bool>|
                other.len() == 160 && other.subrange(160 - h, 160) != path.subrange(160 - h, 160)
                    implies #[trigger] lookup(after, other, h) == lookup(node, other, h) by {
                if other[160 - h] == path[160 - h] {
                    if other.subrange(160 - below, 160) == path.subrange(160 - below, 160) {
                        lemma_suffix_step(other, path, h);
                    }
                    assert(lookup(new_child, other, below) == lookup(child, other, below));
                }
            }
        }
    }
}

/// Two updates of different accounts give the same tree in either order, so
/// the commitment of a ledger does not depend on the order in which its
/// accounts were written.
pub proof fn lemma_updates_commute(
    node: FeeNode,
    h: nat,
    first: Seq<bool>,
    first_balance: FeeAmount,
    second: Seq<bool>,
    second_balance: FeeAmount,
)
    requires
        h <= 160,
        first.len() == 160,
        second.len() == 160,
        first.subrange(160 - h, 160) != second.subrange(160 - h, 160),
    ensures
        updated(updated(node, first, h, first_balance), second, h, second_balance) == updated(
            updated(node, second, h, second_balance),
            first,
            h,
            first_balance,
        ),
    decreases h,
{
    if h == 0 {
        assert(first.subrange(160, 160) =~= second.subrange(160, 160));
    } else {
        let below = (h - 1) as nat;
        if first[160 - h] == second[160 - h] {
            if first.subrange(160 - below, 160) == second.subrange(160 - below, 160) {
                lemma_suffix_step(first, second, h);
            }
            let child = match node {
                FeeNode::Branch { left, right } => if first[160 - h] {
                    *right
                } else {
                    *left
                },
                _ => FeeNode::Empty,
            };
            lemma_updates_commute(child, below, first, first_balance, second, second_balance);
        }
    }
}

/// The commitment of a ledger does not depend on the order in which two
/// different accounts were written.
pub proof fn lemma_commitment_is_order_independent(
    node: FeeNode,
    first: Seq<u8>,
    first_balance: FeeAmount,
    second: Seq<u8>,
    second_balance: FeeAmount,
)
    requires
        first.len() == 20,
        second.len() == 20,
        first != second,
    ensures
        node_digest(
            updated(
                updated(node, account_path(first), 160, first_balance),
                account_path(second),
                160,
                second_balance,
            ),
        ) == node_digest(
            updated(
                updated(node, account_path(second), 160, second_balance),
                account_path(first),
                160,
                first_balance,
            ),
        ),
{
    let first_path = account_path(first);
    let second_path = account_path(second);
    if first_path == second_path {
        lemma_path_determines_account(first, second);
    }
    assert(first_path.subrange(0, 160) =~= first_path);
    assert(second_path.subrange(0, 160) =~= second_path);
    lemma_updates_commute(node, 160, first_path, first_balance, second_path, second_balance);
}

/// What a peer hands over for one account: the account's balance, or `None`
/// where the ledger holds none, and the commitments of the subtrees beside
/// the account's path, from the root down.
#[derive(Clone, Debug)]
pub struct StateFragment {
    pub account: FeeAccount,
    pub balance: Option<FeeAmount>,
    pub siblings: Vec<Digest>,
}

/// The commitment of the node at which a fragment ends.
pub open spec fn terminal_digest(balance: Option<FeeAmount>) -> Seq<u8> {
    match balance {
        Some(b) => keccak256_of(leaf_preimage(b)),
        None => zero_digest(),
    }
}

/// The commitment that a fragment gives to its subtree at depth `d`.
pub open spec fn spine_digest(
    path: Seq<bool>,
    siblings: Seq<Digest>,
    balance: Option<FeeAmount>,
    d: nat,
) -> Seq<u8>
    decreases siblings.len() - d,
{
    if d >= siblings.len() {
        terminal_digest(balance)
    } else if path[d as int] {
        keccak256_of(
            branch_preimage(siblings[d as int]@, spine_digest(path, siblings, balance, d + 1)),
        )
    } else {
        keccak256_of(
            branch_preimage(spine_digest(path, siblings, balance, d + 1), siblings[d as int]@),
        )
    }
}

/// The subtree at depth `d` that a fragment describes: the account's path,
/// with every subtree beside it known by its commitment alone.
pub open spec fn spine(
    path: Seq<bool>,
    siblings: Seq<Digest>,
    balance: Option<FeeAmount>,
    d: nat,
) -> FeeNode
    decreases siblings.len() - d,
{
    if d >= siblings.len() {
        match balance {
            Some(b) => FeeNode::Leaf { balance: b },
            None => FeeNode::Empty,
        }
    } else if path[d as int] {
        FeeNode::Branch {
            left: Box::new(FeeNode::Forgotten { digest: siblings[d as int] }),
            right: Box::new(spine(path, siblings, balance, d + 1)),
        }
    } else {
        FeeNode::Branch {
            left: Box::new(spine(path, siblings, balance, d + 1)),
            right: Box::new(FeeNode::Forgotten { digest: siblings[d as int] }),
        }
    }
}

/// The subtree at depth `d` after a fragment was merged into it. Only a
/// forgotten node on the account's path changes, and only where its
/// commitment is the one that the fragment gives to that node.
pub open spec fn merged(
    node: FeeNode,
    path: Seq<bool>,
    siblings: Seq<Digest>,
    balance: Option<FeeAmount>,
    d: nat,
) -> FeeNode
    decreases node,
{
    match node {
        FeeNode::Branch { left, right } => if d < siblings.len() {
            if path[d as int] {
                FeeNode::Branch {
                    left,
                    right: Box::new(merged(*right, path, siblings, balance, d + 1)),
                }
            } else {
                FeeNode::Branch {
                    left: Box::new(merged(*left, path, siblings, balance, d + 1)),
                    right,
                }
            }
        } else {
            node
        },
        FeeNode::Forgotten { digest } => if digest@ == spine_digest(path, siblings, balance, d) {
            spine(path, siblings, balance, d)
        } else {
            node
        },
        _ => node,
    }
}

/// The balance that a fragment states, zero where it states none.
pub open spec fn stated_balance(balance: Option<FeeAmount>) -> nat {
    match balance {
        Some(b) => b@,
        None => 0,
    }
}

/// A fragment is well formed when it is no longer than the tree is high and
/// states a balance only at the full depth.
pub open spec fn fragment_shape(siblings: Seq<Digest>, balance: Option<FeeAmount>) -> bool {
    siblings.len() <= 160 && (balance is Some ==> siblings.len() == 160)
}

/// A fragment fills a ledger of which only the commitment is held, where that
/// commitment is the one that the fragment recomputes to: afterwards the
/// ledger holds the balance that the fragment states.
pub proof fn lemma_fragment_fills_forgotten_ledger(
    digest: Digest,
    path: Seq<bool>,
    siblings: Seq<Digest>,
    balance: Option<FeeAmount>,
)
    requires
        path.len() == 160,
        fragment_shape(siblings, balance),
        digest@ == spine_digest(path, siblings, balance, 0),
    ensures
        lookup(merged(FeeNode::Forgotten { digest }, path, siblings, balance, 0), path, 160)
            == Some(stated_balance(balance)),
        node_digest(merged(FeeNode::Forgotten { digest }, path, siblings, balance, 0)) == digest@,
{
    lemma_spine(path, siblings, balance, 0);
}

/// The subtree that a fragment describes is well formed, has the commitment
/// that the fragment gives, and holds the stated balance for the account.
pub proof fn lemma_spine(
    path: Seq<bool>,
    siblings: Seq<Digest>,
    balance: Option<FeeAmount>,
    d: nat,
)
    requires
        path.len() == 160,
        fragment_shape(siblings, balance),
        d <= siblings.len(),
    ensures
        well_formed(spine(path, siblings, balance, d), (160 - d) as nat),
        node_digest(spine(path, siblings, balance, d)) == spine_digest(path, siblings, balance, d),
        lookup(spine(path, siblings, balance, d), path, (160 - d) as nat) == Some(
            stated_balance(balance),
        ),
    decreases siblings.len() - d,
{
    let here = spine(path, siblings, balance, d);
    if d < siblings.len() {
        lemma_spine(path, siblings, balance, d + 1);
        let below = spine(path, siblings, balance, d + 1);
        let beside = FeeNode::Forgotten { digest: siblings[d as int] };
        if path[d as int] {
            assert(here == FeeNode::Branch { left: Box::new(beside), right: Box::new(below) });
        } else {
            assert(here == FeeNode::Branch { left: Box::new(below), right: Box::new(beside) });
        }
        assert(well_formed(beside, (160 - d - 1) as nat));
        assert(well_formed(here, (160 - d) as nat));
        assert(node_digest(beside) == siblings[d as int]@);
    } else {
        assert(here == match balance {
            Some(b) => FeeNode::Leaf { balance: b },
            None => FeeNode::Empty,
        });
    }
}

/// Merging a fragment keeps the tree well formed, never changes its
/// commitment, and never changes a balance that the tree already held. Where
/// the account's balance was not held before and is held afterwards, it is the
/// balance that the fragment states; where it is still not held, nothing
/// changed.
pub proof fn lemma_merged(
    node: FeeNode,
    path: Seq<bool>,
    siblings: Seq<Digest>,
    balance: Option<FeeAmount>,
    d: nat,
)
    requires
        path.len() == 160,
        fragment_shape(siblings, balance),
        d <= siblings.len(),
        well_formed(node, (160 - d) as nat),
    ensures
        well_formed(merged(node, path, siblings, balance, d), (160 - d) as nat),
        node_digest(merged(node, path, siblings, balance, d)) == node_digest(node),
        forall|other: Seq<bool>|
            other.len() == 160 && lookup(node, other, (160 - d) as nat) is Some ==> #[trigger] lookup(
                merged(node, path, siblings, balance, d),
                other,
                (160 - d) as nat,
            ) == lookup(node, other, (160 - d) as nat),
        lookup(node, path, (160 - d) as nat) is None && lookup(
            merged(node, path, siblings, balance, d),
            path,
            (160 - d) as nat,
        ) is Some ==> lookup(merged(node, path, siblings, balance, d), path, (160 - d) as nat)
            == Some(stated_balance(balance)),
        lookup(merged(node, path, siblings, balance, d), path, (160 - d) as nat) is None ==> merged(
            node,
            path,
            siblings,
            balance,
            d,
        ) == node,
    decreases node,
{
    let h = (160 - d) as nat;
    let after = merged(node, path, siblings, balance, d);
    match node {
        FeeNode::Branch { left, right } => {
            if d < siblings.len() {
                let below = (h - 1) as nat;
                assert(well_formed(*left, below) && well_formed(*right, below));
                if path[d as int] {
                    lemma_merged(*right, path, siblings, balance, d + 1);
                    let child = merged(*right, path, siblings, balance, d + 1);
                    assert(after == FeeNode::Branch { left, right: Box::new(child) });
                    assert forall|other: Seq<bool>|
                        other.len() == 160 && lookup(node, other, h) is Some implies #[trigger] lookup(
                        after,
                        other,
                        h,
                    ) == lookup(node, other, h) by {
                        if other[160 - h] {
                            assert(lookup(child, other, below) == lookup(*right, other, below));
                        }
                    }
                } else {
                    lemma_merged(*left, path, siblings, balance, d + 1);
                    let child = merged(*left, path, siblings, balance, d + 1);
                    assert(after == FeeNode::Branch { left: Box::new(child), right });
                    assert forall|other: Seq<bool>|
                        other.len() == 160 && lookup(node, other, h) is Some implies #[trigger] lookup(
                        after,
                        other,
                        h,
                    ) == lookup(node, other, h) by {
                        if !other[160 - h] {
                            assert(lookup(child, other, below) == lookup(*left, other, below));
                        }
                    }
                }
            }
        },
        FeeNode::Forgotten { digest } => {
            lemma_spine(path, siblings, balance, d);
        },
        _ => {},
    }
}

/// The commitment of a leaf with the given balance.
fn leaf_digest(balance: &FeeAmount) -> (d: Digest)
    ensures
        d@ == keccak256_of(leaf_preimage(*balance)),
{
    let mut preimage: Vec<u8> = Vec::new();
    preimage.push(1u8);
    balance.push_be_bytes(&mut preimage);
    assert(preimage@ =~= leaf_preimage(*balance));
    keccak256(&preimage)
}

/// The commitment of an inner node over the commitments of its children.
fn branch_digest(left: &Digest, right: &Digest) -> (d: Digest)
    ensures
        d@ == keccak256_of(branch_preimage(left@, right@)),
{
    let mut preimage: Vec<u8> = Vec::new();
    preimage.push(2u8);
    left.push_bytes(&mut preimage);
    right.push_bytes(&mut preimage);
    assert(preimage@ =~= branch_preimage(left@, right@));
    keccak256(&preimage)
}

/// Computes the commitment of a subtree.
fn digest_of(node: &FeeNode) -> (d: Digest)
    ensures
        d@ == node_digest(*node),
    decreases node,
{
    match node {
        FeeNode::Empty => Digest::zero(),
        FeeNode::Forgotten { digest } => *digest,
        FeeNode::Leaf { balance } => leaf_digest(balance),
        FeeNode::Branch { left, right } => {
            let l = digest_of(left);
            let r = digest_of(right);
            branch_digest(&l, &r)
        },
    }
}

/// A copy of a subtree.
fn copy_of(node: &FeeNode) -> (r: FeeNode)
    ensures
        r == *node,
    decreases node,
{
    match node {
        FeeNode::Empty => FeeNode::Empty,
        FeeNode::Forgotten { digest } => FeeNode::Forgotten { digest: *digest },
        FeeNode::Leaf { balance } => FeeNode::Leaf { balance: *balance },
        FeeNode::Branch { left, right } => FeeNode::Branch {
            left: Box::new(copy_of(left)),
            right: Box::new(copy_of(right)),
        },
    }
}

/// Reads the balance of an account in a subtree at height `h`.
fn balance_in(node: &FeeNode, account: &FeeAccount, h: usize) -> (r: Option<FeeAmount>)
    requires
        h <= 160,
        well_formed(*node, h as nat),
    ensures
        r is Some <==> lookup(*node, account_path(account@), h as nat) is Some,
        r is Some ==> lookup(*node, account_path(account@), h as nat) == Some(r->0@),
    decreases node,
{
    match node {
        FeeNode::Empty => Some(FeeAmount::zero()),
        FeeNode::Forgotten { digest } => None,
        FeeNode::Leaf { balance } => Some(*balance),
        FeeNode::Branch { left, right } => if account.bit(160 - h) {
            balance_in(right, account, h - 1)
        } else {
            balance_in(left, account, h - 1)
        },
    }
}

/// Writes the balance of an account in a subtree at height `h`.
fn update_in(node: FeeNode, account: &FeeAccount, h: usize, balance: FeeAmount) -> (r: FeeNode)
    requires
        h <= 160,
    ensures
        r == updated(node, account_path(account@), h as nat, balance),
    decreases h,
{
    if h == 0 {
        match node {
            FeeNode::Empty => FeeNode::Leaf { balance },
            FeeNode::Leaf { balance: previous } => FeeNode::Leaf { balance },
            other => other,
        }
    } else {
        let right_turn = account.bit(160 - h);
        match node {
            FeeNode::Empty => {
                let child = update_in(FeeNode::Empty, account, h - 1, balance);
                if right_turn {
                    FeeNode::Branch { left: Box::new(FeeNode::Empty), right: Box::new(child) }
                } else {
                    FeeNode::Branch { left: Box::new(child), right: Box::new(FeeNode::Empty) }
                }
            },
            FeeNode::Branch { left, right } => {
                if right_turn {
                    let child = update_in(*right, account, h - 1, balance);
                    FeeNode::Branch { left, right: Box::new(child) }
                } else {
                    let child = update_in(*left, account, h - 1, balance);
                    FeeNode::Branch { left: Box::new(child), right }
                }
            },
            other => other,
        }
    }
}

/// The commitment of the node at which a fragment ends.
fn terminal_digest_of(balance: &Option<FeeAmount>) -> (d: Digest)
    ensures
        d@ == terminal_digest(*balance),
{
    match balance {
        Some(b) => leaf_digest(b),
        None => Digest::zero(),
    }
}

/// The commitments that a fragment gives to its subtrees, deepest first.
fn spine_digests(
    account: &FeeAccount,
    siblings: &Vec<Digest>,
    balance: &Option<FeeAmount>,
) -> (chain: Vec<Digest>)
    requires
        siblings.len() <= 160,
    ensures
        chain.len() == siblings.len() + 1,
        forall|d: int|
            0 <= d <= siblings.len() ==> (#[trigger] chain[siblings.len() - d])@ == spine_digest(
                account_path(account@),
                siblings@,
                *balance,
                d as nat,
            ),
{
    let k = siblings.len();
    let ghost path = account_path(account@);
    let mut chain: Vec<Digest> = Vec::new();
    chain.push(terminal_digest_of(balance));
    let mut j: usize = 0;
    while j < k
        invariant
            k == siblings.len(),
            k <= 160,
            j <= k,
            path == account_path(account@),
            chain.len() == j + 1,
            forall|i: int|
                0 <= i <= j ==> (#[trigger] chain[i])@ == spine_digest(
                    path,
                    siblings@,
                    *balance,
                    (k - i) as nat,
                ),
        decreases k - j,
    {
        let d = k - j - 1;
        let below = chain[j];
        let next = if account.bit(d) {
            branch_digest(&siblings[d], &below)
        } else {
            branch_digest(&below, &siblings[d])
        };
        chain.push(next);
        j += 1;
    }
    assert forall|d: int| 0 <= d <= siblings.len() implies (#[trigger] chain[siblings.len() - d])@
        == spine_digest(path, siblings@, *balance, d as nat) by {
        let i = siblings.len() - d;
        assert(chain[i]@ == spine_digest(path, siblings@, *balance, (k - i) as nat));
    }
    chain
}

/// Builds the subtree at depth `d` that a fragment describes.
fn spine_of(
    account: &FeeAccount,
    siblings: &Vec<Digest>,
    balance: &Option<FeeAmount>,
    d: usize,
) -> (r: FeeNode)
    requires
        siblings.len() <= 160,
    ensures
        r == spine(account_path(account@), siblings@, *balance, d as nat),
    decreases siblings.len() - d,
{
    if d >= siblings.len() {
        match balance {
            Some(b) => FeeNode::Leaf { balance: *b },
            None => FeeNode::Empty,
        }
    } else {
        let below = spine_of(account, siblings, balance, d + 1);
        let beside = FeeNode::Forgotten { digest: siblings[d] };
        if account.bit(d) {
            FeeNode::Branch { left: Box::new(beside), right: Box::new(below) }
        } else {
            FeeNode::Branch { left: Box::new(below), right: Box::new(beside) }
        }
    }
}

/// Merges a fragment into the subtree at depth `d`.
fn merge_in(
    node: FeeNode,
    account: &FeeAccount,
    siblings: &Vec<Digest>,
    balance: &Option<FeeAmount>,
    chain: &Vec<Digest>,
    d: usize,
) -> (r: FeeNode)
    requires
        siblings.len() <= 160,
        d <= siblings.len(),
        chain.len() == siblings.len() + 1,
        forall|i: int|
            0 <= i <= siblings.len() ==> (#[trigger] chain[siblings.len() - i])@ == spine_digest(
                account_path(account@),
                siblings@,
                *balance,
                i as nat,
            ),
    ensures
        r == merged(node, account_path(account@), siblings@, *balance, d as nat),
    decreases node,
{
    match node {
        FeeNode::Branch { left, right } => {
            if d < siblings.len() {
                if account.bit(d) {
                    let child = merge_in(*right, account, siblings, balance, chain, d + 1);
                    FeeNode::Branch { left, right: Box::new(child) }
                } else {
                    let child = merge_in(*left, account, siblings, balance, chain, d + 1);
                    FeeNode::Branch { left: Box::new(child), right }
                }
            } else {
                FeeNode::Branch { left, right }
            }
        },
        FeeNode::Forgotten { digest } => {
            assert(chain[siblings.len() - d]@ == spine_digest(
                account_path(account@),
                siblings@,
                *balance,
                d as nat,
            ));
            if digest.same(&chain[siblings.len() - d]) {
                spine_of(account, siblings, balance, d)
            } else {
                FeeNode::Forgotten { digest }
            }
        },
        other => other,
    }
}

/// Collects, from depth `160 - h` down, the commitments beside an account's
/// path, and returns what stands at the end of the path; `None` where the
/// path runs into a part of the tree that is not held.
fn prove_in(
    node: &FeeNode,
    account: &FeeAccount,
    h: usize,
    siblings: &mut Vec<Digest>,
) -> (r: Option<Option<FeeAmount>>)
    requires
        h <= 160,
        well_formed(*node, h as nat),
        old(siblings).len() == 160 - h,
    ensures
        r is Some <==> lookup(*node, account_path(account@), h as nat) is Some,
        r is Some ==> {
            &&& lookup(*node, account_path(account@), h as nat) == Some(stated_balance(r->0))
            &&& fragment_shape(final(siblings)@, r->0)
            &&& final(siblings)@.len() >= old(siblings)@.len()
            &&& final(siblings)@.subrange(0, 160 - h) == old(siblings)@
            &&& spine_digest(account_path(account@), final(siblings)@, r->0, (160 - h) as nat)
                == node_digest(*node)
        },
    decreases node,
{
    let ghost path = account_path(account@);
    let ghost before = siblings@;
    match node {
        FeeNode::Empty => {
            assert(siblings@.subrange(0, 160 - h) =~= before);
            Some(None)
        },
        FeeNode::Forgotten { digest } => None,
        FeeNode::Leaf { balance } => {
            assert(siblings@.subrange(0, 160 - h) =~= before);
            Some(Some(*balance))
        },
        FeeNode::Branch { left, right } => {
            let d = 160 - h;
            let turn = account.bit(d);
            let beside = if turn {
                digest_of(left)
            } else {
                digest_of(right)
            };
            siblings.push(beside);
            let ghost pushed = siblings@;
            let r = if turn {
                prove_in(right, account, h - 1, siblings)
            } else {
                prove_in(left, account, h - 1, siblings)
            };
            proof {
                if r is Some {
                    assert(siblings@.subrange(0, d + 1) == pushed);
                    assert(siblings@[d as int] == pushed[d as int]);
                    assert(siblings@.subrange(0, d as int) =~= before) by {
                        assert forall|i: int| 0 <= i < d implies siblings@[i] == before[i] by {
                            assert(siblings@.subrange(0, d + 1)[i] == pushed[i]);
                        }
                    }
                }
            }
            r
        },
    }
}

impl StateFragment {
    /// Whether the fragment has the shape of a path through the fee ledger.
    pub open spec fn wf(&self) -> bool {
        fragment_shape(self.siblings@, self.balance)
    }

    /// The commitment of the ledger that the fragment was cut from, as the
    /// fragment gives it.
    pub open spec fn root(&self) -> Seq<u8> {
        spine_digest(account_path(self.account@), self.siblings@, self.balance, 0)
    }

    /// The balance that the fragment states for its account.
    pub open spec fn value(&self) -> nat {
        stated_balance(self.balance)
    }

    /// Whether the fragment is well formed and its recomputed commitment is
    /// the expected one.
    pub fn verifies_against(&self, expected: &Digest) -> (ok: bool)
        ensures
            ok == (self.wf() && self.root() == expected@),
    {
        if self.siblings.len() > 160 {
            return false;
        }
        if self.balance.is_some() && self.siblings.len() != 160 {
            return false;
        }
        let chain = spine_digests(&self.account, &self.siblings, &self.balance);
        assert(chain[self.siblings.len() - 0]@ == self.root());
        chain[self.siblings.len()].same(expected)
    }

    /// The balance that the fragment states for its account, zero where it
    /// states that the ledger holds none.
    pub fn stated(&self) -> (r: FeeAmount)
        ensures
            r@ == self.value(),
    {
        match self.balance {
            Some(b) => b,
            None => FeeAmount::zero(),
        }
    }
}

/// The fee ledger: a Merkle tree over the balances of all accounts, of which
/// parts may be held by their commitment alone.
#[derive(Debug)]
pub struct FeeMerkleTree {
    root: FeeNode,
}

impl Clone for FeeNode {
    fn clone(&self) -> (r: FeeNode)
        ensures
            r == *self,
    {
        copy_of(self)
    }
}

impl Clone for FeeMerkleTree {
    fn clone(&self) -> (t: FeeMerkleTree)
        ensures
            t.node() == self.node(),
    {
        FeeMerkleTree { root: copy_of(&self.root) }
    }
}

impl FeeMerkleTree {
    /// The root node of the tree.
    pub closed spec fn node(&self) -> FeeNode {
        self.root
    }

    /// Whether the tree is well formed.
    pub open spec fn wf(&self) -> bool {
        well_formed(self.node(), 160)
    }

    /// The balance of an account, or `None` where its part of the tree is
    /// not held.
    pub open spec fn balance_of(&self, account: Seq<u8>) -> Option<nat> {
        lookup(self.node(), account_path(account), 160)
    }

    /// The commitment of the tree.
    pub open spec fn commitment(&self) -> Seq<u8> {
        node_digest(self.node())
    }

    /// The ledger in which no account has a balance.
    pub fn new() -> (t: FeeMerkleTree)
        ensures
            t.wf(),
            t.node() == FeeNode::Empty,
    {
        FeeMerkleTree { root: FeeNode::Empty }
    }

    /// A ledger of which only the commitment is held.
    pub fn from_commitment(digest: Digest) -> (t: FeeMerkleTree)
        ensures
            t.wf(),
            t.node() == (FeeNode::Forgotten { digest }),
    {
        FeeMerkleTree { root: FeeNode::Forgotten { digest } }
    }

    /// The commitment of the ledger.
    pub fn commit(&self) -> (d: Digest)
        ensures
            d@ == self.commitment(),
    {
        digest_of(&self.root)
    }

    /// The balance of an account, or `None` where its part of the tree is
    /// not held.
    pub fn lookup(&self, account: &FeeAccount) -> (r: Option<FeeAmount>)
        requires
            self.wf(),
        ensures
            r is Some <==> self.balance_of(account@) is Some,
            r is Some ==> self.balance_of(account@) == Some(r->0@),
    {
        balance_in(&self.root, account, 160)
    }

    /// Writes the balance of an account. Returns whether the account's part
    /// of the tree is held; where it is not, nothing changes.
    pub fn update(&mut self, account: &FeeAccount, balance: FeeAmount) -> (held: bool)
        requires
            old(self).wf(),
        ensures
            final(self).wf(),
            held == old(self).balance_of(account@) is Some,
            final(self).node() == updated(old(self).node(), account_path(account@), 160, balance),
            held ==> final(self).balance_of(account@) == Some(balance@),
            !held ==> final(self).node() == old(self).node(),
    {
        let held = balance_in(&self.root, account, 160).is_some();
        let mut taken = FeeNode::Empty;
        std::mem::swap(&mut self.root, &mut taken);
        proof {
            lemma_updated(taken, account_path(account@), 160, balance);
        }
        self.root = update_in(taken, account, 160, balance);
        held
    }

    /// Cuts the fragment for an account out of the ledger, or returns `None`
    /// where the account's part of the tree is not held. The fragment states
    /// the account's balance and recomputes to the ledger's commitment.
    pub fn prove(&self, account: &FeeAccount) -> (r: Option<StateFragment>)
        requires
            self.wf(),
        ensures
            r is Some <==> self.balance_of(account@) is Some,
            r is Some ==> {
                &&& r->0.account@ == account@
                &&& r->0.wf()
                &&& self.balance_of(account@) == Some(r->0.value())
                &&& r->0.root() == self.commitment()
            },
    {
        let mut siblings: Vec<Digest> = Vec::new();
        match prove_in(&self.root, account, 160, &mut siblings) {
            Some(balance) => Some(StateFragment { account: *account, balance, siblings }),
            None => None,
        }
    }

    /// Merges a fragment into the ledger. A fragment that is not well formed,
    /// or whose recomputed commitment is not that of the ledger, is refused
    /// and changes nothing. Returns whether the fragment's account is held
    /// afterwards.
    pub fn remember(&mut self, fragment: &StateFragment) -> (held: bool)
        requires
            old(self).wf(),
        ensures
            final(self).wf(),
            final(self).commitment() == old(self).commitment(),
            final(self).node() == if fragment.wf() && fragment.root() == old(self).commitment() {
                merged(
                    old(self).node(),
                    account_path(fragment.account@),
                    fragment.siblings@,
                    fragment.balance,
                    0,
                )
            } else {
                old(self).node()
            },
            held == final(self).balance_of(fragment.account@) is Some,
            !held ==> final(self).node() == old(self).node(),
            forall|other: Seq<u8>| #[trigger]
                old(self).balance_of(other) is Some ==> final(self).balance_of(other) == old(
                    self,
                ).balance_of(other),
            held && old(self).balance_of(fragment.account@) is None ==> final(self).balance_of(
                fragment.account@,
            ) == Some(fragment.value()),
    {
        let well_shaped = fragment.siblings.len() <= 160 && (fragment.balance.is_none()
            || fragment.siblings.len() == 160);
        if well_shaped {
            let chain = spine_digests(&fragment.account, &fragment.siblings, &fragment.balance);
            assert(chain[fragment.siblings.len() - 0]@ == fragment.root());
            if chain[fragment.siblings.len()].same(&digest_of(&self.root)) {
                let mut taken = FeeNode::Empty;
                std::mem::swap(&mut self.root, &mut taken);
                proof {
                    lemma_merged(
                        taken,
                        account_path(fragment.account@),
                        fragment.siblings@,
                        fragment.balance,
                        0,
                    );
                }
                self.root = merge_in(
                    taken,
                    &fragment.account,
                    &fragment.siblings,
                    &fragment.balance,
                    &chain,
                    0,
                );
            }
        }
        balance_in(&self.root, &fragment.account, 160).is_some()
    }
}

} // verus!
