use vstd::prelude::*;

verus! {

/// Why a block, a header or a piece of state was refused.
#[derive(Clone, Debug)]
pub enum Error {
    /// The header does not commit to the state that its block leads to from
    /// the parent's state.
    IncorrectParent,
    /// The height does not follow the parent's, or the timestamp or an L1
    /// reference lies behind the parent's.
    IncorrectView,
    /// The block at height 0 holds no transaction or more than one.
    GenesisWrongSize,
    /// The one transaction of the block at height 0 is no genesis transaction.
    MissingGenesis,
    /// A genesis transaction stands in a block above height 0.
    UnexpectedGenesis,
    /// A part of the fee ledger is not held and could not be fetched.
    MerkleTreeError { error: String },
    /// A header or a state could not be built.
    BlockBuilding,
}

/// The text that describes an error.
pub open spec fn error_text(e: Error) -> Seq<char> {
    match e {
        Error::IncorrectParent => "incorrect parent"@,
        Error::IncorrectView => "incorrect view"@,
        Error::GenesisWrongSize => "genesis block has wrong size"@,
        Error::MissingGenesis => "genesis transaction is missing"@,
        Error::UnexpectedGenesis => "unexpected genesis transaction"@,
        Error::MerkleTreeError { error } => error@,
        Error::BlockBuilding => "block building failed"@,
    }
}

impl Error {
    /// The error for a part of the fee ledger that is not held.
    pub fn missing_state() -> (e: Error)
        ensures
            e is MerkleTreeError,
            error_text(e) == "fee ledger state is not held"@,
    {
        Error::MerkleTreeError { error: "fee ledger state is not held".to_owned() }
    }

    /// A short description of the error.
    pub fn message(&self) -> (text: String)
        ensures
            text@ == error_text(*self),
    {
        match self {
            Error::IncorrectParent => "incorrect parent".to_owned(),
            Error::IncorrectView => "incorrect view".to_owned(),
            Error::GenesisWrongSize => "genesis block has wrong size".to_owned(),
            Error::MissingGenesis => "genesis transaction is missing".to_owned(),
            Error::UnexpectedGenesis => "unexpected genesis transaction".to_owned(),
            Error::MerkleTreeError { error } => error.clone(),
            Error::BlockBuilding => "block building failed".to_owned(),
        }
    }
}

} // verus!
