use vstd::prelude::*;

verus! {

/// What a node does in a view.
#[derive(Clone, Copy, Debug)]
pub enum HotShotAction {
    Vote,
    Propose,
}

/// A proposal of the consensus engine for a view, which the node stores
/// without reading it.
#[derive(Debug)]
pub struct Proposal {
    pub view: u64,
    pub data: Vec<u8>,
}

/// The configuration of the network that a node has joined.
#[derive(Debug)]
pub struct NetworkConfig {
    pub node_index: u64,
    pub data: Vec<u8>,
}

/// Why the persistence backend could not do what it was asked.
#[derive(Debug)]
pub struct PersistenceError {
    pub message: String,
}

/// The durable store of a node. Nothing is taken for granted of what an
/// implementation returns.
pub trait SequencerPersistence {
    fn load_config(&mut self) -> Result<Option<NetworkConfig>, PersistenceError>;

    fn save_config(&mut self, config: &NetworkConfig) -> Result<(), PersistenceError>;

    fn append_vid(&mut self, proposal: &Proposal) -> Result<(), PersistenceError>;

    fn append_da(&mut self, proposal: &Proposal) -> Result<(), PersistenceError>;

    fn record_action(&mut self, view: u64, action: HotShotAction) -> Result<
        (),
        PersistenceError,
    >;
}

/// One call that the storage adapter has handed to the persistence backend.
#[derive(Clone, Copy, Debug)]
pub enum StorageOp {
    LoadConfig,
    SaveConfig { node_index: u64 },
    AppendVid { view: u64 },
    AppendDa { view: u64 },
    RecordAction { view: u64, action: HotShotAction },
}

/// The one owner of a node's persistence backend. Every call takes the
/// adapter exclusively for as long as it lasts, so the calls of the
/// consensus engine reach the backend one at a time and in one order.
pub struct StorageAdapter<P: SequencerPersistence> {
    backend: P,
    log: Ghost<Seq<StorageOp>>,
}

impl<P: SequencerPersistence> StorageAdapter<P> {
    /// The backend that the adapter owns.
    pub closed spec fn backend(&self) -> P {
        self.backend
    }

    /// The calls that were handed to the backend, in their order.
    pub closed spec fn log(&self) -> Seq<StorageOp> {
        self.log@
    }

    /// An adapter that owns the given backend and has handed it no call.
    pub fn new(backend: P) -> (adapter: StorageAdapter<P>)
        ensures
            adapter.backend() == backend,
            adapter.log().len() == 0,
    {
        StorageAdapter { backend, log: Ghost(Seq::empty()) }
    }

    /// Gives the backend back.
    pub fn into_inner(self) -> (backend: P)
        ensures
            backend == self.backend(),
    {
        self.backend
    }

    /// Hands the backend the question for the stored network configuration.
    pub fn load_config(&mut self) -> (r: Result<Option<NetworkConfig>, PersistenceError>)
        ensures
            final(self).log() == old(self).log().push(StorageOp::LoadConfig),
    {
        proof {
            self.log@ = self.log@.push(StorageOp::LoadConfig);
        }
        self.backend.load_config()
    }

    /// Hands the backend a network configuration to store.
    pub fn save_config(&mut self, config: &NetworkConfig) -> (r: Result<(), PersistenceError>)
        ensures
            final(self).log() == old(self).log().push(
                StorageOp::SaveConfig { node_index: config.node_index },
            ),
    {
        proof {
            self.log@ = self.log@.push(StorageOp::SaveConfig { node_index: config.node_index });
        }
        self.backend.save_config(config)
    }

    /// Hands the backend a VID share proposal to store.
    pub fn append_vid(&mut self, proposal: &Proposal) -> (r: Result<(), PersistenceError>)
        ensures
            final(self).log() == old(self).log().push(StorageOp::AppendVid { view: proposal.view }),
    {
        proof {
            self.log@ = self.log@.push(StorageOp::AppendVid { view: proposal.view });
        }
        self.backend.append_vid(proposal)
    }

    /// Hands the backend a DA proposal to store.
    pub fn append_da(&mut self, proposal: &Proposal) -> (r: Result<(), PersistenceError>)
        ensures
            final(self).log() == old(self).log().push(StorageOp::AppendDa { view: proposal.view }),
    {
        proof {
            self.log@ = self.log@.push(StorageOp::AppendDa { view: proposal.view });
        }
        self.backend.append_da(proposal)
    }

    /// Hands the backend what the node did in a view.
    pub fn record_action(&mut self, view: u64, action: HotShotAction) -> (r: Result<
        (),
        PersistenceError,
    >)
        ensures
            final(self).log() == old(self).log().push(StorageOp::RecordAction { view, action }),
    {
        proof {
            self.log@ = self.log@.push(StorageOp::RecordAction { view, action });
        }
        self.backend.record_action(view, action)
    }

    /// Accepts a new high QC. It is not stored: the backend is not called
    /// and stays as it is.
    pub fn update_high_qc(&mut self, high_qc: &Vec<u8>) -> (r: Result<(), PersistenceError>)
        ensures
            r is Ok,
            final(self).backend() == old(self).backend(),
            final(self).log() == old(self).log(),
    {
        Ok(())
    }

    /// Accepts the undecided state. It is not stored: the backend is not
    /// called and stays as it is.
    pub fn update_undecided_state(&mut self, leaves: &Vec<u8>, state: &Vec<u8>) -> (r: Result<
        (),
        PersistenceError,
    >)
        ensures
            r is Ok,
            final(self).backend() == old(self).backend(),
            final(self).log() == old(self).log(),
    {
        Ok(())
    }
}

} // verus!
