use crate::account::FeeAccount;
use crate::digest::Digest;
use crate::error::Error;
use crate::merkle::{FeeMerkleTree, StateFragment};
use vstd::prelude::*;

verus! {

/// What is asked of a source of state: the balance of one account in the
/// ledger with the given commitment.
#[derive(Clone, Copy, Debug)]
pub struct FetchRequest {
    pub account: FeeAccount,
    pub root: Digest,
}

/// A ledger that a node has kept, with the height it belongs to.
#[derive(Clone, Debug)]
pub struct RetainedState {
    pub height: u64,
    pub ledger: FeeMerkleTree,
}

/// The ledgers that a node has kept.
#[derive(Clone, Debug)]
pub struct StateHistory {
    entries: Vec<RetainedState>,
}

/// Whether a fragment answers a request: it is well formed, speaks of the
/// account that was asked for, and its recomputed commitment is the one that
/// was asked for.
pub open spec fn acceptable(request: FetchRequest, fragment: StateFragment) -> bool {
    &&& fragment.account@ == request.account@
    &&& fragment.wf()
    &&& fragment.root() == request.root@
}

/// Whether a kept ledger can answer a request for the given height.
pub open spec fn answers(entry: RetainedState, height: u64, request: FetchRequest) -> bool {
    &&& entry.height == height
    &&& entry.ledger.commitment() == request.root@
    &&& entry.ledger.balance_of(request.account@) is Some
}

/// The position of the first kept ledger from `from` on that can answer a
/// request, or the number of kept ledgers where none can.
pub open spec fn first_answer(
    entries: Seq<RetainedState>,
    height: u64,
    request: FetchRequest,
    from: int,
) -> int
    decreases entries.len() - from,
{
    if from >= entries.len() {
        entries.len() as int
    } else if answers(entries[from], height, request) {
        from
    } else {
        first_answer(entries, height, request, from + 1)
    }
}

/// The balance that the kept ledgers give for a request: that of the first
/// kept ledger that can answer it.
pub open spec fn history_answer(
    entries: Seq<RetainedState>,
    height: u64,
    request: FetchRequest,
) -> Option<nat> {
    let at = first_answer(entries, height, request, 0);
    if 0 <= at < entries.len() {
        entries[at].ledger.balance_of(request.account@)
    } else {
        None
    }
}

/// The kept ledgers that stay when those below a height are dropped, in
/// their order.
pub open spec fn kept_from(entries: Seq<RetainedState>, height: u64) -> Seq<RetainedState>
    decreases entries.len(),
{
    if entries.len() == 0 {
        Seq::empty()
    } else if entries.last().height >= height {
        kept_from(entries.drop_last(), height).push(entries.last())
    } else {
        kept_from(entries.drop_last(), height)
    }
}

/// Whether every kept ledger is well formed.
pub open spec fn history_wf(entries: Seq<RetainedState>) -> bool {
    forall|i: int| 0 <= i < entries.len() ==> (#[trigger] entries[i]).ledger.wf()
}

impl StateHistory {
    /// The kept ledgers, in the order in which they were kept.
    pub closed spec fn entries(&self) -> Seq<RetainedState> {
        self.entries@
    }

    /// Whether every kept ledger is well formed.
    pub open spec fn wf(&self) -> bool {
        history_wf(self.entries())
    }

    /// A history without ledgers.
    pub fn new() -> (history: StateHistory)
        ensures
            history.wf(),
            history.entries().len() == 0,
    {
        StateHistory { entries: Vec::new() }
    }

    /// Keeps a copy of a ledger for a height.
    pub fn retain(&mut self, height: u64, ledger: &FeeMerkleTree)
        requires
            old(self).wf(),
            ledger.wf(),
        ensures
            final(self).wf(),
            final(self).entries().len() == old(self).entries().len() + 1,
            final(self).entries().subrange(0, old(self).entries().len() as int) == old(
                self,
            ).entries(),
            final(self).entries().last().height == height,
            final(self).entries().last().ledger.node() == ledger.node(),
    {
        let ghost before = self.entries@;
        self.entries.push(RetainedState { height, ledger: ledger.clone() });
        assert(self.entries@.subrange(0, before.len() as int) =~= before);
        assert forall|i: int| 0 <= i < self.entries@.len() implies (
        #[trigger] self.entries@[i]).ledger.wf() by {
            if i < before.len() {
                assert(self.entries@[i] == before[i]);
            }
        }
    }

    /// The number of kept ledgers.
    pub fn len(&self) -> (n: usize)
        ensures
            n == self.entries().len(),
    {
        self.entries.len()
    }

    /// Drops the ledgers that were kept for a height below the given one.
    pub fn prune(&mut self, height: u64)
        requires
            old(self).wf(),
        ensures
            final(self).wf(),
            final(self).entries() == kept_from(old(self).entries(), height),
    {
        let mut rest: Vec<RetainedState> = Vec::new();
        std::mem::swap(&mut self.entries, &mut rest);
        let ghost all = rest@;
        let ghost mut done: int = 0;
        assert(all.subrange(0, 0) =~= Seq::<RetainedState>::empty());
        while rest.len() > 0
            invariant
                0 <= done <= all.len(),
                history_wf(all),
                rest@ == all.subrange(done, all.len() as int),
                self.entries@ == kept_from(all.subrange(0, done), height),
                history_wf(self.entries@),
            decreases rest.len(),
        {
            let entry = rest.remove(0);
            proof {
                assert(entry == all[done]);
                assert(entry.ledger.wf());
                assert(all.subrange(0, done + 1).drop_last() =~= all.subrange(0, done));
                assert(all.subrange(0, done + 1).last() == all[done]);
                assert(rest@ =~= all.subrange(done + 1, all.len() as int));
            }
            if entry.height >= height {
                let ghost before = self.entries@;
                self.entries.push(entry);
                assert forall|i: int| 0 <= i < self.entries@.len() implies (
                #[trigger] self.entries@[i]).ledger.wf() by {
                    if i < before.len() {
                        assert(self.entries@[i] == before[i]);
                    }
                }
            }
            proof {
                done = done + 1;
            }
        }
        assert(all.subrange(0, all.len() as int) =~= all);
    }

    /// Answers a request from the kept ledgers: with a fragment cut from the
    /// first kept ledger of that height and commitment that holds the
    /// account, or with `None` where there is no such ledger.
    pub fn fetch(&self, height: u64, request: &FetchRequest) -> (r: Option<StateFragment>)
        requires
            self.wf(),
        ensures
            r is Some <==> history_answer(self.entries(), height, *request) is Some,
            r is Some ==> acceptable(*request, r->0) && Some(r->0.value()) == history_answer(
                self.entries(),
                height,
                *request,
            ),
    {
        let mut i: usize = 0;
        while i < self.entries.len()
            invariant
                i <= self.entries.len(),
                self.wf(),
                first_answer(self.entries@, height, *request, 0) == first_answer(
                    self.entries@,
                    height,
                    *request,
                    i as int,
                ),
            decreases self.entries.len() - i,
        {
            let entry = &self.entries[i];
            assert(entry.ledger.wf());
            if entry.height == height && entry.ledger.commit().same(&request.root) {
                if let Some(fragment) = entry.ledger.prove(&request.account) {
                    return Some(fragment);
                }
            }
            i += 1;
        }
        None
    }
}

/// What a catchup asks the node to do next.
#[derive(Clone, Copy, Debug)]
pub enum CatchupAction {
    /// Ask the peer at this position of the list, for the given time.
    QueryPeer { peer: usize, attempt: u32 },
    /// Nothing: the catchup has ended.
    Finished,
}

/// One catchup: the fetch of one account's balance, from the node's own
/// history first and then from its peers, one after the other, each asked up
/// to a fixed number of times.
#[derive(Debug)]
pub struct CatchupSession {
    request: FetchRequest,
    peers: usize,
    attempts: u32,
    peer: usize,
    attempt: u32,
    outcome: Option<Result<StateFragment, Error>>,
}

impl CatchupSession {
    /// What was asked for.
    pub closed spec fn request(&self) -> FetchRequest {
        self.request
    }

    /// How the catchup has ended, or `None` while it goes on.
    pub closed spec fn outcome(&self) -> Option<Result<StateFragment, Error>> {
        self.outcome
    }

    /// The number of peers that may be asked.
    pub closed spec fn peers(&self) -> nat {
        self.peers as nat
    }

    /// The number of times that each peer may be asked.
    pub closed spec fn attempts(&self) -> nat {
        self.attempts as nat
    }

    /// The peer that is asked next.
    pub closed spec fn peer(&self) -> nat {
        self.peer as nat
    }

    /// How often the peer that is asked next was asked already.
    pub closed spec fn attempt(&self) -> nat {
        self.attempt as nat
    }

    /// The number of questions to peers that came to nothing.
    pub open spec fn failed(&self) -> nat {
        self.peer() * self.attempts() + self.attempt()
    }

    /// Whether the session is well formed: while it goes on, the peer to ask
    /// is one of the list and may still be asked; once it has ended with a
    /// fragment, the fragment answers the request; and it never ends with
    /// another error than that of missing state.
    pub open spec fn wf(&self) -> bool {
        &&& self.peer() <= self.peers()
        &&& self.outcome() is None ==> self.peer() < self.peers() && self.attempt()
            < self.attempts()
        &&& self.outcome() is Some ==> match self.outcome()->0 {
            Ok(fragment) => acceptable(self.request(), fragment),
            Err(e) => e is MerkleTreeError,
        }
    }

    /// The number of questions that the session may still ask.
    pub open spec fn remaining(&self) -> nat {
        if self.outcome() is Some {
            0
        } else {
            ((self.peers() - self.peer()) * self.attempts() - self.attempt()) as nat
        }
    }

    /// A session that has ended with the given outcome without asking a
    /// peer.
    fn ended(request: FetchRequest, outcome: Result<StateFragment, Error>) -> (session:
        CatchupSession)
        requires
            match outcome {
                Ok(fragment) => acceptable(request, fragment),
                Err(e) => e is MerkleTreeError,
            },
        ensures
            session.wf(),
            session.request() == request,
            session.outcome() == Some(outcome),
            session.failed() == 0,
    {
        let session = CatchupSession {
            request,
            peers: 0,
            attempts: 0,
            peer: 0,
            attempt: 0,
            outcome: Some(outcome),
        };
        assert(session.peer() * session.attempts() == 0) by (nonlinear_arith)
            requires
                session.peer() == 0,
        ;
        session
    }

    /// What the node is to do next.
    pub fn action(&self) -> (action: CatchupAction)
        ensures
            action == match self.outcome() {
                Some(_) => CatchupAction::Finished,
                None => CatchupAction::QueryPeer {
                    peer: self.peer() as usize,
                    attempt: self.attempt() as u32,
                },
            },
    {
        match &self.outcome {
            Some(_) => CatchupAction::Finished,
            None => CatchupAction::QueryPeer { peer: self.peer, attempt: self.attempt },
        }
    }

    /// Whether the catchup has ended.
    pub fn is_finished(&self) -> (b: bool)
        ensures
            b == self.outcome() is Some,
    {
        self.outcome.is_some()
    }

    /// Takes in what came of the question that the session asked for: the
    /// peer's answer, or `None` where the peer did not answer in time. An
    /// answer that the request accepts ends the catchup. After any other the
    /// same peer is asked again, until it was asked as often as it may be;
    /// then the next peer is asked; after the last peer the catchup ends
    /// without a fragment. A session that has ended stays as it is.
    pub fn respond(self, response: Option<StateFragment>) -> (next: CatchupSession)
        requires
            self.wf(),
        ensures
            next.wf(),
            next.request() == self.request(),
            next.peers() == self.peers(),
            next.attempts() == self.attempts(),
            self.outcome() is Some ==> next.outcome() == self.outcome() && next.failed()
                == self.failed(),
            self.outcome() is None ==> {
                &&& next.remaining() < self.remaining()
                &&& if response is Some && acceptable(self.request(), response->0) {
                    next.outcome() == Some(Ok::<StateFragment, Error>(response->0))
                        && next.failed() == self.failed()
                } else {
                    &&& next.failed() == self.failed() + 1
                    &&& if self.attempt() + 1 < self.attempts() {
                        next.outcome() is None && next.peer() == self.peer() && next.attempt()
                            == self.attempt() + 1
                    } else if self.peer() + 1 < self.peers() {
                        next.outcome() is None && next.peer() == self.peer() + 1 && next.attempt()
                            == 0
                    } else {
                        next.outcome() is Some && next.outcome()->0 is Err
                    }
                }
            },
    {
        if self.outcome.is_some() {
            return self;
        }
        proof {
            lemma_progress(
                self.peers as int,
                self.attempts as int,
                self.peer as int,
                self.attempt as int,
            );
        }
        let accepted = accept(&self.request, response);
        match accepted {
            Some(fragment) => {
                let next = CatchupSession {
                    request: self.request,
                    peers: self.peers,
                    attempts: self.attempts,
                    peer: self.peer,
                    attempt: self.attempt,
                    outcome: Some(Ok(fragment)),
                };
                next
            },
            None => {
                let ghost before = self.failed();
                let next = if self.attempt + 1 < self.attempts {
                    CatchupSession {
                        request: self.request,
                        peers: self.peers,
                        attempts: self.attempts,
                        peer: self.peer,
                        attempt: self.attempt + 1,
                        outcome: None,
                    }
                } else {
                    let ended = self.peer + 1 >= self.peers;
                    CatchupSession {
                        request: self.request,
                        peers: self.peers,
                        attempts: self.attempts,
                        peer: self.peer + 1,
                        attempt: 0,
                        outcome: if ended {
                            Some(Err(Error::missing_state()))
                        } else {
                            None
                        },
                    }
                };
                assert(next.failed() == before + 1) by (nonlinear_arith)
                    requires
                        before == self.peer() * self.attempts() + self.attempt(),
                        next.failed() == next.peer() * self.attempts() + next.attempt(),
                        self.attempt() < self.attempts(),
                        (next.peer() == self.peer() && next.attempt() == self.attempt() + 1) || (
                        next.peer() == self.peer() + 1 && next.attempt() == 0 && self.attempt() + 1
                            == self.attempts()),
                ;
                next
            },
        }
    }

    /// How the catchup has ended: with the fragment, or with the error of
    /// missing state where no source had an answer that the request accepts.
    /// A catchup that still goes on is given up.
    pub fn into_outcome(self) -> (r: Result<StateFragment, Error>)
        requires
            self.wf(),
        ensures
            self.outcome() is Some ==> r == self.outcome()->0,
            self.outcome() is None ==> r is Err,
            r is Ok ==> acceptable(self.request(), r->Ok_0),
            r is Err ==> r->Err_0 is MerkleTreeError,
    {
        match self.outcome {
            Some(outcome) => outcome,
            None => Err(Error::missing_state()),
        }
    }
}

/// The arithmetic of a session's progress: a question that is asked leaves
/// fewer questions to ask, and the questions asked so far are counted by the
/// position of the peer and of the attempt.
proof fn lemma_progress(peers: int, attempts: int, peer: int, attempt: int)
    by (nonlinear_arith)
    requires
        0 <= peer < peers,
        0 <= attempt < attempts,
    ensures
        (peers - peer) * attempts - attempt > 0,
        (peers - peer) * attempts - (attempt + 1) >= 0,
        peer + 1 < peers ==> (peers - (peer + 1)) * attempts - 0 < (peers - peer) * attempts
            - attempt,
        peer + 1 < peers ==> (peers - (peer + 1)) * attempts >= 0,
        attempt + 1 >= attempts ==> (peer + 1) * attempts + 0 == peer * attempts + attempt + 1,
        peer * attempts + attempt + 1 <= peers * attempts,
{
}

/// Checks a peer's answer against the request. The answer is handed on where
/// the request accepts it, and dropped where it does not or where there is
/// none.
pub fn accept(request: &FetchRequest, response: Option<StateFragment>) -> (r: Option<StateFragment>)
    ensures
        r == if response is Some && acceptable(*request, response->0) {
            response
        } else {
            None
        },
{
    match response {
        Some(fragment) => {
            if fragment.account.same(&request.account) && fragment.verifies_against(&request.root) {
                Some(fragment)
            } else {
                None
            }
        },
        None => None,
    }
}

/// Where a node gets the state that it does not hold.
#[derive(Clone, Debug)]
pub enum StateCatchup {
    /// Nowhere: every fetch fails.
    NoOp,
    /// From a fixed set of ledgers, for tests.
    Mock(StateHistory),
    /// From the ledgers that the node has kept and, where they have no
    /// answer, from the peers with the given addresses, in their order, each
    /// asked up to `attempts` times.
    LocalAndRemote { local: StateHistory, peers: Vec<String>, attempts: u32 },
}

/// The way to the peers of a node. One call asks one peer once and comes
/// back with the peer's answer, or with `None` where the peer did not answer
/// in time. Nothing is taken for granted of what comes back.
pub trait PeerTransport {
    fn query(&mut self, peer: &String, height: u64, request: &FetchRequest) -> Option<
        StateFragment,
    >;
}

/// The way to the peers of a node that has none: no question is answered.
#[derive(Clone, Copy, Debug, Default)]
pub struct Offline;

impl PeerTransport for Offline {
    fn query(&mut self, peer: &String, height: u64, request: &FetchRequest) -> (r: Option<
        StateFragment,
    >)
        ensures
            r is None,
    {
        None
    }
}

impl StateCatchup {
    /// Whether the ledgers that the catchup holds are well formed.
    pub open spec fn wf(&self) -> bool {
        match self {
            StateCatchup::NoOp => true,
            StateCatchup::Mock(history) => history.wf(),
            StateCatchup::LocalAndRemote { local, peers, attempts } => local.wf(),
        }
    }

    /// The balance that the catchup can give for a request without asking a
    /// peer.
    pub open spec fn own_answer(&self, height: u64, request: FetchRequest) -> Option<nat> {
        match self {
            StateCatchup::NoOp => None,
            StateCatchup::Mock(history) => history_answer(history.entries(), height, request),
            StateCatchup::LocalAndRemote { local, peers, attempts } => history_answer(
                local.entries(),
                height,
                request,
            ),
        }
    }

    /// The number of peers that the catchup may ask.
    pub open spec fn peer_count(&self) -> nat {
        match self {
            StateCatchup::LocalAndRemote { local, peers, attempts } => peers@.len(),
            _ => 0,
        }
    }

    /// The number of questions that the catchup may ask its peers for one
    /// request.
    pub open spec fn budget(&self) -> nat {
        match self {
            StateCatchup::LocalAndRemote { local, peers, attempts } => peers@.len() * (
            *attempts as nat),
            _ => 0,
        }
    }

    /// The catchup that combines the ledgers that a node has kept with its
    /// peers, each of which is asked up to three times.
    pub fn local_and_remote(local: StateHistory, peers: Vec<String>) -> (catchup: StateCatchup)
        ensures
            catchup == (StateCatchup::LocalAndRemote { local, peers, attempts: 3 }),
    {
        StateCatchup::LocalAndRemote { local, peers, attempts: 3 }
    }

    /// Starts the catchup for a request. Where the catchup has an answer of
    /// its own the session has ended with it, and no peer is asked. Where it
    /// has none and there is a peer to ask, the session asks the first peer.
    /// In any other case the session has ended without a fragment.
    pub fn begin(&self, height: u64, request: &FetchRequest) -> (session: CatchupSession)
        requires
            self.wf(),
        ensures
            session.wf(),
            session.request() == *request,
            session.failed() == 0,
            session.remaining() <= self.budget(),
            match self.own_answer(height, *request) {
                Some(balance) => session.outcome() is Some && session.outcome()->0 is Ok
                    && session.outcome()->0->Ok_0.value() == balance,
                None => if self.budget() > 0 {
                    session.outcome() is None && session.peer() == 0 && session.attempt() == 0
                        && session.remaining() == self.budget()
                } else {
                    session.outcome() is Some && session.outcome()->0 is Err
                },
            },
            session.outcome() is None ==> session.peers() == self.peer_count(),
    {
        match self {
            StateCatchup::NoOp => CatchupSession::ended(*request, Err(Error::missing_state())),
            StateCatchup::Mock(history) => match history.fetch(height, request) {
                Some(fragment) => CatchupSession::ended(*request, Ok(fragment)),
                None => CatchupSession::ended(*request, Err(Error::missing_state())),
            },
            StateCatchup::LocalAndRemote { local, peers, attempts } => {
                match local.fetch(height, request) {
                    Some(fragment) => CatchupSession::ended(*request, Ok(fragment)),
                    None => {
                        if peers.len() == 0 || *attempts == 0 {
                            assert(self.budget() == 0) by (nonlinear_arith)
                                requires
                                    self.budget() == peers@.len() * (*attempts as nat),
                                    peers@.len() == 0 || *attempts == 0,
                            ;
                            CatchupSession::ended(*request, Err(Error::missing_state()))
                        } else {
                            let session = CatchupSession {
                                request: *request,
                                peers: peers.len(),
                                attempts: *attempts,
                                peer: 0,
                                attempt: 0,
                                outcome: None,
                            };
                            assert(session.failed() == 0 && session.remaining() == self.budget()
                                && self.budget() > 0) by (nonlinear_arith)
                                requires
                                    session.failed() == session.peer() * session.attempts()
                                        + session.attempt(),
                                    session.remaining() == ((session.peers() - session.peer())
                                        * session.attempts() - session.attempt()) as nat,
                                    self.budget() == peers@.len() * (*attempts as nat),
                                    session.peer() == 0,
                                    session.attempt() == 0,
                                    session.peers() == peers@.len(),
                                    session.attempts() == *attempts as nat,
                                    peers@.len() > 0,
                                    *attempts > 0,
                            ;
                            session
                        }
                    },
                }
            },
        }
    }

    /// Fetches the balance of one account. The catchup's own ledgers are
    /// asked first: where they have an answer it is returned and no peer is
    /// asked. Else the peers are asked in their order, each up to the given
    /// number of times, and the first answer that the request accepts is
    /// returned. An answer that the request does not accept is never
    /// returned. Where no source has an answer the fetch fails.
    pub fn fetch<T: PeerTransport>(
        &self,
        transport: &mut T,
        height: u64,
        request: &FetchRequest,
    ) -> (r: Result<StateFragment, Error>)
        requires
            self.wf(),
        ensures
            r is Ok ==> acceptable(*request, r->Ok_0),
            r is Err ==> r->Err_0 is MerkleTreeError,
            self.own_answer(height, *request) is Some ==> r is Ok && Some(r->Ok_0.value())
                == self.own_answer(height, *request) && *final(transport) == *old(transport),
            self.own_answer(height, *request) is None && self.budget() == 0 ==> r is Err
                && *final(transport) == *old(transport),
    {
        let mut session = self.begin(height, request);
        let ghost started = session;
        loop
            invariant
                self.wf(),
                session.wf(),
                session.request() == *request,
                started.outcome() is Some ==> session == started && *transport == *old(transport),
                match self.own_answer(height, *request) {
                    Some(balance) => started.outcome() is Some && started.outcome()->0 is Ok
                        && started.outcome()->0->Ok_0.value() == balance,
                    None => self.budget() == 0 ==> started.outcome() is Some
                        && started.outcome()->0 is Err,
                },
                session.outcome() is None ==> session.peers() == self.peer_count(),
            decreases session.remaining(),
        {
            match session.action() {
                CatchupAction::Finished => {
                    return session.into_outcome();
                },
                CatchupAction::QueryPeer { peer, attempt } => {
                    let response = match self {
                        StateCatchup::LocalAndRemote { local, peers, attempts } => transport.query(
                            &peers[peer],
                            height,
                            request,
                        ),
                        _ => None,
                    };
                    session = session.respond(response);
                },
            }
        }
    }
}

} // verus!
