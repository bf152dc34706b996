use crate::account::FeeAccount;
use crate::amount::Uint256;
use crate::digest::Digest;
use vstd::prelude::*;

verus! {

/// What is known of one block of the L1 chain.
#[derive(Clone, Copy, Debug)]
pub struct L1BlockInfo {
    pub number: u64,
    pub timestamp: Uint256,
    pub hash: Digest,
}

/// Why the L1 client could not answer.
#[derive(Clone, Copy, Debug)]
pub enum L1Error {
    /// The block was never seen and the L1 chain cannot be asked now.
    Unavailable,
}

/// The L1 references that a header is built from: the number of the latest
/// block and, where one is known, the latest finalized block.
#[derive(Clone, Copy, Debug)]
pub struct L1Snapshot {
    pub head: u64,
    pub finalized: Option<L1BlockInfo>,
}

/// Whether an answer of the L1 provider replaces the block that is held: it
/// does unless its number or its timestamp lies behind.
pub open spec fn supersedes(held: L1BlockInfo, answer: L1BlockInfo) -> bool {
    answer.number >= held.number && answer.timestamp@ >= held.timestamp@
}

/// The block that is held after an answer of the L1 provider.
pub open spec fn adopt(held: L1BlockInfo, answer: L1BlockInfo) -> L1BlockInfo {
    if supersedes(held, answer) {
        answer
    } else {
        held
    }
}

/// The block that is held after the first `n` of a series of answers.
pub open spec fn head_after(start: L1BlockInfo, answers: Seq<L1BlockInfo>, n: nat) -> L1BlockInfo
    decreases n,
{
    if n == 0 {
        start
    } else {
        adopt(head_after(start, answers, (n - 1) as nat), answers[n - 1])
    }
}

/// Whatever the L1 provider answers, and in whatever order, the number and
/// the timestamp of the latest block never go back.
pub proof fn lemma_latest_never_goes_back(
    start: L1BlockInfo,
    answers: Seq<L1BlockInfo>,
    earlier: nat,
    later: nat,
)
    requires
        earlier <= later,
    ensures
        head_after(start, answers, earlier).number <= head_after(start, answers, later).number,
        head_after(start, answers, earlier).timestamp@ <= head_after(
            start,
            answers,
            later,
        ).timestamp@,
    decreases later,
{
    if earlier < later {
        lemma_latest_never_goes_back(start, answers, earlier, (later - 1) as nat);
    }
}

/// The time to wait before the L1 provider is asked again, after `failures`
/// failed attempts in a row: the base delay, doubled for every failure, and
/// never more than the cap.
pub open spec fn backoff_delay(base: u64, cap: u64, failures: nat) -> nat
    decreases failures,
{
    if base >= cap {
        cap as nat
    } else if failures == 0 {
        base as nat
    } else {
        let previous = backoff_delay(base, cap, (failures - 1) as nat);
        if 2 * previous >= cap {
            cap as nat
        } else {
            2 * previous
        }
    }
}

/// The position of the first block with the given number among the blocks
/// from `from` on, or the length of the sequence where there is none.
pub open spec fn position_of(blocks: Seq<L1BlockInfo>, number: u64, from: int) -> int
    decreases blocks.len() - from,
{
    if from >= blocks.len() {
        blocks.len() as int
    } else if blocks[from].number == number {
        from
    } else {
        position_of(blocks, number, from + 1)
    }
}

/// The tracker of the L1 chain. It holds the latest block and the latest
/// finalized block that the provider has reported, and every block it was
/// handed, so that it can go on answering while the provider is away.
#[derive(Clone, Debug)]
pub struct L1Client {
    provider: String,
    contract: FeeAccount,
    head: L1BlockInfo,
    finalized: Option<L1BlockInfo>,
    seen: Vec<L1BlockInfo>,
    synced: bool,
    failures: u32,
    base_delay: u64,
    max_delay: u64,
}

impl L1BlockInfo {
    /// The block with number 0, timestamp 0 and a hash of zeros, which
    /// stands for a chain of which nothing was seen yet.
    pub fn unseen() -> (block: L1BlockInfo)
        ensures
            block.number == 0,
            block.timestamp@ == 0,
            block.hash@ == crate::digest::zero_digest(),
    {
        L1BlockInfo { number: 0, timestamp: Uint256::zero(), hash: Digest::zero() }
    }
}

impl L1Client {
    /// The URL of the provider.
    pub closed spec fn spec_provider(&self) -> Seq<char> {
        self.provider@
    }

    /// The address of the contract that the client watches.
    pub closed spec fn spec_contract(&self) -> FeeAccount {
        self.contract
    }

    /// The latest block that was reported.
    pub closed spec fn head(&self) -> L1BlockInfo {
        self.head
    }

    /// The latest finalized block that was reported, if any was.
    pub closed spec fn spec_finalized(&self) -> Option<L1BlockInfo> {
        self.finalized
    }

    /// The blocks that the client was handed, in the order in which they came.
    pub closed spec fn seen(&self) -> Seq<L1BlockInfo> {
        self.seen@
    }

    /// Whether the provider has ever answered the question for the latest
    /// block.
    pub closed spec fn spec_synced(&self) -> bool {
        self.synced
    }

    /// The number of failed attempts since the provider last answered.
    pub closed spec fn spec_failures(&self) -> nat {
        self.failures as nat
    }

    /// The delay after a successful attempt.
    pub closed spec fn spec_base_delay(&self) -> u64 {
        self.base_delay
    }

    /// The longest delay between two attempts.
    pub closed spec fn spec_max_delay(&self) -> u64 {
        self.max_delay
    }

    /// A client for the given provider that has seen nothing yet. It asks
    /// once a second and, after failures, at most once a minute.
    pub fn new(provider: String, contract: FeeAccount) -> (client: L1Client)
        ensures
            client.spec_provider() == provider@,
            client.spec_contract() == contract,
            client.head().number == 0,
            client.head().timestamp@ == 0,
            client.spec_finalized() is None,
            client.seen().len() == 0,
            !client.spec_synced(),
            client.spec_failures() == 0,
            client.spec_base_delay() == 1000,
            client.spec_max_delay() == 60000,
    {
        L1Client {
            provider,
            contract,
            head: L1BlockInfo::unseen(),
            finalized: None,
            seen: Vec::new(),
            synced: false,
            failures: 0,
            base_delay: 1000,
            max_delay: 60000,
        }
    }

    /// The URL of the provider.
    pub fn provider(&self) -> (url: &String)
        ensures
            url@ == self.spec_provider(),
    {
        &self.provider
    }

    /// The latest block that the provider has reported; before the first
    /// report, the block with number 0.
    pub fn latest_block(&self) -> (block: L1BlockInfo)
        ensures
            block == self.head(),
    {
        self.head
    }

    /// The latest finalized block that the provider has reported.
    pub fn finalized_block(&self) -> (block: Option<L1BlockInfo>)
        ensures
            block == self.spec_finalized(),
    {
        self.finalized
    }

    /// Whether the provider has ever answered the question for the latest
    /// block, so that the client has an L1 reference to give.
    pub fn is_synced(&self) -> (synced: bool)
        ensures
            synced == self.spec_synced(),
    {
        self.synced
    }

    /// The L1 references for a header.
    pub fn snapshot(&self) -> (snapshot: L1Snapshot)
        ensures
            snapshot.head == self.head().number,
            snapshot.finalized == self.spec_finalized(),
    {
        L1Snapshot { head: self.head.number, finalized: self.finalized }
    }

    /// The block with the given number: the first one with that number that
    /// the client was handed. Where it was handed none, the block is
    /// unavailable.
    pub fn block_at(&self, number: u64) -> (r: Result<L1BlockInfo, L1Error>)
        ensures
            match r {
                Ok(block) => position_of(self.seen(), number, 0) < self.seen().len() && block
                    == self.seen()[position_of(self.seen(), number, 0)] && block.number == number,
                Err(e) => position_of(self.seen(), number, 0) == self.seen().len() && e
                    == L1Error::Unavailable,
            },
    {
        let mut i: usize = 0;
        while i < self.seen.len()
            invariant
                i <= self.seen.len(),
                position_of(self.seen@, number, 0) == position_of(self.seen@, number, i as int),
            decreases self.seen.len() - i,
        {
            if self.seen[i].number == number {
                return Ok(self.seen[i]);
            }
            i += 1;
        }
        Err(L1Error::Unavailable)
    }

    /// Takes in an answer of the provider to the question for the latest
    /// block. The answer is kept for `block_at`. It becomes the latest block
    /// unless its number or its timestamp lies behind the block that is held:
    /// such an answer is stale and is not adopted. The failures are forgotten.
    pub fn observe_latest(&mut self, answer: L1BlockInfo) -> (adopted: bool)
        ensures
            adopted == supersedes(old(self).head(), answer),
            final(self).head() == adopt(old(self).head(), answer),
            final(self).head().number >= old(self).head().number,
            final(self).head().timestamp@ >= old(self).head().timestamp@,
            final(self).seen() == old(self).seen().push(answer),
            final(self).spec_synced(),
            final(self).spec_failures() == 0,
            final(self).spec_finalized() == old(self).spec_finalized(),
            final(self).spec_provider() == old(self).spec_provider(),
            final(self).spec_contract() == old(self).spec_contract(),
            final(self).spec_base_delay() == old(self).spec_base_delay(),
            final(self).spec_max_delay() == old(self).spec_max_delay(),
    {
        let adopted = answer.number >= self.head.number && self.head.timestamp.le(
            &answer.timestamp,
        );
        if adopted {
            self.head = answer;
        }
        self.seen.push(answer);
        self.synced = true;
        self.failures = 0;
        adopted
    }

    /// Takes in an answer of the provider to the question for the latest
    /// finalized block. It is kept for `block_at`, and becomes the latest
    /// finalized block unless one is held that it lies behind.
    pub fn observe_finalized(&mut self, answer: L1BlockInfo) -> (adopted: bool)
        ensures
            adopted == (old(self).spec_finalized() is None || supersedes(
                old(self).spec_finalized()->0,
                answer,
            )),
            final(self).spec_finalized() == Some(
                if adopted {
                    answer
                } else {
                    old(self).spec_finalized()->0
                },
            ),
            final(self).head() == old(self).head(),
            final(self).seen() == old(self).seen().push(answer),
            final(self).spec_synced() == old(self).spec_synced(),
            final(self).spec_failures() == 0,
            final(self).spec_provider() == old(self).spec_provider(),
            final(self).spec_contract() == old(self).spec_contract(),
            final(self).spec_base_delay() == old(self).spec_base_delay(),
            final(self).spec_max_delay() == old(self).spec_max_delay(),
    {
        let adopted = match &self.finalized {
            None => true,
            Some(held) => answer.number >= held.number && held.timestamp.le(&answer.timestamp),
        };
        if adopted {
            self.finalized = Some(answer);
        }
        self.seen.push(answer);
        self.failures = 0;
        adopted
    }

    /// Takes in a block that the provider returned for a given number, so
    /// that `block_at` can answer for it later.
    pub fn record_block(&mut self, block: L1BlockInfo)
        ensures
            final(self).seen() == old(self).seen().push(block),
            final(self).spec_synced() == old(self).spec_synced(),
            final(self).head() == old(self).head(),
            final(self).spec_finalized() == old(self).spec_finalized(),
            final(self).spec_failures() == old(self).spec_failures(),
            final(self).spec_provider() == old(self).spec_provider(),
            final(self).spec_contract() == old(self).spec_contract(),
            final(self).spec_base_delay() == old(self).spec_base_delay(),
            final(self).spec_max_delay() == old(self).spec_max_delay(),
    {
        self.seen.push(block);
    }

    /// Takes in what one round of questions to the provider has brought: the
    /// latest block and the latest finalized block, each `None` where the
    /// provider did not answer. An answer is taken in as by `observe_latest`
    /// and `observe_finalized`; a round without the latest block counts as a
    /// failure. Returns the time in milliseconds to wait before the next
    /// round.
    pub fn poll_result(
        &mut self,
        latest: Option<L1BlockInfo>,
        finalized: Option<L1BlockInfo>,
    ) -> (delay: u64)
        ensures
            final(self).head() == match latest {
                Some(answer) => adopt(old(self).head(), answer),
                None => old(self).head(),
            },
            final(self).head().number >= old(self).head().number,
            final(self).spec_finalized() == match finalized {
                Some(answer) => Some(
                    if old(self).spec_finalized() is None || supersedes(
                        old(self).spec_finalized()->0,
                        answer,
                    ) {
                        answer
                    } else {
                        old(self).spec_finalized()->0
                    },
                ),
                None => old(self).spec_finalized(),
            },
            final(self).spec_synced() == (old(self).spec_synced() || latest is Some),
            final(self).spec_failures() == if latest is Some || finalized is Some {
                0
            } else if old(self).spec_failures() < u32::MAX {
                old(self).spec_failures() + 1
            } else {
                old(self).spec_failures()
            },
            delay == backoff_delay(
                final(self).spec_base_delay(),
                final(self).spec_max_delay(),
                final(self).spec_failures(),
            ),
            delay <= final(self).spec_max_delay(),
            final(self).spec_provider() == old(self).spec_provider(),
            final(self).spec_contract() == old(self).spec_contract(),
            final(self).spec_base_delay() == old(self).spec_base_delay(),
            final(self).spec_max_delay() == old(self).spec_max_delay(),
    {
        match latest {
            Some(answer) => {
                self.observe_latest(answer);
            },
            None => {
                self.record_failure();
            },
        }
        if let Some(answer) = finalized {
            self.observe_finalized(answer);
        }
        self.retry_delay()
    }

    /// Takes in what the provider returned for the question for the block
    /// with the given number. A block with that number is kept and handed on.
    /// Anything else means that the block is unavailable, and nothing changes.
    pub fn accept_block(&mut self, number: u64, answer: Option<L1BlockInfo>) -> (r: Result<
        L1BlockInfo,
        L1Error,
    >)
        ensures
            r is Ok <==> answer is Some && answer->0.number == number,
            r is Ok ==> r->Ok_0 == answer->0 && final(self).seen() == old(self).seen().push(
                answer->0,
            ),
            r is Err ==> r->Err_0 == L1Error::Unavailable && final(self).seen() == old(self).seen(),
            final(self).head() == old(self).head(),
            final(self).spec_finalized() == old(self).spec_finalized(),
            final(self).spec_synced() == old(self).spec_synced(),
            final(self).spec_failures() == old(self).spec_failures(),
            final(self).spec_provider() == old(self).spec_provider(),
            final(self).spec_contract() == old(self).spec_contract(),
            final(self).spec_base_delay() == old(self).spec_base_delay(),
            final(self).spec_max_delay() == old(self).spec_max_delay(),
    {
        match answer {
            Some(block) => {
                if block.number == number {
                    self.record_block(block);
                    Ok(block)
                } else {
                    Err(L1Error::Unavailable)
                }
            },
            None => Err(L1Error::Unavailable),
        }
    }

    /// Takes in that an attempt to reach the provider failed. What is held
    /// stays as it is, so the client goes on serving it.
    pub fn record_failure(&mut self)
        ensures
            final(self).spec_failures() == if old(self).spec_failures() < u32::MAX {
                old(self).spec_failures() + 1
            } else {
                old(self).spec_failures()
            },
            final(self).head() == old(self).head(),
            final(self).spec_finalized() == old(self).spec_finalized(),
            final(self).seen() == old(self).seen(),
            final(self).spec_synced() == old(self).spec_synced(),
            final(self).spec_provider() == old(self).spec_provider(),
            final(self).spec_contract() == old(self).spec_contract(),
            final(self).spec_base_delay() == old(self).spec_base_delay(),
            final(self).spec_max_delay() == old(self).spec_max_delay(),
    {
        if self.failures < u32::MAX {
            self.failures = self.failures + 1;
        }
    }

    /// The time in milliseconds to wait before the provider is asked again.
    pub fn retry_delay(&self) -> (delay: u64)
        ensures
            delay == backoff_delay(
                self.spec_base_delay(),
                self.spec_max_delay(),
                self.spec_failures(),
            ),
            delay <= self.spec_max_delay(),
    {
        if self.base_delay >= self.max_delay {
            return self.max_delay;
        }
        let mut delay: u64 = self.base_delay;
        let mut n: u32 = 0;
        while n < self.failures
            invariant
                n <= self.failures,
                self.base_delay < self.max_delay,
                delay == backoff_delay(self.base_delay, self.max_delay, n as nat),
                delay <= self.max_delay,
            decreases self.failures - n,
        {
            if delay >= self.max_delay - delay {
                delay = self.max_delay;
            } else {
                delay = 2 * delay;
            }
            n += 1;
        }
        delay
    }
}

} // verus!
