//! The fetcher: which blocks are fetched, in which order, and what becomes of them.
//!
//! The fetcher walks block numbers forward. It fetches each block that somebody wants and queues it
//! for the prover worker, then waits for the chain to grow. The machine here makes the decisions.
//! Its caller carries out each action and reports the event that came of it.

use vstd::prelude::*;
use crate::worker::WorkItem;

verus! {

/// How many blocks can wait in the queue between the fetcher and the prover worker. When the queue
/// is full, the fetcher waits before it goes on.
pub const PROVER_QUEUE_CAPACITY: usize = 4;

/// How often the head of the chain is asked for to find the first block.
pub const FIRST_HEAD_RETRIES: u32 = 3;

/// How often the head of the chain is asked for in each round.
pub const HEAD_RETRIES: u32 = 6;

/// How long the fetcher rests when the head of the chain cannot be had.
pub const HEAD_FAILURE_PAUSE_MILLIS: u64 = 30000;

/// How long the fetcher waits at most for a new head to be pushed.
pub const PUSH_TIMEOUT_MILLIS: u64 = 2000;

/// How long the fetcher waits before it asks again where heads are not pushed.
pub const POLL_INTERVAL_MILLIS: u64 = 300;

/// Which blocks are wanted, and for what.
#[derive(Clone, Copy, Debug, PartialEq, Eq, Structural)]
pub struct FetchRules {
    pub start_block: Option<u64>,
    pub end_block: Option<u64>,
    pub prove_every: Option<u64>,
    pub execute_every: Option<u64>,
    pub save_all_responses: bool,
    /// Whether there is a proof collector.
    pub has_client: bool,
    /// The proof collector is told of every n-th block only. Without an interval it is told of each
    /// block that is proved, and with the interval zero of none.
    pub post_every: Option<u64>,
}

/// What the fetcher waits for.
#[derive(Clone, Copy, Debug, PartialEq, Eq, Structural)]
pub enum FetchPhase {
    /// The head of the chain, to find the first block.
    Starting,
    /// The head of the chain, to find the last block of a round that begins at `next`.
    Asking { next: u64 },
    /// The end of a rest after the head could not be had.
    Pausing { next: u64 },
    /// A block of the round that ends at `latest`.
    Fetching { block: u64, latest: u64 },
    /// Room in the queue for a block of the round that ends at `latest`.
    Queueing { block: u64, latest: u64 },
    /// A new head, or the time to ask for one. The round that follows begins at `next`.
    Waiting { next: u64 },
    /// Nothing.
    Stopped,
}

/// A fetcher at work.
#[derive(Clone, Copy, Debug, PartialEq, Eq, Structural)]
pub struct Fetcher {
    pub phase: FetchPhase,
    /// Whether new heads are pushed.
    pub subscribed: bool,
}

/// What happened outside of the machine.
#[derive(Debug)]
pub enum FetchEvent {
    /// The head of the chain, or nothing after all retries.
    Head(Option<u64>),
    /// The rest is over.
    Paused,
    /// Where the input of the block was written, or nothing if it could not be fetched.
    Fetched(Option<String>),
    /// Whether the queue took the item; it does not once the worker is gone.
    Queued(bool),
    /// A new head was pushed or the time is over; `closed` if no more heads will be pushed.
    Woken { closed: bool },
}

/// Why a fetcher stopped.
#[derive(Clone, Copy, Debug, PartialEq, Eq, Structural)]
pub enum FetchEnd {
    /// The last block was passed.
    Finished,
    /// The prover worker is gone.
    WorkerGone,
    /// The head of the chain could not be had to begin with.
    NoFirstHead,
}

/// What is to be done next.
#[derive(Debug)]
pub enum FetchAction {
    /// Ask for the head of the chain.
    AskHead { max_retries: u32 },
    /// Rest.
    Pause { millis: u64 },
    /// Fetch a block and write its input to disk.
    Fetch { block: u64 },
    /// Put an item into the queue, after telling the proof collector of it if `announce` is set.
    Queue { item: WorkItem, announce: bool },
    /// Wait until a new head is pushed, but no longer than the time given.
    AwaitHead { timeout_millis: u64 },
    /// Wait.
    Sleep { millis: u64 },
    /// Exit. The queue is closed with it.
    Stop(FetchEnd),
}

/// Whether an interval picks a block: every `n`-th one, and none without an interval or with the
/// interval zero.
pub open spec fn due(interval: Option<u64>, block: int) -> bool {
    match interval {
        Some(n) => n != 0 && block % (n as int) == 0,
        None => false,
    }
}

impl FetchRules {
    /// Whether a block is to be proved.
    pub open spec fn proves(self, block: int) -> bool {
        due(self.prove_every, block)
    }

    /// Whether a block is to be executed without a proof.
    pub open spec fn executes(self, block: int) -> bool {
        due(self.execute_every, block) && !self.proves(block)
    }

    /// Whether a block is to be fetched.
    pub open spec fn wants(self, block: int) -> bool {
        self.proves(block) || self.executes(block) || self.save_all_responses
    }

    /// Whether the proof collector is told of a block that is proved.
    pub open spec fn posts(self, block: int) -> bool {
        self.has_client && (self.post_every is Some ==> due(self.post_every, block))
    }

    /// The first block from `from` to `to` that is to be fetched.
    pub open spec fn next_wanted(self, from: int, to: int) -> Option<int>
        decreases to - from + 1,
    {
        if from > to {
            None
        } else if self.wants(from) {
            Some(from)
        } else {
            self.next_wanted(from + 1, to)
        }
    }
}

/// Whether `block_number` is picked by an interval.
pub fn matches_interval(interval: Option<u64>, block_number: u64) -> (picked: bool)
    ensures
        picked == due(interval, block_number as int),
{
    match interval {
        Some(0) => false,
        Some(n) => block_number % n == 0,
        None => false,
    }
}

/// Whether the proof collector is told of the block `block_number`, if there is one.
pub fn posts_block(has_client: bool, post_every: Option<u64>, block_number: u64) -> (posts: bool)
    ensures
        posts == (has_client && (post_every is Some ==> due(post_every, block_number as int))),
{
    has_client && (post_every.is_none() || matches_interval(post_every, block_number))
}

/// What a fetcher does to wait for the chain to grow.
pub open spec fn wait_action(subscribed: bool) -> FetchAction {
    if subscribed {
        FetchAction::AwaitHead { timeout_millis: PUSH_TIMEOUT_MILLIS }
    } else {
        FetchAction::Sleep { millis: POLL_INTERVAL_MILLIS }
    }
}

/// A round goes on at block `from` and ends at `latest`. The next round begins after it, but never
/// before `from`: a head that falls behind does not take the fetcher back.
pub open spec fn walk(rules: FetchRules, subscribed: bool, from: int, latest: u64) -> (
    Fetcher,
    FetchAction,
) {
    match rules.next_wanted(from, latest as int) {
        Some(block) => (
            Fetcher { phase: FetchPhase::Fetching { block: block as u64, latest }, subscribed },
            FetchAction::Fetch { block: block as u64 },
        ),
        None => (
            Fetcher {
                phase: FetchPhase::Waiting {
                    next: (if from > latest + 1 {
                        from
                    } else {
                        latest + 1
                    }) as u64,
                },
                subscribed,
            },
            wait_action(subscribed),
        ),
    }
}

/// A round begins at block `next`.
pub open spec fn begin_round(rules: FetchRules, subscribed: bool, next: u64) -> (
    Fetcher,
    FetchAction,
) {
    match rules.end_block {
        Some(end) => if next > end {
            (
                Fetcher { phase: FetchPhase::Stopped, subscribed },
                FetchAction::Stop(FetchEnd::Finished),
            )
        } else {
            walk(rules, subscribed, next as int, end)
        },
        None => (
            Fetcher { phase: FetchPhase::Asking { next }, subscribed },
            FetchAction::AskHead { max_retries: HEAD_RETRIES },
        ),
    }
}

/// How a fetcher begins.
pub open spec fn fetch_start(rules: FetchRules, subscribed: bool) -> (Fetcher, FetchAction) {
    match rules.start_block {
        Some(start) => begin_round(rules, subscribed, start),
        None => (
            Fetcher { phase: FetchPhase::Starting, subscribed },
            FetchAction::AskHead { max_retries: FIRST_HEAD_RETRIES },
        ),
    }
}

/// The block after the head of the chain, as far as block numbers go.
pub open spec fn block_after(head: u64) -> u64 {
    if head == u64::MAX {
        head
    } else {
        (head + 1) as u64
    }
}

/// The item that is queued for a block.
pub open spec fn item_for(rules: FetchRules, block: u64, bundle_path: String) -> WorkItem {
    WorkItem {
        block_number: block,
        bundle_path,
        execute: rules.executes(block as int),
        prove: rules.proves(block as int),
    }
}

/// Whether an event can happen in a phase. The head of the chain is below the last block number
/// there is.
pub open spec fn fetch_expects(phase: FetchPhase, event: FetchEvent) -> bool {
    match phase {
        FetchPhase::Starting => event is Head,
        FetchPhase::Asking { .. } => event matches FetchEvent::Head(head) && head != Some(u64::MAX),
        FetchPhase::Pausing { .. } => event is Paused,
        FetchPhase::Fetching { .. } => event is Fetched,
        FetchPhase::Queueing { .. } => event is Queued,
        FetchPhase::Waiting { .. } => event is Woken,
        FetchPhase::Stopped => false,
    }
}

/// One step of the fetcher: what it becomes and what it asks for.
pub open spec fn fetch_step(rules: FetchRules, pre: Fetcher, event: FetchEvent) -> (
    Fetcher,
    FetchAction,
) {
    let subscribed = pre.subscribed;
    match (pre.phase, event) {
        (FetchPhase::Starting, FetchEvent::Head(Some(head))) => begin_round(
            rules,
            subscribed,
            block_after(head),
        ),
        (FetchPhase::Starting, FetchEvent::Head(None)) => (
            Fetcher { phase: FetchPhase::Stopped, subscribed },
            FetchAction::Stop(FetchEnd::NoFirstHead),
        ),
        (FetchPhase::Asking { next }, FetchEvent::Head(Some(head))) => walk(
            rules,
            subscribed,
            next as int,
            head,
        ),
        (FetchPhase::Asking { next }, FetchEvent::Head(None)) => (
            Fetcher { phase: FetchPhase::Pausing { next }, subscribed },
            FetchAction::Pause { millis: HEAD_FAILURE_PAUSE_MILLIS },
        ),
        (FetchPhase::Pausing { next }, FetchEvent::Paused) => begin_round(rules, subscribed, next),
        (FetchPhase::Fetching { block, latest }, FetchEvent::Fetched(Some(path))) => (
            Fetcher { phase: FetchPhase::Queueing { block, latest }, subscribed },
            FetchAction::Queue {
                item: item_for(rules, block, path),
                announce: rules.proves(block as int) && rules.posts(block as int),
            },
        ),
        (FetchPhase::Fetching { block, latest }, FetchEvent::Fetched(None)) => walk(
            rules,
            subscribed,
            block + 1,
            latest,
        ),
        (FetchPhase::Queueing { block, latest }, FetchEvent::Queued(true)) => walk(
            rules,
            subscribed,
            block + 1,
            latest,
        ),
        (FetchPhase::Queueing { .. }, FetchEvent::Queued(false)) => (
            Fetcher { phase: FetchPhase::Stopped, subscribed },
            FetchAction::Stop(FetchEnd::WorkerGone),
        ),
        (FetchPhase::Waiting { next }, FetchEvent::Woken { closed }) => begin_round(
            rules,
            subscribed && !closed,
            next,
        ),
        _ => (
            Fetcher { phase: FetchPhase::Stopped, subscribed },
            FetchAction::Stop(FetchEnd::Finished),
        ),
    }
}

impl Fetcher {
    /// A round ends below the last block number there is, at the last block if there is one, and
    /// the block in hand lies within it.
    pub open spec fn wf(self, rules: FetchRules) -> bool {
        match self.phase {
            FetchPhase::Fetching { block, latest } | FetchPhase::Queueing { block, latest } => {
                &&& block <= latest < u64::MAX
                &&& rules.end_block matches Some(end) ==> latest == end
                &&& rules.wants(block as int)
            },
            FetchPhase::Asking { .. } | FetchPhase::Pausing { .. } => rules.end_block is None,
            _ => true,
        }
    }
}

proof fn lemma_next_wanted(rules: FetchRules, from: int, to: int)
    ensures
        match rules.next_wanted(from, to) {
            Some(b) => {
                &&& from <= b <= to
                &&& rules.wants(b)
                &&& forall|x: int| from <= x < b ==> !rules.wants(x)
            },
            None => forall|x: int| from <= x <= to ==> !rules.wants(x),
        },
    decreases to - from + 1,
{
    if from <= to && !rules.wants(from) {
        lemma_next_wanted(rules, from + 1, to);
    }
}

impl FetchRules {
    fn wants_block(&self, block: u64) -> (wanted: bool)
        ensures
            wanted == self.wants(block as int),
    {
        let prove = matches_interval(self.prove_every, block);
        let execute = matches_interval(self.execute_every, block) && !prove;
        prove || execute || self.save_all_responses
    }

    fn walk_on(&self, subscribed: bool, from: u64, latest: u64) -> (r: (Fetcher, FetchAction))
        requires
            latest < u64::MAX,
            self.end_block matches Some(end) ==> latest == end,
        ensures
            r == walk(*self, subscribed, from as int, latest),
            r.0.wf(*self),
    {
        let mut block: u64 = from;
        while block <= latest && !self.wants_block(block)
            invariant
                latest < u64::MAX,
                block == from || from <= block <= latest + 1,
                self.next_wanted(from as int, latest as int) == self.next_wanted(
                    block as int,
                    latest as int,
                ),
            decreases latest - block + 1,
        {
            block = block + 1;
        }
        if block <= latest {
            (
                Fetcher { phase: FetchPhase::Fetching { block, latest }, subscribed },
                FetchAction::Fetch { block },
            )
        } else {
            let action = if subscribed {
                FetchAction::AwaitHead { timeout_millis: PUSH_TIMEOUT_MILLIS }
            } else {
                FetchAction::Sleep { millis: POLL_INTERVAL_MILLIS }
            };
            (Fetcher { phase: FetchPhase::Waiting { next: block }, subscribed }, action)
        }
    }

    fn begin(&self, subscribed: bool, next: u64) -> (r: (Fetcher, FetchAction))
        requires
            self.end_block != Some(u64::MAX),
        ensures
            r == begin_round(*self, subscribed, next),
            r.0.wf(*self),
    {
        match self.end_block {
            Some(end) => {
                if next > end {
                    (
                        Fetcher { phase: FetchPhase::Stopped, subscribed },
                        FetchAction::Stop(FetchEnd::Finished),
                    )
                } else {
                    self.walk_on(subscribed, next, end)
                }
            },
            None => (
                Fetcher { phase: FetchPhase::Asking { next }, subscribed },
                FetchAction::AskHead { max_retries: HEAD_RETRIES },
            ),
        }
    }

    /// Begins to fetch. `subscribed` says whether new heads are pushed.
    pub fn start(&self, subscribed: bool) -> (r: (Fetcher, FetchAction))
        requires
            self.end_block != Some(u64::MAX),
        ensures
            r == fetch_start(*self, subscribed),
            r.0.wf(*self),
    {
        match self.start_block {
            Some(start) => self.begin(subscribed, start),
            None => (
                Fetcher { phase: FetchPhase::Starting, subscribed },
                FetchAction::AskHead { max_retries: FIRST_HEAD_RETRIES },
            ),
        }
    }

    /// Takes one step.
    pub fn step(&self, fetcher: Fetcher, event: FetchEvent) -> (r: (Fetcher, FetchAction))
        requires
            self.end_block != Some(u64::MAX),
            fetcher.wf(*self),
            fetch_expects(fetcher.phase, event),
        ensures
            r == fetch_step(*self, fetcher, event),
            r.0.wf(*self),
    {
        let subscribed = fetcher.subscribed;
        match (fetcher.phase, event) {
            (FetchPhase::Starting, FetchEvent::Head(Some(head))) => self.begin(
                subscribed,
                head.saturating_add(1),
            ),
            (FetchPhase::Starting, FetchEvent::Head(None)) => (
                Fetcher { phase: FetchPhase::Stopped, subscribed },
                FetchAction::Stop(FetchEnd::NoFirstHead),
            ),
            (FetchPhase::Asking { next }, FetchEvent::Head(Some(head))) => self.walk_on(
                subscribed,
                next,
                head,
            ),
            (FetchPhase::Asking { next }, FetchEvent::Head(None)) => (
                Fetcher { phase: FetchPhase::Pausing { next }, subscribed },
                FetchAction::Pause { millis: HEAD_FAILURE_PAUSE_MILLIS },
            ),
            (FetchPhase::Pausing { next }, FetchEvent::Paused) => self.begin(subscribed, next),
            (FetchPhase::Fetching { block, latest }, FetchEvent::Fetched(Some(path))) => {
                let prove = matches_interval(self.prove_every, block);
                let execute = matches_interval(self.execute_every, block) && !prove;
                let item = WorkItem { block_number: block, bundle_path: path, execute, prove };
                (
                    Fetcher { phase: FetchPhase::Queueing { block, latest }, subscribed },
                    FetchAction::Queue {
                        item,
                        announce: prove && posts_block(self.has_client, self.post_every, block),
                    },
                )
            },
            (FetchPhase::Fetching { block, latest }, FetchEvent::Fetched(None)) => self.walk_on(
                subscribed,
                block + 1,
                latest,
            ),
            (FetchPhase::Queueing { block, latest }, FetchEvent::Queued(true)) => self.walk_on(
                subscribed,
                block + 1,
                latest,
            ),
            (FetchPhase::Queueing { .. }, FetchEvent::Queued(false)) => (
                Fetcher { phase: FetchPhase::Stopped, subscribed },
                FetchAction::Stop(FetchEnd::WorkerGone),
            ),
            (FetchPhase::Waiting { next }, FetchEvent::Woken { closed }) => self.begin(
                subscribed && !closed,
                next,
            ),
            _ => (
                Fetcher { phase: FetchPhase::Stopped, subscribed },
                FetchAction::Stop(FetchEnd::Finished),
            ),
        }
    }
}

/// One step in the life of a fetcher.
pub struct FetchMove {
    pub event: FetchEvent,
    pub post: Fetcher,
    pub action: FetchAction,
}

/// The fetcher after its start and the first `k` moves.
pub open spec fn fetcher_at(
    rules: FetchRules,
    subscribed: bool,
    moves: Seq<FetchMove>,
    k: int,
) -> Fetcher {
    if k <= 0 {
        fetch_start(rules, subscribed).0
    } else {
        moves[k - 1].post
    }
}

/// What the fetcher asks for after its start and the first `k` moves.
pub open spec fn action_at(
    rules: FetchRules,
    subscribed: bool,
    moves: Seq<FetchMove>,
    k: int,
) -> FetchAction {
    if k <= 0 {
        fetch_start(rules, subscribed).1
    } else {
        moves[k - 1].action
    }
}

/// Whether each move follows from the start and the moves before.
pub open spec fn fetch_history(
    rules: FetchRules,
    subscribed: bool,
    moves: Seq<FetchMove>,
) -> bool {
    forall|i: int|
        #![trigger moves[i]]
        0 <= i < moves.len() ==> {
            let pre = fetcher_at(rules, subscribed, moves, i);
            &&& fetch_expects(pre.phase, moves[i].event)
            &&& (moves[i].post, moves[i].action) == fetch_step(rules, pre, moves[i].event)
        }
}

/// The first block that a fetcher has not come to yet.
pub open spec fn frontier(phase: FetchPhase) -> Option<int> {
    match phase {
        FetchPhase::Asking { next } | FetchPhase::Pausing { next } | FetchPhase::Waiting {
            next,
        } => Some(next as int),
        FetchPhase::Fetching { block, .. } | FetchPhase::Queueing { block, .. } => Some(block + 1),
        FetchPhase::Starting | FetchPhase::Stopped => None,
    }
}

/// A step keeps a fetcher well formed.
pub proof fn law_step_keeps_fetcher_wf(rules: FetchRules, pre: Fetcher, event: FetchEvent)
    requires
        rules.end_block != Some(u64::MAX),
        pre.wf(rules),
        fetch_expects(pre.phase, event),
    ensures
        fetch_step(rules, pre, event).0.wf(rules),
{
    match (pre.phase, event) {
        (FetchPhase::Starting, FetchEvent::Head(Some(head))) => {
            if let Some(end) = rules.end_block {
                lemma_next_wanted(rules, block_after(head) as int, end as int);
            }
        },
        (FetchPhase::Asking { next }, FetchEvent::Head(Some(head))) => lemma_next_wanted(
            rules,
            next as int,
            head as int,
        ),
        (FetchPhase::Fetching { block, latest }, _) => lemma_next_wanted(
            rules,
            block + 1,
            latest as int,
        ),
        (FetchPhase::Queueing { block, latest }, _) => lemma_next_wanted(
            rules,
            block + 1,
            latest as int,
        ),
        (FetchPhase::Waiting { next }, _) => {
            if let Some(end) = rules.end_block {
                lemma_next_wanted(rules, next as int, end as int);
            }
        },
        _ => {},
    }
}

/// What one step does to the frontier: it passes wanted blocks only by fetching them, a block that
/// is fetched lies at the frontier or beyond, and the frontier never moves back.
proof fn lemma_step_frontier(rules: FetchRules, pre: Fetcher, event: FetchEvent)
    requires
        rules.end_block != Some(u64::MAX),
        pre.wf(rules),
        fetch_expects(pre.phase, event),
        frontier(pre.phase) is Some,
    ensures
        ({
            let (post, action) = fetch_step(rules, pre, event);
            let p = frontier(pre.phase)->0;
            &&& action matches FetchAction::Fetch { block } ==> {
                &&& p <= block
                &&& rules.wants(block as int)
                &&& frontier(post.phase) == Some(block + 1)
            }
            &&& frontier(post.phase) matches Some(q) ==> {
                &&& forall|b: int|
                    p <= b < q && #[trigger] rules.wants(b) ==> action == (FetchAction::Fetch {
                        block: b as u64,
                    })
                &&& p <= q
            }
        }),
{
    match (pre.phase, event) {
        (FetchPhase::Asking { next }, FetchEvent::Head(Some(head))) => lemma_next_wanted(
            rules,
            next as int,
            head as int,
        ),
        (FetchPhase::Fetching { block, latest }, _) => lemma_next_wanted(
            rules,
            block + 1,
            latest as int,
        ),
        (FetchPhase::Queueing { block, latest }, _) => lemma_next_wanted(
            rules,
            block + 1,
            latest as int,
        ),
        (FetchPhase::Waiting { next }, _) => {
            if let Some(end) = rules.end_block {
                lemma_next_wanted(rules, next as int, end as int);
            }
        },
        _ => {},
    }
}

proof fn lemma_begin_round(rules: FetchRules, subscribed: bool, next: u64)
    requires
        rules.end_block != Some(u64::MAX),
    ensures
        ({
            let (post, action) = begin_round(rules, subscribed, next);
            &&& post.wf(rules)
            &&& post.phase !is Starting
            &&& action matches FetchAction::Fetch { block } ==> next <= block
            &&& frontier(post.phase) matches Some(q) ==> next <= q && forall|b: int|
                next <= b < q && #[trigger] rules.wants(b) ==> action == (FetchAction::Fetch {
                    block: b as u64,
                })
            &&& post.phase is Stopped ==> rules.end_block is Some && next > rules.end_block->0
        }),
{
    if let Some(end) = rules.end_block {
        lemma_next_wanted(rules, next as int, end as int);
    }
}

proof fn lemma_start(rules: FetchRules, subscribed: bool)
    requires
        rules.end_block != Some(u64::MAX),
    ensures
        fetch_start(rules, subscribed).0.wf(rules),
{
    if let Some(start) = rules.start_block {
        lemma_begin_round(rules, subscribed, start);
    }
}

/// A fetcher is well formed at any time.
pub proof fn law_fetcher_stays_wf(
    rules: FetchRules,
    subscribed: bool,
    moves: Seq<FetchMove>,
    n: int,
)
    requires
        rules.end_block != Some(u64::MAX),
        fetch_history(rules, subscribed, moves),
        0 <= n <= moves.len(),
    ensures
        fetcher_at(rules, subscribed, moves, n).wf(rules),
    decreases n,
{
    lemma_start(rules, subscribed);
    if n > 0 {
        law_fetcher_stays_wf(rules, subscribed, moves, n - 1);
        let m = moves[n - 1];
        law_step_keeps_fetcher_wf(rules, fetcher_at(rules, subscribed, moves, n - 1), m.event);
    }
}

proof fn lemma_frontier_moves_on(
    rules: FetchRules,
    subscribed: bool,
    moves: Seq<FetchMove>,
    i: int,
    j: int,
)
    requires
        rules.end_block != Some(u64::MAX),
        fetch_history(rules, subscribed, moves),
        0 <= i <= j < moves.len(),
        frontier(fetcher_at(rules, subscribed, moves, i).phase) is Some,
    ensures
        frontier(fetcher_at(rules, subscribed, moves, j).phase) is Some,
        frontier(fetcher_at(rules, subscribed, moves, i).phase)->0 <= frontier(
            fetcher_at(rules, subscribed, moves, j).phase,
        )->0,
    decreases j - i,
{
    if i < j {
        lemma_frontier_moves_on(rules, subscribed, moves, i, j - 1);
        let pre = fetcher_at(rules, subscribed, moves, j - 1);
        let m = moves[j - 1];
        law_fetcher_stays_wf(rules, subscribed, moves, j - 1);
        lemma_step_frontier(rules, pre, m.event);
        assert(fetch_expects(fetcher_at(rules, subscribed, moves, j).phase, moves[j].event));
    }
}

/// Blocks are fetched in ascending order, and none twice, whatever the head of the chain does.
pub proof fn law_fetched_blocks_ascend(
    rules: FetchRules,
    subscribed: bool,
    moves: Seq<FetchMove>,
    i: int,
    j: int,
)
    requires
        rules.end_block != Some(u64::MAX),
        fetch_history(rules, subscribed, moves),
        0 <= i < j <= moves.len(),
        action_at(rules, subscribed, moves, i) is Fetch,
        action_at(rules, subscribed, moves, j) is Fetch,
    ensures
        action_at(rules, subscribed, moves, i)->Fetch_block < action_at(
            rules,
            subscribed,
            moves,
            j,
        )->Fetch_block,
{
    let at_i = fetcher_at(rules, subscribed, moves, i);
    if i == 0 {
        if let Some(start) = rules.start_block {
            if let Some(end) = rules.end_block {
                lemma_next_wanted(rules, start as int, end as int);
            }
        }
    } else {
        law_fetcher_stays_wf(rules, subscribed, moves, i - 1);
        let pre = fetcher_at(rules, subscribed, moves, i - 1);
        if frontier(pre.phase) is Some {
            lemma_step_frontier(rules, pre, moves[i - 1].event);
        } else if let Some(end) = rules.end_block {
            if let FetchEvent::Head(Some(head)) = moves[i - 1].event {
                lemma_next_wanted(rules, block_after(head) as int, end as int);
            }
        }
    }
    assert(frontier(at_i.phase) == Some(
        action_at(rules, subscribed, moves, i)->Fetch_block + 1,
    ));
    lemma_frontier_moves_on(rules, subscribed, moves, i, j - 1);
    law_fetcher_stays_wf(rules, subscribed, moves, j - 1);
    lemma_step_frontier(
        rules,
        fetcher_at(rules, subscribed, moves, j - 1),
        moves[j - 1].event,
    );
}

/// The block that a fetcher begins with: the one that was named, or the one after the head of the
/// chain. There is none before the head is known.
pub open spec fn first_block(rules: FetchRules, moves: Seq<FetchMove>) -> Option<u64> {
    match rules.start_block {
        Some(start) => Some(start),
        None => if moves.len() > 0 {
            match moves[0].event {
                FetchEvent::Head(Some(head)) => Some(block_after(head)),
                _ => None,
            }
        } else {
            None
        },
    }
}

/// No block is skipped: each wanted block from the first one up to the frontier was fetched.
pub proof fn law_no_wanted_block_is_skipped(
    rules: FetchRules,
    subscribed: bool,
    moves: Seq<FetchMove>,
    n: int,
    block: u64,
)
    requires
        rules.end_block != Some(u64::MAX),
        fetch_history(rules, subscribed, moves),
        0 <= n <= moves.len(),
        rules.wants(block as int),
        first_block(rules, moves) is Some,
        first_block(rules, moves)->0 <= block,
        frontier(fetcher_at(rules, subscribed, moves, n).phase) is Some,
        block < frontier(fetcher_at(rules, subscribed, moves, n).phase)->0,
    ensures
        exists|k: int|
            0 <= k <= n && #[trigger] action_at(rules, subscribed, moves, k) == (
            FetchAction::Fetch { block }),
    decreases n,
{
    if n == 0 {
        lemma_begin_round(rules, subscribed, rules.start_block->0);
        assert(action_at(rules, subscribed, moves, 0) == (FetchAction::Fetch { block }));
    } else {
        let pre = fetcher_at(rules, subscribed, moves, n - 1);
        let m = moves[n - 1];
        law_fetcher_stays_wf(rules, subscribed, moves, n - 1);
        assert(fetch_expects(pre.phase, m.event));
        if pre.phase is Starting {
            lemma_starts_once(rules, subscribed, moves, n - 1);
            lemma_begin_round(rules, pre.subscribed, first_block(rules, moves)->0);
            assert(action_at(rules, subscribed, moves, n) == (FetchAction::Fetch { block }));
        } else {
            lemma_step_frontier(rules, pre, m.event);
            if block < frontier(pre.phase)->0 {
                law_no_wanted_block_is_skipped(rules, subscribed, moves, n - 1, block);
            } else {
                assert(action_at(rules, subscribed, moves, n) == (FetchAction::Fetch { block }));
            }
        }
    }
}

proof fn lemma_starts_once(rules: FetchRules, subscribed: bool, moves: Seq<FetchMove>, n: int)
    requires
        rules.end_block != Some(u64::MAX),
        fetch_history(rules, subscribed, moves),
        0 <= n <= moves.len(),
        fetcher_at(rules, subscribed, moves, n).phase is Starting,
    ensures
        n == 0,
        rules.start_block is None,
{
    if n > 0 {
        let m = moves[n - 1];
        let pre = fetcher_at(rules, subscribed, moves, n - 1);
        assert(fetch_expects(pre.phase, m.event));
    }
}

/// A fetcher that has finished has fetched each wanted block from the first to the last.
pub proof fn law_finished_means_all_fetched(
    rules: FetchRules,
    subscribed: bool,
    moves: Seq<FetchMove>,
    n: int,
    block: u64,
)
    requires
        rules.end_block != Some(u64::MAX),
        rules.end_block is Some,
        fetch_history(rules, subscribed, moves),
        0 <= n <= moves.len(),
        action_at(rules, subscribed, moves, n) == FetchAction::Stop(FetchEnd::Finished),
        rules.wants(block as int),
        first_block(rules, moves) is Some,
        first_block(rules, moves)->0 <= block <= rules.end_block->0,
    ensures
        exists|k: int|
            0 <= k <= n && #[trigger] action_at(rules, subscribed, moves, k) == (
            FetchAction::Fetch { block }),
{
    if n > 0 {
        let pre = fetcher_at(rules, subscribed, moves, n - 1);
        law_fetcher_stays_wf(rules, subscribed, moves, n - 1);
        assert(fetch_expects(pre.phase, moves[n - 1].event));
        if pre.phase is Starting {
            lemma_starts_once(rules, subscribed, moves, n - 1);
        } else {
            law_no_wanted_block_is_skipped(rules, subscribed, moves, n - 1, block);
        }
    }
}

/// Only wanted blocks are fetched, and none after the last block.
pub proof fn law_only_wanted_blocks_are_fetched(
    rules: FetchRules,
    subscribed: bool,
    moves: Seq<FetchMove>,
    n: int,
)
    requires
        rules.end_block != Some(u64::MAX),
        fetch_history(rules, subscribed, moves),
        0 <= n <= moves.len(),
        action_at(rules, subscribed, moves, n) is Fetch,
    ensures
        rules.wants(action_at(rules, subscribed, moves, n)->Fetch_block as int),
        rules.end_block matches Some(end) ==> action_at(
            rules,
            subscribed,
            moves,
            n,
        )->Fetch_block <= end,
{
    law_fetcher_stays_wf(rules, subscribed, moves, n);
    if n > 0 {
        law_fetcher_stays_wf(rules, subscribed, moves, n - 1);
        let pre = fetcher_at(rules, subscribed, moves, n - 1);
        assert((moves[n - 1].post, moves[n - 1].action) == fetch_step(
            rules,
            pre,
            moves[n - 1].event,
        ));
    }
}

/// An item is queued right after its block was fetched, for what the rules say of the block.
pub proof fn law_queued_items_were_just_fetched(
    rules: FetchRules,
    subscribed: bool,
    moves: Seq<FetchMove>,
    n: int,
)
    requires
        rules.end_block != Some(u64::MAX),
        fetch_history(rules, subscribed, moves),
        0 <= n <= moves.len(),
        action_at(rules, subscribed, moves, n) is Queue,
    ensures
        ({
            let item = action_at(rules, subscribed, moves, n)->item;
            let block = item.block_number;
            &&& n > 0
            &&& action_at(rules, subscribed, moves, n - 1) == (FetchAction::Fetch { block })
            &&& moves[n - 1].event == FetchEvent::Fetched(Some(item.bundle_path))
            &&& item.prove == rules.proves(block as int)
            &&& item.execute == rules.executes(block as int)
            &&& action_at(rules, subscribed, moves, n)->announce == (item.prove && rules.posts(
                block as int,
            ))
        }),
{
    let pre = fetcher_at(rules, subscribed, moves, n - 1);
    if n > 0 {
        assert(fetch_expects(pre.phase, moves[n - 1].event));
        law_fetcher_stays_wf(rules, subscribed, moves, n - 1);
        if n > 1 {
            let before = fetcher_at(rules, subscribed, moves, n - 2);
            assert(fetch_expects(before.phase, moves[n - 2].event));
        }
    }
}

/// Items are queued in ascending order of their blocks, and no block is queued twice.
pub proof fn law_queued_blocks_ascend(
    rules: FetchRules,
    subscribed: bool,
    moves: Seq<FetchMove>,
    i: int,
    j: int,
)
    requires
        rules.end_block != Some(u64::MAX),
        fetch_history(rules, subscribed, moves),
        0 <= i < j <= moves.len(),
        action_at(rules, subscribed, moves, i) is Queue,
        action_at(rules, subscribed, moves, j) is Queue,
    ensures
        action_at(rules, subscribed, moves, i)->item.block_number < action_at(
            rules,
            subscribed,
            moves,
            j,
        )->item.block_number,
{
    law_queued_items_were_just_fetched(rules, subscribed, moves, i);
    law_queued_items_were_just_fetched(rules, subscribed, moves, j);
    law_fetched_blocks_ascend(rules, subscribed, moves, i - 1, j - 1);
}

/// No block before the first one is fetched.
pub proof fn law_no_block_before_the_first(
    rules: FetchRules,
    subscribed: bool,
    moves: Seq<FetchMove>,
    n: int,
)
    requires
        rules.end_block != Some(u64::MAX),
        fetch_history(rules, subscribed, moves),
        0 <= n <= moves.len(),
        action_at(rules, subscribed, moves, n) is Fetch,
    ensures
        first_block(rules, moves) is Some,
        first_block(rules, moves)->0 <= action_at(rules, subscribed, moves, n)->Fetch_block,
{
    lemma_frontier_not_before_the_first(rules, subscribed, moves, n);
    if n == 0 {
        lemma_begin_round(rules, subscribed, rules.start_block->0);
    } else {
        let pre = fetcher_at(rules, subscribed, moves, n - 1);
        let m = moves[n - 1];
        law_fetcher_stays_wf(rules, subscribed, moves, n - 1);
        assert(fetch_expects(pre.phase, m.event));
        if pre.phase is Starting {
            lemma_starts_once(rules, subscribed, moves, n - 1);
            lemma_begin_round(rules, pre.subscribed, first_block(rules, moves)->0);
        } else {
            lemma_frontier_not_before_the_first(rules, subscribed, moves, n - 1);
            lemma_step_frontier(rules, pre, m.event);
        }
    }
}

proof fn lemma_frontier_not_before_the_first(
    rules: FetchRules,
    subscribed: bool,
    moves: Seq<FetchMove>,
    n: int,
)
    requires
        rules.end_block != Some(u64::MAX),
        fetch_history(rules, subscribed, moves),
        0 <= n <= moves.len(),
        frontier(fetcher_at(rules, subscribed, moves, n).phase) is Some,
    ensures
        first_block(rules, moves) is Some,
        first_block(rules, moves)->0 <= frontier(
            fetcher_at(rules, subscribed, moves, n).phase,
        )->0,
    decreases n,
{
    if n == 0 {
        lemma_begin_round(rules, subscribed, rules.start_block->0);
    } else {
        let pre = fetcher_at(rules, subscribed, moves, n - 1);
        let m = moves[n - 1];
        law_fetcher_stays_wf(rules, subscribed, moves, n - 1);
        assert(fetch_expects(pre.phase, m.event));
        if pre.phase is Starting {
            lemma_starts_once(rules, subscribed, moves, n - 1);
            lemma_begin_round(rules, pre.subscribed, first_block(rules, moves)->0);
        } else {
            lemma_frontier_not_before_the_first(rules, subscribed, moves, n - 1);
            lemma_step_frontier(rules, pre, m.event);
        }
    }
}

/// A block that is to be proved is not executed on its own as well.
pub proof fn law_proof_takes_the_place_of_execution(rules: FetchRules, block: int)
    ensures
        !(rules.proves(block) && rules.executes(block)),
{
}

/// An interval picks the multiples of its length, and nothing else. Without an interval, or with the
/// interval zero, nothing is picked.
pub proof fn law_intervals_pick_multiples(interval: Option<u64>, block: nat)
    ensures
        due(interval, block as int) <==> interval is Some && interval->0 > 0 && exists|k: nat|
            block == #[trigger] (k * interval->0 as nat),
{
    if let Some(n) = interval {
        if n > 0 {
            let b = block as int;
            let m = n as int;
            if b % m == 0 {
                vstd::arithmetic::div_mod::lemma_fundamental_div_mod(b, m);
                vstd::arithmetic::div_mod::lemma_div_pos_is_pos(b, m);
                vstd::arithmetic::mul::lemma_mul_is_commutative(m, b / m);
                let k = (b / m) as nat;
                assert(block == k * (n as nat));
            }
            if exists|k: nat| block == #[trigger] (k * n as nat) {
                let k = choose|k: nat| block == #[trigger] (k * n as nat);
                vstd::arithmetic::div_mod::lemma_mod_multiples_basic(k as int, m);
            }
        }
    }
}

/// What a block is fetched for. It is proved if the proving interval picks it, executed if the
/// execution interval picks it and it is not proved, and fetched for one of these or if all responses
/// are saved. The proof collector hears of a proof if there is a collector, and if the posting
/// interval, where there is one, picks the block.
pub proof fn law_what_blocks_are_fetched_for(rules: FetchRules, block: int)
    ensures
        rules.proves(block) <==> due(rules.prove_every, block),
        rules.executes(block) <==> due(rules.execute_every, block) && !due(
            rules.prove_every,
            block,
        ),
        rules.wants(block) <==> rules.save_all_responses || due(rules.prove_every, block) || due(
            rules.execute_every,
            block,
        ),
        rules.posts(block) <==> rules.has_client && (rules.post_every is None || due(
            rules.post_every,
            block,
        )),
{
}

/// A block that was fetched is queued: the action after a successful fetch is to queue an item for
/// that block with the path that was reported, to be proved or executed as the intervals say, and
/// announced if it is to be proved and the proof collector hears of it.
pub proof fn law_fetched_blocks_are_queued(
    rules: FetchRules,
    subscribed: bool,
    moves: Seq<FetchMove>,
    n: int,
    path: String,
)
    requires
        rules.end_block != Some(u64::MAX),
        fetch_history(rules, subscribed, moves),
        0 <= n < moves.len(),
        action_at(rules, subscribed, moves, n) is Fetch,
        moves[n].event == FetchEvent::Fetched(Some(path)),
    ensures
        ({
            let block = action_at(rules, subscribed, moves, n)->Fetch_block;
            let next = action_at(rules, subscribed, moves, n + 1);
            &&& next is Queue
            &&& next->item.block_number == block
            &&& next->item.bundle_path == path
            &&& next->item.prove == due(rules.prove_every, block as int)
            &&& next->item.execute == (due(rules.execute_every, block as int) && !due(
                rules.prove_every,
                block as int,
            ))
            &&& next->announce == (next->item.prove && rules.has_client && (
            rules.post_every is None || due(rules.post_every, block as int)))
        }),
{
    lemma_fetching_what_is_asked_for(rules, subscribed, moves, n);
    assert(fetch_expects(fetcher_at(rules, subscribed, moves, n).phase, moves[n].event));
}

/// The block that a fetcher waits for is the one that it asked for.
proof fn lemma_fetching_what_is_asked_for(
    rules: FetchRules,
    subscribed: bool,
    moves: Seq<FetchMove>,
    n: int,
)
    requires
        rules.end_block != Some(u64::MAX),
        fetch_history(rules, subscribed, moves),
        0 <= n <= moves.len(),
        action_at(rules, subscribed, moves, n) is Fetch,
    ensures
        fetcher_at(rules, subscribed, moves, n).phase matches FetchPhase::Fetching { block, .. }
            && block == action_at(rules, subscribed, moves, n)->Fetch_block,
{
    if n > 0 {
        let pre = fetcher_at(rules, subscribed, moves, n - 1);
        assert(fetch_expects(pre.phase, moves[n - 1].event));
    }
}

/// Whether a fetcher goes on through a round as it should: it fetches the first wanted block from
/// `from` to `latest`, or, where there is none, waits for the chain to grow beyond both.
pub open spec fn goes_on(
    rules: FetchRules,
    subscribed: bool,
    from: int,
    latest: int,
    post: Fetcher,
    action: FetchAction,
) -> bool {
    match action {
        FetchAction::Fetch { block } => {
            &&& from <= block <= latest
            &&& rules.wants(block as int)
            &&& forall|b: int| from <= b < block ==> !#[trigger] rules.wants(b)
            &&& post.phase matches FetchPhase::Fetching { block: b, latest: l } && b == block && l
                == latest
            &&& post.subscribed == subscribed
        },
        FetchAction::AwaitHead { timeout_millis } => {
            &&& subscribed
            &&& timeout_millis == 2000
            &&& forall|b: int| from <= b <= latest ==> !#[trigger] rules.wants(b)
            &&& post.phase matches FetchPhase::Waiting { next } && from <= next && latest < next && (
            next == from || next == latest + 1)
            &&& post.subscribed
        },
        FetchAction::Sleep { millis } => {
            &&& !subscribed
            &&& millis == 300
            &&& forall|b: int| from <= b <= latest ==> !#[trigger] rules.wants(b)
            &&& post.phase matches FetchPhase::Waiting { next } && from <= next && latest < next && (
            next == from || next == latest + 1)
            &&& !post.subscribed
        },
        _ => false,
    }
}

proof fn lemma_walk_goes_on(rules: FetchRules, subscribed: bool, from: int, latest: u64)
    requires
        0 <= from <= u64::MAX,
        latest < u64::MAX,
    ensures
        ({
            let (post, action) = walk(rules, subscribed, from, latest);
            goes_on(rules, subscribed, from, latest as int, post, action)
        }),
{
    lemma_next_wanted(rules, from, latest as int);
}

/// A round goes through the wanted blocks one after the other. After a block that could not be
/// fetched, or that the queue took, the fetcher goes on with the block after it, up to the last block
/// of the round. Where the worker is gone it stops.
pub proof fn law_rounds_go_on(rules: FetchRules, pre: Fetcher, event: FetchEvent)
    requires
        rules.end_block != Some(u64::MAX),
        pre.wf(rules),
        fetch_expects(pre.phase, event),
    ensures
        ({
            let (post, action) = fetch_step(rules, pre, event);
            &&& (pre.phase, event) matches (
                FetchPhase::Fetching { block, latest },
                FetchEvent::Fetched(None),
            ) ==> goes_on(rules, pre.subscribed, block + 1, latest as int, post, action)
            &&& (pre.phase, event) matches (
                FetchPhase::Queueing { block, latest },
                FetchEvent::Queued(true),
            ) ==> goes_on(rules, pre.subscribed, block + 1, latest as int, post, action)
            &&& (pre.phase, event) matches (
                FetchPhase::Queueing { .. },
                FetchEvent::Queued(false),
            ) ==> post.phase is Stopped && action == FetchAction::Stop(FetchEnd::WorkerGone)
        }),
{
    match pre.phase {
        FetchPhase::Fetching { block, latest } | FetchPhase::Queueing { block, latest } => {
            lemma_walk_goes_on(rules, pre.subscribed, block + 1, latest);
        },
        _ => {},
    }
}

/// A block that was fetched is put into the queue, whatever its number, and the round stays the same.
pub proof fn law_queueing_keeps_the_round(rules: FetchRules, pre: Fetcher, path: String)
    requires
        rules.end_block != Some(u64::MAX),
        pre.wf(rules),
        pre.phase is Fetching,
    ensures
        ({
            let (post, action) = fetch_step(rules, pre, FetchEvent::Fetched(Some(path)));
            &&& action is Queue
            &&& action->item.block_number == pre.phase->Fetching_block
            &&& action->item.bundle_path == path
            &&& post.phase == (FetchPhase::Queueing {
                block: pre.phase->Fetching_block,
                latest: pre.phase->Fetching_latest,
            })
            &&& post.subscribed == pre.subscribed
        }),
{
}

/// Whether a round begins at `next` as it should. With a last block the round goes up to it, and there
/// is none after it. Without one the head of the chain is asked for, up to six times.
pub open spec fn round_begins(
    rules: FetchRules,
    subscribed: bool,
    next: u64,
    post: Fetcher,
    action: FetchAction,
) -> bool {
    match rules.end_block {
        Some(end) => if next > end {
            post.phase is Stopped && action == FetchAction::Stop(FetchEnd::Finished)
        } else {
            goes_on(rules, subscribed, next as int, end as int, post, action)
        },
        None => {
            &&& action == (FetchAction::AskHead { max_retries: 6 })
            &&& post.phase == (FetchPhase::Asking { next })
            &&& post.subscribed == subscribed
        },
    }
}

/// How rounds begin. A fetcher begins with the block that was named, or asks for the head of the
/// chain up to three times and begins after it; without a head it gives up. A new round begins where
/// the last one ended, after the wait, or after a rest of 30 seconds where the head could not be had.
/// Once the head is known, the round goes up to it. New heads are no longer waited for once they stop
/// coming.
pub proof fn law_rounds_begin(rules: FetchRules, subscribed: bool, pre: Fetcher, event: FetchEvent)
    requires
        rules.end_block != Some(u64::MAX),
        pre.wf(rules),
        fetch_expects(pre.phase, event),
    ensures
        ({
            let (post, action) = fetch_start(rules, subscribed);
            match rules.start_block {
                Some(start) => round_begins(rules, subscribed, start, post, action),
                None => {
                    &&& action == (FetchAction::AskHead { max_retries: 3 })
                    &&& post.phase is Starting
                    &&& post.subscribed == subscribed
                },
            }
        }),
        ({
            let (post, action) = fetch_step(rules, pre, event);
            &&& (pre.phase, event) matches (
                FetchPhase::Starting,
                FetchEvent::Head(Some(head)),
            ) ==> round_begins(
                rules,
                pre.subscribed,
                (if head < u64::MAX {
                    head + 1
                } else {
                    head as int
                }) as u64,
                post,
                action,
            )
            &&& (pre.phase, event) matches (FetchPhase::Starting, FetchEvent::Head(None))
                ==> post.phase is Stopped && action == FetchAction::Stop(FetchEnd::NoFirstHead)
            &&& (pre.phase, event) matches (
                FetchPhase::Asking { next },
                FetchEvent::Head(Some(head)),
            ) ==> goes_on(rules, pre.subscribed, next as int, head as int, post, action)
            &&& (pre.phase, event) matches (
                FetchPhase::Asking { next },
                FetchEvent::Head(None),
            ) ==> {
                &&& action == (FetchAction::Pause { millis: 30000 })
                &&& post.phase == (FetchPhase::Pausing { next })
                &&& post.subscribed == pre.subscribed
            }
            &&& (pre.phase, event) matches (FetchPhase::Pausing { next }, FetchEvent::Paused)
                ==> round_begins(rules, pre.subscribed, next, post, action)
            &&& (pre.phase, event) matches (
                FetchPhase::Waiting { next },
                FetchEvent::Woken { closed },
            ) ==> round_begins(rules, pre.subscribed && !closed, next, post, action)
        }),
{
    if let Some(end) = rules.end_block {
        if let Some(start) = rules.start_block {
            lemma_walk_goes_on(rules, subscribed, start as int, end);
        }
        match (pre.phase, event) {
            (FetchPhase::Starting, FetchEvent::Head(Some(head))) => {
                lemma_walk_goes_on(rules, pre.subscribed, block_after(head) as int, end);
            },
            (FetchPhase::Waiting { next }, FetchEvent::Woken { closed }) => {
                lemma_walk_goes_on(rules, pre.subscribed && !closed, next as int, end);
            },
            _ => {},
        }
    }
    if let (FetchPhase::Asking { next }, FetchEvent::Head(Some(head))) = (pre.phase, event) {
        lemma_walk_goes_on(rules, pre.subscribed, next as int, head);
    }
}

} // verus!
