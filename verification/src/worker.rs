//! The prover worker: what is done with each block that was fetched.
//!
//! The worker takes one item at a time, because there is only one prover. It executes the block, or
//! proves it, or both. A block that is to be proved is first run without proof (the preflight), to
//! catch executions that the recursion stage could not prove. The preflight runs either before the
//! proof starts, or beside it; then it decides whether the proof may be written to disk and
//! submitted.
//!
//! The machine here makes the decisions. Its caller carries out each action and reports the event
//! that came of it.

use vstd::prelude::*;
use crate::fetcher::{due, posts_block};
use crate::run::{
    rejected_run_message, rejected_run_text, ProofOutput, ProveError, ProvingLog, VmRunOutcome,
};
use crate::text::{bool_text, hex8};

verus! {

/// One unit of work handed from the fetcher to the prover worker.
///
/// The input of the block is already on disk at `bundle_path` when the item is queued; only the
/// path travels through the queue.
#[derive(Clone, Debug)]
pub struct WorkItem {
    pub block_number: u64,
    pub bundle_path: String,
    pub execute: bool,
    pub prove: bool,
}

/// What stays the same for all blocks.
#[derive(Clone, Copy, Debug, PartialEq, Eq, Structural)]
pub struct WorkerRules {
    /// Where a guest that succeeds parks.
    pub exit_pc: u32,
    /// Whether there is a proof collector.
    pub has_client: bool,
    /// The proof collector is told of every n-th block only. Without an interval it is told of each
    /// block that is proved, and with the interval zero of none.
    pub post_every: Option<u64>,
}

/// A proof and what is to be kept of it, or the reason why there is none.
pub type ProofResult = Result<ProofOutput, ProveError>;

/// What the worker waits for.
#[derive(Debug)]
pub enum WorkerState {
    /// The next item of the queue.
    Idle,
    /// The end of an execution.
    Executing(WorkItem),
    /// The outcome of a preflight that holds back the proof.
    Preflighting(WorkItem),
    /// A proof, with a preflight beside it or after a preflight that passed.
    Proving { item: WorkItem, concurrent: bool },
    /// The outcome of the preflight that ran beside a proof.
    Judging { item: WorkItem, result: ProofResult },
    /// The end of writing a proof to disk.
    Storing { item: WorkItem, output: ProofOutput },
    /// Nothing: the queue is closed.
    Stopped,
}

/// What happened outside of the machine.
#[derive(Debug)]
pub enum WorkerEvent {
    /// An item came out of the queue.
    Item(WorkItem),
    /// The queue is closed and empty.
    QueueClosed,
    /// The execution ended, well or badly.
    Executed,
    /// The preflight that holds back the proof ended.
    Preflighted(Result<VmRunOutcome, String>),
    /// The prover ended.
    Proved(ProofResult),
    /// The preflight that ran beside the proof ended; `None` where it gave no outcome.
    Verdict(Option<VmRunOutcome>),
    /// The proof was written to disk, or the text of why it was not.
    Stored(Result<(), String>),
}

/// What is to be done next.
#[derive(Debug)]
pub enum WorkerAction {
    /// Wait for the next item of the queue.
    Receive,
    /// Execute a block.
    Execute { block_number: u64, bundle_path: String },
    /// Run the preflight of a block to its end.
    Preflight { block_number: u64, bundle_path: String },
    /// Prove a block. Start its preflight beside it if `concurrent` is set, and tell the proof
    /// collector that the proof has begun if `announce` is set.
    Prove { block_number: u64, bundle_path: String, concurrent: bool, announce: bool },
    /// Wait for the preflight that runs beside the proof.
    AwaitPreflight,
    /// Make the directory `dir` and write a proof to the file `path`. No other action writes one.
    Store { dir: String, path: String, bytes: Vec<u8> },
    /// Append a record to the proving log, then wait for the next item.
    Record(ProvingLog),
    /// Submit a proof if `submit` is set and append its record to the proving log, then wait for
    /// the next item.
    Publish { proof: Vec<u8>, log: ProvingLog, submit: bool },
    /// Exit.
    Stop,
}

/// Whether an event can happen in a state.
pub open spec fn worker_expects(state: WorkerState, event: WorkerEvent) -> bool {
    match state {
        WorkerState::Idle => event is Item || event is QueueClosed,
        WorkerState::Executing(_) => event is Executed,
        WorkerState::Preflighting(_) => event is Preflighted,
        WorkerState::Proving { .. } => event is Proved,
        WorkerState::Judging { .. } => event is Verdict,
        WorkerState::Storing { .. } => event is Stored,
        WorkerState::Stopped => false,
    }
}

impl WorkerRules {
    /// Whether the proof collector is told of a block that is proved.
    pub open spec fn posts(self, block: int) -> bool {
        self.has_client && (self.post_every is Some ==> due(self.post_every, block))
    }
}

/// A proof of `item` starts.
pub open spec fn proof_starts(
    rules: WorkerRules,
    item: WorkItem,
    concurrent: bool,
    post: WorkerState,
    action: WorkerAction,
) -> bool {
    &&& post == (WorkerState::Proving { item, concurrent })
    &&& action == (WorkerAction::Prove {
        block_number: item.block_number,
        bundle_path: item.bundle_path,
        concurrent,
        announce: rules.posts(item.block_number as int),
    })
}

/// The part of an item that is about proving starts, or the item is done.
pub open spec fn prove_part_starts(
    rules: WorkerRules,
    item: WorkItem,
    serial_preflight: bool,
    post: WorkerState,
    action: WorkerAction,
) -> bool {
    if !item.prove {
        post is Idle && action is Receive
    } else if serial_preflight {
        &&& post == WorkerState::Preflighting(item)
        &&& action == (WorkerAction::Preflight {
            block_number: item.block_number,
            bundle_path: item.bundle_path,
        })
    } else {
        proof_starts(rules, item, true, post, action)
    }
}

/// A record of a block without a proof is kept, and the item is done.
pub open spec fn unproved_recorded(
    block: u64,
    cycles: u64,
    message: Seq<char>,
    post: WorkerState,
    action: WorkerAction,
) -> bool {
    &&& post is Idle
    &&& action matches WorkerAction::Record(log) && log.is_unproved(block, cycles, message)
}

/// A proof is written to disk, or the lack of one is recorded.
pub open spec fn proof_concluded(
    item: WorkItem,
    result: ProofResult,
    post: WorkerState,
    action: WorkerAction,
) -> bool {
    match result {
        Ok(output) => {
            &&& post == (WorkerState::Storing { item, output })
            &&& action matches WorkerAction::Store { dir, path, bytes } && dir@ == output.dir@
                && path@ == output.path@ && bytes@ == output.bytes@
        },
        Err(e) => unproved_recorded(
            item.block_number,
            0,
            "FAILED: "@ + e.text_spec(),
            post,
            action,
        ),
    }
}

/// One step of the worker: the state that it goes to and what it asks for.
pub open spec fn worker_step(
    rules: WorkerRules,
    pre: WorkerState,
    event: WorkerEvent,
    serial_preflight: bool,
    post: WorkerState,
    action: WorkerAction,
) -> bool {
    match (pre, event) {
        (WorkerState::Idle, WorkerEvent::Item(item)) => if item.execute {
            &&& post == WorkerState::Executing(item)
            &&& action == (WorkerAction::Execute {
                block_number: item.block_number,
                bundle_path: item.bundle_path,
            })
        } else {
            prove_part_starts(rules, item, serial_preflight, post, action)
        },
        (WorkerState::Idle, WorkerEvent::QueueClosed) => post is Stopped && action is Stop,
        (WorkerState::Executing(item), WorkerEvent::Executed) => prove_part_starts(
            rules,
            item,
            serial_preflight,
            post,
            action,
        ),
        (WorkerState::Preflighting(item), WorkerEvent::Preflighted(Ok(run))) => if run.success(
            rules.exit_pc,
        ) {
            proof_starts(rules, item, false, post, action)
        } else {
            unproved_recorded(
                item.block_number,
                run.cycle_count,
                rejected_run_text(run),
                post,
                action,
            )
        },
        (WorkerState::Preflighting(item), WorkerEvent::Preflighted(Err(e))) => unproved_recorded(
            item.block_number,
            0,
            "SKIPPED: preflight error: "@ + e@,
            post,
            action,
        ),
        (WorkerState::Proving { item, concurrent }, WorkerEvent::Proved(result)) => if concurrent {
            post == (WorkerState::Judging { item, result }) && action is AwaitPreflight
        } else {
            proof_concluded(item, result, post, action)
        },
        (
            WorkerState::Judging { item, result },
            WorkerEvent::Verdict(verdict),
        ) => if verdict matches Some(run) && run.success(rules.exit_pc) {
            proof_concluded(item, result, post, action)
        } else {
            unproved_recorded(
                item.block_number,
                0,
                "SKIPPED: concurrent preflight failed; proof discarded"@,
                post,
                action,
            )
        },
        (WorkerState::Storing { item, output }, WorkerEvent::Stored(Ok(_))) => {
            &&& post is Idle
            &&& action == (WorkerAction::Publish {
                proof: output.bytes,
                log: output.log,
                submit: rules.posts(item.block_number as int),
            })
        },
        (WorkerState::Storing { item, .. }, WorkerEvent::Stored(Err(e))) => unproved_recorded(
            item.block_number,
            0,
            "FAILED: "@ + e@,
            post,
            action,
        ),
        _ => false,
    }
}

impl WorkerRules {
    fn start_proof(&self, item: WorkItem, concurrent: bool) -> (r: (WorkerState, WorkerAction))
        ensures
            proof_starts(*self, item, concurrent, r.0, r.1),
    {
        let block_number: u64 = item.block_number;
        let bundle_path = item.bundle_path.clone();
        let announce = posts_block(self.has_client, self.post_every, block_number);
        (
            WorkerState::Proving { item, concurrent },
            WorkerAction::Prove { block_number, bundle_path, concurrent, announce },
        )
    }

    fn start_prove_part(&self, item: WorkItem, serial_preflight: bool) -> (r: (
        WorkerState,
        WorkerAction,
    ))
        ensures
            prove_part_starts(*self, item, serial_preflight, r.0, r.1),
    {
        if !item.prove {
            (WorkerState::Idle, WorkerAction::Receive)
        } else if serial_preflight {
            let block_number: u64 = item.block_number;
            let bundle_path = item.bundle_path.clone();
            (
                WorkerState::Preflighting(item),
                WorkerAction::Preflight { block_number, bundle_path },
            )
        } else {
            self.start_proof(item, true)
        }
    }

    fn conclude(&self, item: WorkItem, result: ProofResult) -> (r: (WorkerState, WorkerAction))
        ensures
            proof_concluded(item, result, r.0, r.1),
    {
        match result {
            Ok(output) => {
                let dir = output.dir.clone();
                let path = output.path.clone();
                let mut bytes: Vec<u8> = Vec::new();
                bytes.extend_from_slice(output.bytes.as_slice());
                assert(bytes@ == output.bytes@);
                (
                    WorkerState::Storing { item, output },
                    WorkerAction::Store { dir, path, bytes },
                )
            },
            Err(e) => {
                let message = "FAILED: ".to_owned().concat(e.text().as_str());
                (
                    WorkerState::Idle,
                    WorkerAction::Record(ProvingLog::unproved(item.block_number, 0, message)),
                )
            },
        }
    }

    /// Takes one step. `serial_preflight` says whether a preflight that starts now is to end before
    /// the proof begins.
    pub fn step(&self, state: WorkerState, event: WorkerEvent, serial_preflight: bool) -> (r: (
        WorkerState,
        WorkerAction,
    ))
        requires
            worker_expects(state, event),
        ensures
            worker_step(*self, state, event, serial_preflight, r.0, r.1),
    {
        match (state, event) {
            (WorkerState::Idle, WorkerEvent::Item(item)) => {
                if item.execute {
                    let block_number: u64 = item.block_number;
                    let bundle_path = item.bundle_path.clone();
                    (
                        WorkerState::Executing(item),
                        WorkerAction::Execute { block_number, bundle_path },
                    )
                } else {
                    self.start_prove_part(item, serial_preflight)
                }
            },
            (WorkerState::Executing(item), WorkerEvent::Executed) => self.start_prove_part(
                item,
                serial_preflight,
            ),
            (WorkerState::Preflighting(item), WorkerEvent::Preflighted(outcome)) => match outcome {
                Ok(run) => if run.succeeded(self.exit_pc) {
                    self.start_proof(item, false)
                } else {
                    let log = ProvingLog::unproved(
                        item.block_number,
                        run.cycle_count,
                        rejected_run_message(&run),
                    );
                    (WorkerState::Idle, WorkerAction::Record(log))
                },
                Err(e) => {
                    let message = "SKIPPED: preflight error: ".to_owned().concat(e.as_str());
                    (
                        WorkerState::Idle,
                        WorkerAction::Record(ProvingLog::unproved(item.block_number, 0, message)),
                    )
                },
            },
            (
                WorkerState::Proving { item, concurrent },
                WorkerEvent::Proved(result),
            ) => if concurrent {
                (WorkerState::Judging { item, result }, WorkerAction::AwaitPreflight)
            } else {
                self.conclude(item, result)
            },
            (WorkerState::Judging { item, result }, WorkerEvent::Verdict(verdict)) => {
                let passed = match verdict {
                    Some(run) => run.succeeded(self.exit_pc),
                    None => false,
                };
                if passed {
                    self.conclude(item, result)
                } else {
                    let message = "SKIPPED: concurrent preflight failed; proof discarded".to_owned();
                    (
                        WorkerState::Idle,
                        WorkerAction::Record(ProvingLog::unproved(item.block_number, 0, message)),
                    )
                }
            },
            (WorkerState::Storing { item, output }, WorkerEvent::Stored(stored)) => match stored {
                Ok(_) => {
                    let submit = posts_block(
                        self.has_client,
                        self.post_every,
                        item.block_number,
                    );
                    (
                        WorkerState::Idle,
                        WorkerAction::Publish { proof: output.bytes, log: output.log, submit },
                    )
                },
                Err(e) => {
                    let message = "FAILED: ".to_owned().concat(e.as_str());
                    (
                        WorkerState::Idle,
                        WorkerAction::Record(ProvingLog::unproved(item.block_number, 0, message)),
                    )
                },
            },
            _ => (WorkerState::Stopped, WorkerAction::Stop),
        }
    }
}

/// One step in the life of a worker.
pub struct WorkerMove {
    pub event: WorkerEvent,
    pub serial_preflight: bool,
    pub post: WorkerState,
    pub action: WorkerAction,
}

/// The state before move `i` of a worker that started idle.
pub open spec fn state_before(moves: Seq<WorkerMove>, i: int) -> WorkerState {
    if i <= 0 {
        WorkerState::Idle
    } else {
        moves[i - 1].post
    }
}

/// Whether each move follows from the one before.
pub open spec fn worker_history(rules: WorkerRules, moves: Seq<WorkerMove>) -> bool {
    forall|i: int|
        #![trigger moves[i]]
        0 <= i < moves.len() ==> worker_step(
            rules,
            state_before(moves, i),
            moves[i].event,
            moves[i].serial_preflight,
            moves[i].post,
            moves[i].action,
        )
}

/// Whether an event reports a preflight that passed.
pub open spec fn preflight_passed(rules: WorkerRules, event: WorkerEvent) -> bool {
    match event {
        WorkerEvent::Preflighted(Ok(run)) => run.success(rules.exit_pc),
        WorkerEvent::Verdict(Some(run)) => run.success(rules.exit_pc),
        _ => false,
    }
}

/// The block that a worker is busy with.
pub open spec fn block_in_hand(state: WorkerState) -> Option<u64> {
    match state {
        WorkerState::Executing(item) => Some(item.block_number),
        WorkerState::Preflighting(item) => Some(item.block_number),
        WorkerState::Proving { item, .. } => Some(item.block_number),
        WorkerState::Judging { item, .. } => Some(item.block_number),
        WorkerState::Storing { item, .. } => Some(item.block_number),
        _ => None,
    }
}

/// Whether an event reports a preflight that did not pass.
pub open spec fn preflight_failed(rules: WorkerRules, event: WorkerEvent) -> bool {
    (event is Preflighted || event is Verdict) && !preflight_passed(rules, event)
}

/// A proof is written to disk only where a preflight of the same block has passed: as the worker was
/// told just now, where the preflight ran beside the proof, or just before the proof began.
pub proof fn law_stored_proofs_passed_preflight(rules: WorkerRules, moves: Seq<WorkerMove>, i: int)
    requires
        worker_history(rules, moves),
        0 <= i < moves.len(),
        moves[i].action is Store,
    ensures
        ({
            let judged = if moves[i].event is Verdict {
                i
            } else {
                i - 1
            };
            &&& 0 <= judged
            &&& preflight_passed(rules, moves[judged].event)
            &&& block_in_hand(state_before(moves, judged)) is Some
            &&& block_in_hand(state_before(moves, judged)) == block_in_hand(state_before(moves, i))
        }),
{
    if !(moves[i].event is Verdict) {
        assert(state_before(moves, i) is Proving);
        assert(moves[i - 1].post == state_before(moves, i));
    }
}

/// A proof is published only right after it was written to disk, for the same block, and so only
/// where a preflight of the block has passed.
pub proof fn law_published_proofs_were_stored(rules: WorkerRules, moves: Seq<WorkerMove>, i: int)
    requires
        worker_history(rules, moves),
        0 <= i < moves.len(),
        moves[i].action is Publish,
    ensures
        i > 0,
        moves[i].event matches WorkerEvent::Stored(Ok(_)),
        moves[i - 1].action is Store,
        moves[i - 1].action->bytes@ == moves[i].action->proof@,
        block_in_hand(state_before(moves, i - 1)) is Some,
        block_in_hand(state_before(moves, i - 1)) == block_in_hand(state_before(moves, i)),
        moves[i].action->submit == rules.posts(
            block_in_hand(state_before(moves, i))->0 as int,
        ),
{
    assert(state_before(moves, i) is Storing);
    assert(moves[i - 1].post == state_before(moves, i));
}

/// A preflight that does not pass ends the work on its block: the block is recorded without a proof,
/// and no file is written and nothing is published for it.
pub proof fn law_failed_preflight_leaves_no_file(
    rules: WorkerRules,
    pre: WorkerState,
    event: WorkerEvent,
    serial_preflight: bool,
    post: WorkerState,
    action: WorkerAction,
)
    requires
        worker_step(rules, pre, event, serial_preflight, post, action),
        preflight_failed(rules, event),
    ensures
        action is Record,
        Some(action->Record_0.block_number) == block_in_hand(pre),
        post is Idle,
{
}

/// Where the preflight is to end before the proof begins, no proof begins without a preflight that
/// passed.
pub proof fn law_serial_preflight_holds_back_the_proof(
    rules: WorkerRules,
    pre: WorkerState,
    event: WorkerEvent,
    post: WorkerState,
    action: WorkerAction,
)
    requires
        worker_step(rules, pre, event, true, post, action),
        action is Prove,
    ensures
        pre is Preflighting,
        preflight_passed(rules, event),
{
}

/// The block that a move brings, if it is to be proved.
pub open spec fn proof_work(m: WorkerMove) -> Seq<u64> {
    match m.event {
        WorkerEvent::Item(item) => if item.prove {
            seq![item.block_number]
        } else {
            Seq::<u64>::empty()
        },
        _ => Seq::<u64>::empty(),
    }
}

/// The block that a move leaves a record of in the proving log, if it leaves one.
pub open spec fn record_left(m: WorkerMove) -> Seq<u64> {
    match m.action {
        WorkerAction::Record(log) => seq![log.block_number],
        WorkerAction::Publish { log, .. } => seq![log.block_number],
        _ => Seq::<u64>::empty(),
    }
}

/// The blocks that the first `n` moves brought to be proved, in order.
pub open spec fn blocks_to_prove(moves: Seq<WorkerMove>, n: nat) -> Seq<u64>
    decreases n,
{
    if n == 0 {
        Seq::<u64>::empty()
    } else {
        blocks_to_prove(moves, (n - 1) as nat) + proof_work(moves[n - 1])
    }
}

/// The blocks that the first `n` moves left records of, in order.
pub open spec fn recorded_blocks(moves: Seq<WorkerMove>, n: nat) -> Seq<u64>
    decreases n,
{
    if n == 0 {
        Seq::<u64>::empty()
    } else {
        recorded_blocks(moves, (n - 1) as nat) + record_left(moves[n - 1])
    }
}

/// The block that a worker has in hand and of which the record is still to come.
pub open spec fn record_owed(state: WorkerState) -> Seq<u64> {
    match state {
        WorkerState::Executing(item) => if item.prove {
            seq![item.block_number]
        } else {
            Seq::<u64>::empty()
        },
        WorkerState::Preflighting(item) => seq![item.block_number],
        WorkerState::Proving { item, .. } => seq![item.block_number],
        WorkerState::Judging { item, .. } => seq![item.block_number],
        WorkerState::Storing { item, .. } => seq![item.block_number],
        _ => Seq::<u64>::empty(),
    }
}

/// Whether the record of a proof names the block that the worker has in hand.
pub open spec fn prover_names_the_block(state: WorkerState, event: WorkerEvent) -> bool {
    event matches WorkerEvent::Proved(Ok(output)) ==> Some(output.log.block_number)
        == block_in_hand(state)
}

/// Whether the prover's records name the blocks that it was given.
pub open spec fn prover_names_blocks(moves: Seq<WorkerMove>) -> bool {
    forall|i: int|
        #![trigger moves[i]]
        0 <= i < moves.len() ==> prover_names_the_block(state_before(moves, i), moves[i].event)
}

/// Whether the proof that a worker has in hand is recorded under the block that it has in hand.
pub open spec fn proof_in_hand_named(state: WorkerState) -> bool {
    match state {
        WorkerState::Judging { item, result } => result matches Ok(output)
            ==> output.log.block_number == item.block_number,
        WorkerState::Storing { item, output } => output.log.block_number == item.block_number,
        _ => true,
    }
}

/// Each item that is to be proved leaves one record in the proving log, whatever becomes of it, under
/// its own block, and no other item leaves any. The records come in the order of the queue: after any
/// number of moves the recorded blocks, and the one of which the record is still owed, are the blocks
/// that were brought to be proved. The record of a proof is the prover's own, so this holds of a
/// prover that names the block that it was given.
pub proof fn law_one_record_for_each_proof_item(
    rules: WorkerRules,
    moves: Seq<WorkerMove>,
    n: nat,
)
    requires
        worker_history(rules, moves),
        prover_names_blocks(moves),
        n <= moves.len(),
    ensures
        blocks_to_prove(moves, n) == recorded_blocks(moves, n) + record_owed(
            state_before(moves, n as int),
        ),
        proof_in_hand_named(state_before(moves, n as int)),
    decreases n,
{
    if n > 0 {
        law_one_record_for_each_proof_item(rules, moves, (n - 1) as nat);
        let m = moves[n - 1];
        let pre = state_before(moves, n - 1);
        assert(worker_step(rules, pre, m.event, m.serial_preflight, m.post, m.action));
        assert(prover_names_the_block(pre, m.event));
        assert(record_owed(pre) + proof_work(m) == record_left(m) + record_owed(m.post));
        assert(blocks_to_prove(moves, n) == recorded_blocks(moves, n) + record_owed(m.post));
    }
}

/// Whether the proof collector hears of a block that is proved: if there is one, and if the posting
/// interval, where there is one, picks the block.
pub proof fn law_what_the_collector_hears_of(rules: WorkerRules, block: int)
    ensures
        rules.posts(block) <==> rules.has_client && (rules.post_every is None || due(
            rules.post_every,
            block,
        )),
{
}

/// What becomes of an item. An item that is to be executed is executed first. An item that is to be
/// proved then goes to its preflight, or to the prover with the preflight beside it. An item for
/// neither is done, and so is a worker whose queue is closed.
pub proof fn law_items_are_worked_on(
    rules: WorkerRules,
    pre: WorkerState,
    event: WorkerEvent,
    serial_preflight: bool,
    post: WorkerState,
    action: WorkerAction,
    item: WorkItem,
)
    requires
        worker_step(rules, pre, event, serial_preflight, post, action),
    ensures
        pre is Idle && event == WorkerEvent::Item(item) && item.execute ==> {
            &&& action is Execute
            &&& action->Execute_block_number == item.block_number
            &&& action->Execute_bundle_path == item.bundle_path
            &&& post == WorkerState::Executing(item)
        },
        (pre is Idle && event == WorkerEvent::Item(item) && !item.execute) || (pre
            == WorkerState::Executing(item) && event is Executed) ==> {
            &&& !item.prove ==> action is Receive && post is Idle
            &&& item.prove && serial_preflight ==> {
                &&& action is Preflight
                &&& action->Preflight_block_number == item.block_number
                &&& action->Preflight_bundle_path == item.bundle_path
                &&& post == WorkerState::Preflighting(item)
            }
            &&& item.prove && !serial_preflight ==> {
                &&& action is Prove
                &&& action->Prove_block_number == item.block_number
                &&& action->Prove_bundle_path == item.bundle_path
                &&& action->concurrent
                &&& action->announce == (rules.has_client && (rules.post_every is None || due(
                    rules.post_every,
                    item.block_number as int,
                )))
                &&& post == (WorkerState::Proving { item, concurrent: true })
            }
        },
        pre is Idle && event is QueueClosed ==> action is Stop && post is Stopped,
{
}

/// What a preflight decides. Where the run reached its end and parked at the exit of the guest, the
/// proof begins, or the proof that was made beside it is written to disk. Where it did not, or where
/// there was no run, the block is recorded without a proof.
pub proof fn law_preflight_decides(
    rules: WorkerRules,
    pre: WorkerState,
    event: WorkerEvent,
    serial_preflight: bool,
    post: WorkerState,
    action: WorkerAction,
)
    requires
        worker_step(rules, pre, event, serial_preflight, post, action),
    ensures
        (pre, event) matches (
            WorkerState::Preflighting(item),
            WorkerEvent::Preflighted(Ok(run)),
        ) ==> {
            let parked = run.reached_end && run.final_pc == rules.exit_pc;
            &&& parked ==> {
                &&& action is Prove
                &&& action->Prove_block_number == item.block_number
                &&& action->Prove_bundle_path == item.bundle_path
                &&& !action->concurrent
                &&& action->announce == (rules.has_client && (rules.post_every is None || due(
                    rules.post_every,
                    item.block_number as int,
                )))
                &&& post == (WorkerState::Proving { item, concurrent: false })
            }
            &&& !parked ==> {
                &&& post is Idle
                &&& action is Record
                &&& action->Record_0.block_number == item.block_number
                &&& action->Record_0.gas_used == 0
                &&& action->Record_0.cycle_count == run.cycle_count
                &&& action->Record_0.num_proofs == 0
                &&& action->Record_0.proving_millis == 0
                &&& action->Record_0.message@ == "SKIPPED: guest validation failure (final_pc=0x"@
                    + hex8(run.final_pc) + " reached_end="@ + bool_text(run.reached_end) + ")"@
            }
        },
        (pre, event) matches (
            WorkerState::Preflighting(item),
            WorkerEvent::Preflighted(Err(e)),
        ) ==> {
            &&& post is Idle
            &&& action is Record
            &&& action->Record_0.block_number == item.block_number
            &&& action->Record_0.gas_used == 0
            &&& action->Record_0.cycle_count == 0
            &&& action->Record_0.num_proofs == 0
            &&& action->Record_0.proving_millis == 0
            &&& action->Record_0.message@ == "SKIPPED: preflight error: "@ + e@
        },
        (pre, event) matches (
            WorkerState::Judging { item, result },
            WorkerEvent::Verdict(verdict),
        ) ==> {
            let parked = verdict is Some && verdict->0.reached_end && verdict->0.final_pc
                == rules.exit_pc;
            &&& parked && result is Ok ==> {
                &&& action is Store
                &&& action->dir@ == result->Ok_0.dir@
                &&& action->path@ == result->Ok_0.path@
                &&& action->bytes@ == result->Ok_0.bytes@
                &&& post == (WorkerState::Storing { item, output: result->Ok_0 })
            }
            &&& parked && result is Err ==> {
                &&& post is Idle
                &&& action is Record
                &&& action->Record_0.block_number == item.block_number
                &&& action->Record_0.cycle_count == 0
                &&& action->Record_0.message@ == "FAILED: "@ + result->Err_0.text_spec()
            }
            &&& !parked ==> {
                &&& post is Idle
                &&& action is Record
                &&& action->Record_0.block_number == item.block_number
                &&& action->Record_0.gas_used == 0
                &&& action->Record_0.cycle_count == 0
                &&& action->Record_0.num_proofs == 0
                &&& action->Record_0.proving_millis == 0
                &&& action->Record_0.message@
                    == "SKIPPED: concurrent preflight failed; proof discarded"@
            }
        },
{
}

/// What becomes of a proof. One that had no preflight beside it is written to disk, and one that had
/// waits for it. One that was written is published with its own record, and submitted if the proof
/// collector hears of its block. A proof that failed, or that could not be written, is recorded as
/// failed.
pub proof fn law_proofs_are_made_known(
    rules: WorkerRules,
    pre: WorkerState,
    event: WorkerEvent,
    serial_preflight: bool,
    post: WorkerState,
    action: WorkerAction,
)
    requires
        worker_step(rules, pre, event, serial_preflight, post, action),
    ensures
        (pre, event) matches (
            WorkerState::Proving { item, concurrent },
            WorkerEvent::Proved(result),
        ) ==> {
            &&& concurrent ==> action is AwaitPreflight && post == (WorkerState::Judging {
                item,
                result,
            })
            &&& !concurrent && result is Ok ==> {
                &&& action is Store
                &&& action->dir@ == result->Ok_0.dir@
                &&& action->path@ == result->Ok_0.path@
                &&& action->bytes@ == result->Ok_0.bytes@
                &&& post == (WorkerState::Storing { item, output: result->Ok_0 })
            }
            &&& !concurrent && result is Err ==> {
                &&& post is Idle
                &&& action is Record
                &&& action->Record_0.block_number == item.block_number
                &&& action->Record_0.gas_used == 0
                &&& action->Record_0.cycle_count == 0
                &&& action->Record_0.num_proofs == 0
                &&& action->Record_0.proving_millis == 0
                &&& action->Record_0.message@ == "FAILED: "@ + result->Err_0.text_spec()
            }
        },
        (pre, event) matches (
            WorkerState::Storing { item, output },
            WorkerEvent::Stored(stored),
        ) ==> {
            &&& post is Idle
            &&& stored is Ok ==> {
                &&& action is Publish
                &&& action->proof == output.bytes
                &&& action->log == output.log
                &&& action->submit == (rules.has_client && (rules.post_every is None || due(
                    rules.post_every,
                    item.block_number as int,
                )))
            }
            &&& stored is Err ==> {
                &&& action is Record
                &&& action->Record_0.block_number == item.block_number
                &&& action->Record_0.gas_used == 0
                &&& action->Record_0.cycle_count == 0
                &&& action->Record_0.num_proofs == 0
                &&& action->Record_0.proving_millis == 0
                &&& action->Record_0.message@ == "FAILED: "@ + stored->Err_0@
            }
        },
{
}

/// A block that is worked on from its item on, whose preflight beside the proof parks at the exit,
/// whose proof is made and can be written, is published: its proof and its record are those that the
/// prover gave.
pub proof fn law_good_proofs_are_published(
    rules: WorkerRules,
    moves: Seq<WorkerMove>,
    i: int,
    item: WorkItem,
    output: ProofOutput,
    run: VmRunOutcome,
)
    requires
        worker_history(rules, moves),
        0 <= i,
        i + 3 < moves.len(),
        state_before(moves, i) is Idle,
        item.prove,
        !item.execute,
        !moves[i].serial_preflight,
        moves[i].event == WorkerEvent::Item(item),
        moves[i + 1].event == WorkerEvent::Proved(Ok(output)),
        moves[i + 2].event == WorkerEvent::Verdict(Some(run)),
        run.reached_end,
        run.final_pc == rules.exit_pc,
        moves[i + 3].event matches WorkerEvent::Stored(Ok(_)),
    ensures
        moves[i].action is Prove,
        moves[i].action->Prove_block_number == item.block_number,
        moves[i + 2].action is Store,
        moves[i + 2].action->path@ == output.path@,
        moves[i + 2].action->bytes@ == output.bytes@,
        moves[i + 3].action is Publish,
        moves[i + 3].action->proof == output.bytes,
        moves[i + 3].action->log == output.log,
{
    assert(worker_step(
        rules,
        state_before(moves, i),
        moves[i].event,
        moves[i].serial_preflight,
        moves[i].post,
        moves[i].action,
    ));
    assert(state_before(moves, i + 1) == moves[i].post);
    assert(state_before(moves, i + 2) == moves[i + 1].post);
    assert(state_before(moves, i + 3) == moves[i + 2].post);
}

} // verus!
