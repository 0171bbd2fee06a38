use z6m_prover::run::{
    rejected_run_message, ProofOutput, ProofSummary, ProveError, ProvingLog, VmRunOutcome,
};
use z6m_prover::worker::{
    ProofResult, WorkItem, WorkerAction, WorkerEvent, WorkerRules, WorkerState,
};

const RULES: WorkerRules = WorkerRules { exit_pc: 0x40, has_client: true, post_every: None };

fn item(execute: bool, prove: bool) -> WorkItem {
    WorkItem { block_number: 7, bundle_path: String::from("b7"), execute, prove }
}

fn run(final_pc: u32, reached_end: bool) -> VmRunOutcome {
    VmRunOutcome { gas_used: 5, cycle_count: 11, reached_end, final_pc }
}

fn summary() -> ProofSummary {
    ProofSummary { gas_register: 21000, family_proofs: 3, init_proofs: 1, delegation_proofs: 2 }
}

fn proved() -> ProofResult {
    Ok(ProofOutput {
        dir: String::from("proofs/7"),
        path: String::from("proofs/7/proof.bin"),
        bytes: vec![1, 2],
        log: ProvingLog::success(7, 99, 1500, &summary()),
    })
}

fn stored(rules: &WorkerRules, state: WorkerState, action: WorkerAction) -> WorkerAction {
    match action {
        WorkerAction::Store { dir, path, bytes } => {
            assert_eq!(dir, "proofs/7");
            assert_eq!(path, "proofs/7/proof.bin");
            assert_eq!(bytes, vec![1, 2]);
        }
        other => panic!("{:?}", other),
    }
    let (state, action) = rules.step(state, WorkerEvent::Stored(Ok(())), false);
    assert!(matches!(state, WorkerState::Idle));
    action
}

fn message_of(action: WorkerAction) -> (u64, u64, String) {
    match action {
        WorkerAction::Record(log) => {
            assert_eq!((log.gas_used, log.num_proofs, log.proving_millis), (0, 0, 0));
            (log.block_number, log.cycle_count, log.message)
        }
        other => panic!("{:?}", other),
    }
}

#[test]
fn items_without_work_are_passed_over() {
    let (state, action) =
        RULES.step(WorkerState::Idle, WorkerEvent::Item(item(false, false)), false);
    assert!(matches!(state, WorkerState::Idle));
    assert!(matches!(action, WorkerAction::Receive));
}

#[test]
fn a_closed_queue_stops_the_worker() {
    let (state, action) = RULES.step(WorkerState::Idle, WorkerEvent::QueueClosed, false);
    assert!(matches!(state, WorkerState::Stopped));
    assert!(matches!(action, WorkerAction::Stop));
}

#[test]
fn execution_comes_before_the_next_item() {
    let (state, action) =
        RULES.step(WorkerState::Idle, WorkerEvent::Item(item(true, false)), false);
    match action {
        WorkerAction::Execute { block_number, bundle_path } => {
            assert_eq!((block_number, bundle_path.as_str()), (7, "b7"))
        }
        other => panic!("{:?}", other),
    }
    let (state, action) = RULES.step(state, WorkerEvent::Executed, false);
    assert!(matches!(state, WorkerState::Idle));
    assert!(matches!(action, WorkerAction::Receive));
}

#[test]
fn an_item_can_be_executed_and_proved() {
    let (state, _) = RULES.step(WorkerState::Idle, WorkerEvent::Item(item(true, true)), false);
    let (state, action) = RULES.step(state, WorkerEvent::Executed, true);
    assert!(matches!(state, WorkerState::Preflighting(_)));
    assert!(matches!(action, WorkerAction::Preflight { block_number: 7, .. }));
}

#[test]
fn a_proof_with_a_preflight_beside_it_is_published_after_both() {
    let (state, action) =
        RULES.step(WorkerState::Idle, WorkerEvent::Item(item(false, true)), false);
    assert!(matches!(
        action,
        WorkerAction::Prove { block_number: 7, concurrent: true, announce: true, .. }
    ));
    let (state, action) = RULES.step(state, WorkerEvent::Proved(proved()), false);
    assert!(matches!(action, WorkerAction::AwaitPreflight));
    let (state, action) = RULES.step(state, WorkerEvent::Verdict(Some(run(0x40, true))), false);
    match stored(&RULES, state, action) {
        WorkerAction::Publish { proof, log, submit } => {
            assert_eq!(proof, vec![1, 2]);
            assert_eq!(log.message, "Success");
            assert!(submit);
        }
        other => panic!("{:?}", other),
    }
}

#[test]
fn a_failed_preflight_discards_the_proof_beside_it() {
    for verdict in [None, Some(run(0x44, true)), Some(run(0x40, false))] {
        let (state, _) =
            RULES.step(WorkerState::Idle, WorkerEvent::Item(item(false, true)), false);
        let (state, _) = RULES.step(state, WorkerEvent::Proved(proved()), false);
        let (state, action) = RULES.step(state, WorkerEvent::Verdict(verdict), false);
        assert!(matches!(state, WorkerState::Idle));
        assert_eq!(
            message_of(action),
            (
                7,
                0,
                String::from("SKIPPED: concurrent preflight failed; proof discarded")
            )
        );
    }
}

#[test]
fn a_serial_preflight_holds_back_the_proof() {
    let (state, action) =
        RULES.step(WorkerState::Idle, WorkerEvent::Item(item(false, true)), true);
    assert!(matches!(action, WorkerAction::Preflight { .. }));
    let (state, action) =
        RULES.step(state, WorkerEvent::Preflighted(Ok(run(0x40, true))), true);
    assert!(matches!(action, WorkerAction::Prove { concurrent: false, announce: true, .. }));
    let (state, action) = RULES.step(state, WorkerEvent::Proved(proved()), true);
    assert!(matches!(
        stored(&RULES, state, action),
        WorkerAction::Publish { submit: true, .. }
    ));
}

#[test]
fn a_rejected_serial_preflight_skips_the_proof() {
    let (state, _) = RULES.step(WorkerState::Idle, WorkerEvent::Item(item(false, true)), true);
    let (_, action) = RULES.step(state, WorkerEvent::Preflighted(Ok(run(0xabc, true))), true);
    assert_eq!(
        message_of(action),
        (
            7,
            11,
            String::from(
                "SKIPPED: guest validation failure (final_pc=0x00000abc reached_end=true)"
            )
        )
    );
}

#[test]
fn a_serial_preflight_that_errors_skips_the_proof() {
    let (state, _) = RULES.step(WorkerState::Idle, WorkerEvent::Item(item(false, true)), true);
    let (_, action) =
        RULES.step(state, WorkerEvent::Preflighted(Err(String::from("no file"))), true);
    assert_eq!(message_of(action), (7, 0, String::from("SKIPPED: preflight error: no file")));
}

#[test]
fn a_failed_proof_is_recorded() {
    let (state, _) = RULES.step(WorkerState::Idle, WorkerEvent::Item(item(false, true)), false);
    let (state, _) =
        RULES.step(state, WorkerEvent::Proved(Err(ProveError::NotInitialized)), false);
    let (_, action) = RULES.step(state, WorkerEvent::Verdict(Some(run(0x40, true))), false);
    assert_eq!(
        message_of(action),
        (7, 0, String::from("FAILED: GPU prover not initialized (--gpu not set?)"))
    );
}

#[test]
fn without_a_client_nothing_is_announced_or_submitted() {
    let rules = WorkerRules { has_client: false, ..RULES };
    let (state, action) =
        rules.step(WorkerState::Idle, WorkerEvent::Item(item(false, true)), false);
    assert!(matches!(action, WorkerAction::Prove { announce: false, .. }));
    let (state, _) = rules.step(state, WorkerEvent::Proved(proved()), false);
    let (state, action) = rules.step(state, WorkerEvent::Verdict(Some(run(0x40, true))), false);
    assert!(matches!(
        stored(&rules, state, action),
        WorkerAction::Publish { submit: false, .. }
    ));
}

#[test]
fn blocks_between_the_posting_interval_are_proved_in_silence() {
    for (post_every, told) in [(Some(7), true), (Some(2), false), (Some(0), false), (None, true)] {
        let rules = WorkerRules { post_every, ..RULES };
        let (state, action) =
            rules.step(WorkerState::Idle, WorkerEvent::Item(item(false, true)), false);
        match action {
            WorkerAction::Prove { announce, .. } => assert_eq!(announce, told),
            other => panic!("{:?}", other),
        }
        let (state, _) = rules.step(state, WorkerEvent::Proved(proved()), false);
        let (state, action) =
            rules.step(state, WorkerEvent::Verdict(Some(run(0x40, true))), false);
        match stored(&rules, state, action) {
            WorkerAction::Publish { submit, .. } => assert_eq!(submit, told),
            other => panic!("{:?}", other),
        }
    }
}

#[test]
fn a_proof_that_cannot_be_written_is_not_published() {
    let (state, _) = RULES.step(WorkerState::Idle, WorkerEvent::Item(item(false, true)), false);
    let (state, _) = RULES.step(state, WorkerEvent::Proved(proved()), false);
    let (state, _) = RULES.step(state, WorkerEvent::Verdict(Some(run(0x40, true))), false);
    let (state, action) =
        RULES.step(state, WorkerEvent::Stored(Err(String::from("disk full"))), false);
    assert!(matches!(state, WorkerState::Idle));
    assert_eq!(message_of(action), (7, 0, String::from("FAILED: disk full")));
}

#[test]
fn runs_succeed_at_their_exit_only() {
    assert!(run(0x40, true).succeeded(0x40));
    assert!(!run(0x40, false).succeeded(0x40));
    assert!(!run(0x44, true).succeeded(0x40));
}

#[test]
fn cycles_are_counted_from_timestamps() {
    let outcome = VmRunOutcome::from_machine(4 + 4 * 250 + 3, 4, 4, u32::MAX, true, 0x40);
    assert_eq!(outcome.cycle_count, 250);
    assert_eq!(outcome.gas_used, u32::MAX as u64);
    assert!(outcome.reached_end);
    assert_eq!(outcome.final_pc, 0x40);
}

#[test]
fn proofs_are_recorded_with_their_counts() {
    let log = ProvingLog::success(7, 99, (1u128 << 64) + 1500, &summary());
    assert_eq!(log.num_proofs, 6);
    assert_eq!(log.proving_millis, 1500);
    assert_eq!(
        log.line("2026-07-27T00:00:00.000000Z"),
        "2026-07-27T00:00:00.000000Z block=7 gas=21000 cycles=99 proofs=6 time=1500ms Success"
    );
    assert_eq!(log.entry("T"), "T block=7 gas=21000 cycles=99 proofs=6 time=1500ms Success\n");
}

#[test]
fn failures_to_prove_have_texts() {
    assert_eq!(ProveError::Input(String::from("e")).text(), "e");
    assert_eq!(ProveError::Join(String::from("e")).text(), "Proving task join error: e");
    assert_eq!(
        ProveError::Panicked(Some(String::from("e"))).text(),
        "gpu_prove panicked: e"
    );
    assert_eq!(
        ProveError::Panicked(None).text(),
        "gpu_prove panicked: non-string panic payload"
    );
    assert_eq!(
        ProveError::NoGpuSupport.text(),
        "Compiled without GPU support. Rebuild with --features gpu"
    );
}

#[test]
fn rejected_runs_are_described() {
    assert_eq!(
        rejected_run_message(&run(0xdeadbeef, false)),
        "SKIPPED: guest validation failure (final_pc=0xdeadbeef reached_end=false)"
    );
}
