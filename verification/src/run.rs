//! What comes of running a block: the outcome of a guest run, and the record that is kept of a
//! proof or of the lack of one.

use vstd::prelude::*;
use crate::text::{append_bool, append_decimal, append_hex8, bool_text, decimal, hex8};

verus! {

/// Result of running a block through the executor, without proving it.
#[derive(Clone, Copy, Debug, PartialEq, Eq, Structural)]
pub struct VmRunOutcome {
    pub gas_used: u64,
    pub cycle_count: u64,
    pub reached_end: bool,
    pub final_pc: u32,
}

/// The record of one attempt at a proof.
#[derive(Clone, Debug)]
pub struct ProvingLog {
    pub block_number: u64,
    pub gas_used: u64,
    pub cycle_count: u64,
    pub num_proofs: usize,
    pub proving_millis: u64,
    pub message: String,
}

/// What a finished proof says of itself.
#[derive(Clone, Copy, Debug, PartialEq, Eq, Structural)]
pub struct ProofSummary {
    /// The final value of the register in which the guest leaves the gas used.
    pub gas_register: u32,
    pub family_proofs: usize,
    pub init_proofs: usize,
    pub delegation_proofs: usize,
}

/// A finished proof, and what is to be kept of it.
#[derive(Clone, Debug)]
pub struct ProofOutput {
    /// The directory of the block's proof.
    pub dir: String,
    /// The file of the block's proof.
    pub path: String,
    /// The proof as it is written to the file and submitted.
    pub bytes: Vec<u8>,
    pub log: ProvingLog,
}

/// Why a block could not be proved.
#[derive(Clone, Debug)]
pub enum ProveError {
    /// The input of the block could not be turned into words for the guest.
    Input(String),
    /// No prover was set up.
    NotInitialized,
    /// The task that ran the prover did not finish.
    Join(String),
    /// The prover panicked, with a text or with something else.
    Panicked(Option<String>),
    /// The program was built without a prover.
    NoGpuSupport,
}

impl VmRunOutcome {
    /// Whether a guest run counts as a success for a guest that parks at `exit_pc`.
    pub open spec fn success(self, exit_pc: u32) -> bool {
        self.reached_end && self.final_pc == exit_pc
    }

    /// The guest signals success by parking in the self-loop of its exit sequence; a validation
    /// failure parks in a loop at a different program counter.
    pub fn succeeded(&self, exit_pc: u32) -> (ok: bool)
        ensures
            ok == self.success(exit_pc),
    {
        self.reached_end && self.final_pc == exit_pc
    }

    /// The outcome of a run that started at timestamp `initial` and advanced by `step` for each
    /// cycle. The guest leaves the gas used in the register `gas_register`.
    pub fn from_machine(
        timestamp: u64,
        initial: u64,
        step: u64,
        gas_register: u32,
        reached_end: bool,
        final_pc: u32,
    ) -> (outcome: VmRunOutcome)
        requires
            initial <= timestamp,
            step > 0,
        ensures
            outcome.gas_used == gas_register,
            outcome.cycle_count as int == (timestamp - initial) / (step as int),
            outcome.reached_end == reached_end,
            outcome.final_pc == final_pc,
    {
        VmRunOutcome {
            gas_used: gas_register as u64,
            cycle_count: (timestamp - initial) / step,
            reached_end,
            final_pc,
        }
    }
}

impl ProvingLog {
    /// Whether a record stands for an attempt that gave no proof.
    pub open spec fn is_unproved(self, block: u64, cycles: u64, message: Seq<char>) -> bool {
        &&& self.block_number == block
        &&& self.gas_used == 0
        &&& self.cycle_count == cycles
        &&& self.num_proofs == 0
        &&& self.proving_millis == 0
        &&& self.message@ == message
    }

    /// The record of an attempt that gave no proof.
    pub fn unproved(block_number: u64, cycle_count: u64, message: String) -> (log: ProvingLog)
        ensures
            log.is_unproved(block_number, cycle_count, message@),
    {
        ProvingLog {
            block_number,
            gas_used: 0,
            cycle_count,
            num_proofs: 0,
            proving_millis: 0,
            message,
        }
    }

    /// The record of a proof that took `elapsed_millis`, of which the low 64 bits are kept.
    pub fn success(
        block_number: u64,
        cycle_count: u64,
        elapsed_millis: u128,
        summary: &ProofSummary,
    ) -> (log: ProvingLog)
        requires
            summary.family_proofs + summary.init_proofs + summary.delegation_proofs <= usize::MAX,
        ensures
            log.block_number == block_number,
            log.gas_used == summary.gas_register,
            log.cycle_count == cycle_count,
            log.num_proofs == summary.family_proofs + summary.init_proofs
                + summary.delegation_proofs,
            log.proving_millis as int == elapsed_millis as int % 0x1_0000_0000_0000_0000,
            log.message@ == "Success"@,
    {
        assert(#[verifier::truncate] (elapsed_millis as u64) == elapsed_millis
            % 0x1_0000_0000_0000_0000u128) by (bit_vector);
        ProvingLog {
            block_number,
            gas_used: summary.gas_register as u64,
            cycle_count,
            num_proofs: summary.family_proofs + summary.init_proofs + summary.delegation_proofs,
            proving_millis: #[verifier::truncate] (elapsed_millis as u64),
            message: "Success".to_owned(),
        }
    }

    /// The line of the proving log that holds this record.
    pub open spec fn line_text(self, timestamp: Seq<char>) -> Seq<char> {
        timestamp + " block="@ + decimal(self.block_number as nat) + " gas="@ + decimal(
            self.gas_used as nat,
        ) + " cycles="@ + decimal(self.cycle_count as nat) + " proofs="@ + decimal(
            self.num_proofs as nat,
        ) + " time="@ + decimal(self.proving_millis as nat) + "ms "@ + self.message@
    }

    /// The line of the proving log that holds this record, without its line break.
    pub fn line(&self, timestamp: &str) -> (line: String)
        ensures
            line@ == self.line_text(timestamp@),
    {
        let mut out = timestamp.to_owned();
        out.append(" block=");
        append_decimal(&mut out, self.block_number);
        out.append(" gas=");
        append_decimal(&mut out, self.gas_used);
        out.append(" cycles=");
        append_decimal(&mut out, self.cycle_count);
        out.append(" proofs=");
        append_decimal(&mut out, self.num_proofs as u64);
        out.append(" time=");
        append_decimal(&mut out, self.proving_millis);
        out.append("ms ");
        out.append(self.message.as_str());
        out
    }

    /// What is appended to the proving log for this record: its line and a line break.
    pub open spec fn entry_text(self, timestamp: Seq<char>) -> Seq<char> {
        self.line_text(timestamp) + "\n"@
    }

    /// What is appended to the proving log for this record.
    pub fn entry(&self, timestamp: &str) -> (entry: String)
        ensures
            entry@ == self.entry_text(timestamp@),
    {
        self.line(timestamp).concat("\n")
    }
}

impl ProveError {
    /// The text of a failure.
    pub open spec fn text_spec(self) -> Seq<char> {
        match self {
            ProveError::Input(e) => e@,
            ProveError::NotInitialized => "GPU prover not initialized (--gpu not set?)"@,
            ProveError::Join(e) => "Proving task join error: "@ + e@,
            ProveError::Panicked(Some(e)) => "gpu_prove panicked: "@ + e@,
            ProveError::Panicked(None) => "gpu_prove panicked: "@ + "non-string panic payload"@,
            ProveError::NoGpuSupport =>
                "Compiled without GPU support. Rebuild with --features gpu"@,
        }
    }

    /// The text of a failure.
    pub fn text(&self) -> (text: String)
        ensures
            text@ == self.text_spec(),
    {
        match self {
            ProveError::Input(e) => e.clone(),
            ProveError::NotInitialized => "GPU prover not initialized (--gpu not set?)".to_owned(),
            ProveError::Join(e) => "Proving task join error: ".to_owned().concat(e.as_str()),
            ProveError::Panicked(Some(e)) => "gpu_prove panicked: ".to_owned().concat(e.as_str()),
            ProveError::Panicked(None) => "gpu_prove panicked: ".to_owned().concat(
                "non-string panic payload",
            ),
            ProveError::NoGpuSupport =>
                "Compiled without GPU support. Rebuild with --features gpu".to_owned(),
        }
    }
}

/// What is recorded of a block whose guest run did not end in success.
pub open spec fn rejected_run_text(run: VmRunOutcome) -> Seq<char> {
    "SKIPPED: guest validation failure (final_pc=0x"@ + hex8(run.final_pc) + " reached_end="@
        + bool_text(run.reached_end) + ")"@
}

/// What is recorded of a block whose guest run did not end in success.
pub fn rejected_run_message(run: &VmRunOutcome) -> (message: String)
    ensures
        message@ == rejected_run_text(*run),
{
    let mut out = "SKIPPED: guest validation failure (final_pc=0x".to_owned();
    append_hex8(&mut out, run.final_pc);
    out.append(" reached_end=");
    append_bool(&mut out, run.reached_end);
    out.append(")");
    out
}

/// A run is a success for a guest that parks at `exit_pc` exactly if it reached its end and parked
/// there. A run that parked anywhere else, or that did not end, is none, whatever gas and cycles it
/// took.
pub proof fn law_success_means_parked_at_the_exit(run: VmRunOutcome, exit_pc: u32)
    ensures
        run.success(exit_pc) ==> run.reached_end,
        run.success(exit_pc) ==> run.final_pc == exit_pc,
        run.reached_end && run.final_pc == exit_pc ==> run.success(exit_pc),
{
}

/// Runs that end alike are judged alike, and a run is a success for one exit at the most.
pub proof fn law_gas_and_cycles_do_not_decide(
    a: VmRunOutcome,
    b: VmRunOutcome,
    exit_a: u32,
    exit_b: u32,
)
    ensures
        a.reached_end == b.reached_end && a.final_pc == b.final_pc ==> a.success(exit_a)
            == b.success(exit_a),
        a.success(exit_a) && a.success(exit_b) ==> exit_a == exit_b,
{
}

/// The record of a block without a proof: the block, the cycles and the message, and nothing else.
pub proof fn law_record_of_an_unproved_block(
    log: ProvingLog,
    block: u64,
    cycles: u64,
    message: Seq<char>,
)
    ensures
        log.is_unproved(block, cycles, message) <==> {
            &&& log.block_number == block
            &&& log.gas_used == 0
            &&& log.cycle_count == cycles
            &&& log.num_proofs == 0
            &&& log.proving_millis == 0
            &&& log.message@ == message
        },
{
}

/// What a line of the proving log says: the time, each number of the record under its name, and the
/// message.
pub proof fn law_line_of_the_proving_log(log: ProvingLog, timestamp: Seq<char>)
    ensures
        log.line_text(timestamp) == timestamp + " block="@ + decimal(log.block_number as nat)
            + " gas="@ + decimal(log.gas_used as nat) + " cycles="@ + decimal(
            log.cycle_count as nat,
        ) + " proofs="@ + decimal(log.num_proofs as nat) + " time="@ + decimal(
            log.proving_millis as nat,
        ) + "ms "@ + log.message@,
        log.entry_text(timestamp) == log.line_text(timestamp) + "\n"@,
{
}

/// What is said of a block that could not be proved, and of a run that was rejected.
pub proof fn law_texts_of_failed_proofs(error: ProveError, run: VmRunOutcome)
    ensures
        error matches ProveError::Input(e) ==> error.text_spec() == e@,
        error is NotInitialized ==> error.text_spec()
            == "GPU prover not initialized (--gpu not set?)"@,
        error matches ProveError::Join(e) ==> error.text_spec() == "Proving task join error: "@
            + e@,
        error matches ProveError::Panicked(Some(e)) ==> error.text_spec()
            == "gpu_prove panicked: "@ + e@,
        error matches ProveError::Panicked(None) ==> error.text_spec() == "gpu_prove panicked: "@
            + "non-string panic payload"@,
        error is NoGpuSupport ==> error.text_spec()
            == "Compiled without GPU support. Rebuild with --features gpu"@,
        rejected_run_text(run) == "SKIPPED: guest validation failure (final_pc=0x"@ + hex8(
            run.final_pc,
        ) + " reached_end="@ + bool_text(run.reached_end) + ")"@,
{
}

} // verus!
