//! Executing a block without proving it: the files of the guest, and the record that is kept of a
//! run.

use vstd::prelude::*;
use crate::path::{join, joined};
use crate::run::VmRunOutcome;
use crate::text::{append_bool, append_decimal, bool_text, decimal};

verus! {

/// How many cycles a run may take where nothing else is asked for.
pub const DEFAULT_CYCLES: u64 = 5000000000;

/// How much memory a run has, in bytes: one gibibyte.
pub const DEFAULT_RAM_BOUND: usize = 1073741824;

/// The files of a guest.
#[derive(Clone, Debug)]
pub struct GuestFiles {
    pub bin_path: String,
    pub text_path: String,
    pub elf_path: String,
}

/// An input that is not there.
#[derive(Clone, Debug)]
pub struct InputMissing {
    pub block_number: u64,
    pub input_path: String,
}

/// The record of one execution. How long it took is kept beside it.
#[derive(Clone, Debug)]
pub struct ExecutionLog {
    pub block_number: u64,
    pub gas_used: u64,
    pub cycle_count: u64,
    pub freq_cycles_per_sec: u64,
    pub reached_end: bool,
    pub input_path: String,
}

impl InputMissing {
    /// What is said of an input that is not there.
    pub open spec fn text_spec(self) -> Seq<char> {
        "input file for block "@ + decimal(self.block_number as nat) + " not found at "@
            + self.input_path@
    }

    /// What is said of an input that is not there.
    pub fn text(&self) -> (text: String)
        ensures
            text@ == self.text_spec(),
    {
        let mut out = "input file for block ".to_owned();
        append_decimal(&mut out, self.block_number);
        out.append(" not found at ");
        out.append(self.input_path.as_str());
        out
    }
}

impl ExecutionLog {
    /// The record of a run of the block `block_number` with the input at `input_path`.
    pub fn new(
        block_number: u64,
        run: &VmRunOutcome,
        freq_cycles_per_sec: u64,
        input_path: String,
    ) -> (log: ExecutionLog)
        ensures
            log.block_number == block_number,
            log.gas_used == run.gas_used,
            log.cycle_count == run.cycle_count,
            log.freq_cycles_per_sec == freq_cycles_per_sec,
            log.reached_end == run.reached_end,
            log.input_path == input_path,
    {
        ExecutionLog {
            block_number,
            gas_used: run.gas_used,
            cycle_count: run.cycle_count,
            freq_cycles_per_sec,
            reached_end: run.reached_end,
            input_path,
        }
    }

    /// The line of the execution log that holds this record, for a run that took `secs` seconds.
    pub open spec fn line_text(self, timestamp: Seq<char>, secs: Seq<char>) -> Seq<char> {
        timestamp + " block="@ + decimal(self.block_number as nat) + " gas_used="@ + decimal(
            self.gas_used as nat,
        ) + " cycles="@ + decimal(self.cycle_count as nat) + " time="@ + secs + "s freq="@
            + decimal(self.freq_cycles_per_sec as nat) + " reached_end="@ + bool_text(
            self.reached_end,
        ) + "  input="@ + self.input_path@
    }

    /// The line of the execution log that holds this record, without its line break. The text `secs`
    /// says how many seconds the run took.
    pub fn line(&self, timestamp: &str, secs: &str) -> (line: String)
        ensures
            line@ == self.line_text(timestamp@, secs@),
    {
        let mut out = timestamp.to_owned();
        out.append(" block=");
        append_decimal(&mut out, self.block_number);
        out.append(" gas_used=");
        append_decimal(&mut out, self.gas_used);
        out.append(" cycles=");
        append_decimal(&mut out, self.cycle_count);
        out.append(" time=");
        out.append(secs);
        out.append("s freq=");
        append_decimal(&mut out, self.freq_cycles_per_sec);
        out.append(" reached_end=");
        append_bool(&mut out, self.reached_end);
        out.append("  input=");
        out.append(self.input_path.as_str());
        out
    }

    /// What is appended to the execution log for this record: its line and a line break.
    pub open spec fn entry_text(self, timestamp: Seq<char>, secs: Seq<char>) -> Seq<char> {
        self.line_text(timestamp, secs) + "\n"@
    }

    /// What is appended to the execution log for this record.
    pub fn entry(&self, timestamp: &str, secs: &str) -> (entry: String)
        ensures
            entry@ == self.entry_text(timestamp@, secs@),
    {
        self.line(timestamp, secs).concat("\n")
    }
}

/// The program of the guest at a path without extension.
pub fn guest_bin_path(base: &str) -> (path: String)
    ensures
        path@ == base@ + ".bin"@,
{
    base.to_owned().concat(".bin")
}

/// The files of the guest at a path without extension.
pub fn guest_files(base: &str) -> (files: GuestFiles)
    ensures
        files.bin_path@ == base@ + ".bin"@,
        files.text_path@ == base@ + ".text"@,
        files.elf_path@ == base@ + ".elf"@,
{
    GuestFiles {
        bin_path: guest_bin_path(base),
        text_path: base.to_owned().concat(".text"),
        elf_path: base.to_owned().concat(".elf"),
    }
}

/// Lets a block pass whose input is there.
pub fn require_input(block_number: u64, input_path: &str, exists: bool) -> (r: Result<
    (),
    InputMissing,
>)
    ensures
        match r {
            Ok(_) => exists,
            Err(e) => !exists && e.block_number == block_number && e.input_path@ == input_path@,
        },
{
    if exists {
        Ok(())
    } else {
        Err(InputMissing { block_number, input_path: input_path.to_owned() })
    }
}

/// Where executions are recorded.
pub open spec fn execution_log_path(named: Option<Seq<char>>, data_dir: Seq<char>) -> Seq<char> {
    match named {
        Some(path) => path,
        None => joined(data_dir, "executionLogs.log"@),
    }
}

/// Where executions are recorded: in the file that was named, or in one in the data directory.
pub fn execution_log_file(named: Option<&str>, data_dir: &str) -> (path: String)
    ensures
        path@ == execution_log_path(
            match named {
                Some(p) => Some(p@),
                None => None,
            },
            data_dir@,
        ),
{
    match named {
        Some(path) => path.to_owned(),
        None => join(data_dir, "executionLogs.log"),
    }
}

/// What a line of the execution log says: the time, each number of the record under its name, whether
/// the run reached its end, and the input.
pub proof fn law_line_of_the_execution_log(
    log: ExecutionLog,
    timestamp: Seq<char>,
    secs: Seq<char>,
)
    ensures
        log.line_text(timestamp, secs) == timestamp + " block="@ + decimal(log.block_number as nat)
            + " gas_used="@ + decimal(log.gas_used as nat) + " cycles="@ + decimal(
            log.cycle_count as nat,
        ) + " time="@ + secs + "s freq="@ + decimal(log.freq_cycles_per_sec as nat)
            + " reached_end="@ + bool_text(log.reached_end) + "  input="@ + log.input_path@,
        log.entry_text(timestamp, secs) == log.line_text(timestamp, secs) + "\n"@,
{
}

/// Where executions are recorded, and what is said of an input that is not there.
pub proof fn law_where_executions_are_recorded(
    named: Seq<char>,
    data_dir: Seq<char>,
    missing: InputMissing,
)
    ensures
        execution_log_path(Some(named), data_dir) == named,
        execution_log_path(None, data_dir) == joined(data_dir, "executionLogs.log"@),
        missing.text_spec() == "input file for block "@ + decimal(missing.block_number as nat)
            + " not found at "@ + missing.input_path@,
{
}

} // verus!
