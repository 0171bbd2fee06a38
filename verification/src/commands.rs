//! The command line: which mode is asked for, what each mode needs, and what the commands conclude.

use vstd::prelude::*;
use vstd::relations::sorted_by;
use vstd::seq_lib::{
    lemma_sorted_unique, to_multiset_build, to_multiset_contains, to_multiset_insert,
    to_multiset_len,
};
use crate::ethproofs::EthProofsConfig;
use crate::inputs::{
    block_number_in, block_number_of_input, bundle_path, disk_answers, legacy_input_path,
    resolve_input_path, InputPathError,
};
use crate::path::{join, joined};
use crate::security::{security_model, SecurityModel, UnsupportedSecurity};
use crate::service::{ProverPlan, ServiceConfig};
use crate::setup::ProvingLimit;
use crate::text::{append_decimal, decimal};

verus! {

/// The security level in bits where nothing else is asked for.
pub const DEFAULT_SECURITY: u32 = 100;

/// What the program is to do.
#[derive(Clone, Copy, Debug, PartialEq, Eq, Structural)]
pub enum Mode {
    /// Run as a service.
    Service,
    /// Execute a range of blocks from disk.
    TestService,
    /// Carry out a command.
    Command,
}

/// The commands that need a prover on a graphics processor.
#[derive(Clone, Copy, Debug, PartialEq, Eq, Structural)]
pub enum GpuCommand {
    Setup,
    Prove,
    Bench,
    Verify,
}

/// Why a command line cannot be followed.
#[derive(Clone, Debug)]
pub enum CommandError {
    RpcUrlMissing,
    StartBlockMissing,
    EndBlockMissing,
    NothingToDo,
    Security(UnsupportedSecurity),
    /// The setup cache is for another security level than the number of bits that was asked for.
    SetupMismatch { setup_path: String, cached: SecurityModel, bits: u32 },
    /// Proofs are made on a graphics processor only.
    CpuProving,
    /// The program was built without a prover.
    NoGpuSupport,
    BenchNeedsGpu,
    VerifyNeedsGpu,
}

/// The options that a service is configured from.
#[derive(Clone, Debug)]
pub struct ServiceOptions {
    pub start_block: Option<u64>,
    pub end_block: Option<u64>,
    pub prove_every: Option<u64>,
    pub execute_every: Option<u64>,
    pub post_every: Option<u64>,
    pub rpc_url: Option<String>,
    pub save_all_responses: bool,
    pub data_dir: String,
    pub output_dir: String,
    pub cycles: usize,
    pub gpu: bool,
    pub until: Option<ProvingLimit>,
    pub setup_dir: Option<String>,
    pub security: u32,
    pub ethproofs_endpoint: Option<String>,
    pub ethproofs_token: Option<String>,
    pub ethproofs_cluster_id: Option<u64>,
}

/// A block that a command works on.
#[derive(Clone, Debug)]
pub struct BlockInput {
    pub block_number: u64,
    pub input_path: String,
    pub data_dir: String,
}

/// Where the results of the setup command go.
#[derive(Clone, Debug)]
pub struct SetupOutput {
    pub setup_path: String,
    /// The directory for the files of the verifier in the browser, where these are made.
    pub wasm_dir: Option<String>,
}

/// What a benchmark found, in milliseconds.
#[derive(Clone, Copy, Debug, PartialEq, Eq, Structural)]
pub struct BenchSummary {
    pub min: u128,
    pub median: u128,
    pub max: u128,
}

/// Which part of a verifier's output is the hash chain of the setup.
#[derive(Clone, Copy, Debug, PartialEq, Eq, Structural)]
pub enum ChainBinding {
    SecondHalf,
    FirstHalf,
    /// Neither of them.
    Unbound,
}

impl CommandError {
    /// What is said of the failure.
    pub open spec fn text_spec(self) -> Seq<char> {
        match self {
            CommandError::RpcUrlMissing => "--service requires --rpc-url"@,
            CommandError::StartBlockMissing => "--test-service requires --start-block"@,
            CommandError::EndBlockMissing => "--test-service requires --end-block"@,
            CommandError::NothingToDo =>
                "no command provided; pass --test-service or a subcommand (e.g. execute, prove)"@,
            CommandError::Security(e) => e.text_spec(),
            CommandError::SetupMismatch { setup_path, cached, bits } => "setup cache at "@
                + setup_path@ + " was computed for "@ + cached.name_text() + ", but --security "@
                + decimal(bits as nat) + " was requested"@,
            CommandError::CpuProving => "CPU proving not yet implemented in z6m. Use --gpu."@,
            CommandError::NoGpuSupport =>
                "Compiled without GPU support. Rebuild with --features gpu"@,
            CommandError::BenchNeedsGpu => "bench requires the gpu build"@,
            CommandError::VerifyNeedsGpu => "verify requires the gpu build (SetupCache support)"@,
        }
    }

    /// What is said of the failure.
    pub fn text(&self) -> (text: String)
        ensures
            text@ == self.text_spec(),
    {
        match self {
            CommandError::RpcUrlMissing => "--service requires --rpc-url".to_owned(),
            CommandError::StartBlockMissing => "--test-service requires --start-block".to_owned(),
            CommandError::EndBlockMissing => "--test-service requires --end-block".to_owned(),
            CommandError::NothingToDo =>
                "no command provided; pass --test-service or a subcommand (e.g. execute, prove)".to_owned(),
            CommandError::Security(e) => e.text(),
            CommandError::SetupMismatch { setup_path, cached, bits } => {
                let mut out = "setup cache at ".to_owned();
                out.append(setup_path.as_str());
                out.append(" was computed for ");
                out.append(cached.name().as_str());
                out.append(", but --security ");
                append_decimal(&mut out, *bits as u64);
                out.append(" was requested");
                out
            },
            CommandError::CpuProving =>
                "CPU proving not yet implemented in z6m. Use --gpu.".to_owned(),
            CommandError::NoGpuSupport =>
                "Compiled without GPU support. Rebuild with --features gpu".to_owned(),
            CommandError::BenchNeedsGpu => "bench requires the gpu build".to_owned(),
            CommandError::VerifyNeedsGpu =>
                "verify requires the gpu build (SetupCache support)".to_owned(),
        }
    }
}

/// What the program is to do. The service comes before the test service, and both before a command.
pub fn choose_mode(service: bool, test_service: bool, has_command: bool) -> (r: Result<
    Mode,
    CommandError,
>)
    ensures
        match r {
            Ok(Mode::Service) => service,
            Ok(Mode::TestService) => !service && test_service,
            Ok(Mode::Command) => !service && !test_service && has_command,
            Err(e) => e is NothingToDo && !service && !test_service && !has_command,
        },
{
    if service {
        Ok(Mode::Service)
    } else if test_service {
        Ok(Mode::TestService)
    } else if has_command {
        Ok(Mode::Command)
    } else {
        Err(CommandError::NothingToDo)
    }
}

/// Lets a command pass that needs a prover, if the program was built with one.
pub fn require_gpu_build(command: GpuCommand, built_with_gpu: bool) -> (r: Result<(), CommandError>)
    ensures
        match r {
            Ok(_) => built_with_gpu,
            Err(e) => {
                &&& !built_with_gpu
                &&& match command {
                    GpuCommand::Setup | GpuCommand::Prove => e is NoGpuSupport,
                    GpuCommand::Bench => e is BenchNeedsGpu,
                    GpuCommand::Verify => e is VerifyNeedsGpu,
                }
            },
        },
{
    if built_with_gpu {
        return Ok(());
    }
    match command {
        GpuCommand::Setup | GpuCommand::Prove => Err(CommandError::NoGpuSupport),
        GpuCommand::Bench => Err(CommandError::BenchNeedsGpu),
        GpuCommand::Verify => Err(CommandError::VerifyNeedsGpu),
    }
}

/// The range of blocks of the test service.
pub fn test_service_range(start_block: Option<u64>, end_block: Option<u64>) -> (r: Result<
    (u64, u64),
    CommandError,
>)
    ensures
        match r {
            Ok((start, end)) => start_block == Some(start) && end_block == Some(end),
            Err(e) => {
                ||| e is StartBlockMissing && start_block is None
                ||| e is EndBlockMissing && start_block is Some && end_block is None
            },
        },
{
    match start_block {
        None => Err(CommandError::StartBlockMissing),
        Some(start) => match end_block {
            None => Err(CommandError::EndBlockMissing),
            Some(end) => Ok((start, end)),
        },
    }
}

/// How to reach the proof collector. It is told of proofs only where all of its options are given.
pub fn ethproofs_config(
    endpoint: Option<String>,
    token: Option<String>,
    cluster_id: Option<u64>,
) -> (config: Option<EthProofsConfig>)
    ensures
        match config {
            Some(c) => {
                &&& endpoint == Some(c.endpoint)
                &&& token == Some(c.token)
                &&& cluster_id == Some(c.cluster_id)
            },
            None => endpoint is None || token is None || cluster_id is None,
        },
{
    match (endpoint, token, cluster_id) {
        (Some(endpoint), Some(token), Some(cluster_id)) => Some(
            EthProofsConfig { endpoint, token, cluster_id },
        ),
        _ => None,
    }
}

/// The configuration of a service, from its options and the path of the guest. New heads are asked
/// for, since there is no option for where they are pushed from.
pub fn service_config(options: ServiceOptions, guest_base: String) -> (r: Result<
    ServiceConfig,
    CommandError,
>)
    ensures
        match r {
            Ok(c) => {
                &&& options.rpc_url == Some(c.rpc_url)
                &&& c.security.bits() == options.security
                &&& c.start_block == options.start_block
                &&& c.end_block == options.end_block
                &&& c.prove_every == options.prove_every
                &&& c.execute_every == options.execute_every
                &&& c.post_every == options.post_every
                &&& c.ws_url is None
                &&& c.save_all_responses == options.save_all_responses
                &&& c.data_dir == options.data_dir
                &&& c.output_dir == options.output_dir
                &&& c.guest_base == guest_base
                &&& c.max_cycles == options.cycles
                &&& c.gpu == options.gpu
                &&& c.until == options.until
                &&& c.setup_dir == options.setup_dir
                &&& match c.ethproofs {
                    Some(e) => {
                        &&& options.ethproofs_endpoint == Some(e.endpoint)
                        &&& options.ethproofs_token == Some(e.token)
                        &&& options.ethproofs_cluster_id == Some(e.cluster_id)
                    },
                    None => options.ethproofs_endpoint is None || options.ethproofs_token is None
                        || options.ethproofs_cluster_id is None,
                }
            },
            Err(e) => {
                ||| e is RpcUrlMissing && options.rpc_url is None
                ||| e == CommandError::Security(UnsupportedSecurity { bits: options.security })
                    && options.rpc_url is Some && options.security != 80 && options.security != 100
            },
        },
{
    let rpc_url = match options.rpc_url {
        Some(url) => url,
        None => {
            return Err(CommandError::RpcUrlMissing);
        },
    };
    let ethproofs = ethproofs_config(
        options.ethproofs_endpoint,
        options.ethproofs_token,
        options.ethproofs_cluster_id,
    );
    let security = match security_model(options.security) {
        Ok(security) => security,
        Err(e) => {
            return Err(CommandError::Security(e));
        },
    };
    Ok(
        ServiceConfig {
            start_block: options.start_block,
            end_block: options.end_block,
            prove_every: options.prove_every,
            execute_every: options.execute_every,
            post_every: options.post_every,
            rpc_url,
            ws_url: None,
            save_all_responses: options.save_all_responses,
            data_dir: options.data_dir,
            output_dir: options.output_dir,
            guest_base,
            max_cycles: options.cycles,
            gpu: options.gpu,
            until: options.until,
            setup_dir: options.setup_dir,
            security,
            ethproofs,
        },
    )
}

/// The block that a command works on: the one that was named, or else the one in the name of its
/// input. The command's own data directory comes before that of the program.
pub fn block_input(
    block_number: u64,
    file_name: Option<String>,
    data_dir: Option<String>,
    default_data_dir: String,
) -> (r: Result<BlockInput, InputPathError>)
    ensures
        r is Err <==> file_name is None && block_number == 0,
        r matches Ok(input) ==> {
            &&& input.data_dir == (match data_dir {
                Some(dir) => dir,
                None => default_data_dir,
            })
            &&& match file_name {
                Some(named) => input.input_path == named,
                None => input.input_path@ == bundle_path(input.data_dir@, block_number)
                    || input.input_path@ == legacy_input_path(input.data_dir@, block_number),
            }
            &&& input.block_number == (if block_number > 0 {
                block_number
            } else {
                block_number_in(input.input_path@)
            })
            &&& file_name is None ==> disk_answers(
                bundle_path(input.data_dir@, block_number),
                input.input_path@ == bundle_path(input.data_dir@, block_number),
            )
        },
{
    let data_dir = match data_dir {
        Some(dir) => dir,
        None => default_data_dir,
    };
    match resolve_input_path(block_number, file_name, data_dir.as_str()) {
        Ok(input_path) => {
            let block_number: u64 = block_number_of_input(block_number, input_path.as_str());
            Ok(BlockInput { block_number, input_path, data_dir })
        },
        Err(e) => Err(e),
    }
}

/// Where the prover of the prove command comes from. Without a proving depth there is no recursion.
pub fn prove_plan(
    gpu: bool,
    setup_dir: Option<&str>,
    guest_base: &str,
    until: Option<ProvingLimit>,
    security: u32,
) -> (r: Result<ProverPlan, CommandError>)
    ensures
        match r {
            Ok(ProverPlan::Without) => false,
            Ok(ProverPlan::FromCache { setup_path }) => {
                &&& gpu
                &&& setup_dir matches Some(dir) && setup_path@ == joined(dir@, "setup.bin"@)
            },
            Ok(ProverPlan::Compute { guest_path, until: limit, security: model }) => {
                &&& gpu
                &&& setup_dir is None
                &&& guest_path@ == guest_base@
                &&& limit == (match until {
                    Some(limit) => limit,
                    None => ProvingLimit::Base,
                })
                &&& model.bits() == security
            },
            Err(e) => {
                ||| e is CpuProving && !gpu
                ||| e == CommandError::Security(UnsupportedSecurity { bits: security }) && gpu
                    && setup_dir is None && security != 80 && security != 100
            },
        },
{
    if !gpu {
        return Err(CommandError::CpuProving);
    }
    match setup_dir {
        Some(dir) => Ok(ProverPlan::FromCache { setup_path: join(dir, "setup.bin") }),
        None => match security_model(security) {
            Ok(model) => Ok(
                ProverPlan::Compute {
                    guest_path: guest_base.to_owned(),
                    until: match until {
                        Some(limit) => limit,
                        None => ProvingLimit::Base,
                    },
                    security: model,
                },
            ),
            Err(e) => Err(CommandError::Security(e)),
        },
    }
}

/// Lets a setup cache pass that was computed for the number of bits that is asked for.
pub fn check_cache_security(setup_path: &str, cached: SecurityModel, bits: u32) -> (r: Result<
    (),
    CommandError,
>)
    ensures
        match r {
            Ok(_) => cached.bits() == bits,
            Err(CommandError::Security(e)) => e.bits == bits && bits != 80 && bits != 100,
            Err(CommandError::SetupMismatch { setup_path: path, cached: model, bits: wanted }) => {
                &&& cached.bits() != bits
                &&& bits == 80 || bits == 100
                &&& path@ == setup_path@
                &&& model == cached
                &&& wanted == bits
            },
            Err(_) => false,
        },
{
    match security_model(bits) {
        Err(e) => Err(CommandError::Security(e)),
        Ok(requested) => if cached == requested {
            Ok(())
        } else {
            Err(
                CommandError::SetupMismatch { setup_path: setup_path.to_owned(), cached, bits },
            )
        },
    }
}

/// Where the results of the setup command go. The verifier in the browser needs the unified layer.
pub fn setup_output(setup_dir: &str, until: ProvingLimit) -> (output: SetupOutput)
    ensures
        output.setup_path@ == joined(setup_dir@, "setup.bin"@),
        match output.wasm_dir {
            Some(dir) => until is Unified && dir@ == joined(setup_dir@, "wasm"@),
            None => until !is Unified,
        },
{
    SetupOutput {
        setup_path: join(setup_dir, "setup.bin"),
        wasm_dir: match until {
            ProvingLimit::Unified => Some(join(setup_dir, "wasm")),
            _ => None,
        },
    }
}

/// Times in ascending order.
pub open spec fn ascending(times: Seq<u128>) -> Seq<u128> {
    times.sort_by(|a: u128, b: u128| a <= b)
}

/// Sorts times.
fn sort_times(times: &[u128]) -> (sorted: Vec<u128>)
    ensures
        sorted@ == ascending(times@),
{
    let ghost leq = |a: u128, b: u128| a <= b;
    let mut sorted: Vec<u128> = Vec::new();
    let mut i: usize = 0;
    assert(times@.take(0) == Seq::<u128>::empty());
    while i < times.len()
        invariant
            i <= times@.len(),
            leq == (|a: u128, b: u128| a <= b),
            sorted@.len() == i,
            sorted@.to_multiset() == times@.take(i as int).to_multiset(),
            sorted_by(sorted@, leq),
        decreases times@.len() - i,
    {
        let time: u128 = times[i];
        let ghost before = sorted@;
        let mut at: usize = sorted.len();
        while at > 0 && sorted[at - 1] > time
            invariant
                at <= sorted@.len(),
                leq == (|a: u128, b: u128| a <= b),
                sorted@ == before,
                sorted_by(before, leq),
                forall|k: int| at <= k < before.len() ==> time < #[trigger] before[k],
            decreases at,
        {
            at = at - 1;
        }
        sorted.insert(at, time);
        proof {
            to_multiset_insert(before, at as int, time);
            to_multiset_build(times@.take(i as int), time);
            assert(times@.take(i + 1) == times@.take(i as int).push(time));
            assert forall|j: int, k: int| 0 <= j < k < sorted@.len() implies #[trigger] leq(
                sorted@[j],
                sorted@[k],
            ) by {
                let a = if j < at {
                    j
                } else {
                    j - 1
                };
                let b = if k < at {
                    k
                } else {
                    k - 1
                };
                if j != at && k != at {
                    assert(leq(before[a], before[b]));
                } else if k == at && 0 < at {
                    assert(j < at - 1 ==> leq(before[j], before[at - 1]));
                }
            }
        }
        i = i + 1;
    }
    proof {
        assert(times@.take(i as int) == times@);
        times@.lemma_sort_by_ensures(leq);
        lemma_sorted_unique(sorted@, ascending(times@), leq);
    }
    sorted
}

/// The shortest, the middle and the longest of the times of a benchmark, and zeros where there are
/// none.
pub fn bench_summary(times: &[u128]) -> (summary: BenchSummary)
    ensures
        times@.len() == 0 ==> summary == (BenchSummary { min: 0, median: 0, max: 0 }),
        times@.len() > 0 ==> summary == (BenchSummary {
            min: ascending(times@)[0],
            median: ascending(times@)[times@.len() as int / 2],
            max: ascending(times@)[times@.len() - 1],
        }),
{
    let sorted = sort_times(times);
    proof {
        lemma_ascending(times@);
    }
    let n: usize = sorted.len();
    if n == 0 {
        return BenchSummary { min: 0, median: 0, max: 0 };
    }
    BenchSummary { min: sorted[0], median: sorted[n / 2], max: sorted[n - 1] }
}

proof fn lemma_ascending(times: Seq<u128>)
    ensures
        ascending(times).len() == times.len(),
        ascending(times).to_multiset() == times.to_multiset(),
        forall|i: int, j: int|
            0 <= i <= j < times.len() ==> (#[trigger] ascending(times)[i]) <= (
            #[trigger] ascending(times)[j]),
{
    let leq = |a: u128, b: u128| a <= b;
    times.lemma_sort_by_ensures(leq);
    to_multiset_len(times);
    to_multiset_len(ascending(times));
    assert forall|i: int, j: int| 0 <= i <= j < times.len() implies (#[trigger] ascending(
        times,
    )[i]) <= (#[trigger] ascending(times)[j]) by {
        if i < j {
            assert(leq(ascending(times)[i], ascending(times)[j]));
        }
    }
}

/// Times in ascending order are the same times, each as often as before, and none is followed by a
/// shorter one.
pub proof fn law_ascending_times(times: Seq<u128>, i: int, j: int)
    requires
        0 <= i <= j < times.len(),
    ensures
        ascending(times).len() == times.len(),
        ascending(times).to_multiset() == times.to_multiset(),
        ascending(times)[i] <= ascending(times)[j],
{
    lemma_ascending(times);
}

/// No time of a benchmark is below the shortest or above the longest, and the three that are
/// reported are in order.
pub proof fn law_bench_bounds(times: Seq<u128>, i: int)
    requires
        0 <= i < times.len(),
    ensures
        ascending(times)[0] <= times[i] <= ascending(times)[times.len() - 1],
        ascending(times)[0] <= ascending(times)[times.len() as int / 2]
            <= ascending(times)[times.len() - 1],
{
    lemma_ascending(times);
    to_multiset_contains(times, times[i]);
    to_multiset_contains(ascending(times), times[i]);
    assert(times.contains(times[i]));
    assert(ascending(times).contains(times[i]));
    let k = choose|k: int| 0 <= k < ascending(times).len() && ascending(times)[k] == times[i];
    assert(ascending(times)[0] <= ascending(times)[k]);
    assert(ascending(times)[k] <= ascending(times)[times.len() - 1]);
}

impl ChainBinding {
    /// What is said of the part that was found.
    pub open spec fn text_spec(self) -> Seq<char> {
        match self {
            ChainBinding::SecondHalf =>
                "CHAIN BINDING OK: output[8..16] matches setup hash chain"@,
            ChainBinding::FirstHalf => "CHAIN BINDING OK: output[0..8] matches setup hash chain"@,
            ChainBinding::Unbound =>
                "WARNING: verifier output does not match setup hash chain windows"@,
        }
    }

    /// What is said of the part that was found.
    pub fn text(&self) -> (text: String)
        ensures
            text@ == self.text_spec(),
    {
        match self {
            ChainBinding::SecondHalf =>
                "CHAIN BINDING OK: output[8..16] matches setup hash chain".to_owned(),
            ChainBinding::FirstHalf =>
                "CHAIN BINDING OK: output[0..8] matches setup hash chain".to_owned(),
            ChainBinding::Unbound =>
                "WARNING: verifier output does not match setup hash chain windows".to_owned(),
        }
    }
}

fn window_matches(output: &[u32; 16], from: usize, chain: &[u32; 8]) -> (yes: bool)
    requires
        from <= 8,
    ensures
        yes == (output@.subrange(from as int, from + 8) == chain@),
{
    let mut i: usize = 0;
    while i < 8
        invariant
            i <= 8,
            from <= 8,
            forall|k: int| 0 <= k < i ==> output@[from + k] == chain@[k],
        decreases 8 - i,
    {
        if output[from + i] != chain[i] {
            assert(output@.subrange(from as int, from + 8)[i as int] == output@[from + i]);
            return false;
        }
        i = i + 1;
    }
    assert(output@.subrange(from as int, from + 8) =~= chain@);
    true
}

/// Which half of a verifier's output is the hash chain of the setup. The second half comes first.
pub fn chain_binding(output: &[u32; 16], chain: &[u32; 8]) -> (binding: ChainBinding)
    ensures
        binding == (if output@.subrange(8, 16) == chain@ {
            ChainBinding::SecondHalf
        } else if output@.subrange(0, 8) == chain@ {
            ChainBinding::FirstHalf
        } else {
            ChainBinding::Unbound
        }),
{
    if window_matches(output, 8, chain) {
        ChainBinding::SecondHalf
    } else if window_matches(output, 0, chain) {
        ChainBinding::FirstHalf
    } else {
        ChainBinding::Unbound
    }
}

/// What is said of a command line that cannot be followed.
pub proof fn law_texts_of_refused_commands(error: CommandError)
    ensures
        error is RpcUrlMissing ==> error.text_spec() == "--service requires --rpc-url"@,
        error is StartBlockMissing ==> error.text_spec()
            == "--test-service requires --start-block"@,
        error is EndBlockMissing ==> error.text_spec() == "--test-service requires --end-block"@,
        error is NothingToDo ==> error.text_spec()
            == "no command provided; pass --test-service or a subcommand (e.g. execute, prove)"@,
        error matches CommandError::Security(e) ==> error.text_spec() == "unsupported --security "@
            + decimal(e.bits as nat) + " (expected 80 or 100)"@,
        error matches CommandError::SetupMismatch { setup_path, cached, bits }
            ==> error.text_spec() == "setup cache at "@ + setup_path@ + " was computed for "@
            + cached.name_text() + ", but --security "@ + decimal(bits as nat)
            + " was requested"@,
        error is CpuProving ==> error.text_spec()
            == "CPU proving not yet implemented in z6m. Use --gpu."@,
        error is NoGpuSupport ==> error.text_spec()
            == "Compiled without GPU support. Rebuild with --features gpu"@,
        error is BenchNeedsGpu ==> error.text_spec() == "bench requires the gpu build"@,
        error is VerifyNeedsGpu ==> error.text_spec()
            == "verify requires the gpu build (SetupCache support)"@,
{
}

/// What is said of the part of a verifier's output that is the hash chain of the setup.
pub proof fn law_texts_of_bindings(binding: ChainBinding)
    ensures
        binding is SecondHalf ==> binding.text_spec()
            == "CHAIN BINDING OK: output[8..16] matches setup hash chain"@,
        binding is FirstHalf ==> binding.text_spec()
            == "CHAIN BINDING OK: output[0..8] matches setup hash chain"@,
        binding is Unbound ==> binding.text_spec()
            == "WARNING: verifier output does not match setup hash chain windows"@,
{
}

} // verus!
