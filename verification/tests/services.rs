use z6m_prover::clock::{format_timestamp, timestamp_text};
use z6m_prover::commands::{
    bench_summary, block_input, chain_binding, check_cache_security, choose_mode,
    ethproofs_config, prove_plan, require_gpu_build, service_config, setup_output,
    test_service_range, BenchSummary, ChainBinding, CommandError, GpuCommand, Mode,
    ServiceOptions, DEFAULT_SECURITY,
};
use z6m_prover::envelope::{proof_envelope, unpack_proof_file};
use z6m_prover::execution::{
    execution_log_file, guest_bin_path, guest_files, require_input, ExecutionLog, DEFAULT_CYCLES,
    DEFAULT_RAM_BOUND,
};
use z6m_prover::inputs::InputPathError;
use z6m_prover::run::{ProofSummary, VmRunOutcome};
use z6m_prover::security::SecurityModel;
use z6m_prover::service::{
    check_setup_security, verifier_id, AirbenderService, ProverPlan, ServiceConfig,
};
use z6m_prover::setup::ProvingLimit;
use z6m_prover::test_service::{start_test_service, TestAction, TestEvent, TestState};

fn options() -> ServiceOptions {
    ServiceOptions {
        start_block: Some(1),
        end_block: None,
        prove_every: Some(100),
        execute_every: Some(10),
        post_every: Some(7),
        rpc_url: Some(String::from("http://localhost:8545")),
        save_all_responses: true,
        data_dir: String::from("temp"),
        output_dir: String::from("proofs"),
        cycles: 1000,
        gpu: true,
        until: Some(ProvingLimit::Unified),
        setup_dir: Some(String::from("cache")),
        security: DEFAULT_SECURITY,
        ethproofs_endpoint: Some(String::from("https://example.org")),
        ethproofs_token: Some(String::from("t")),
        ethproofs_cluster_id: Some(4),
    }
}

fn config() -> ServiceConfig {
    service_config(options(), String::from("build/guest")).unwrap()
}

#[test]
fn points_in_time_are_written_in_utc() {
    assert_eq!(timestamp_text(0, 0).unwrap(), "1970-01-01T00:00:00.000000Z");
    assert_eq!(
        timestamp_text(1431648000, 123456789).unwrap(),
        "2015-05-15T00:00:00.123456Z"
    );
    assert_eq!(timestamp_text(i64::MAX, 0), None);
    assert_eq!(timestamp_text(0, 2_000_000_000), None);
}

#[test]
fn the_present_has_a_text() {
    let now = format_timestamp();
    assert_eq!(now.len(), 27);
    assert!(now.ends_with('Z'));
    assert_eq!(&now[4..5], "-");
}

#[test]
fn the_service_comes_first() {
    assert_eq!(choose_mode(true, true, true).unwrap(), Mode::Service);
    assert_eq!(choose_mode(false, true, true).unwrap(), Mode::TestService);
    assert_eq!(choose_mode(false, false, true).unwrap(), Mode::Command);
    assert_eq!(
        choose_mode(false, false, false).unwrap_err().text(),
        "no command provided; pass --test-service or a subcommand (e.g. execute, prove)"
    );
}

#[test]
fn the_test_service_needs_a_range() {
    assert_eq!(test_service_range(Some(1), Some(2)).unwrap(), (1, 2));
    assert_eq!(
        test_service_range(None, None).unwrap_err().text(),
        "--test-service requires --start-block"
    );
    assert_eq!(
        test_service_range(Some(1), None).unwrap_err().text(),
        "--test-service requires --end-block"
    );
}

#[test]
fn commands_need_a_build_with_a_prover() {
    for (command, text) in [
        (GpuCommand::Setup, "Compiled without GPU support. Rebuild with --features gpu"),
        (GpuCommand::Prove, "Compiled without GPU support. Rebuild with --features gpu"),
        (GpuCommand::Bench, "bench requires the gpu build"),
        (GpuCommand::Verify, "verify requires the gpu build (SetupCache support)"),
    ] {
        assert!(require_gpu_build(command, true).is_ok());
        assert_eq!(require_gpu_build(command, false).unwrap_err().text(), text);
    }
}

#[test]
fn the_collector_needs_all_of_its_options() {
    let some = || Some(String::from("x"));
    assert!(ethproofs_config(some(), some(), Some(1)).is_some());
    assert!(ethproofs_config(None, some(), Some(1)).is_none());
    assert!(ethproofs_config(some(), None, Some(1)).is_none());
    assert!(ethproofs_config(some(), some(), None).is_none());
}

#[test]
fn services_are_configured_from_options() {
    let config = config();
    assert_eq!(config.rpc_url, "http://localhost:8545");
    assert_eq!(config.ws_url, None);
    assert_eq!(config.security, SecurityModel::Security100);
    assert_eq!(config.guest_base, "build/guest");
    assert_eq!(config.max_cycles, 1000);
    assert_eq!(config.post_every, Some(7));
    assert_eq!(config.until, Some(ProvingLimit::Unified));
    assert_eq!(config.ethproofs.unwrap().cluster_id, 4);
}

#[test]
fn services_need_a_url_and_a_security_level() {
    let without_url = ServiceOptions { rpc_url: None, security: 5, ..options() };
    assert_eq!(
        service_config(without_url, String::new()).unwrap_err().text(),
        "--service requires --rpc-url"
    );
    let unsupported = ServiceOptions { security: 5, ..options() };
    assert_eq!(
        service_config(unsupported, String::new()).unwrap_err().text(),
        "unsupported --security 5 (expected 80 or 100)"
    );
}

#[test]
fn urls_are_read_in_their_normal_form() {
    assert_eq!(config().rpc_endpoint().unwrap(), "http://localhost:8545/");
    let odd = ServiceConfig { rpc_url: String::from("HTTP://Example.ORG:80/a/../b"), ..config() };
    assert_eq!(odd.rpc_endpoint().unwrap(), "http://example.org/b");
    let bad = ServiceConfig { rpc_url: String::from("no url"), ..config() };
    assert_eq!(bad.rpc_endpoint().unwrap_err(), "relative URL without a base");
}

#[test]
fn guests_of_services_must_be_there() {
    let files = config().guest(true).unwrap();
    assert_eq!(files.bin_path, "build/guest.bin");
    assert_eq!(files.text_path, "build/guest.text");
    assert_eq!(files.elf_path, "build/guest.elf");
    let missing = ServiceConfig { guest_base: String::from("/no/such"), ..config() };
    assert_eq!(
        missing.locate_guest().unwrap_err().text(),
        "Guest binary not found at /no/such.bin"
    );
}

#[test]
fn provers_come_from_the_cache_where_there_is_one() {
    match config().prover_plan() {
        ProverPlan::FromCache { setup_path } => assert_eq!(setup_path, "cache/setup.bin"),
        other => panic!("{:?}", other),
    }
    let computed = ServiceConfig { setup_dir: None, until: None, ..config() };
    match computed.prover_plan() {
        ProverPlan::Compute { guest_path, until, security } => {
            assert_eq!(guest_path, "build/guest");
            assert_eq!(until, ProvingLimit::Base);
            assert_eq!(security, SecurityModel::Security100);
        }
        other => panic!("{:?}", other),
    }
    let none = ServiceConfig { gpu: false, ..config() };
    assert!(matches!(none.prover_plan(), ProverPlan::Without));
}

#[test]
fn caches_must_fit_the_security_level() {
    let (low, high) = (SecurityModel::Security80, SecurityModel::Security100);
    assert!(check_setup_security("c", high, high).is_ok());
    assert_eq!(
        check_setup_security("c/setup.bin", low, high).unwrap_err().text(),
        "setup cache at c/setup.bin was computed for Security80, but the service requested \
         Security100"
    );
    assert!(check_cache_security("c", low, 80).is_ok());
    assert_eq!(
        check_cache_security("c/setup.bin", high, 80).unwrap_err().text(),
        "setup cache at c/setup.bin was computed for Security100, but --security 80 was requested"
    );
    assert!(matches!(
        check_cache_security("c", low, 81),
        Err(CommandError::Security(_))
    ));
}

#[test]
fn verifiers_are_named_after_their_parameters() {
    assert_eq!(verifier_id(Some(&[1, 0xdeadbeef])), "0x00000001deadbeef");
    assert_eq!(verifier_id(Some(&[])), "0x");
    assert_eq!(verifier_id(None), "airbender-z6m");
    assert_ne!(verifier_id(Some(&[1])), verifier_id(Some(&[2])));
}

#[test]
fn services_are_opened_with_what_they_were_configured_for() {
    let service = AirbenderService::new(config(), 0x44, Some(&[5]));
    assert_eq!(service.verifier_id, "0x00000005");
    let client = service.eth_client.as_ref().unwrap();
    assert_eq!(client.endpoint, "https://example.org");
    assert_eq!(client.api_token, "t");
    assert_eq!(client.spool_dir, None);
    let rules = service.fetch_rules();
    assert_eq!(rules.prove_every, Some(100));
    assert_eq!(rules.execute_every, Some(10));
    assert_eq!(rules.start_block, Some(1));
    assert!(rules.save_all_responses && rules.has_client);
    assert_eq!(rules.post_every, Some(7));
    assert_eq!(service.worker_rules().post_every, Some(7));
    assert_eq!(service.worker_rules().exit_pc, 0x44);
    assert!(service.worker_rules().has_client);
    assert_eq!(service.proving_log_file(), "temp/provingLogs.log");

    let quiet = AirbenderService::new(ServiceConfig { ethproofs: None, ..config() }, 0, None);
    assert!(quiet.eth_client.is_none());
    assert!(!quiet.fetch_rules().has_client);
    assert!(!quiet.worker_rules().has_client);
    assert_eq!(quiet.verifier_id, "airbender-z6m");
}

#[test]
fn finished_proofs_are_written_by_block() {
    let service = AirbenderService::new(config(), 0, None);
    let summary = ProofSummary {
        gas_register: 9,
        family_proofs: 1,
        init_proofs: 2,
        delegation_proofs: 3,
    };
    let output = service.proof_output(12, 34, 56, &summary, &[7, 7]);
    assert_eq!(output.dir, "proofs/12");
    assert_eq!(output.path, "proofs/12/proof.bin");
    assert_eq!(
        unpack_proof_file(output.bytes),
        Ok(proof_envelope(&[7, 7], SecurityModel::Security100))
    );
    assert_eq!(output.log.num_proofs, 6);
    assert_eq!(output.log.gas_used, 9);
    assert_eq!(output.log.proving_millis, 56);
    assert_eq!(output.log.cycle_count, 34);
}

#[test]
fn commands_find_their_block() {
    let input = block_input(0, Some(String::from("in/x42.bin")), None, String::from("d")).unwrap();
    assert_eq!(input.block_number, 42);
    assert_eq!(input.input_path, "in/x42.bin");
    assert_eq!(input.data_dir, "d");
    let input =
        block_input(5, None, Some(String::from("/no/such")), String::from("d")).unwrap();
    assert_eq!(input.block_number, 5);
    assert_eq!(input.data_dir, "/no/such");
    assert_eq!(input.input_path, "/no/such/blocks/5/unifiedBlockAndStateRlp5.bin");
    assert_eq!(
        block_input(0, None, None, String::from("d")).unwrap_err(),
        InputPathError::NothingNamed
    );
}

#[test]
fn proofs_are_planned() {
    assert_eq!(
        prove_plan(false, None, "g", None, 100).unwrap_err().text(),
        "CPU proving not yet implemented in z6m. Use --gpu."
    );
    match prove_plan(true, Some("c"), "g", None, 5).unwrap() {
        ProverPlan::FromCache { setup_path } => assert_eq!(setup_path, "c/setup.bin"),
        other => panic!("{:?}", other),
    }
    match prove_plan(true, None, "g", None, 80).unwrap() {
        ProverPlan::Compute { guest_path, until, security } => {
            assert_eq!(guest_path, "g");
            assert_eq!(until, ProvingLimit::Base);
            assert_eq!(security, SecurityModel::Security80);
        }
        other => panic!("{:?}", other),
    }
    assert!(matches!(
        prove_plan(true, None, "g", None, 5),
        Err(CommandError::Security(_))
    ));
}

#[test]
fn setups_are_written_next_to_each_other() {
    let deep = setup_output("temp", ProvingLimit::Unified);
    assert_eq!(deep.setup_path, "temp/setup.bin");
    assert_eq!(deep.wasm_dir.as_deref(), Some("temp/wasm"));
    assert_eq!(setup_output("temp", ProvingLimit::Unrolled).wasm_dir, None);
}

#[test]
fn benchmarks_are_summed_up() {
    assert_eq!(bench_summary(&[]), BenchSummary { min: 0, median: 0, max: 0 });
    assert_eq!(bench_summary(&[4]), BenchSummary { min: 4, median: 4, max: 4 });
    assert_eq!(bench_summary(&[9, 1, 5, 5]), BenchSummary { min: 1, median: 5, max: 9 });
    assert_eq!(bench_summary(&[3, 1, 2]), BenchSummary { min: 1, median: 2, max: 3 });
    assert_eq!(bench_summary(&[2, 8]), BenchSummary { min: 2, median: 8, max: 8 });
}

#[test]
fn chains_are_looked_for_in_both_halves() {
    let mut output = [0u32; 16];
    for (i, word) in output.iter_mut().enumerate() {
        *word = i as u32;
    }
    let binding = chain_binding(&output, &[8, 9, 10, 11, 12, 13, 14, 15]);
    assert_eq!(binding, ChainBinding::SecondHalf);
    assert_eq!(
        binding.text(),
        "CHAIN BINDING OK: output[8..16] matches setup hash chain"
    );
    let binding = chain_binding(&output, &[0, 1, 2, 3, 4, 5, 6, 7]);
    assert_eq!(binding, ChainBinding::FirstHalf);
    assert_eq!(
        binding.text(),
        "CHAIN BINDING OK: output[0..8] matches setup hash chain"
    );
    let binding = chain_binding(&output, &[8, 9, 10, 11, 12, 13, 14, 16]);
    assert_eq!(binding, ChainBinding::Unbound);
    assert_eq!(
        binding.text(),
        "WARNING: verifier output does not match setup hash chain windows"
    );
    assert_eq!(chain_binding(&[0; 16], &[0; 8]), ChainBinding::SecondHalf);
}

#[test]
fn executions_are_recorded() {
    let run = VmRunOutcome { gas_used: 21000, cycle_count: 5, reached_end: true, final_pc: 1 };
    let log = ExecutionLog::new(7, &run, 1000, String::from("in/x"));
    assert_eq!(
        log.line("T", "0.25"),
        "T block=7 gas_used=21000 cycles=5 time=0.25s freq=1000 reached_end=true  input=in/x"
    );
    assert_eq!(log.entry("T", "1.00"), log.line("T", "1.00") + "\n");
    assert_eq!(execution_log_file(None, "temp"), "temp/executionLogs.log");
    assert_eq!(execution_log_file(Some("x.log"), "temp"), "x.log");
    assert_eq!(DEFAULT_CYCLES, 5_000_000_000);
    assert_eq!(DEFAULT_RAM_BOUND, 1 << 30);
}

#[test]
fn executions_need_their_input() {
    assert!(require_input(7, "in/x", true).is_ok());
    assert_eq!(
        require_input(7, "in/x", false).unwrap_err().text(),
        "input file for block 7 not found at in/x"
    );
    assert_eq!(guest_files("g").elf_path, "g.elf");
    assert_eq!(guest_bin_path("build/g"), "build/g.bin");
}

#[test]
fn each_block_of_a_test_range_has_its_turn() {
    let (mut state, mut action) = start_test_service(3, 6);
    let mut located = Vec::new();
    let mut executed = Vec::new();
    loop {
        let next = match action {
            TestAction::Locate { block } => {
                located.push(block);
                TestEvent::Located { input: Ok(format!("b{}", block)), exists: block % 2 == 0 }
            }
            TestAction::Execute { block, input_path } => {
                assert_eq!(input_path, format!("b{}", block));
                executed.push(block);
                TestEvent::Executed
            }
            TestAction::Finish => break,
            TestAction::Fail(e) => panic!("{:?}", e),
        };
        (state, action) = state.step(next);
    }
    assert_eq!(located, vec![3, 4, 5, 6]);
    assert_eq!(executed, vec![4, 6]);
    assert_eq!(state, TestState::Finished);
}

#[test]
fn test_ranges_can_be_empty_or_reach_the_last_number() {
    assert!(matches!(start_test_service(4, 3).1, TestAction::Finish));
    let (state, action) = start_test_service(u64::MAX, u64::MAX);
    assert!(matches!(action, TestAction::Locate { block: u64::MAX }));
    let (state, action) =
        state.step(TestEvent::Located { input: Ok(String::from("p")), exists: false });
    assert!(matches!(action, TestAction::Finish));
    assert_eq!(state, TestState::Finished);
}

#[test]
fn a_block_without_a_path_ends_the_test_service() {
    let (state, action) = start_test_service(0, 3);
    assert!(matches!(action, TestAction::Locate { block: 0 }));
    let (state, action) = state
        .step(TestEvent::Located { input: Err(InputPathError::NothingNamed), exists: false });
    assert!(matches!(action, TestAction::Fail(InputPathError::NothingNamed)));
    assert_eq!(state, TestState::Failed);
}
