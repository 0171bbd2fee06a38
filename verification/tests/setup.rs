use z6m_prover::security::SecurityModel;
use z6m_prover::setup::{
    gpu_prover_limits, ChainStep, ExecutionKind, LayerProgram, MachineType, ProverLevel,
    ProvingLimit, RecursionLayer, Registration, SetupCache,
};

fn built(until: ProvingLimit, security: SecurityModel) -> SetupCache<&'static str> {
    let mut cache = SetupCache::begin(&until, security);
    while let Some(plan) = cache.next_layer("build/guest") {
        let data = match plan.level {
            ProverLevel::Base => "base",
            ProverLevel::RecursionUnrolled => "unrolled",
            ProverLevel::RecursionUnified => "unified",
        };
        cache.record(plan.level, data);
    }
    cache
}

#[test]
fn proving_limits_have_levels() {
    assert_eq!(ProvingLimit::Base.to_unrolled_level(), ProverLevel::Base);
    assert_eq!(ProvingLimit::Unrolled.to_unrolled_level(), ProverLevel::RecursionUnrolled);
    assert_eq!(ProvingLimit::Unified.to_unrolled_level(), ProverLevel::RecursionUnified);
}

#[test]
fn layers_are_built_from_the_bottom() {
    let levels = |limit| {
        built(limit, SecurityModel::Security80)
            .level_data
            .iter()
            .map(|(level, _)| *level)
            .collect::<Vec<_>>()
    };
    assert_eq!(levels(ProvingLimit::Base), vec![ProverLevel::Base]);
    assert_eq!(
        levels(ProvingLimit::Unrolled),
        vec![ProverLevel::Base, ProverLevel::RecursionUnrolled]
    );
    assert_eq!(
        levels(ProvingLimit::Unified),
        vec![ProverLevel::Base, ProverLevel::RecursionUnrolled, ProverLevel::RecursionUnified]
    );
}

#[test]
fn layers_know_what_they_are_built_from() {
    let mut cache: SetupCache<u8> =
        SetupCache::begin(&ProvingLimit::Unified, SecurityModel::Security100);
    let base = cache.next_layer("g").unwrap();
    match base.program {
        LayerProgram::Guest { bin_path, text_path } => {
            assert_eq!(bin_path, "g.bin");
            assert_eq!(text_path, "g.text");
        }
        other => panic!("{:?}", other),
    }
    assert_eq!(base.machine, MachineType::Full);
    assert_eq!(base.kind, ExecutionKind::Unrolled);
    assert_eq!(base.chain, ChainStep::Begin);

    cache.record(ProverLevel::Base, 0);
    let unrolled = cache.next_layer("g").unwrap();
    match unrolled.program {
        LayerProgram::Verifier { security, layer } => {
            assert_eq!(security, SecurityModel::Security100);
            assert_eq!(layer, RecursionLayer::Unrolled);
        }
        other => panic!("{:?}", other),
    }
    assert_eq!(unrolled.machine, MachineType::Reduced);
    assert_eq!(unrolled.kind, ExecutionKind::Unrolled);
    assert_eq!(unrolled.chain, ChainStep::Continue(ProverLevel::Base));

    cache.record(ProverLevel::RecursionUnrolled, 1);
    let unified = cache.next_layer("g").unwrap();
    match unified.program {
        LayerProgram::Verifier { security, layer } => {
            assert_eq!(security, SecurityModel::Security100);
            assert_eq!(layer, RecursionLayer::Unified);
        }
        other => panic!("{:?}", other),
    }
    assert_eq!(unified.machine, MachineType::Reduced);
    assert_eq!(unified.kind, ExecutionKind::Unified);
    assert_eq!(unified.chain, ChainStep::Continue(ProverLevel::RecursionUnrolled));
}

#[test]
fn caches_remember_their_security_level() {
    assert_eq!(
        built(ProvingLimit::Base, SecurityModel::Security80).security(),
        SecurityModel::Security80
    );
    assert_eq!(
        built(ProvingLimit::Base, SecurityModel::Security100).security(),
        SecurityModel::Security100
    );
}

#[test]
fn caches_give_back_what_was_built() {
    let cache = built(ProvingLimit::Unified, SecurityModel::Security100);
    assert_eq!(cache.get(ProverLevel::Base), Some(&"base"));
    assert_eq!(cache.get(ProverLevel::RecursionUnrolled), Some(&"unrolled"));
    assert_eq!(cache.unified(), Ok(&"unified"));

    let shallow = built(ProvingLimit::Unrolled, SecurityModel::Security100);
    assert_eq!(shallow.get(ProverLevel::RecursionUnified), None);
    let missing = shallow.unified().unwrap_err();
    assert_eq!(missing.text(), "setup cache does not contain unified recursion level");
    assert_eq!(
        missing.advice(),
        "setup cache has no unified level; run `setup --until unified`"
    );
}

#[test]
fn layers_are_registered_in_order() {
    let cache = built(ProvingLimit::Unified, SecurityModel::Security80);
    assert_eq!(
        cache.registrations(),
        vec![
            Registration {
                level: ProverLevel::Base,
                kind: ExecutionKind::Unrolled,
                machine: MachineType::Full,
            },
            Registration {
                level: ProverLevel::RecursionUnrolled,
                kind: ExecutionKind::Unrolled,
                machine: MachineType::Reduced,
            },
            Registration {
                level: ProverLevel::RecursionUnified,
                kind: ExecutionKind::Unified,
                machine: MachineType::Reduced,
            },
        ]
    );
}

#[test]
fn provers_have_limits() {
    let limits = gpu_prover_limits();
    assert_eq!(limits.replay_worker_threads_count, 8);
    assert_eq!(limits.host_allocators_per_job_count, 96);
    assert_eq!(limits.host_allocators_per_device_count, 32);
    assert_eq!(limits.min_free_host_allocators_per_job, 16);
}
