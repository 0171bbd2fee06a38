//! The setup of a prover: which recursion layers it has, what each is built from, and the cache that
//! holds what was built.
//!
//! Building a layer is expensive and done elsewhere. The library says which layer comes next and
//! keeps what came of it.

use vstd::prelude::*;
use crate::security::SecurityModel;

verus! {

/// How deep to prove.
#[derive(Clone, Copy, Debug, PartialEq, Eq, Structural)]
pub enum ProvingLimit {
    /// Base proofs only (no recursion).
    Base,
    /// Base + unrolled recursion.
    Unrolled,
    /// Base + unrolled + unified recursion.
    Unified,
}

/// A layer of a prover.
#[derive(Clone, Copy, Debug, PartialEq, Eq, Structural)]
pub enum ProverLevel {
    Base,
    RecursionUnrolled,
    RecursionUnified,
}

/// The verifier program that a recursion layer proves.
#[derive(Clone, Copy, Debug, PartialEq, Eq, Structural)]
pub enum RecursionLayer {
    Unrolled,
    Unified,
}

/// The circuits that an execution is proved with.
#[derive(Clone, Copy, Debug, PartialEq, Eq, Structural)]
pub enum ExecutionKind {
    Unrolled,
    Unified,
}

/// The machine that a program is written for.
#[derive(Clone, Copy, Debug, PartialEq, Eq, Structural)]
pub enum MachineType {
    /// With signed multiplication and division.
    Full,
    /// Without byte access, with delegation.
    Reduced,
}

/// Where the program of a layer comes from.
#[derive(Clone, Debug)]
pub enum LayerProgram {
    /// The guest, from two files.
    Guest { bin_path: String, text_path: String },
    /// The verifier of the layer below, for a security level.
    Verifier { security: SecurityModel, layer: RecursionLayer },
}

/// What a layer's hash chain is made from, besides the layer's own parameters.
#[derive(Clone, Copy, Debug, PartialEq, Eq, Structural)]
pub enum ChainStep {
    /// Nothing: the chain begins here.
    Begin,
    /// The chain of another layer.
    Continue(ProverLevel),
}

/// What it takes to build a layer.
#[derive(Clone, Debug)]
pub struct LayerPlan {
    pub level: ProverLevel,
    pub program: LayerProgram,
    pub machine: MachineType,
    pub kind: ExecutionKind,
    pub chain: ChainStep,
}

/// How a layer's program is registered with a prover.
#[derive(Clone, Copy, Debug, PartialEq, Eq, Structural)]
pub struct Registration {
    pub level: ProverLevel,
    pub kind: ExecutionKind,
    pub machine: MachineType,
}

/// How much a prover on a graphics processor may take.
#[derive(Clone, Copy, Debug, PartialEq, Eq, Structural)]
pub struct GpuProverLimits {
    pub replay_worker_threads_count: usize,
    pub host_allocators_per_job_count: usize,
    pub host_allocators_per_device_count: usize,
    pub min_free_host_allocators_per_job: usize,
}

/// Everything that it takes to make a prover without building its layers again: the data of each
/// layer, in ascending order of the layers.
///
/// `security_100` records which security level the verifiers of the recursion layers were chosen
/// for. The prover must be made for the same one.
#[derive(Clone, Debug)]
pub struct SetupCache<D> {
    pub max_level: ProverLevel,
    pub level_data: Vec<(ProverLevel, D)>,
    pub security_100: bool,
}

/// A cache that lacks the unified recursion layer.
#[derive(Clone, Copy, Debug, PartialEq, Eq, Structural)]
pub struct NoUnifiedLayer;

impl NoUnifiedLayer {
    /// What is said where a verification key is to be made from the cache.
    pub open spec fn text_spec(self) -> Seq<char> {
        "setup cache does not contain unified recursion level"@
    }

    /// What is said where a proof is to be verified with the cache.
    pub open spec fn advice_spec(self) -> Seq<char> {
        "setup cache has no unified level; run `setup --until unified`"@
    }

    /// What is said where a verification key is to be made from the cache.
    pub fn text(&self) -> (text: String)
        ensures
            text@ == self.text_spec(),
    {
        "setup cache does not contain unified recursion level".to_owned()
    }

    /// What is said where a proof is to be verified with the cache.
    pub fn advice(&self) -> (text: String)
        ensures
            text@ == self.advice_spec(),
    {
        "setup cache has no unified level; run `setup --until unified`".to_owned()
    }
}

impl ProvingLimit {
    /// The last layer that is proved.
    pub open spec fn level(self) -> ProverLevel {
        match self {
            ProvingLimit::Base => ProverLevel::Base,
            ProvingLimit::Unrolled => ProverLevel::RecursionUnrolled,
            ProvingLimit::Unified => ProverLevel::RecursionUnified,
        }
    }

    /// The last layer that is proved.
    pub fn to_unrolled_level(&self) -> (level: ProverLevel)
        ensures
            level == self.level(),
    {
        match self {
            ProvingLimit::Base => ProverLevel::Base,
            ProvingLimit::Unrolled => ProverLevel::RecursionUnrolled,
            ProvingLimit::Unified => ProverLevel::RecursionUnified,
        }
    }
}

impl ProverLevel {
    /// How many layers lie below.
    pub open spec fn rank(self) -> nat {
        match self {
            ProverLevel::Base => 0,
            ProverLevel::RecursionUnrolled => 1,
            ProverLevel::RecursionUnified => 2,
        }
    }

    /// The machine of the layer's program.
    pub open spec fn machine_of(self) -> MachineType {
        if self is Base {
            MachineType::Full
        } else {
            MachineType::Reduced
        }
    }

    /// The circuits of the layer.
    pub open spec fn kind_of(self) -> ExecutionKind {
        if self is RecursionUnified {
            ExecutionKind::Unified
        } else {
            ExecutionKind::Unrolled
        }
    }

    /// What the layer's hash chain continues.
    pub open spec fn chain_of(self) -> ChainStep {
        match self {
            ProverLevel::Base => ChainStep::Begin,
            ProverLevel::RecursionUnrolled => ChainStep::Continue(ProverLevel::Base),
            ProverLevel::RecursionUnified => ChainStep::Continue(ProverLevel::RecursionUnrolled),
        }
    }

    fn rank_number(&self) -> (rank: usize)
        ensures
            rank == self.rank(),
    {
        match self {
            ProverLevel::Base => 0,
            ProverLevel::RecursionUnrolled => 1,
            ProverLevel::RecursionUnified => 2,
        }
    }

    fn machine(&self) -> (machine: MachineType)
        ensures
            machine == self.machine_of(),
    {
        match self {
            ProverLevel::Base => MachineType::Full,
            _ => MachineType::Reduced,
        }
    }

    fn kind(&self) -> (kind: ExecutionKind)
        ensures
            kind == self.kind_of(),
    {
        match self {
            ProverLevel::RecursionUnified => ExecutionKind::Unified,
            _ => ExecutionKind::Unrolled,
        }
    }
}

impl LayerProgram {
    /// Whether this is the program of a layer, for a guest at `path` and a security level.
    pub open spec fn is_for(
        self,
        level: ProverLevel,
        path: Seq<char>,
        security: SecurityModel,
    ) -> bool {
        match self {
            LayerProgram::Guest { bin_path, text_path } => {
                &&& level is Base
                &&& bin_path@ == path + ".bin"@
                &&& text_path@ == path + ".text"@
            },
            LayerProgram::Verifier { security: s, layer } => {
                &&& s == security
                &&& level == (match layer {
                    RecursionLayer::Unrolled => ProverLevel::RecursionUnrolled,
                    RecursionLayer::Unified => ProverLevel::RecursionUnified,
                })
            },
        }
    }
}

impl LayerPlan {
    /// Whether this is how a layer is built, for a guest at `path` and a security level.
    pub open spec fn is_for(
        self,
        level: ProverLevel,
        path: Seq<char>,
        security: SecurityModel,
    ) -> bool {
        &&& self.level == level
        &&& self.program.is_for(level, path, security)
        &&& self.machine == level.machine_of()
        &&& self.kind == level.kind_of()
        &&& self.chain == level.chain_of()
    }
}

/// How a layer is built.
fn plan_layer(level: ProverLevel, path_without_ext: &str, security: SecurityModel) -> (plan:
    LayerPlan)
    ensures
        plan.is_for(level, path_without_ext@, security),
{
    match level {
        ProverLevel::Base => LayerPlan {
            level,
            program: LayerProgram::Guest {
                bin_path: path_without_ext.to_owned().concat(".bin"),
                text_path: path_without_ext.to_owned().concat(".text"),
            },
            machine: level.machine(),
            kind: level.kind(),
            chain: ChainStep::Begin,
        },
        ProverLevel::RecursionUnrolled => LayerPlan {
            level,
            program: LayerProgram::Verifier { security, layer: RecursionLayer::Unrolled },
            machine: level.machine(),
            kind: level.kind(),
            chain: ChainStep::Continue(ProverLevel::Base),
        },
        ProverLevel::RecursionUnified => LayerPlan {
            level,
            program: LayerProgram::Verifier { security, layer: RecursionLayer::Unified },
            machine: level.machine(),
            kind: level.kind(),
            chain: ChainStep::Continue(ProverLevel::RecursionUnrolled),
        },
    }
}

impl<D> SetupCache<D> {
    /// The layers are in ascending order, and so each occurs once.
    pub open spec fn wf(self) -> bool {
        forall|i: int, j: int|
            0 <= i < j < self.level_data@.len() ==> (#[trigger] self.level_data@[i]).0.rank() < (
            #[trigger] self.level_data@[j]).0.rank()
    }

    /// The security level of the cache.
    pub open spec fn security_spec(self) -> SecurityModel {
        if self.security_100 {
            SecurityModel::Security100
        } else {
            SecurityModel::Security80
        }
    }

    /// The layers are built from the bottom, without a gap, and none above the last one.
    pub open spec fn in_progress(self) -> bool {
        &&& self.level_data@.len() <= self.max_level.rank() + 1
        &&& forall|i: int|
            0 <= i < self.level_data@.len() ==> (#[trigger] self.level_data@[i]).0.rank() == i
    }

    /// All layers are built.
    pub open spec fn complete(self) -> bool {
        self.in_progress() && self.level_data@.len() == self.max_level.rank() + 1
    }

    /// The data of a layer.
    pub open spec fn data_of(self, level: ProverLevel) -> Option<D> {
        if exists|i: int| 0 <= i < self.level_data@.len() && self.level_data@[i].0 == level {
            Some(
                self.level_data@[choose|i: int|
                    0 <= i < self.level_data@.len() && self.level_data@[i].0 == level].1,
            )
        } else {
            None
        }
    }

    /// The security level of the cache.
    pub fn security(&self) -> (security: SecurityModel)
        ensures
            security == self.security_spec(),
    {
        if self.security_100 {
            SecurityModel::Security100
        } else {
            SecurityModel::Security80
        }
    }

    /// A cache without any layer, for a proving depth and a security level.
    pub fn begin(until: &ProvingLimit, security: SecurityModel) -> (cache: Self)
        ensures
            cache.in_progress(),
            cache.max_level == until.level(),
            cache.security_spec() == security,
            cache.level_data@.len() == 0,
    {
        SetupCache {
            max_level: until.to_unrolled_level(),
            level_data: Vec::new(),
            security_100: match security {
                SecurityModel::Security80 => false,
                SecurityModel::Security100 => true,
            },
        }
    }

    /// The layer that is to be built next for the guest at `path_without_ext`, or nothing once all
    /// layers are built.
    pub fn next_layer(&self, path_without_ext: &str) -> (plan: Option<LayerPlan>)
        requires
            self.in_progress(),
        ensures
            plan is None <==> self.complete(),
            plan matches Some(p) ==> {
                &&& p.level.rank() == self.level_data@.len()
                &&& p.level.rank() <= self.max_level.rank()
                &&& p.is_for(p.level, path_without_ext@, self.security_spec())
            },
    {
        let built: usize = self.level_data.len();
        if built > self.max_level.rank_number() {
            return None;
        }
        let level = match built {
            0 => ProverLevel::Base,
            1 => ProverLevel::RecursionUnrolled,
            _ => ProverLevel::RecursionUnified,
        };
        Some(plan_layer(level, path_without_ext, self.security()))
    }

    /// Keeps the data of the layer that was built next.
    pub fn record(&mut self, level: ProverLevel, data: D)
        requires
            old(self).in_progress(),
            !old(self).complete(),
            level.rank() == old(self).level_data@.len(),
        ensures
            final(self).in_progress(),
            final(self).max_level == old(self).max_level,
            final(self).security_100 == old(self).security_100,
            final(self).level_data@ == old(self).level_data@.push((level, data)),
    {
        self.level_data.push((level, data));
    }

    /// The data of a layer.
    pub fn get(&self, level: ProverLevel) -> (data: Option<&D>)
        requires
            self.wf(),
        ensures
            data == (match self.data_of(level) {
                Some(d) => Some(&d),
                None => None,
            }),
    {
        let mut i: usize = 0;
        while i < self.level_data.len()
            invariant
                i <= self.level_data@.len(),
                self.wf(),
                forall|j: int| 0 <= j < i ==> (#[trigger] self.level_data@[j]).0 != level,
            decreases self.level_data@.len() - i,
        {
            if self.level_data[i].0 == level {
                proof {
                    let k = choose|k: int|
                        0 <= k < self.level_data@.len() && self.level_data@[k].0 == level;
                    assert(self.level_data@[i as int].0 == level);
                    assert(k == i) by {
                        if k < i {
                            assert(self.level_data@[k].0.rank() < self.level_data@[i as int].0.rank());
                        } else if i < k {
                            assert(self.level_data@[i as int].0.rank() < self.level_data@[k].0.rank());
                        }
                    }
                }
                return Some(&self.level_data[i].1);
            }
            i = i + 1;
        }
        None
    }

    /// The data of the unified recursion layer, which proofs are verified with.
    pub fn unified(&self) -> (r: Result<&D, NoUnifiedLayer>)
        requires
            self.wf(),
        ensures
            match r {
                Ok(data) => self.data_of(ProverLevel::RecursionUnified) == Some(*data),
                Err(_) => self.data_of(ProverLevel::RecursionUnified) is None,
            },
    {
        match self.get(ProverLevel::RecursionUnified) {
            Some(data) => Ok(data),
            None => Err(NoUnifiedLayer),
        }
    }

    /// How the programs of the layers are registered with a prover, in ascending order of the
    /// layers.
    pub fn registrations(&self) -> (regs: Vec<Registration>)
        ensures
            regs@.len() == self.level_data@.len(),
            forall|i: int|
                0 <= i < regs@.len() ==> {
                    let level = self.level_data@[i].0;
                    #[trigger] regs@[i] == (Registration {
                        level,
                        kind: level.kind_of(),
                        machine: level.machine_of(),
                    })
                },
    {
        let mut regs: Vec<Registration> = Vec::new();
        let mut i: usize = 0;
        while i < self.level_data.len()
            invariant
                i <= self.level_data@.len(),
                regs@.len() == i,
                forall|j: int|
                    0 <= j < i ==> {
                        let level = self.level_data@[j].0;
                        #[trigger] regs@[j] == (Registration {
                            level,
                            kind: level.kind_of(),
                            machine: level.machine_of(),
                        })
                    },
            decreases self.level_data@.len() - i,
        {
            let level = self.level_data[i].0;
            regs.push(Registration { level, kind: level.kind(), machine: level.machine() });
            i = i + 1;
        }
        regs
    }
}

/// How much the prover on the graphics processor may take.
pub fn gpu_prover_limits() -> (limits: GpuProverLimits)
    ensures
        limits.replay_worker_threads_count == 8,
        limits.host_allocators_per_job_count == 96,
        limits.host_allocators_per_device_count == 32,
        limits.min_free_host_allocators_per_job == 16,
{
    GpuProverLimits {
        replay_worker_threads_count: 8,
        host_allocators_per_job_count: 96,
        host_allocators_per_device_count: 32,
        min_free_host_allocators_per_job: 16,
    }
}

/// A cache that is being built is in order.
pub proof fn law_built_layers_are_in_order<D>(cache: SetupCache<D>)
    requires
        cache.in_progress(),
    ensures
        cache.wf(),
{
}

/// A complete cache holds the data of a layer exactly if the layer is not above the last one.
pub proof fn law_complete_cache_has_all_layers<D>(cache: SetupCache<D>, level: ProverLevel)
    requires
        cache.complete(),
    ensures
        cache.data_of(level) is Some <==> level.rank() <= cache.max_level.rank(),
{
    if level.rank() <= cache.max_level.rank() {
        let i = level.rank() as int;
        assert(cache.level_data@[i].0.rank() == i);
        assert(cache.level_data@[i].0 == level);
    }
}

/// The layer whose hash chain the next layer continues is built when the next layer's turn comes.
pub proof fn law_chain_continues_a_built_layer<D>(
    cache: SetupCache<D>,
    plan: LayerPlan,
    path: Seq<char>,
)
    requires
        cache.in_progress(),
        plan.is_for(plan.level, path, cache.security_spec()),
        plan.level.rank() == cache.level_data@.len(),
    ensures
        plan.chain is Begin <==> plan.level is Base,
        plan.chain matches ChainStep::Continue(below) ==> {
            &&& below.rank() + 1 == plan.level.rank()
            &&& cache.data_of(below) is Some
        },
{
    if let ChainStep::Continue(below) = plan.chain {
        let i = below.rank() as int;
        assert(cache.level_data@[i].0.rank() == i);
        assert(cache.level_data@[i].0 == below);
    }
}

/// The layers of each proving depth: base proofs alone, unrolled recursion on top of them, and unified
/// recursion on top of both. The base layer runs the full machine and the recursion layers the reduced
/// one, and only the topmost layer is proved with the unified circuits. Each layer continues the hash
/// chain of the one below.
pub proof fn law_layers(limit: ProvingLimit, level: ProverLevel)
    ensures
        limit.level() is Base <==> limit is Base,
        limit.level() is RecursionUnrolled <==> limit is Unrolled,
        limit.level() is RecursionUnified <==> limit is Unified,
        level.rank() == 0 <==> level is Base,
        level.rank() == 1 <==> level is RecursionUnrolled,
        level.rank() == 2 <==> level is RecursionUnified,
        level.machine_of() is Full <==> level is Base,
        level.kind_of() is Unified <==> level is RecursionUnified,
        level.chain_of() == ChainStep::Begin <==> level is Base,
        level.chain_of() == ChainStep::Continue(ProverLevel::Base) <==> level is RecursionUnrolled,
        level.chain_of() == ChainStep::Continue(ProverLevel::RecursionUnrolled)
            <==> level is RecursionUnified,
{
}

/// What the plan of a layer says: the layer itself, its machine, its circuits and its chain. The base
/// layer is built from the two files of the guest, and the layers above it from the verifier for the
/// security level.
pub proof fn law_plan_of_a_layer(
    plan: LayerPlan,
    level: ProverLevel,
    path: Seq<char>,
    security: SecurityModel,
)
    requires
        plan.is_for(level, path, security),
    ensures
        plan.level == level,
        plan.machine is Full <==> level is Base,
        plan.kind is Unified <==> level is RecursionUnified,
        level is Base ==> plan.chain is Begin && (plan.program matches LayerProgram::Guest {
            bin_path,
            text_path,
        } && bin_path@ == path + ".bin"@ && text_path@ == path + ".text"@),
        level is RecursionUnrolled ==> plan.chain == ChainStep::Continue(ProverLevel::Base) && (
        plan.program matches LayerProgram::Verifier { security: s, layer } && s == security
            && layer is Unrolled),
        level is RecursionUnified ==> plan.chain == ChainStep::Continue(
            ProverLevel::RecursionUnrolled,
        ) && (plan.program matches LayerProgram::Verifier { security: s, layer } && s == security
            && layer is Unified),
{
}

/// A cache gives back what was kept under a layer, and nothing under a layer of which nothing was
/// kept.
pub proof fn law_cache_gives_back_what_was_kept<D>(
    cache: SetupCache<D>,
    level: ProverLevel,
    i: int,
)
    requires
        cache.wf(),
    ensures
        0 <= i < cache.level_data@.len() && cache.level_data@[i].0 == level ==> cache.data_of(level)
            == Some(cache.level_data@[i].1),
        (forall|j: int|
            0 <= j < cache.level_data@.len() ==> (#[trigger] cache.level_data@[j]).0 != level)
            ==> cache.data_of(level) is None,
        cache.security_100 ==> cache.security_spec() == SecurityModel::Security100,
        !cache.security_100 ==> cache.security_spec() == SecurityModel::Security80,
{
    if 0 <= i < cache.level_data@.len() && cache.level_data@[i].0 == level {
        let k = choose|k: int| 0 <= k < cache.level_data@.len() && cache.level_data@[k].0 == level;
        if k < i {
            assert(cache.level_data@[k].0.rank() < cache.level_data@[i].0.rank());
        } else if i < k {
            assert(cache.level_data@[i].0.rank() < cache.level_data@[k].0.rank());
        }
    }
}

/// While layers are built, they are those from the base layer on, without a gap, and none above the
/// last one. The cache is complete exactly if the last layer is built.
pub proof fn law_layers_are_built_without_a_gap<D>(cache: SetupCache<D>)
    ensures
        cache.in_progress() ==> cache.level_data@.len() <= cache.max_level.rank() + 1,
        cache.in_progress() && cache.level_data@.len() > 0 ==> cache.level_data@[0].0 is Base,
        cache.in_progress() && cache.level_data@.len() > 1
            ==> cache.level_data@[1].0 is RecursionUnrolled,
        cache.in_progress() && cache.level_data@.len() > 2
            ==> cache.level_data@[2].0 is RecursionUnified,
        cache.complete() <==> cache.in_progress() && cache.level_data@.len() > 0
            && cache.level_data@.last().0 == cache.max_level,
{
    if cache.in_progress() {
        let n = cache.level_data@.len();
        if n > 0 {
            assert(cache.level_data@[0].0.rank() == 0);
            assert(cache.level_data@[n - 1].0.rank() == n - 1);
        }
        if n > 1 {
            assert(cache.level_data@[1].0.rank() == 1);
        }
        if n > 2 {
            assert(cache.level_data@[2].0.rank() == 2);
        }
    }
}

/// What is said of a cache without the unified layer.
pub proof fn law_texts_of_a_missing_layer(e: NoUnifiedLayer)
    ensures
        e.text_spec() == "setup cache does not contain unified recursion level"@,
        e.advice_spec() == "setup cache has no unified level; run `setup --until unified`"@,
{
}

} // verus!
