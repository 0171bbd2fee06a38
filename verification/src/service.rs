//! The proving service: its configuration, what it takes to open it, and where it keeps its results.

use vstd::prelude::*;
use crate::envelope::{
    enveloped, gzip_of, looks_gzipped, serialize_proof_to_bytes_enveloped, PROOF_ENVELOPE_MAGIC,
};
use crate::ethproofs::{EthProofsConfig, EthproofsClient};
use crate::execution::{guest_bin_path, guest_files, GuestFiles};
use crate::fetcher::FetchRules;
use crate::inputs::{ask_disk, disk_answers};
use crate::path::{join, joined};
use crate::run::{ProofOutput, ProofSummary, ProvingLog};
use crate::security::SecurityModel;
use crate::setup::ProvingLimit;
use crate::text::{append_hex8, decimal, decimal_text, hex8, hex_char};
use crate::worker::WorkerRules;

verus! {

/// What a service is asked to do.
#[derive(Clone, Debug)]
pub struct ServiceConfig {
    pub start_block: Option<u64>,
    pub end_block: Option<u64>,
    pub prove_every: Option<u64>,
    pub execute_every: Option<u64>,
    /// The proof collector is told of every n-th block only. Without an interval it is told of each
    /// block that is proved, and with the interval zero of none.
    pub post_every: Option<u64>,
    pub rpc_url: String,
    /// Where new heads of the chain are pushed from. When set, the fetcher wakes on new blocks
    /// instead of asking for them.
    pub ws_url: Option<String>,
    pub save_all_responses: bool,
    pub data_dir: String,
    pub output_dir: String,
    /// The path of the guest without its extension.
    pub guest_base: String,
    pub max_cycles: usize,
    pub gpu: bool,
    pub until: Option<ProvingLimit>,
    pub setup_dir: Option<String>,
    pub security: SecurityModel,
    pub ethproofs: Option<EthProofsConfig>,
}

/// A service that is ready to run.
#[derive(Debug)]
pub struct AirbenderService {
    pub config: ServiceConfig,
    pub eth_client: Option<EthproofsClient>,
    /// What proofs name as their verifier: the parameters of the highest recursion layer.
    pub verifier_id: String,
    /// Where a guest that succeeds parks. A run that ends anywhere else took the error path.
    pub guest_exit_pc: u32,
}

/// A guest that is not there.
#[derive(Clone, Debug)]
pub struct GuestMissing {
    pub bin_path: String,
}

/// Where the prover comes from.
#[derive(Clone, Debug)]
pub enum ProverPlan {
    /// There is none.
    Without,
    /// From the setup cache in a file.
    FromCache { setup_path: String },
    /// From a setup that is computed for the guest.
    Compute { guest_path: String, until: ProvingLimit, security: SecurityModel },
}

/// A setup cache for another security level than the one that was asked for.
#[derive(Clone, Debug)]
pub struct SetupMismatch {
    pub setup_path: String,
    pub cached: SecurityModel,
    pub requested: SecurityModel,
}

/// What the `url` crate makes of a text that it takes for an absolute URL: the URL in its normal
/// form, or what is wrong with it.
pub uninterp spec fn parsed_url(text: Seq<char>) -> Result<Seq<char>, Seq<char>>;

/// Reads a URL by `url::Url::parse`. The result is named by `parsed_url`: the URL as
/// `url::Url::as_str` gives it, or the text of the error.
#[verifier::external_body]
fn parse_url(text: &str) -> (r: Result<String, String>)
    ensures
        match r {
            Ok(url) => parsed_url(text@) == Ok::<Seq<char>, Seq<char>>(url@),
            Err(e) => parsed_url(text@) == Err::<Seq<char>, Seq<char>>(e@),
        },
{
    match url::Url::parse(text) {
        Ok(url) => Ok(url.as_str().to_string()),
        Err(e) => Err(e.to_string()),
    }
}

impl GuestMissing {
    /// What is said of a guest that is not there.
    pub open spec fn text_spec(self) -> Seq<char> {
        "Guest binary not found at "@ + self.bin_path@
    }

    /// What is said of a guest that is not there.
    pub fn text(&self) -> (text: String)
        ensures
            text@ == self.text_spec(),
    {
        "Guest binary not found at ".to_owned().concat(self.bin_path.as_str())
    }
}

impl SetupMismatch {
    /// What is said of a setup cache that does not fit a service.
    pub open spec fn text_spec(self) -> Seq<char> {
        "setup cache at "@ + self.setup_path@ + " was computed for "@ + self.cached.name_text()
            + ", but the service requested "@ + self.requested.name_text()
    }

    /// What is said of a setup cache that does not fit a service.
    pub fn text(&self) -> (text: String)
        ensures
            text@ == self.text_spec(),
    {
        let mut out = "setup cache at ".to_owned();
        out.append(self.setup_path.as_str());
        out.append(" was computed for ");
        out.append(self.cached.name().as_str());
        out.append(", but the service requested ");
        out.append(self.requested.name().as_str());
        out
    }
}

/// Lets a setup cache pass that was computed for the security level that is asked for.
pub fn check_setup_security(setup_path: &str, cached: SecurityModel, requested: SecurityModel) -> (r:
    Result<(), SetupMismatch>)
    ensures
        match r {
            Ok(_) => cached == requested,
            Err(e) => {
                &&& cached != requested
                &&& e.setup_path@ == setup_path@
                &&& e.cached == cached
                &&& e.requested == requested
            },
        },
{
    if cached == requested {
        Ok(())
    } else {
        Err(SetupMismatch { setup_path: setup_path.to_owned(), cached, requested })
    }
}

/// Words in hexadecimal, one after the other.
pub open spec fn hex_words(words: Seq<u32>) -> Seq<char>
    decreases words.len(),
{
    if words.len() == 0 {
        Seq::<char>::empty()
    } else {
        hex_words(words.drop_last()) + hex8(words.last())
    }
}

/// What proofs name as their verifier, from the parameters of the highest layer of a prover.
pub open spec fn verifier_id_text(end_params: Option<Seq<u32>>) -> Seq<char> {
    match end_params {
        Some(words) => "0x"@ + hex_words(words),
        None => "airbender-z6m"@,
    }
}

/// What proofs name as their verifier: the parameters of the highest layer of the prover, or a fixed
/// name where there is no prover.
pub fn verifier_id(end_params: Option<&[u32]>) -> (id: String)
    ensures
        id@ == verifier_id_text(
            match end_params {
                Some(words) => Some(words@),
                None => None,
            },
        ),
{
    match end_params {
        Some(words) => {
            let mut out = "0x".to_owned();
            let mut i: usize = 0;
            assert(words@.take(0) == Seq::<u32>::empty());
            while i < words.len()
                invariant
                    i <= words@.len(),
                    out@ == "0x"@ + hex_words(words@.take(i as int)),
                decreases words@.len() - i,
            {
                assert(words@.take(i + 1).drop_last() == words@.take(i as int));
                append_hex8(&mut out, words[i]);
                i = i + 1;
                assert(out@ == "0x"@ + hex_words(words@.take(i as int)));
            }
            assert(words@.take(i as int) == words@);
            out
        },
        None => "airbender-z6m".to_owned(),
    }
}

impl ServiceConfig {
    /// The files of the guest, where `bin_exists` says whether the guest is there.
    pub fn guest(&self, bin_exists: bool) -> (r: Result<GuestFiles, GuestMissing>)
        ensures
            match r {
                Ok(files) => {
                    &&& bin_exists
                    &&& files.bin_path@ == self.guest_base@ + ".bin"@
                    &&& files.text_path@ == self.guest_base@ + ".text"@
                    &&& files.elf_path@ == self.guest_base@ + ".elf"@
                },
                Err(e) => !bin_exists && e.bin_path@ == self.guest_base@ + ".bin"@,
            },
    {
        let files = guest_files(self.guest_base.as_str());
        if bin_exists {
            Ok(files)
        } else {
            Err(GuestMissing { bin_path: files.bin_path })
        }
    }

    /// The files of the guest, if it is there.
    pub fn locate_guest(&self) -> (r: Result<GuestFiles, GuestMissing>)
        ensures
            match r {
                Ok(files) => {
                    &&& files.bin_path@ == self.guest_base@ + ".bin"@
                    &&& files.text_path@ == self.guest_base@ + ".text"@
                    &&& files.elf_path@ == self.guest_base@ + ".elf"@
                },
                Err(e) => e.bin_path@ == self.guest_base@ + ".bin"@,
            },
            disk_answers(self.guest_base@ + ".bin"@, r is Ok),
    {
        let bin_path = guest_bin_path(self.guest_base.as_str());
        self.guest(ask_disk(bin_path.as_str()))
    }

    /// Where the prover comes from: there is one only where it is asked for, and it is made from the
    /// cache where there is one. Without a proving depth there is no recursion.
    pub fn prover_plan(&self) -> (plan: ProverPlan)
        ensures
            match plan {
                ProverPlan::Without => !self.gpu,
                ProverPlan::FromCache { setup_path } => {
                    &&& self.gpu
                    &&& self.setup_dir matches Some(dir) && setup_path@ == joined(
                        dir@,
                        "setup.bin"@,
                    )
                },
                ProverPlan::Compute { guest_path, until, security } => {
                    &&& self.gpu
                    &&& self.setup_dir is None
                    &&& guest_path == self.guest_base
                    &&& until == (match self.until {
                        Some(limit) => limit,
                        None => ProvingLimit::Base,
                    })
                    &&& security == self.security
                },
            },
    {
        if !self.gpu {
            return ProverPlan::Without;
        }
        match &self.setup_dir {
            Some(dir) => ProverPlan::FromCache { setup_path: join(dir.as_str(), "setup.bin") },
            None => ProverPlan::Compute {
                guest_path: self.guest_base.clone(),
                until: match self.until {
                    Some(limit) => limit,
                    None => ProvingLimit::Base,
                },
                security: self.security,
            },
        }
    }

    /// The URL that blocks are fetched from, or what is wrong with it.
    pub fn rpc_endpoint(&self) -> (r: Result<String, String>)
        ensures
            match r {
                Ok(url) => parsed_url(self.rpc_url@) == Ok::<Seq<char>, Seq<char>>(url@),
                Err(e) => parsed_url(self.rpc_url@) == Err::<Seq<char>, Seq<char>>(e@),
            },
    {
        parse_url(self.rpc_url.as_str())
    }
}

impl AirbenderService {
    /// The file of a block's proof.
    pub open spec fn proof_path(self, block: u64) -> Seq<char> {
        joined(self.proof_dir(block), "proof.bin"@)
    }

    /// The directory of a block's proof.
    pub open spec fn proof_dir(self, block: u64) -> Seq<char> {
        joined(self.config.output_dir@, decimal(block as nat))
    }

    /// A service for a guest that parks at `guest_exit_pc`. The parameters `end_params` are those of
    /// the highest layer of the prover, where there is one.
    pub fn new(config: ServiceConfig, guest_exit_pc: u32, end_params: Option<&[u32]>) -> (service:
        Self)
        ensures
            service.config == config,
            match (service.eth_client, config.ethproofs) {
                (Some(client), Some(c)) => {
                    &&& client.cluster_id == c.cluster_id
                    &&& client.endpoint == c.endpoint
                    &&& client.api_token == c.token
                    &&& client.spool_dir is None
                },
                (None, None) => true,
                _ => false,
            },
            service.verifier_id@ == verifier_id_text(
                match end_params {
                    Some(words) => Some(words@),
                    None => None,
                },
            ),
            service.guest_exit_pc == guest_exit_pc,
    {
        let eth_client = match &config.ethproofs {
            Some(c) => Some(
                EthproofsClient::new(
                    EthProofsConfig {
                        endpoint: c.endpoint.clone(),
                        token: c.token.clone(),
                        cluster_id: c.cluster_id,
                    },
                ),
            ),
            None => None,
        };
        let id = verifier_id(end_params);
        AirbenderService { config, eth_client, verifier_id: id, guest_exit_pc }
    }

    /// Which blocks the service fetches.
    pub fn fetch_rules(&self) -> (rules: FetchRules)
        ensures
            rules == (FetchRules {
                start_block: self.config.start_block,
                end_block: self.config.end_block,
                prove_every: self.config.prove_every,
                execute_every: self.config.execute_every,
                save_all_responses: self.config.save_all_responses,
                has_client: self.eth_client is Some,
                post_every: self.config.post_every,
            }),
    {
        FetchRules {
            start_block: self.config.start_block,
            end_block: self.config.end_block,
            prove_every: self.config.prove_every,
            execute_every: self.config.execute_every,
            save_all_responses: self.config.save_all_responses,
            has_client: self.eth_client.is_some(),
            post_every: self.config.post_every,
        }
    }

    /// How the service's worker judges runs.
    pub fn worker_rules(&self) -> (rules: WorkerRules)
        ensures
            rules == (WorkerRules {
                exit_pc: self.guest_exit_pc,
                has_client: self.eth_client is Some,
                post_every: self.config.post_every,
            }),
    {
        WorkerRules {
            exit_pc: self.guest_exit_pc,
            has_client: self.eth_client.is_some(),
            post_every: self.config.post_every,
        }
    }

    /// Where proofs are recorded.
    pub fn proving_log_file(&self) -> (path: String)
        ensures
            path@ == joined(self.config.data_dir@, "provingLogs.log"@),
    {
        join(self.config.data_dir.as_str(), "provingLogs.log")
    }

    /// What is kept of a finished proof, given in its serialized form: the file is what is submitted,
    /// so that it can be verified as it is.
    pub fn proof_output(
        &self,
        block_number: u64,
        cycle_count: u64,
        elapsed_millis: u128,
        summary: &ProofSummary,
        proof: &[u8],
    ) -> (output: ProofOutput)
        requires
            summary.family_proofs + summary.init_proofs + summary.delegation_proofs <= usize::MAX,
        ensures
            output.dir@ == self.proof_dir(block_number),
            output.path@ == self.proof_path(block_number),
            output.bytes@ == gzip_of(
                enveloped(PROOF_ENVELOPE_MAGIC@, self.config.security, proof@),
            ),
            looks_gzipped(output.bytes@),
            output.log.block_number == block_number,
            output.log.gas_used == summary.gas_register,
            output.log.cycle_count == cycle_count,
            output.log.num_proofs == summary.family_proofs + summary.init_proofs
                + summary.delegation_proofs,
            output.log.proving_millis as int == elapsed_millis as int % 0x1_0000_0000_0000_0000,
            output.log.message@ == "Success"@,
    {
        let dir = join(self.config.output_dir.as_str(), decimal_text(block_number).as_str());
        let path = join(dir.as_str(), "proof.bin");
        let bytes = serialize_proof_to_bytes_enveloped(proof, self.config.security);
        let log = ProvingLog::success(block_number, cycle_count, elapsed_millis, summary);
        ProofOutput { dir, path, bytes, log }
    }
}

proof fn lemma_hex_words_len(words: Seq<u32>)
    ensures
        hex_words(words).len() == 8 * words.len(),
    decreases words.len(),
{
    if words.len() > 0 {
        lemma_hex_words_len(words.drop_last());
    }
}

/// The name of a verifier tells the parameters it was made from, and is never the name that stands
/// for the lack of a prover.
pub proof fn law_verifier_id_tells_the_parameters(a: Option<Seq<u32>>, b: Option<Seq<u32>>)
    requires
        verifier_id_text(a) == verifier_id_text(b),
    ensures
        a == b,
{
    reveal_strlit("0x");
    reveal_strlit("airbender-z6m");
    let id_a = verifier_id_text(a);
    let id_b = verifier_id_text(b);
    match (a, b) {
        (Some(x), Some(y)) => {
            assert(id_a.skip(2) == hex_words(x));
            assert(id_b.skip(2) == hex_words(y));
            lemma_hex_words_injective(x, y);
        },
        (Some(_), None) => {
            assert(id_a[0] == '0' && id_b[0] == 'a');
        },
        (None, Some(_)) => {
            assert(id_a[0] == 'a' && id_b[0] == '0');
        },
        (None, None) => {},
    }
}

proof fn lemma_hex_words_injective(x: Seq<u32>, y: Seq<u32>)
    requires
        hex_words(x) == hex_words(y),
    ensures
        x == y,
    decreases x.len(),
{
    lemma_hex_words_len(x);
    lemma_hex_words_len(y);
    if x.len() > 0 {
        let hx = hex_words(x);
        let hy = hex_words(y);
        let n = hx.len() as int;
        lemma_hex_words_len(x.drop_last());
        lemma_hex_words_len(y.drop_last());
        assert(hx.take(n - 8) == hex_words(x.drop_last()));
        assert(hy.take(n - 8) == hex_words(y.drop_last()));
        assert(hx.skip(n - 8) == hex8(x.last()));
        assert(hy.skip(n - 8) == hex8(y.last()));
        lemma_hex_words_injective(x.drop_last(), y.drop_last());
        lemma_hex8_injective(x.last(), y.last());
        assert(x == x.drop_last().push(x.last()));
        assert(y == y.drop_last().push(y.last()));
    } else {
        assert(x == y);
    }
}

proof fn lemma_hex_char_injective(a: nat, b: nat)
    requires
        a < 16,
        b < 16,
        hex_char(a) == hex_char(b),
    ensures
        a == b,
{
}

proof fn lemma_hex8_injective(x: u32, y: u32)
    requires
        hex8(x) == hex8(y),
    ensures
        x == y,
{
    let hx = hex8(x);
    let hy = hex8(y);
    assert(hx[0] == hy[0] && hx[1] == hy[1] && hx[2] == hy[2] && hx[3] == hy[3]);
    assert(hx[4] == hy[4] && hx[5] == hy[5] && hx[6] == hy[6] && hx[7] == hy[7]);
    lemma_hex_char_injective((x / 0x1000_0000) as nat % 16, (y / 0x1000_0000) as nat % 16);
    lemma_hex_char_injective((x / 0x100_0000) as nat % 16, (y / 0x100_0000) as nat % 16);
    lemma_hex_char_injective((x / 0x10_0000) as nat % 16, (y / 0x10_0000) as nat % 16);
    lemma_hex_char_injective((x / 0x1_0000) as nat % 16, (y / 0x1_0000) as nat % 16);
    lemma_hex_char_injective((x / 0x1000) as nat % 16, (y / 0x1000) as nat % 16);
    lemma_hex_char_injective((x / 0x100) as nat % 16, (y / 0x100) as nat % 16);
    lemma_hex_char_injective((x / 0x10) as nat % 16, (y / 0x10) as nat % 16);
    lemma_hex_char_injective(x as nat % 16, y as nat % 16);
    assert(x == y) by (bit_vector)
        requires
            x / 0x1000_0000 % 16 == y / 0x1000_0000 % 16,
            x / 0x100_0000 % 16 == y / 0x100_0000 % 16,
            x / 0x10_0000 % 16 == y / 0x10_0000 % 16,
            x / 0x1_0000 % 16 == y / 0x1_0000 % 16,
            x / 0x1000 % 16 == y / 0x1000 % 16,
            x / 0x100 % 16 == y / 0x100 % 16,
            x / 0x10 % 16 == y / 0x10 % 16,
            x % 16 == y % 16,
    ;
}

proof fn lemma_hex_word_at(words: Seq<u32>, i: int)
    requires
        0 <= i < words.len(),
    ensures
        hex_words(words).len() == 8 * words.len(),
        hex_words(words).subrange(8 * i, 8 * i + 8) == hex8(words[i]),
    decreases words.len(),
{
    lemma_hex_words_len(words);
    let all = hex_words(words);
    let before = words.drop_last();
    lemma_hex_words_len(before);
    if i == words.len() - 1 {
        assert(all.subrange(8 * i, 8 * i + 8) =~= hex8(words.last()));
    } else {
        lemma_hex_word_at(before, i);
        assert(before[i] == words[i]);
        assert(all.subrange(8 * i, 8 * i + 8) =~= hex_words(before).subrange(8 * i, 8 * i + 8));
    }
}

/// What a verifier is named: `0x` and then each parameter in eight hexadecimal digits, in order, or a
/// fixed name where there is no prover.
pub proof fn law_name_of_a_verifier(words: Seq<u32>, i: int)
    requires
        0 <= i < words.len(),
    ensures
        verifier_id_text(None) == "airbender-z6m"@,
        verifier_id_text(Some(Seq::<u32>::empty())) == "0x"@,
        verifier_id_text(Some(words)).len() == 2 + 8 * words.len(),
        verifier_id_text(Some(words)).take(2) == "0x"@,
        verifier_id_text(Some(words)).subrange(2 + 8 * i, 10 + 8 * i) == hex8(words[i]),
{
    reveal_strlit("0x");
    lemma_hex_word_at(words, i);
    let id = verifier_id_text(Some(words));
    assert(id.take(2) =~= "0x"@);
    assert(id.subrange(2 + 8 * i, 10 + 8 * i) =~= hex_words(words).subrange(8 * i, 8 * i + 8));
    assert(verifier_id_text(Some(Seq::<u32>::empty())) =~= "0x"@);
}

/// Where the proof of a block is written.
pub proof fn law_where_proofs_are_written(service: AirbenderService, block: u64)
    ensures
        service.proof_dir(block) == joined(service.config.output_dir@, decimal(block as nat)),
        service.proof_path(block) == joined(
            joined(service.config.output_dir@, decimal(block as nat)),
            "proof.bin"@,
        ),
{
}

/// What is said of a guest that is not there, and of a setup cache that does not fit.
pub proof fn law_texts_of_a_service_that_cannot_open(guest: GuestMissing, setup: SetupMismatch)
    ensures
        guest.text_spec() == "Guest binary not found at "@ + guest.bin_path@,
        setup.text_spec() == "setup cache at "@ + setup.setup_path@ + " was computed for "@
            + setup.cached.name_text() + ", but the service requested "@
            + setup.requested.name_text(),
{
}

} // verus!
