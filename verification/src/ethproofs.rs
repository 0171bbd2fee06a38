//! The client of the proof collector: what is posted to it, how its answers are read, and what
//! becomes of proofs that it does not take.

use base64::Engine;
use vstd::prelude::*;
use vstd::utf8::{
    decode_utf8, encode_utf8, encode_utf8_decode_utf8, encode_utf8_valid_utf8, is_ascii_chars,
    is_ascii_chars_concat, is_ascii_chars_encode_utf8, is_char_boundary,
    is_char_boundary_iff_not_is_continuation_byte,
};
use crate::json::{
    as_text, copy, empty_object, field, json_of, json_parsed, json_pretty, json_text,
    lemma_reads_back_with_field, number, parse, set_field, text, to_bytes, to_pretty, Json,
    JsonNumber,
};
use crate::path::{extension, has_extension, join, joined, lemma_joined_file_name, lemma_name_parts};
use crate::text::{append_decimal, decimal, decimal_text, is_digit, lemma_decimal_digits};

verus! {

/// How long a request may take.
pub const HTTP_TIMEOUT_SECS: u64 = 60;

/// How long to wait before each retry of a request.
pub const RETRY_DELAYS_SECS: [u64; 4] = [2, 10, 30, 60];

/// For how long a proof that was kept is worth submitting: six days. The proof collector takes a
/// snapshot each week.
pub const SPOOL_LIFETIME_SECS: u64 = 518400;

/// How to reach the proof collector.
#[derive(Clone, Debug)]
pub struct EthProofsConfig {
    pub endpoint: String,
    pub token: String,
    pub cluster_id: u64,
}

/// A client of the proof collector.
#[derive(Clone, Debug)]
pub struct EthproofsClient {
    pub cluster_id: u64,
    pub endpoint: String,
    pub api_token: String,
    /// When set, proofs that could not be submitted are kept here, and submitted again until they
    /// are accepted or expire, so that an outage of the proof collector loses none of them.
    pub spool_dir: Option<String>,
}

/// A request to the proof collector.
#[derive(Debug)]
pub struct PostRequest {
    pub path: String,
    pub url: String,
    pub authorization: String,
    pub json: serde_json::Value,
}

/// A request that did not succeed.
#[derive(Clone, Debug)]
pub struct PostFailure {
    /// The status of the answer, where there was one.
    pub status: Option<u16>,
    /// Whether it is worth trying again.
    pub retryable: bool,
    pub message: String,
}

/// What to do after an attempt at a request.
#[derive(Debug)]
pub enum PostStep {
    /// Nothing more: the request was accepted.
    Accepted,
    /// Nothing more: the request failed.
    Failed(PostFailure),
    /// Wait, then try again for the `retry`-th time.
    RetryAfter { retry: usize, delay_secs: u64, because: PostFailure },
}

/// A proof that is to be kept: written to one file, which is then renamed.
#[derive(Clone, Debug)]
pub struct SpoolWrite {
    pub dir: String,
    pub tmp_path: String,
    pub path: String,
    pub bytes: Vec<u8>,
}

/// How long ago a file was written.
#[derive(Clone, Copy, Debug, PartialEq, Eq, Structural)]
pub struct FileAge {
    pub secs: u64,
    pub nanos: u32,
}

/// What to do with a file in the directory of kept proofs.
#[derive(Clone, Copy, Debug, PartialEq, Eq, Structural)]
pub enum SpoolTriage {
    /// Leave it alone: it is no kept proof.
    Ignore,
    /// Remove it: it is too old.
    Expired,
    /// Read it and submit it.
    Submit,
}

/// What to do with a kept proof that was submitted again.
#[derive(Clone, Copy, Debug, PartialEq, Eq, Structural)]
pub enum SpoolFate {
    /// Remove it: it was accepted.
    Accepted,
    /// Remove it: it was rejected for good.
    Rejected,
    /// Keep it.
    Kept,
}

/// The character of six bits in the standard alphabet of base64.
pub open spec fn base64_char(bits: int) -> char
    recommends
        0 <= bits < 64,
{
    if bits < 26 {
        (65 + bits) as char
    } else if bits < 52 {
        (97 + bits - 26) as char
    } else if bits < 62 {
        (48 + bits - 52) as char
    } else if bits == 62 {
        '+'
    } else {
        '/'
    }
}

/// The four characters of up to three bytes, with `=` for each byte that is missing.
pub open spec fn base64_group(bytes: Seq<u8>) -> Seq<char>
    recommends
        1 <= bytes.len() <= 3,
{
    let a = bytes[0] as int;
    let b = if bytes.len() > 1 {
        bytes[1] as int
    } else {
        0
    };
    let c = if bytes.len() > 2 {
        bytes[2] as int
    } else {
        0
    };
    seq![
        base64_char(a / 4),
        base64_char(a % 4 * 16 + b / 16),
        if bytes.len() > 1 {
            base64_char(b % 16 * 4 + c / 64)
        } else {
            '='
        },
        if bytes.len() > 2 {
            base64_char(c % 64)
        } else {
            '='
        },
    ]
}

/// Bytes in base64, in the standard alphabet and with padding.
pub open spec fn base64_of(bytes: Seq<u8>) -> Seq<char>
    decreases bytes.len(),
{
    if bytes.len() == 0 {
        Seq::<char>::empty()
    } else if bytes.len() <= 3 {
        base64_group(bytes)
    } else {
        base64_group(bytes.take(3)) + base64_of(bytes.skip(3))
    }
}

/// How many characters a number of bytes takes in base64.
pub open spec fn base64_len(n: nat) -> nat {
    (n + 2) / 3 * 4
}

/// How `reqwest` writes a status code: the number and its meaning.
pub uninterp spec fn status_text(code: u16) -> Seq<char>;

/// Encodes bytes by `encode` of `base64::engine::general_purpose::STANDARD`: in the standard alphabet
/// and with padding. The encoder panics where the text does not fit into memory.
#[verifier::external_body]
fn base64_text(bytes: &[u8]) -> (encoded: String)
    requires
        base64_len(bytes@.len()) <= isize::MAX,
    ensures
        encoded@ == base64_of(bytes@),
{
    base64::engine::general_purpose::STANDARD.encode(bytes)
}

/// Writes a status code by the `Display` of `reqwest::StatusCode`. The result is named by
/// `status_text`. `reqwest::StatusCode::from_u16` takes the codes from 100 to 999.
#[verifier::external_body]
fn write_status(code: u16) -> (written: String)
    requires
        100 <= code < 1000,
    ensures
        written@ == status_text(code),
{
    reqwest::StatusCode::from_u16(code).expect("status code out of range").to_string()
}

/// Whether a status means success.
pub open spec fn is_success(code: u16) -> bool {
    200 <= code < 300
}

/// Whether a status is worth another attempt: a failure of the server, a timeout, or too many
/// requests.
pub open spec fn is_retryable(code: u16) -> bool {
    500 <= code < 600 || code == 408 || code == 429
}

/// Whether a status says that the request itself is at fault.
pub open spec fn is_client_error(code: u16) -> bool {
    400 <= code < 500
}

impl PostFailure {
    /// A request is worth trying again if it got no answer, or one whose status is.
    pub open spec fn wf(self) -> bool {
        self.retryable == (self.status matches Some(code) ==> is_retryable(code))
    }
}

/// What is said of an answer that is no success.
pub open spec fn rejection_text(path: Seq<char>, code: u16, body: Seq<char>) -> Seq<char> {
    "ethproofs "@ + path + " -> "@ + status_text(code) + " "@ + body
}

/// A number as JSON.
pub open spec fn json_number(n: u64) -> Json {
    Json::Number(JsonNumber::Unsigned(n))
}

impl EthproofsClient {
    /// What is told of a block's progress.
    pub open spec fn progress_fields(self, block: u64) -> Map<Seq<char>, Json> {
        Map::<Seq<char>, Json>::empty().insert("block_number"@, json_number(block)).insert(
            "cluster_id"@,
            json_number(self.cluster_id),
        )
    }

    /// What is told of a proof.
    pub open spec fn proof_fields(
        self,
        proof: Seq<u8>,
        block: u64,
        cycles: u64,
        millis: u64,
        verifier_id: Seq<char>,
    ) -> Map<Seq<char>, Json> {
        self.progress_fields(block).insert("proving_time"@, json_number(millis)).insert(
            "proving_cycles"@,
            json_number(cycles),
        ).insert("proof"@, Json::Text(base64_of(proof))).insert(
            "verifier_id"@,
            Json::Text(verifier_id),
        )
    }

    /// Whether a request posts `json` to `path`.
    pub open spec fn posts(self, request: PostRequest, path: Seq<char>, json: Json) -> bool {
        &&& request.path@ == path
        &&& request.url@ == self.endpoint@ + path
        &&& request.authorization@ == "Bearer "@ + self.api_token@
        &&& json_of(request.json) == json
    }

    /// A client that keeps no proofs.
    pub fn new(config: EthProofsConfig) -> (client: Self)
        ensures
            client.cluster_id == config.cluster_id,
            client.endpoint == config.endpoint,
            client.api_token == config.token,
            client.spool_dir is None,
    {
        EthproofsClient {
            cluster_id: config.cluster_id,
            endpoint: config.endpoint,
            api_token: config.token,
            spool_dir: None,
        }
    }

    /// The request that posts a JSON value.
    pub fn request(&self, path: &str, json: serde_json::Value) -> (request: PostRequest)
        ensures
            self.posts(request, path@, json_of(json)),
    {
        PostRequest {
            path: path.to_owned(),
            url: self.endpoint.clone().concat(path),
            authorization: "Bearer ".to_owned().concat(self.api_token.as_str()),
            json,
        }
    }

    fn progress(&self, block_number: u64) -> (json: serde_json::Value)
        ensures
            json_of(json) == Json::Object(self.progress_fields(block_number)),
    {
        let mut json = empty_object();
        set_field(&mut json, "block_number", number(block_number));
        set_field(&mut json, "cluster_id", number(self.cluster_id));
        json
    }

    /// Tells that a block is queued for a proof.
    pub fn queued(&self, block_number: u64) -> (request: PostRequest)
        ensures
            self.posts(
                request,
                "/proofs/queued"@,
                Json::Object(self.progress_fields(block_number)),
            ),
    {
        self.request("/proofs/queued", self.progress(block_number))
    }

    /// Tells that a proof of a block has begun.
    pub fn proving(&self, block_number: u64) -> (request: PostRequest)
        ensures
            self.posts(
                request,
                "/proofs/proving"@,
                Json::Object(self.progress_fields(block_number)),
            ),
    {
        self.request("/proofs/proving", self.progress(block_number))
    }

    /// Submits a proof.
    pub fn proved(
        &self,
        proof_bytes: &[u8],
        block_number: u64,
        cycle_count: u64,
        proving_millis: u64,
        verifier_id: &str,
    ) -> (request: PostRequest)
        requires
            base64_len(proof_bytes@.len()) <= isize::MAX,
        ensures
            self.posts(
                request,
                "/proofs/proved"@,
                Json::Object(
                    self.proof_fields(
                        proof_bytes@,
                        block_number,
                        cycle_count,
                        proving_millis,
                        verifier_id@,
                    ),
                ),
            ),
    {
        let encoded = base64_text(proof_bytes);
        let mut json = self.progress(block_number);
        set_field(&mut json, "proving_time", number(proving_millis));
        set_field(&mut json, "proving_cycles", number(cycle_count));
        set_field(&mut json, "proof", text(encoded.as_str()));
        set_field(&mut json, "verifier_id", text(verifier_id));
        self.request("/proofs/proved", json)
    }

    /// How a proof that could not be submitted is kept, if proofs are kept at all.
    pub fn spool(&self, block_number: u64, json: &serde_json::Value) -> (write: Option<SpoolWrite>)
        ensures
            write is Some <==> self.spool_dir is Some,
            write matches Some(w) ==> w.keeps(self.spool_dir->0@, block_number, json_of(*json)),
    {
        match &self.spool_dir {
            None => None,
            Some(dir) => {
                let bytes = match to_bytes(json) {
                    Ok(bytes) => bytes,
                    Err(_) => Vec::new(),
                };
                let tmp_name = decimal_text(block_number).concat(".json.tmp");
                let name = decimal_text(block_number).concat(".json");
                Some(
                    SpoolWrite {
                        dir: dir.clone(),
                        tmp_path: join(dir.as_str(), tmp_name.as_str()),
                        path: join(dir.as_str(), name.as_str()),
                        bytes,
                    },
                )
            },
        }
    }

    /// What is kept of a proof after it was submitted: a proof that the retries could not bring
    /// through, if proofs are kept at all. A proof that was accepted, or rejected for good, is not
    /// kept.
    pub fn after_submission(
        &self,
        block_number: u64,
        json: &serde_json::Value,
        outcome: &Result<(), PostFailure>,
    ) -> (write: Option<SpoolWrite>)
        ensures
            write is Some <==> self.spool_dir is Some && is_transient(*outcome),
            write matches Some(w) ==> w.keeps(self.spool_dir->0@, block_number, json_of(*json)),
    {
        if keeps(outcome) {
            self.spool(block_number, json)
        } else {
            None
        }
    }

    /// Whether a request is the one that submits a kept proof again, from the content of its file.
    pub open spec fn resubmits(self, content: Option<Seq<u8>>, request: Option<PostRequest>) -> bool {
        match content {
            Some(bytes) => match json_parsed(bytes) {
                Ok(json) => request is Some && self.posts(request->0, "/proofs/proved"@, json),
                Err(_) => request is None,
            },
            None => request is None,
        }
    }

    /// The request that submits a kept proof again, from the content of its file. There is none
    /// where the file could not be read or holds no JSON.
    ///
    /// What was kept is submitted as it was.
    pub fn resubmission(&self, content: Option<Vec<u8>>) -> (request: Option<PostRequest>)
        ensures
            self.resubmits(
                match content {
                    Some(bytes) => Some(bytes@),
                    None => None,
                },
                request,
            ),
            content matches Some(bytes) ==> forall|json: Json|
                json.reads_back() && bytes@ == #[trigger] json_text(json) ==> request is Some
                    && self.posts(request->0, "/proofs/proved"@, json),
    {
        match content {
            None => None,
            Some(bytes) => match parse(bytes.as_slice()) {
                Ok(json) => Some(self.request("/proofs/proved", json)),
                Err(_) => None,
            },
        }
    }
}

impl SpoolWrite {
    /// Whether this keeps a proof of a block in the directory `dir`, so that it can be read back.
    pub open spec fn keeps(self, dir: Seq<char>, block: u64, json: Json) -> bool {
        &&& self.dir@ == dir
        &&& self.tmp_path@ == spool_tmp_path(dir, block)
        &&& self.path@ == spool_path(dir, block)
        &&& self.bytes@ == json_text(json)
        &&& json.reads_back() ==> json_parsed(self.bytes@) == Ok::<Json, Seq<char>>(json)
    }
}

/// The file that a proof is kept in.
pub open spec fn spool_path(dir: Seq<char>, block: u64) -> Seq<char> {
    joined(dir, decimal(block as nat) + ".json"@)
}

/// The file that a proof is first written to.
pub open spec fn spool_tmp_path(dir: Seq<char>, block: u64) -> Seq<char> {
    joined(dir, decimal(block as nat) + ".json.tmp"@)
}

/// Reads the answer to a request to `path`.
pub fn read_answer(path: &str, status: u16, body: &str) -> (r: Result<(), PostFailure>)
    requires
        100 <= status < 1000,
    ensures
        match r {
            Ok(_) => is_success(status),
            Err(f) => {
                &&& !is_success(status)
                &&& f.status == Some(status)
                &&& f.retryable == is_retryable(status)
                &&& f.message@ == rejection_text(path@, status, body@)
                &&& f.wf()
            },
        },
{
    if 200 <= status && status < 300 {
        return Ok(());
    }
    let message = "ethproofs ".to_owned().concat(path).concat(" -> ").concat(
        write_status(status).as_str(),
    ).concat(" ").concat(body);
    let retryable = (500 <= status && status < 600) || status == 408 || status == 429;
    Err(PostFailure { status: Some(status), retryable, message })
}

/// A request that got no answer.
pub fn no_answer(error: &str) -> (failure: PostFailure)
    ensures
        failure.status is None,
        failure.retryable,
        failure.wf(),
        failure.message@ == "request failed: "@ + error@,
{
    PostFailure {
        status: None,
        retryable: true,
        message: "request failed: ".to_owned().concat(error),
    }
}

/// What follows from an attempt at a request after `retries` retries.
pub open spec fn post_step(retries: int, outcome: Result<(), PostFailure>) -> PostStep {
    match outcome {
        Ok(_) => PostStep::Accepted,
        Err(f) => if f.retryable && retries < RETRY_DELAYS_SECS@.len() {
            PostStep::RetryAfter {
                retry: (retries + 1) as usize,
                delay_secs: RETRY_DELAYS_SECS@[retries],
                because: f,
            }
        } else {
            PostStep::Failed(f)
        },
    }
}

/// What to do after an attempt at a request, when there were `retries` retries so far. Short outages
/// happen, and there is time to wait them out.
pub fn after_attempt(retries: usize, outcome: Result<(), PostFailure>) -> (step: PostStep)
    requires
        retries <= RETRY_DELAYS_SECS@.len(),
    ensures
        step == post_step(retries as int, outcome),
{
    match outcome {
        Ok(_) => PostStep::Accepted,
        Err(f) => {
            if f.retryable && retries < 4 {
                PostStep::RetryAfter {
                    retry: retries + 1,
                    delay_secs: RETRY_DELAYS_SECS[retries],
                    because: f,
                }
            } else {
                PostStep::Failed(f)
            }
        },
    }
}

/// What becomes of a file in the directory of kept proofs, before it is read.
pub open spec fn triaged(path: Seq<char>, age: Option<FileAge>) -> SpoolTriage {
    if extension(path) != Some("json"@) {
        SpoolTriage::Ignore
    } else if age matches Some(a) && is_expired(a) {
        SpoolTriage::Expired
    } else {
        SpoolTriage::Submit
    }
}

/// Whether a proof is to be kept after the last attempt to submit it: if another attempt would have
/// been worth it, so that the retries are exhausted.
pub fn keeps(outcome: &Result<(), PostFailure>) -> (keep: bool)
    ensures
        keep == is_transient(*outcome),
{
    match outcome {
        Ok(_) => false,
        Err(f) => f.retryable,
    }
}

/// What to do with a file in the directory of kept proofs. The age is missing where it cannot be
/// told.
pub fn triage(path: &str, age: Option<FileAge>) -> (t: SpoolTriage)
    ensures
        t == triaged(path@, age),
{
    if !has_extension(path, "json") {
        return SpoolTriage::Ignore;
    }
    match age {
        Some(a) => if a.secs > SPOOL_LIFETIME_SECS || (a.secs == SPOOL_LIFETIME_SECS && a.nanos
            > 0) {
            SpoolTriage::Expired
        } else {
            SpoolTriage::Submit
        },
        None => SpoolTriage::Submit,
    }
}

/// Whether a file of some age is too old.
pub open spec fn is_expired(age: FileAge) -> bool {
    age.secs > SPOOL_LIFETIME_SECS || (age.secs == SPOOL_LIFETIME_SECS && age.nanos > 0)
}

/// What becomes of a kept proof that was submitted again.
pub open spec fn fate_of(outcome: Result<(), PostFailure>) -> SpoolFate {
    match outcome {
        Ok(_) => SpoolFate::Accepted,
        Err(f) => if f.status matches Some(code) && is_client_error(code) && !is_retryable(code) {
            SpoolFate::Rejected
        } else {
            SpoolFate::Kept
        },
    }
}

/// What to do with a kept proof after it was submitted again: it goes once it is accepted, or once
/// the proof collector blames the request itself. What is worth another attempt stays.
pub fn after_resubmission(outcome: &Result<(), PostFailure>) -> (fate: SpoolFate)
    ensures
        fate == fate_of(*outcome),
{
    match outcome {
        Ok(_) => SpoolFate::Accepted,
        Err(f) => match f.status {
            Some(code) => if 400 <= code && code < 500 && code != 408 && code != 429 {
                SpoolFate::Rejected
            } else {
                SpoolFate::Kept
            },
            None => SpoolFate::Kept,
        },
    }
}

/// Whether a text is short enough to be logged whole.
pub open spec fn is_short(s: Seq<char>) -> bool {
    encode_utf8(s).len() <= 100
}

/// Whether the head of a text that is logged ends between two characters.
pub open spec fn can_be_cut(s: Seq<char>) -> bool {
    is_char_boundary(encode_utf8(s), 80)
}

/// A long text as it is logged: its head and its length.
pub open spec fn shortened(s: Seq<char>) -> Seq<char> {
    decode_utf8(encode_utf8(s).take(80)) + "...("@ + decimal(encode_utf8(s).len()) + " chars)"@
}

/// Shortens a long text for the log.
pub fn shorten(s: &str) -> (short: String)
    requires
        !is_short(s@),
        can_be_cut(s@),
    ensures
        short@ == shortened(s@),
{
    let n: usize = s.as_bytes().len();
    let head = s.split_at(80).0;
    proof {
        encode_utf8_decode_utf8(head@);
        assert(encode_utf8(head@) == encode_utf8(s@).take(80));
    }
    let mut out = head.to_owned();
    out.append("...(");
    append_decimal(&mut out, n as u64);
    out.append(" chars)");
    out
}

/// The text of the proof in a JSON value.
pub open spec fn proof_text(json: Json) -> Option<Seq<char>> {
    match json {
        Json::Object(fields) => if fields.dom().contains("proof"@) && fields["proof"@] is Text {
            Some(fields["proof"@]->Text_0)
        } else {
            None
        },
        _ => None,
    }
}

/// What is logged of a JSON value: the value itself, with a long proof in it shortened. There is
/// nothing to log where a long proof cannot be cut between two characters.
pub open spec fn logged_json(json: Json) -> Option<Json> {
    match proof_text(json) {
        Some(s) => if is_short(s) {
            Some(json)
        } else if can_be_cut(s) {
            Some(Json::Object(json->Object_0.insert("proof"@, Json::Text(shortened(s)))))
        } else {
            None
        },
        None => Some(json),
    }
}

/// The copy of a JSON value that is logged: a proof in it is shortened, so that it does not flood the
/// log.
pub fn log_copy(json: &serde_json::Value) -> (r: Option<serde_json::Value>)
    ensures
        match r {
            Some(logged) => logged_json(json_of(*json)) == Some(json_of(logged)),
            None => logged_json(json_of(*json)) is None,
        },
{
    let mut logged = copy(json);
    if let Some(item) = field(json, "proof") {
        if let Some(s) = as_text(item) {
            if s.as_bytes().len() > 100 {
                if !s.is_char_boundary(80) {
                    return None;
                }
                set_field(&mut logged, "proof", text(shorten(s).as_str()));
            }
        }
    }
    Some(logged)
}

/// The text of a JSON value in the log.
pub fn log_text(json: &serde_json::Value) -> (r: Option<String>)
    ensures
        match r {
            Some(text) => {
                &&& logged_json(json_of(*json)) is Some
                &&& text@ == json_pretty(logged_json(json_of(*json))->0)
            },
            None => logged_json(json_of(*json)) is None,
        },
{
    match log_copy(json) {
        Some(logged) => match to_pretty(&logged) {
            Ok(text) => Some(text),
            Err(_) => Some(String::new()),
        },
        None => None,
    }
}

/// What comes of a request, when `outcomes[i]` is what attempt `i` gives and there were `retries`
/// retries so far.
pub open spec fn posted(outcomes: Seq<Result<(), PostFailure>>, retries: nat) -> Result<
    (),
    PostFailure,
>
    decreases RETRY_DELAYS_SECS@.len() - retries,
{
    if post_step(retries as int, outcomes[retries as int]) is RetryAfter && retries
        < RETRY_DELAYS_SECS@.len() {
        posted(outcomes, retries + 1)
    } else {
        outcomes[retries as int]
    }
}

/// How many seconds are spent waiting before attempt `n`.
pub open spec fn waited_before(n: nat) -> nat
    decreases n,
{
    if n == 0 {
        0
    } else {
        waited_before((n - 1) as nat) + RETRY_DELAYS_SECS@[n - 1] as nat
    }
}

/// Whether an outcome is worth another attempt.
pub open spec fn is_transient(outcome: Result<(), PostFailure>) -> bool {
    outcome matches Err(f) && f.retryable
}

/// A request is tried five times at the most. Its result is that of the first attempt that
/// succeeded or failed for good, and that of the last attempt if there is none.
pub proof fn law_result_of_a_request(outcomes: Seq<Result<(), PostFailure>>, retries: nat)
    requires
        retries <= 4,
        outcomes.len() == 5,
    ensures
        exists|i: int|
            #![trigger outcomes[i]]
            {
                &&& retries <= i <= 4
                &&& posted(outcomes, retries) == outcomes[i]
                &&& forall|j: int| retries <= j < i ==> is_transient(outcomes[j])
                &&& i == 4 || !is_transient(outcomes[i])
            },
    decreases 4 - retries,
{
    let now = outcomes[retries as int];
    assert(RETRY_DELAYS_SECS@.len() == 4);
    if is_transient(now) && retries < 4 {
        law_result_of_a_request(outcomes, retries + 1);
        let i = choose|i: int|
            #![trigger outcomes[i]]
            {
                &&& retries + 1 <= i <= 4
                &&& posted(outcomes, retries + 1) == outcomes[i]
                &&& forall|j: int| retries + 1 <= j < i ==> is_transient(outcomes[j])
                &&& i == 4 || !is_transient(outcomes[i])
            };
        assert(posted(outcomes, retries) == outcomes[i]);
    } else {
        assert(posted(outcomes, retries) == outcomes[retries as int]);
    }
}

/// A request that keeps failing is given up after 102 seconds of waiting.
pub proof fn law_time_until_a_request_is_given_up()
    ensures
        waited_before(4) == 102,
{
    reveal_with_fuel(waited_before, 5);
}

/// A proof is kept exactly if all five attempts to submit it failed and were worth another one.
pub proof fn law_kept_means_retries_exhausted(outcomes: Seq<Result<(), PostFailure>>)
    requires
        outcomes.len() == 5,
    ensures
        is_transient(posted(outcomes, 0)) <==> forall|i: int|
            0 <= i < 5 ==> is_transient(#[trigger] outcomes[i]),
{
    law_result_of_a_request(outcomes, 0);
    let i = choose|i: int|
        #![trigger outcomes[i]]
        {
            &&& 0 <= i <= 4
            &&& posted(outcomes, 0) == outcomes[i]
            &&& forall|j: int| 0 <= j < i ==> is_transient(outcomes[j])
            &&& i == 4 || !is_transient(outcomes[i])
        };
    assert(posted(outcomes, 0) == outcomes[i]);
}

/// An outage of the proof collector loses no kept proof: whatever is worth another attempt, such as
/// the lack of an answer, a failure of the server or too many requests, leaves it where it is.
pub proof fn law_outage_keeps_proofs(failure: PostFailure)
    requires
        failure.wf(),
        failure.retryable,
    ensures
        fate_of(Err(failure)) == SpoolFate::Kept,
{
}

/// Whether a file in the directory of kept proofs is removed when its turn comes. Reading it gives
/// `content`, and submitting what it holds gives `outcome`.
pub open spec fn is_removed(
    path: Seq<char>,
    age: Option<FileAge>,
    content: Option<Seq<u8>>,
    outcome: Result<(), PostFailure>,
) -> bool {
    match triaged(path, age) {
        SpoolTriage::Ignore => false,
        SpoolTriage::Expired => true,
        SpoolTriage::Submit => match content {
            Some(bytes) => json_parsed(bytes) is Err || fate_of(outcome) != SpoolFate::Kept,
            None => true,
        },
    }
}

/// A kept proof is removed once it is accepted or rejected for good, once it cannot be read, or once
/// it is too old. Otherwise it stays, and so does each other file.
pub proof fn law_when_kept_proofs_are_removed(
    path: Seq<char>,
    age: Option<FileAge>,
    content: Option<Seq<u8>>,
    outcome: Result<(), PostFailure>,
)
    ensures
        is_removed(path, age, content, outcome) <==> {
            &&& extension(path) == Some("json"@)
            &&& {
                ||| outcome is Ok
                ||| outcome matches Err(f) && f.status matches Some(code) && is_client_error(code)
                    && !is_retryable(code)
                ||| content is None
                ||| json_parsed(content->0) is Err
                ||| age matches Some(a) && is_expired(a)
            }
        },
{
}

proof fn lemma_digits_name(dir: Seq<char>, block: u64, rest: Seq<char>)
    requires
        rest.len() > 0,
        forall|i: int| 0 <= i < rest.len() ==> rest[i] != '/',
    ensures
        crate::path::file_name(joined(dir, decimal(block as nat) + rest)) == Some(
            decimal(block as nat) + rest,
        ),
{
    let digits = decimal(block as nat);
    let name = digits + rest;
    lemma_decimal_digits(block as nat);
    assert forall|i: int| 0 <= i < name.len() implies name[i] != '/' by {
        if i < digits.len() {
            assert(name[i] == digits[i]);
        } else {
            assert(name[i] == rest[i - digits.len()]);
        }
    }
    assert(is_digit(digits[0]));
    assert(name[0] == digits[0]);
    lemma_joined_file_name(dir, name);
}

/// A proof that is kept is found again, but not while it is still being written.
pub proof fn law_kept_proofs_are_found_again(dir: Seq<char>, block: u64)
    ensures
        extension(spool_path(dir, block)) == Some("json"@),
        extension(spool_tmp_path(dir, block)) != Some("json"@),
{
    reveal_strlit(".json");
    reveal_strlit("json");
    reveal_strlit(".json.tmp");
    reveal_strlit("tmp");
    let digits = decimal(block as nat);
    lemma_decimal_digits(block as nat);
    lemma_digits_name(dir, block, ".json"@);
    assert(digits + ".json"@ == digits + seq!['.'] + "json"@);
    lemma_name_parts(spool_path(dir, block), digits, "json"@);
    lemma_digits_name(dir, block, ".json.tmp"@);
    assert(digits + ".json.tmp"@ == (digits + ".json"@) + seq!['.'] + "tmp"@);
    lemma_name_parts(spool_tmp_path(dir, block), digits + ".json"@, "tmp"@);
    assert("tmp"@.len() != "json"@.len());
}

/// A file in the directory of kept proofs: its age, where it can be told, and its content, where it
/// can be read.
pub struct SpoolFile {
    pub age: Option<FileAge>,
    pub content: Option<Seq<u8>>,
}

/// The files of a directory that are submitted when each file has its turn.
pub open spec fn submitted_files(files: Map<Seq<char>, SpoolFile>) -> Set<Seq<char>> {
    files.dom().filter(
        |path: Seq<char>|
            triaged(path, files[path].age) is Submit && files[path].content is Some && json_parsed(
                files[path].content->0,
            ) is Ok,
    )
}

/// The files of a directory that are left after each file had its turn. Submitting the file at a path
/// gives the outcome under that path.
pub open spec fn files_left(
    files: Map<Seq<char>, SpoolFile>,
    outcomes: Map<Seq<char>, Result<(), PostFailure>>,
) -> Map<Seq<char>, SpoolFile> {
    files.restrict(
        files.dom().filter(
            |path: Seq<char>|
                !is_removed(path, files[path].age, files[path].content, outcomes[path]),
        ),
    )
}

/// The way of a kept proof. As long as it has not expired, it is found again and submitted, and the
/// request carries the JSON that was kept. One that is accepted is gone afterwards, at the first
/// attempt and with nothing left to submit. One whose submission is worth another attempt stays as it
/// is. This holds of each JSON value without fractions that is nested no deeper than it can be read,
/// and so of all that the client posts.
pub proof fn law_way_of_a_kept_proof(
    client: EthproofsClient,
    block: u64,
    json: Json,
    write: SpoolWrite,
    age: Option<FileAge>,
    outcomes: Map<Seq<char>, Result<(), PostFailure>>,
)
    requires
        client.spool_dir is Some,
        json.reads_back(),
        write.keeps(client.spool_dir->0@, block, json),
        age matches Some(a) ==> !is_expired(a),
    ensures
        ({
            let files = map![write.path@ => SpoolFile { age, content: Some(write.bytes@) }];
            let outcome = outcomes[write.path@];
            &&& submitted_files(files) == set![write.path@]
            &&& forall|request: Option<PostRequest>| #[trigger]
                client.resubmits(Some(write.bytes@), request) ==> request is Some && client.posts(
                    request->0,
                    "/proofs/proved"@,
                    json,
                )
            &&& outcome is Ok ==> {
                &&& post_step(0, outcome) is Accepted
                &&& files_left(files, outcomes) == Map::<Seq<char>, SpoolFile>::empty()
                &&& submitted_files(files_left(files, outcomes)) == Set::<Seq<char>>::empty()
            }
            &&& (outcome matches Err(f) ==> f.wf()) && is_transient(outcome) ==> files_left(
                files,
                outcomes,
            ) == files
        }),
{
    law_kept_proofs_are_found_again(client.spool_dir->0@, block);
    let files = map![write.path@ => SpoolFile { age, content: Some(write.bytes@) }];
    assert(submitted_files(files) =~= set![write.path@]);
    let outcome = outcomes[write.path@];
    if outcome is Ok {
        assert(files_left(files, outcomes) =~= Map::<Seq<char>, SpoolFile>::empty());
        assert(submitted_files(files_left(files, outcomes)) =~= Set::<Seq<char>>::empty());
    } else if is_transient(outcome) && outcome->Err_0.wf() {
        law_outage_keeps_proofs(outcome->Err_0);
        assert(files_left(files, outcomes) =~= files);
    }
}

/// What the client posts reads back, so that a proof that was kept is submitted as it was.
pub proof fn law_requests_read_back(
    client: EthproofsClient,
    proof: Seq<u8>,
    block: u64,
    cycles: u64,
    millis: u64,
    verifier_id: Seq<char>,
)
    ensures
        Json::Object(client.progress_fields(block)).reads_back(),
        Json::Object(
            client.proof_fields(proof, block, cycles, millis, verifier_id),
        ).reads_back(),
{
    let none = Map::<Seq<char>, Json>::empty();
    lemma_reads_back_with_field(none, "block_number"@, json_number(block));
    let one = none.insert("block_number"@, json_number(block));
    lemma_reads_back_with_field(one, "cluster_id"@, json_number(client.cluster_id));
    let two = client.progress_fields(block);
    lemma_reads_back_with_field(two, "proving_time"@, json_number(millis));
    let three = two.insert("proving_time"@, json_number(millis));
    lemma_reads_back_with_field(three, "proving_cycles"@, json_number(cycles));
    let four = three.insert("proving_cycles"@, json_number(cycles));
    lemma_reads_back_with_field(four, "proof"@, Json::Text(base64_of(proof)));
    let five = four.insert("proof"@, Json::Text(base64_of(proof)));
    lemma_reads_back_with_field(five, "verifier_id"@, Json::Text(verifier_id));
}

/// What a submitted proof says, field by field.
pub proof fn law_fields_of_a_submitted_proof(
    client: EthproofsClient,
    proof: Seq<u8>,
    block: u64,
    cycles: u64,
    millis: u64,
    verifier_id: Seq<char>,
)
    ensures
        ({
            let fields = client.proof_fields(proof, block, cycles, millis, verifier_id);
            &&& fields.dom() == set![
                "block_number"@,
                "cluster_id"@,
                "proving_time"@,
                "proving_cycles"@,
                "proof"@,
                "verifier_id"@,
            ]
            &&& fields["block_number"@] == json_number(block)
            &&& fields["cluster_id"@] == json_number(client.cluster_id)
            &&& fields["proving_time"@] == json_number(millis)
            &&& fields["proving_cycles"@] == json_number(cycles)
            &&& fields["proof"@] == Json::Text(base64_of(proof))
            &&& fields["verifier_id"@] == Json::Text(verifier_id)
        }),
{
    reveal_strlit("block_number");
    reveal_strlit("cluster_id");
    reveal_strlit("proving_time");
    reveal_strlit("proving_cycles");
    reveal_strlit("proof");
    reveal_strlit("verifier_id");
    assert("block_number"@[0] == 'b' && "cluster_id"@[0] == 'c' && "verifier_id"@[0] == 'v');
    assert("proving_time"@.len() == 12 && "proving_cycles"@.len() == 14 && "proof"@.len() == 5);
    assert("block_number"@.len() == 12 && "proving_time"@[0] == 'p');
    assert("cluster_id"@.len() == 10 && "verifier_id"@.len() == 11);
    assert(client.proof_fields(proof, block, cycles, millis, verifier_id).dom() =~= set![
        "block_number"@,
        "cluster_id"@,
        "proving_time"@,
        "proving_cycles"@,
        "proof"@,
        "verifier_id"@,
    ]);
}

proof fn lemma_base64_is_ascii(bytes: Seq<u8>)
    ensures
        is_ascii_chars(base64_of(bytes)),
    decreases bytes.len(),
{
    if bytes.len() > 3 {
        lemma_base64_is_ascii(bytes.skip(3));
        lemma_group_is_ascii(bytes.take(3));
        is_ascii_chars_concat(
            base64_of(bytes),
            base64_group(bytes.take(3)),
            base64_of(bytes.skip(3)),
        );
    } else if bytes.len() > 0 {
        lemma_group_is_ascii(bytes);
    }
}

proof fn lemma_group_is_ascii(bytes: Seq<u8>)
    requires
        1 <= bytes.len() <= 3,
    ensures
        is_ascii_chars(base64_group(bytes)),
{
}

proof fn lemma_base64_char_injective(a: int, b: int)
    requires
        0 <= a < 64,
        0 <= b < 64,
        base64_char(a) == base64_char(b),
    ensures
        a == b,
        base64_char(a) != '=',
{
}

proof fn lemma_base64_len(bytes: Seq<u8>)
    ensures
        base64_of(bytes).len() == base64_len(bytes.len()),
    decreases bytes.len(),
{
    if bytes.len() > 3 {
        lemma_base64_len(bytes.skip(3));
    }
}

proof fn lemma_group_tells_bytes(x: Seq<u8>, y: Seq<u8>)
    requires
        1 <= x.len() <= 3,
        1 <= y.len() <= 3,
        base64_group(x) == base64_group(y),
    ensures
        x == y,
{
    let gx = base64_group(x);
    let gy = base64_group(y);
    let (a, d) = (x[0] as int, y[0] as int);
    let b = if x.len() > 1 {
        x[1] as int
    } else {
        0
    };
    let e = if y.len() > 1 {
        y[1] as int
    } else {
        0
    };
    let c = if x.len() > 2 {
        x[2] as int
    } else {
        0
    };
    let f = if y.len() > 2 {
        y[2] as int
    } else {
        0
    };
    assert(gx[0] == gy[0] && gx[1] == gy[1] && gx[2] == gy[2] && gx[3] == gy[3]);
    lemma_base64_char_injective(a / 4, d / 4);
    lemma_base64_char_injective(a % 4 * 16 + b / 16, d % 4 * 16 + e / 16);
    lemma_base64_char_injective(b % 16 * 4 + c / 64, b % 16 * 4 + c / 64);
    lemma_base64_char_injective(e % 16 * 4 + f / 64, e % 16 * 4 + f / 64);
    lemma_base64_char_injective(c % 64, c % 64);
    lemma_base64_char_injective(f % 64, f % 64);
    assert(x.len() == y.len());
    if x.len() > 1 {
        lemma_base64_char_injective(b % 16 * 4 + c / 64, e % 16 * 4 + f / 64);
    }
    if x.len() > 2 {
        lemma_base64_char_injective(c % 64, f % 64);
    }
    assert(x =~= y);
}

/// An encoded proof tells the proof.
pub proof fn law_encoded_proof_tells_the_proof(x: Seq<u8>, y: Seq<u8>)
    requires
        base64_of(x) == base64_of(y),
    ensures
        x == y,
    decreases x.len(),
{
    lemma_base64_len(x);
    lemma_base64_len(y);
    if x.len() == 0 || y.len() == 0 {
        assert(x =~= y);
    } else {
        let ex = base64_of(x);
        let ey = base64_of(y);
        let hx = if x.len() <= 3 {
            x
        } else {
            x.take(3)
        };
        let hy = if y.len() <= 3 {
            y
        } else {
            y.take(3)
        };
        assert(ex.take(4) =~= base64_group(hx));
        assert(ey.take(4) =~= base64_group(hy));
        lemma_group_tells_bytes(hx, hy);
        if x.len() > 3 {
            assert(ex.skip(4) =~= base64_of(x.skip(3)));
            assert(ey.skip(4) =~= base64_of(y.skip(3)));
            law_encoded_proof_tells_the_proof(x.skip(3), y.skip(3));
            assert(x =~= x.take(3) + x.skip(3));
            assert(y =~= y.take(3) + y.skip(3));
        }
    }
}

/// An encoded proof can always be logged.
pub proof fn law_encoded_proofs_can_be_logged(proof: Seq<u8>)
    ensures
        is_short(base64_of(proof)) || can_be_cut(base64_of(proof)),
{
    let s = base64_of(proof);
    lemma_base64_is_ascii(proof);
    if !is_short(s) {
        let bytes = encode_utf8(s);
        encode_utf8_valid_utf8(s);
        is_ascii_chars_encode_utf8(s);
        is_char_boundary_iff_not_is_continuation_byte(bytes, 80);
        assert(s[80] as u8 == bytes[80]);
        let b = bytes[80];
        assert(b < 128);
        assert(b < 128 ==> !vstd::utf8::is_continuation_byte(b)) by (bit_vector);
    }
}

/// What statuses mean, by their hundreds: two is success, four blames the request, five is worth
/// another attempt, and so are 408 and 429. What is said of a rejection names the path, the status and
/// the body.
pub proof fn law_what_statuses_mean(code: u16, path: Seq<char>, body: Seq<char>)
    ensures
        is_success(code) <==> code / 100 == 2,
        is_client_error(code) <==> code / 100 == 4,
        is_retryable(code) <==> code / 100 == 5 || code == 408 || code == 429,
        rejection_text(path, code, body) == "ethproofs "@ + path + " -> "@ + status_text(code)
            + " "@ + body,
{
}

/// A failure is worth another attempt if there was no answer, or one whose status is.
pub proof fn law_which_failures_are_transient(failure: PostFailure)
    ensures
        is_transient(Err(failure)) <==> failure.retryable,
        is_transient(Ok(())) == false,
        failure.wf() && failure.status is None ==> failure.retryable,
        failure.wf() && failure.status is Some ==> (failure.retryable <==> failure.status->0 / 100
            == 5 || failure.status->0 == 408 || failure.status->0 == 429),
{
}

/// What each attempt at a request leads to. An accepted request is done. A failure that is not worth
/// another attempt ends it, and so does any failure after four retries. Any other failure, answered or
/// not, is waited out: two seconds at first, then ten, thirty and sixty. The failure that is reported
/// is the one that happened.
pub proof fn law_steps_of_a_request(retries: int, failure: PostFailure)
    requires
        0 <= retries <= 4,
    ensures
        post_step(retries, Ok(())) is Accepted,
        !failure.retryable || retries == 4 ==> post_step(retries, Err(failure)) == PostStep::Failed(
            failure,
        ),
        failure.retryable && retries < 4 ==> {
            let step = post_step(retries, Err(failure));
            &&& step is RetryAfter
            &&& step->retry == retries + 1
            &&& step->because == failure
            &&& step->delay_secs == (if retries == 0 {
                2int
            } else if retries == 1 {
                10
            } else if retries == 2 {
                30
            } else {
                60
            })
        },
{
}

/// How many seconds the steps after the first `attempts` attempts at a request ask to wait in all,
/// when attempt `i` gives `outcomes[i]`.
pub open spec fn asked_wait(outcomes: Seq<Result<(), PostFailure>>, attempts: nat) -> int
    decreases attempts,
{
    if attempts == 0 {
        0
    } else {
        asked_wait(outcomes, (attempts - 1) as nat) + (match post_step(
            attempts - 1,
            outcomes[attempts - 1],
        ) {
            PostStep::RetryAfter { delay_secs, .. } => delay_secs as int,
            _ => 0,
        })
    }
}

/// A request that keeps failing waits 102 seconds in all, whatever the failures are, as long as each
/// is worth another attempt: the delays that its steps ask for add up to that, each of them to at
/// least two seconds, and the fifth failure ends it.
pub proof fn law_steps_wait_out_an_outage(outcomes: Seq<Result<(), PostFailure>>)
    requires
        outcomes.len() == 5,
        forall|i: int| 0 <= i < 5 ==> (#[trigger] outcomes[i] matches Err(f) && f.retryable),
    ensures
        asked_wait(outcomes, 1) == 2,
        asked_wait(outcomes, 2) == 12,
        asked_wait(outcomes, 3) == 42,
        asked_wait(outcomes, 4) == 102,
        asked_wait(outcomes, 5) == 102,
        forall|i: int|
            0 <= i < 4 ==> post_step(i, #[trigger] outcomes[i]) is RetryAfter && post_step(
                i,
                outcomes[i],
            )->delay_secs >= 2,
        post_step(4, outcomes[4]) == PostStep::Failed(outcomes[4]->Err_0),
{
    reveal_with_fuel(asked_wait, 6);
    assert(outcomes[0] is Err && outcomes[1] is Err && outcomes[2] is Err);
    assert(outcomes[3] is Err && outcomes[4] is Err);
    law_steps_of_a_request(0, outcomes[0]->Err_0);
    law_steps_of_a_request(1, outcomes[1]->Err_0);
    law_steps_of_a_request(2, outcomes[2]->Err_0);
    law_steps_of_a_request(3, outcomes[3]->Err_0);
    law_steps_of_a_request(4, outcomes[4]->Err_0);
}

/// Where a kept proof goes, and when it is too old: it expires after six days, to the nanosecond.
pub proof fn law_where_and_how_long_proofs_are_kept(dir: Seq<char>, block: u64, age: FileAge)
    requires
        age.nanos < 1000000000,
    ensures
        spool_path(dir, block) == joined(dir, decimal(block as nat) + ".json"@),
        spool_tmp_path(dir, block) == joined(dir, decimal(block as nat) + ".json.tmp"@),
        is_expired(age) <==> age.secs * 1000000000 + age.nanos > 6 * 24 * 3600 * 1000000000,
{
}

/// What happens to a file in the directory of kept proofs: one without the extension of JSON is left
/// alone, one that expired goes, and any other is submitted.
pub proof fn law_which_files_are_submitted(path: Seq<char>, age: Option<FileAge>)
    ensures
        triaged(path, age) is Ignore <==> extension(path) != Some("json"@),
        triaged(path, age) is Expired <==> extension(path) == Some("json"@) && age is Some
            && is_expired(age->0),
        triaged(path, age) is Submit <==> extension(path) == Some("json"@) && (age is None
            || !is_expired(age->0)),
{
}

/// What a kept proof comes to: accepted, rejected for good by a status of the four hundreds other than
/// 408 and 429, or kept.
pub proof fn law_fate_of_a_kept_proof(failure: PostFailure)
    ensures
        fate_of(Ok(())) is Accepted,
        fate_of(Err(failure)) is Rejected <==> failure.status is Some && failure.status->0 / 100
            == 4 && failure.status->0 != 408 && failure.status->0 != 429,
        fate_of(Err(failure)) is Kept <==> fate_of(Err(failure)) !is Rejected,
        fate_of(Err(failure)) !is Accepted,
{
}

/// What a request of the client consists of: the path under the endpoint, the token, and the JSON.
pub proof fn law_parts_of_a_request(
    client: EthproofsClient,
    request: PostRequest,
    path: Seq<char>,
    json: Json,
)
    ensures
        client.posts(request, path, json) <==> {
            &&& request.path@ == path
            &&& request.url@ == client.endpoint@ + path
            &&& request.authorization@ == "Bearer "@ + client.api_token@
            &&& json_of(request.json) == json
        },
{
}

/// What is told of a block's progress: its number and the number of the cluster. What is told of a
/// proof is this, the time and the cycles that it took, the proof in base64 and the verifier. All
/// numbers are told as they are.
pub proof fn law_what_the_collector_is_told(
    client: EthproofsClient,
    proof: Seq<u8>,
    block: u64,
    cycles: u64,
    millis: u64,
    verifier_id: Seq<char>,
)
    ensures
        client.progress_fields(block) == map![
            "block_number"@ => Json::Number(JsonNumber::Unsigned(block)),
            "cluster_id"@ => Json::Number(JsonNumber::Unsigned(client.cluster_id)),
        ],
        client.proof_fields(proof, block, cycles, millis, verifier_id) == map![
            "block_number"@ => Json::Number(JsonNumber::Unsigned(block)),
            "cluster_id"@ => Json::Number(JsonNumber::Unsigned(client.cluster_id)),
            "proving_time"@ => Json::Number(JsonNumber::Unsigned(millis)),
            "proving_cycles"@ => Json::Number(JsonNumber::Unsigned(cycles)),
            "proof"@ => Json::Text(base64_of(proof)),
            "verifier_id"@ => Json::Text(verifier_id),
        ],
{
}

/// What a kept file and the request that submits it again hold. The file is named after the block and
/// holds the JSON as it is written. The request posts the JSON that the file holds, and there is none
/// where the file holds no JSON or cannot be read.
pub proof fn law_what_is_kept_and_submitted_again(
    client: EthproofsClient,
    write: SpoolWrite,
    dir: Seq<char>,
    block: u64,
    json: Json,
    content: Option<Seq<u8>>,
    request: Option<PostRequest>,
)
    ensures
        write.keeps(dir, block, json) ==> {
            &&& write.dir@ == dir
            &&& write.path@ == joined(dir, decimal(block as nat) + ".json"@)
            &&& write.tmp_path@ == joined(dir, decimal(block as nat) + ".json.tmp"@)
            &&& write.bytes@ == json_text(json)
        },
        client.resubmits(content, request) ==> {
            &&& request is Some <==> content is Some && json_parsed(content->0) is Ok
            &&& request is Some ==> request->0.path@ == "/proofs/proved"@ && request->0.url@
                == client.endpoint@ + "/proofs/proved"@ && request->0.authorization@ == "Bearer "@
                + client.api_token@ && Ok::<Json, Seq<char>>(json_of(request->0.json))
                == json_parsed(content->0)
        },
{
}

/// What is logged of a request is the request, but for its proof. A proof of more than a hundred bytes
/// is logged as its first eighty and its length. There is nothing to log only where these eighty end
/// within a character.
pub proof fn law_what_is_logged(fields: Map<Seq<char>, Json>, other: Json)
    requires
        other !is Object,
    ensures
        logged_json(other) == Some(other),
        !fields.dom().contains("proof"@) || fields["proof"@] !is Text ==> logged_json(
            Json::Object(fields),
        ) == Some(Json::Object(fields)),
        fields.dom().contains("proof"@) && fields["proof"@] is Text ==> {
            let text = fields["proof"@]->Text_0;
            let bytes = encode_utf8(text);
            let logged = logged_json(Json::Object(fields));
            &&& bytes.len() <= 100 ==> logged == Some(Json::Object(fields))
            &&& bytes.len() > 100 && !is_char_boundary(bytes, 80) ==> logged is None
            &&& bytes.len() > 100 && is_char_boundary(bytes, 80) ==> logged == Some(
                Json::Object(
                    fields.insert(
                        "proof"@,
                        Json::Text(
                            decode_utf8(bytes.take(80)) + "...("@ + decimal(bytes.len())
                                + " chars)"@,
                        ),
                    ),
                ),
            )
        },
{
}

proof fn lemma_after_the_first_four(head: Seq<char>, tail: Seq<char>, g: int)
    requires
        head.len() == 4,
        1 <= g,
        4 * g <= tail.len(),
    ensures
        (head + tail).subrange(4 * g, 4 * g + 4) == tail.subrange(4 * (g - 1), 4 * (g - 1) + 4),
{
    assert((head + tail).subrange(4 * g, 4 * g + 4) =~= tail.subrange(
        4 * (g - 1),
        4 * (g - 1) + 4,
    ));
}

/// The bytes of a group of three, or of what is left of one at the end.
pub open spec fn group_bytes(bytes: Seq<u8>, g: int) -> Seq<u8> {
    bytes.subrange(
        3 * g,
        if 3 * g + 3 <= bytes.len() {
            3 * g + 3
        } else {
            bytes.len() as int
        },
    )
}

proof fn lemma_base64_group_at(bytes: Seq<u8>, g: int)
    requires
        0 <= g,
        3 * g < bytes.len(),
    ensures
        4 * g + 4 <= base64_of(bytes).len(),
        base64_of(bytes).subrange(4 * g, 4 * g + 4) == base64_group(group_bytes(bytes, g)),
    decreases bytes.len(),
{
    lemma_base64_len(bytes);
    if bytes.len() <= 3 {
        assert(group_bytes(bytes, 0) =~= bytes);
        let all = base64_of(bytes);
        assert(all.subrange(0, 4) =~= all);
    } else {
        let head = base64_group(bytes.take(3));
        let rest = bytes.skip(3);
        let tail = base64_of(rest);
        assert(base64_of(bytes) == head + tail);
        assert(head.len() == 4);
        if g == 0 {
            assert(group_bytes(bytes, 0) =~= bytes.take(3));
            assert((head + tail).subrange(0, 4) =~= head);
        } else {
            lemma_base64_group_at(rest, g - 1);
            lemma_base64_len(rest);
            assert(group_bytes(rest, g - 1) =~= group_bytes(bytes, g));
            lemma_after_the_first_four(head, tail, g);
        }
    }
}

proof fn lemma_six_bits(a: int, b: int, c: int)
    requires
        0 <= a < 256,
        0 <= b < 256,
        0 <= c < 256,
    ensures
        (0x1_0000 * a + 0x100 * b + c) / 0x4_0000 == a / 4,
        (0x1_0000 * a + 0x100 * b + c) / 0x1000 % 64 == a % 4 * 16 + b / 16,
        (0x1_0000 * a + 0x100 * b + c) / 64 % 64 == b % 16 * 4 + c / 64,
        (0x1_0000 * a + 0x100 * b + c) % 64 == c % 64,
{
    let n = 0x1_0000 * a + 0x100 * b + c;
    let (a1, a0) = (a / 4, a % 4);
    let (b1, b0) = (b / 16, b % 16);
    let (c1, c0) = (c / 64, c % 64);
    assert(a == 4 * a1 + a0 && 0 <= a0 < 4 && 0 <= a1 < 64);
    assert(b == 16 * b1 + b0 && 0 <= b0 < 16 && 0 <= b1 < 16);
    assert(c == 64 * c1 + c0 && 0 <= c0 < 64 && 0 <= c1 < 4);
    assert(n == 0x4_0000 * a1 + (0x1_0000 * a0 + 0x100 * b + c));
    assert(n / 0x4_0000 == a1) by {
        lemma_quotient(n, 0x4_0000, a1, 0x1_0000 * a0 + 0x100 * b + c);
    }
    assert(n / 0x1000 == 64 * a1 + (16 * a0 + b1)) by {
        lemma_quotient(n, 0x1000, 64 * a1 + (16 * a0 + b1), 0x100 * b0 + c);
    }
    assert((n / 0x1000) % 64 == 16 * a0 + b1) by {
        lemma_quotient(n / 0x1000, 64, a1, 16 * a0 + b1);
    }
    assert(n / 64 == 64 * (64 * a1 + 16 * a0 + b1) + (4 * b0 + c1)) by {
        lemma_quotient(n, 64, 64 * (64 * a1 + 16 * a0 + b1) + (4 * b0 + c1), c0);
    }
    assert((n / 64) % 64 == 4 * b0 + c1) by {
        lemma_quotient(n / 64, 64, 64 * a1 + 16 * a0 + b1, 4 * b0 + c1);
    }
    assert(n % 64 == c0) by {
        lemma_quotient(n, 64, 64 * (64 * a1 + 16 * a0 + b1) + (4 * b0 + c1), c0);
    }
}

proof fn lemma_quotient(n: int, d: int, q: int, r: int)
    requires
        n == d * q + r,
        0 <= r < d,
    ensures
        n / d == q,
        n % d == r,
{
    vstd::arithmetic::mul::lemma_mul_is_commutative(d, q);
    vstd::arithmetic::div_mod::lemma_fundamental_div_mod_converse(n, d, q, r);
}

/// How a proof is encoded: each three bytes give four characters of the alphabet, six bits each from
/// the highest on, and `=` stands for what the last bytes do not fill.
pub proof fn law_how_proofs_are_encoded(bytes: Seq<u8>, g: int)
    requires
        0 <= g,
        3 * g < bytes.len(),
    ensures
        base64_of(bytes).len() == (bytes.len() + 2) / 3 * 4,
        ({
            let alphabet = "ABCDEFGHIJKLMNOPQRSTUVWXYZabcdefghijklmnopqrstuvwxyz0123456789+/"@;
            let text = base64_of(bytes);
            let a = bytes[3 * g] as int;
            let b = if 3 * g + 1 < bytes.len() {
                bytes[3 * g + 1] as int
            } else {
                0
            };
            let c = if 3 * g + 2 < bytes.len() {
                bytes[3 * g + 2] as int
            } else {
                0
            };
            let bits = 0x1_0000 * a + 0x100 * b + c;
            &&& text[4 * g] == alphabet[bits / 0x4_0000]
            &&& text[4 * g + 1] == alphabet[bits / 0x1000 % 64]
            &&& text[4 * g + 2] == (if 3 * g + 1 < bytes.len() {
                alphabet[bits / 64 % 64]
            } else {
                '='
            })
            &&& text[4 * g + 3] == (if 3 * g + 2 < bytes.len() {
                alphabet[bits % 64]
            } else {
                '='
            })
        }),
{
    lemma_base64_len(bytes);
    lemma_base64_group_at(bytes, g);
    let part = group_bytes(bytes, g);
    let text = base64_of(bytes);
    let four = text.subrange(4 * g, 4 * g + 4);
    assert(four[0] == text[4 * g] && four[1] == text[4 * g + 1]);
    assert(four[2] == text[4 * g + 2] && four[3] == text[4 * g + 3]);
    let a = bytes[3 * g] as int;
    let b = if 3 * g + 1 < bytes.len() {
        bytes[3 * g + 1] as int
    } else {
        0
    };
    let c = if 3 * g + 2 < bytes.len() {
        bytes[3 * g + 2] as int
    } else {
        0
    };
    lemma_group_characters(part, a, b, c);
    lemma_six_bits(a, b, c);
    lemma_alphabet(a / 4);
    lemma_alphabet(a % 4 * 16 + b / 16);
    lemma_alphabet(b % 16 * 4 + c / 64);
    lemma_alphabet(c % 64);
}

proof fn lemma_group_characters(part: Seq<u8>, a: int, b: int, c: int)
    requires
        1 <= part.len() <= 3,
        part[0] == a,
        part.len() > 1 ==> part[1] == b,
        part.len() <= 1 ==> b == 0,
        part.len() > 2 ==> part[2] == c,
        part.len() <= 2 ==> c == 0,
    ensures
        base64_group(part)[0] == base64_char(a / 4),
        base64_group(part)[1] == base64_char(a % 4 * 16 + b / 16),
        part.len() > 1 ==> base64_group(part)[2] == base64_char(b % 16 * 4 + c / 64),
        part.len() <= 1 ==> base64_group(part)[2] == '=',
        part.len() > 2 ==> base64_group(part)[3] == base64_char(c % 64),
        part.len() <= 2 ==> base64_group(part)[3] == '=',
{
}

proof fn lemma_alphabet(d: int)
    requires
        0 <= d < 64,
    ensures
        base64_char(d)
            == "ABCDEFGHIJKLMNOPQRSTUVWXYZabcdefghijklmnopqrstuvwxyz0123456789+/"@[d],
{
    reveal_strlit("ABCDEFGHIJKLMNOPQRSTUVWXYZabcdefghijklmnopqrstuvwxyz0123456789+/");
}

} // verus!
