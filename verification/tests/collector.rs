use z6m_prover::ethproofs::{
    after_attempt, after_resubmission, keeps, log_copy, log_text, no_answer, read_answer, shorten, triage,
    EthProofsConfig, EthproofsClient, FileAge, PostFailure, PostStep, SpoolFate, SpoolTriage,
    HTTP_TIMEOUT_SECS, RETRY_DELAYS_SECS, SPOOL_LIFETIME_SECS,
};

fn client() -> EthproofsClient {
    EthproofsClient::new(EthProofsConfig {
        endpoint: String::from("https://example.org/api"),
        token: String::from("token"),
        cluster_id: 3,
    })
}

fn json_of_request(bytes: &[u8]) -> String {
    String::from_utf8(bytes.to_vec()).unwrap()
}

#[test]
fn progress_is_told_with_block_and_cluster() {
    let request = client().queued(24522000);
    assert_eq!(request.path, "/proofs/queued");
    assert_eq!(request.url, "https://example.org/api/proofs/queued");
    assert_eq!(request.authorization, "Bearer token");
    assert_eq!(request.json.to_string(), "{\"block_number\":24522000,\"cluster_id\":3}");

    let request = client().proving(1);
    assert_eq!(request.path, "/proofs/proving");
    assert_eq!(request.json.to_string(), "{\"block_number\":1,\"cluster_id\":3}");
}

#[test]
fn proofs_are_submitted_in_base64() {
    let request = client().proved(&[0xfb, 0xff, 0x01], 5, 77, 1500, "0xabc");
    assert_eq!(request.path, "/proofs/proved");
    assert_eq!(request.url, "https://example.org/api/proofs/proved");
    assert_eq!(
        request.json.to_string(),
        "{\"block_number\":5,\"cluster_id\":3,\"proof\":\"+/8B\",\"proving_cycles\":77,\
         \"proving_time\":1500,\"verifier_id\":\"0xabc\"}"
    );
    let padded = client().proved(&[1], 5, 77, 1500, "v");
    assert_eq!(padded.json.get("proof").unwrap().as_str(), Some("AQ=="));
    let padded = client().proved(&[1, 2, 3, 4, 5], 5, 77, 1500, "v");
    assert_eq!(padded.json.get("proof").unwrap().as_str(), Some("AQIDBAU="));
    let empty = client().proved(&[], 5, 77, 1500, "v");
    assert_eq!(empty.json.get("proof").unwrap().as_str(), Some(""));
}

#[test]
fn encoded_proofs_use_the_whole_alphabet() {
    let mut proof = Vec::new();
    for group in 0..16u32 {
        let bits = (4 * group) << 18 | (4 * group + 1) << 12 | (4 * group + 2) << 6 | (4 * group + 3);
        proof.extend_from_slice(&bits.to_be_bytes()[1..]);
    }
    let request = client().proved(&proof, 5, 77, 1500, "v");
    assert_eq!(
        request.json.get("proof").unwrap().as_str(),
        Some("ABCDEFGHIJKLMNOPQRSTUVWXYZabcdefghijklmnopqrstuvwxyz0123456789+/")
    );
}

#[test]
fn encoded_proofs_tell_the_proof() {
    let encoded = |proof: &[u8]| {
        client().proved(proof, 5, 77, 1500, "v").json.get("proof").unwrap().to_string()
    };
    assert_ne!(encoded(&[1]), encoded(&[1, 0]));
    assert_ne!(encoded(&[1, 0]), encoded(&[1, 0, 0]));
    assert_ne!(encoded(&[1, 2, 3, 4]), encoded(&[1, 2, 3, 5]));
}

#[test]
fn successful_answers_are_accepted() {
    assert!(read_answer("/p", 200, "").is_ok());
    assert!(read_answer("/p", 299, "body").is_ok());
}

#[test]
fn answers_of_the_server_are_read_by_their_status() {
    for (status, retryable) in [
        (100, false),
        (199, false),
        (300, false),
        (400, false),
        (404, false),
        (408, true),
        (422, false),
        (429, true),
        (499, false),
        (500, true),
        (503, true),
        (599, true),
        (600, false),
        (999, false),
    ] {
        let failure = read_answer("/p", status, "b").unwrap_err();
        assert_eq!(failure.retryable, retryable, "{}", status);
        assert_eq!(failure.status, Some(status));
    }
}

#[test]
fn rejections_are_described() {
    let failure = read_answer("/proofs/proved", 404, "gone").unwrap_err();
    assert_eq!(failure.message, "ethproofs /proofs/proved -> 404 Not Found gone");
    let failure = read_answer("/proofs/proved", 599, "").unwrap_err();
    assert_eq!(failure.message, "ethproofs /proofs/proved -> 599 <unknown status code> ");
    let failure = no_answer("timed out");
    assert_eq!(failure.message, "request failed: timed out");
    assert!(failure.retryable);
    assert_eq!(failure.status, None);
}

#[test]
fn transient_failures_are_retried_four_times() {
    let mut waited = 0;
    let mut retries = 0;
    loop {
        match after_attempt(retries, Err(no_answer("e"))) {
            PostStep::RetryAfter { retry, delay_secs, because } => {
                assert_eq!(retry, retries + 1);
                assert_eq!(delay_secs, RETRY_DELAYS_SECS[retries]);
                assert_eq!(because.message, "request failed: e");
                retries = retry;
                waited += delay_secs;
            }
            PostStep::Failed(failure) => {
                assert_eq!(failure.message, "request failed: e");
                break;
            }
            PostStep::Accepted => panic!("accepted"),
        }
    }
    assert_eq!(retries, 4);
    assert_eq!(waited, 102);
}

#[test]
fn final_outcomes_are_not_retried() {
    let rejected = read_answer("/p", 400, "");
    assert!(matches!(after_attempt(0, rejected), PostStep::Failed(_)));
    assert!(matches!(after_attempt(2, Ok(())), PostStep::Accepted));
}

#[test]
fn kept_proofs_go_to_a_file_of_their_block() {
    let mut client = client();
    let json = client.proved(&[1, 2, 3], 9, 1, 2, "v").json;
    assert!(client.spool(9, &json).is_none());
    client.spool_dir = Some(String::from("spool"));
    let write = client.spool(9, &json).unwrap();
    assert_eq!(write.dir, "spool");
    assert_eq!(write.tmp_path, "spool/9.json.tmp");
    assert_eq!(write.path, "spool/9.json");
    assert_eq!(json_of_request(&write.bytes), json.to_string());
    assert_eq!(triage(&write.path, None), SpoolTriage::Submit);
    assert_eq!(triage(&write.tmp_path, None), SpoolTriage::Ignore);
}

#[test]
fn kept_proofs_are_submitted_as_they_were() {
    let mut client = client();
    client.spool_dir = Some(String::from("spool"));
    let first = client.proved(&[9; 300], 9, u64::MAX, 0, "v\"\n\u{1f600}");
    let write = client.spool(9, &first.json).unwrap();
    let again = client.resubmission(Some(write.bytes)).unwrap();
    assert_eq!(again.json, first.json);
    assert_eq!(again.url, first.url);
    assert_eq!(again.path, "/proofs/proved");
    assert_eq!(again.authorization, first.authorization);
}

#[test]
fn proofs_are_kept_when_the_retries_are_exhausted() {
    let mut client = client();
    let json = client.proved(&[1], 9, 1, 2, "v").json;
    let exhausted = Err(no_answer("e"));
    assert!(client.after_submission(9, &json, &exhausted).is_none());
    client.spool_dir = Some(String::from("spool"));
    let write = client.after_submission(9, &json, &exhausted).unwrap();
    assert_eq!(write.path, "spool/9.json");
    assert_eq!(json_of_request(&write.bytes), json.to_string());
    assert!(client.after_submission(9, &json, &Ok(())).is_none());
    assert!(client.after_submission(9, &json, &read_answer("/p", 400, "")).is_none());
    assert!(client.after_submission(9, &json, &read_answer("/p", 429, "")).is_some());
    assert!(keeps(&read_answer("/p", 503, "")));
    assert!(!keeps(&read_answer("/p", 422, "")));
    assert!(!keeps(&Ok(())));
}

#[test]
fn a_kept_proof_goes_its_way() {
    let mut client = client();
    client.spool_dir = Some(String::from("spool"));
    let first = client.proved(&[5; 40], 9, 1, 2, "v");
    let write = client.after_submission(9, &first.json, &Err(no_answer("e"))).unwrap();
    let age = Some(FileAge { secs: 60, nanos: 0 });
    assert_eq!(triage(&write.path, age), SpoolTriage::Submit);
    let again = client.resubmission(Some(write.bytes)).unwrap();
    assert_eq!(again.json, first.json);
    assert!(matches!(after_attempt(0, read_answer(&again.path, 200, "")), PostStep::Accepted));
    assert_eq!(after_resubmission(&read_answer(&again.path, 200, "")), SpoolFate::Accepted);
}

#[test]
fn nested_values_are_submitted_as_they_were() {
    let mut client = client();
    client.spool_dir = Some(String::from("spool"));
    let mut json = serde_json::Value::Object(serde_json::Map::new());
    json["list"] = serde_json::Value::from(vec![i64::MIN, -1, 0]);
    json["none"] = serde_json::Value::Null;
    json["yes"] = serde_json::Value::from(true);
    json[""] = serde_json::Value::Object(serde_json::Map::new());
    json[""]["\u{0}\"\\"] = serde_json::Value::from(u64::MAX);
    let mut deep = serde_json::Value::from("end");
    for _ in 0..126 {
        deep = serde_json::Value::Array(vec![deep]);
    }
    json["deep"] = deep.clone();
    let bytes = client.spool(9, &json).unwrap().bytes;
    assert_eq!(client.resubmission(Some(bytes)).unwrap().json, json);

    json["deep"] = serde_json::Value::Array(vec![deep]);
    let bytes = client.spool(9, &json).unwrap().bytes;
    assert!(client.resubmission(Some(bytes)).is_none());
}

#[test]
fn unreadable_kept_proofs_are_not_submitted() {
    assert!(client().resubmission(None).is_none());
    assert!(client().resubmission(Some(b"{ no".to_vec())).is_none());
    assert!(client().resubmission(Some(Vec::new())).is_none());
    assert!(client().resubmission(Some(b"{}".to_vec())).is_some());
}

#[test]
fn kept_proofs_expire_after_six_days() {
    let age = |secs, nanos| Some(FileAge { secs, nanos });
    assert_eq!(SPOOL_LIFETIME_SECS, 6 * 24 * 3600);
    assert_eq!(triage("s/1.json", age(SPOOL_LIFETIME_SECS, 0)), SpoolTriage::Submit);
    assert_eq!(triage("s/1.json", age(SPOOL_LIFETIME_SECS, 1)), SpoolTriage::Expired);
    assert_eq!(triage("s/1.json", age(SPOOL_LIFETIME_SECS + 1, 0)), SpoolTriage::Expired);
    assert_eq!(triage("s/1.json", age(0, 0)), SpoolTriage::Submit);
    assert_eq!(triage("s/1.txt", age(u64::MAX, 0)), SpoolTriage::Ignore);
    assert_eq!(triage("s/json", None), SpoolTriage::Ignore);
    assert_eq!(triage("s/.json", None), SpoolTriage::Ignore);
}

#[test]
fn outages_keep_proofs() {
    assert_eq!(after_resubmission(&Ok(())), SpoolFate::Accepted);
    assert_eq!(after_resubmission(&Err(no_answer("e"))), SpoolFate::Kept);
    assert_eq!(after_resubmission(&read_answer("/p", 500, "")), SpoolFate::Kept);
    assert_eq!(after_resubmission(&read_answer("/p", 302, "")), SpoolFate::Kept);
    assert_eq!(after_resubmission(&read_answer("/p", 400, "")), SpoolFate::Rejected);
    assert_eq!(after_resubmission(&read_answer("/p", 404, "")), SpoolFate::Rejected);
    assert_eq!(after_resubmission(&read_answer("/p", 408, "")), SpoolFate::Kept);
    assert_eq!(after_resubmission(&read_answer("/p", 429, "")), SpoolFate::Kept);
    let misleading = PostFailure {
        status: Some(500),
        retryable: true,
        message: String::from("ethproofs /p -> 500 upstream -> 404"),
    };
    assert_eq!(after_resubmission(&Err(misleading)), SpoolFate::Kept);
}

#[test]
fn long_proofs_are_shortened_for_the_log() {
    let long = "A".repeat(101);
    assert_eq!(shorten(&long), format!("{}...(101 chars)", "A".repeat(80)));
    let request = client().proved(&[0; 300], 9, 1, 2, "v");
    let logged = log_copy(&request.json).unwrap();
    assert_eq!(
        logged.get("proof").unwrap().as_str().unwrap(),
        format!("{}...(400 chars)", "A".repeat(80))
    );
    assert_eq!(logged.get("verifier_id"), request.json.get("verifier_id"));
    assert_eq!(request.json.get("proof").unwrap().as_str().unwrap().len(), 400);
}

#[test]
fn requests_are_logged_for_people_to_read() {
    let request = client().queued(7);
    assert_eq!(
        log_text(&request.json).unwrap(),
        "{\n  \"block_number\": 7,\n  \"cluster_id\": 3\n}"
    );
    let mut json = serde_json::Value::Object(serde_json::Map::new());
    json["proof"] = serde_json::Value::from("a".to_string() + &"\u{e9}".repeat(60));
    assert_eq!(log_text(&json), None);
}

#[test]
fn short_proofs_are_logged_whole() {
    let request = client().proved(&[0; 75], 9, 1, 2, "v");
    assert_eq!(request.json.get("proof").unwrap().as_str().unwrap().len(), 100);
    assert_eq!(log_copy(&request.json), Some(request.json));
    let other = serde_json::Value::from(vec![1, 2]);
    assert_eq!(log_copy(&other), Some(other));
}

#[test]
fn long_texts_are_cut_between_characters_only() {
    let mut json = serde_json::Value::Object(serde_json::Map::new());
    json["proof"] = serde_json::Value::from("a".to_string() + &"\u{e9}".repeat(60));
    assert_eq!(log_copy(&json), None);
    json["proof"] = serde_json::Value::from("\u{e9}".repeat(60));
    let logged = log_copy(&json).unwrap();
    assert_eq!(
        logged["proof"].as_str().unwrap(),
        format!("{}...(120 chars)", "\u{e9}".repeat(40))
    );
}

#[test]
fn requests_time_out_after_a_minute() {
    assert_eq!(HTTP_TIMEOUT_SECS, 60);
}
