use z6m_prover::oracle::{
    build_oracle, envelop_fixture, pack_oracle, OracleError, INPUT_MAGIC_EJSN, INPUT_VERSION_EJSN,
};

#[test]
fn bytes_are_packed_into_words_after_their_count() {
    assert_eq!(pack_oracle(&[]), vec![0]);
    assert_eq!(pack_oracle(&[1]), vec![1, 1]);
    assert_eq!(pack_oracle(&[1, 2, 3, 4]), vec![4, 0x0403_0201]);
    assert_eq!(pack_oracle(&[1, 2, 3, 4, 0xff]), vec![5, 0x0403_0201, 0xff]);
    assert_eq!(pack_oracle(&[0xff; 7]), vec![7, 0xffff_ffff, 0x00ff_ffff]);
}

#[test]
fn words_tell_their_bytes() {
    assert_ne!(pack_oracle(&[1, 0]), pack_oracle(&[1]));
    assert_ne!(pack_oracle(&[1, 2, 3]), pack_oracle(&[1, 2, 4]));
    assert_eq!(pack_oracle(&[9; 10]).len(), 1 + (10 + 3) / 4);
}

#[test]
fn inputs_of_blocks_are_taken_as_they_are() {
    let words = build_oracle(b"MFBD\x01\x00".to_vec(), false).unwrap();
    assert_eq!(words, vec![6, 0x4442_464d, 0x0000_0001]);
    let words = build_oracle(vec![0xff, 0xfe], false).unwrap();
    assert_eq!(words, vec![2, 0xfeff]);
}

#[test]
fn fixtures_are_minified_and_enveloped() {
    let words = build_oracle(b"{ \"b\" : 1, \"a\" : [ true ] }".to_vec(), true).unwrap();
    let mut bytes = b"EJSN\x01\x00\x00\x00".to_vec();
    bytes.extend_from_slice(b"{\"a\":[true],\"b\":1}");
    assert_eq!(words, pack_oracle(&bytes));
    assert_eq!(words[1], INPUT_MAGIC_EJSN);
    assert_eq!(words[2], INPUT_VERSION_EJSN);
    assert_eq!(envelop_fixture(b"{}"), b"EJSN\x01\x00\x00\x00{}".to_vec());
}

#[test]
fn fixtures_that_are_no_text_are_refused() {
    match build_oracle(vec![0xff, 0xfe], true) {
        Err(e @ OracleError::InvalidUtf8(_)) => {
            assert!(e.text().starts_with("invalid UTF-8 in test file: "));
            let text = std::str::from_utf8(&[0xff, 0xfe]).unwrap_err().to_string();
            assert!(e.text().ends_with(&text));
        }
        other => panic!("{:?}", other),
    }
}

#[test]
fn fixtures_that_are_no_json_are_refused() {
    match build_oracle(b"{ not json".to_vec(), true) {
        Err(e @ OracleError::InvalidJson(_)) => {
            assert!(e.text().starts_with("invalid JSON in test file: "))
        }
        other => panic!("{:?}", other),
    }
    match build_oracle(Vec::new(), true) {
        Err(OracleError::InvalidJson(_)) => {}
        other => panic!("{:?}", other),
    }
    assert_eq!(
        OracleError::Reserialize(String::from("x")).text(),
        "JSON re-serialize failed: x"
    );
}
