use z6m_prover::envelope::{
    proof_envelope, proof_file, proof_readings, serialize_proof_to_bytes, serialize_proof_to_bytes_enveloped,
    unpack_proof_file, vk_envelope, wasm_verifier_files, PROOF_ENVELOPE_MAGIC, VK_ENVELOPE_MAGIC,
};
use z6m_prover::security::{security_model, security_wire_bits, SecurityModel};

#[test]
fn magics_read_as_text() {
    assert_eq!(&PROOF_ENVELOPE_MAGIC, b"EPROOF01");
    assert_eq!(&VK_ENVELOPE_MAGIC, b"EVKEY001");
}

#[test]
fn proofs_travel_in_an_envelope() {
    assert_eq!(
        proof_envelope(&[7, 8], SecurityModel::Security100),
        b"EPROOF01\x01\x64\x07\x08".to_vec()
    );
    assert_eq!(
        proof_envelope(&[], SecurityModel::Security80),
        b"EPROOF01\x01\x50".to_vec()
    );
}

#[test]
fn keys_hold_the_setup_and_the_layouts() {
    assert_eq!(
        vk_envelope(&[1], &[2, 3], SecurityModel::Security80),
        b"EVKEY001\x01\x50\x01\x02\x03".to_vec()
    );
}

#[test]
fn envelopes_are_told_apart() {
    let a = proof_envelope(&[1], SecurityModel::Security80);
    let b = proof_envelope(&[1], SecurityModel::Security100);
    let c = vk_envelope(&[1], &[], SecurityModel::Security80);
    assert_ne!(a, b);
    assert_ne!(a, c);
    assert_eq!(a.len(), 8 + 2 + 1);
}

#[test]
fn compressed_proofs_come_back_as_they_were() {
    let proof: Vec<u8> = (0..1000u32).map(|i| (i % 251) as u8).collect();
    let packed = serialize_proof_to_bytes(&proof);
    assert_ne!(packed, proof);
    assert_eq!(&packed[..2], &[0x1f, 0x8b]);
    assert!(packed.len() < proof.len());
    assert_eq!(unpack_proof_file(packed), Ok(proof.clone()));

    let packed = serialize_proof_to_bytes_enveloped(&proof, SecurityModel::Security100);
    assert_eq!(
        unpack_proof_file(packed),
        Ok(proof_envelope(&proof, SecurityModel::Security100))
    );
}

#[test]
fn proofs_of_a_hundred_bits_are_enveloped() {
    let proof = vec![7u8; 50];
    let high = proof_file(&proof, SecurityModel::Security100);
    assert_eq!(
        unpack_proof_file(high.clone()),
        Ok(proof_envelope(&proof, SecurityModel::Security100))
    );
    let low = proof_file(&proof, SecurityModel::Security80);
    assert_eq!(unpack_proof_file(low.clone()), Ok(proof.clone()));
    assert_eq!(
        proof_readings(high),
        Ok(vec![proof_envelope(&proof, SecurityModel::Security100), proof.clone()])
    );
    assert_eq!(proof_readings(low), Ok(vec![proof]));
}

#[test]
fn envelopes_are_taken_off() {
    for security in [SecurityModel::Security80, SecurityModel::Security100] {
        for proof in [vec![], vec![1, 2, 3]] {
            let content = proof_envelope(&proof, security);
            let readings = Ok(vec![content.clone(), proof.clone()]);
            assert_eq!(proof_readings(content), readings);
            let packed = serialize_proof_to_bytes_enveloped(&proof, security);
            assert_eq!(proof_readings(packed), readings);
        }
    }
}

#[test]
fn what_is_no_envelope_is_read_as_it_is() {
    for bytes in [
        &b""[..],
        &b"\x05\x06"[..],
        &b"EPROOF0"[..],
        &b"EPROOF02\x01\x64\x07"[..],
        &b"EPROOF01"[..],
        &b"EPROOF01\x01"[..],
        &b"EPROOF01\x02\x64\x07"[..],
        &b"EPROOF01\x01\x65\x07"[..],
        &b"EVKEY001\x01\x64\x07"[..],
    ] {
        assert_eq!(proof_readings(bytes.to_vec()), Ok(vec![bytes.to_vec()]));
        assert_eq!(proof_readings(serialize_proof_to_bytes(bytes)), Ok(vec![bytes.to_vec()]));
    }
    assert!(proof_readings(vec![0x1f, 0x8b]).is_err());
}

#[test]
fn plain_proof_files_are_taken_as_they_are() {
    assert_eq!(unpack_proof_file(vec![]), Ok(vec![]));
    assert_eq!(unpack_proof_file(vec![0x1f]), Ok(vec![0x1f]));
    assert_eq!(unpack_proof_file(vec![0x1f, 0x8a, 1]), Ok(vec![0x1f, 0x8a, 1]));
}

#[test]
fn damaged_proof_files_are_refused() {
    assert!(unpack_proof_file(vec![0x1f, 0x8b]).is_err());
    let mut packed = serialize_proof_to_bytes(&[1, 2, 3]);
    packed.truncate(packed.len() - 4);
    assert!(unpack_proof_file(packed).is_err());
}

#[test]
fn the_verifier_in_the_browser_reads_three_files() {
    let files = wasm_verifier_files("out/wasm", vec![1, 2], vec![3], SecurityModel::Security100);
    assert_eq!(files.setup.path, "out/wasm/setup.bin");
    assert_eq!(files.setup.bytes, vec![1, 2]);
    assert_eq!(files.layout.path, "out/wasm/layout.bin");
    assert_eq!(files.layout.bytes, vec![3]);
    assert_eq!(files.vk.path, "out/wasm/vk.bin");
    assert_eq!(files.vk.bytes, b"EVKEY001\x01\x64\x01\x02\x03".to_vec());
}

#[test]
fn security_levels_are_named_in_bits() {
    assert_eq!(security_model(80), Ok(SecurityModel::Security80));
    assert_eq!(security_model(100), Ok(SecurityModel::Security100));
    assert_eq!(
        security_model(128).unwrap_err().text(),
        "unsupported --security 128 (expected 80 or 100)"
    );
    assert_eq!(security_wire_bits(SecurityModel::Security80), 80);
    assert_eq!(security_wire_bits(SecurityModel::Security100), 100);
    assert_eq!(SecurityModel::Security80.name(), "Security80");
    assert_eq!(SecurityModel::Security100.name(), "Security100");
}
