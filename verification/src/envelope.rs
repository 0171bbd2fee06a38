//! The forms in which proofs and verification keys leave the program.
//!
//! Proofs and verification keys travel in an envelope: eight bytes of magic, a format version and
//! the security level in bits, then the content. A verifier takes an artifact without an envelope to
//! be of 80 bits. Proofs are compressed with gzip on top.

use std::io::{Read, Write};
use vstd::prelude::*;
use crate::path::{join, joined};
use crate::security::{security_wire_bits, SecurityModel};

verus! {

/// The magic of an enveloped proof: `EPROOF01`.
pub const PROOF_ENVELOPE_MAGIC: [u8; 8] = [0x45, 0x50, 0x52, 0x4f, 0x4f, 0x46, 0x30, 0x31];

/// The magic of an enveloped verification key: `EVKEY001`.
pub const VK_ENVELOPE_MAGIC: [u8; 8] = [0x45, 0x56, 0x4b, 0x45, 0x59, 0x30, 0x30, 0x31];

/// The version of the envelope format.
pub const ENVELOPE_FORMAT_VERSION: u8 = 1;

/// What `flate2` makes of bytes when it compresses them with gzip at its default level.
pub uninterp spec fn gzip_of(data: Seq<u8>) -> Seq<u8>;

/// What `flate2` makes of bytes when it takes them for one gzip member and decompresses it: the
/// content, or the text of what is wrong with them.
pub uninterp spec fn gunzip_of(data: Seq<u8>) -> Result<Seq<u8>, Seq<char>>;

/// Whether bytes begin like a gzip member.
pub open spec fn looks_gzipped(data: Seq<u8>) -> bool {
    data.len() >= 2 && data[0] == 0x1f && data[1] == 0x8b
}

/// Content in an envelope.
pub open spec fn enveloped(magic: Seq<u8>, security: SecurityModel, content: Seq<u8>) -> Seq<u8> {
    magic + seq![ENVELOPE_FORMAT_VERSION, security.bits() as u8] + content
}

/// Compresses bytes by `flate2::write::GzEncoder` at the default level, which writes to memory and so
/// cannot fail. The result is named by `gzip_of`. It begins with the two bytes that mark a gzip
/// member.
#[verifier::external_body]
fn gzip(data: &[u8]) -> (packed: Vec<u8>)
    ensures
        packed@ == gzip_of(data@),
        looks_gzipped(packed@),
{
    let mut encoder = flate2::write::GzEncoder::new(Vec::new(), flate2::Compression::default());
    encoder.write_all(data).expect("failed to gzip proof");
    encoder.finish().expect("failed to finish gzip stream")
}

/// Decompresses one gzip member by `flate2::read::GzDecoder`. The result, with the text of an error,
/// is named by `gunzip_of`; on what the encoder made, it is what the encoder was given.
#[verifier::external_body]
fn gunzip(data: &[u8]) -> (r: Result<Vec<u8>, String>)
    ensures
        match r {
            Ok(unpacked) => gunzip_of(data@) == Ok::<Seq<u8>, Seq<char>>(unpacked@),
            Err(e) => gunzip_of(data@) == Err::<Seq<u8>, Seq<char>>(e@),
        },
        forall|content: Seq<u8>|
            data@ == #[trigger] gzip_of(content) ==> r is Ok && r->Ok_0@ == content,
{
    let mut out = Vec::new();
    match flate2::read::GzDecoder::new(data).read_to_end(&mut out) {
        Ok(_) => Ok(out),
        Err(e) => Err(e.to_string()),
    }
}

fn append_envelope(out: &mut Vec<u8>, magic: &[u8; 8], security: SecurityModel)
    ensures
        final(out)@ == old(out)@ + enveloped(magic@, security, Seq::<u8>::empty()),
{
    out.extend_from_slice(magic.as_slice());
    out.push(ENVELOPE_FORMAT_VERSION);
    out.push(security_wire_bits(security));
}

/// A serialized proof in its envelope.
pub fn proof_envelope(proof: &[u8], security: SecurityModel) -> (bytes: Vec<u8>)
    ensures
        bytes@ == enveloped(PROOF_ENVELOPE_MAGIC@, security, proof@),
{
    let mut out: Vec<u8> = Vec::new();
    append_envelope(&mut out, &PROOF_ENVELOPE_MAGIC, security);
    out.extend_from_slice(proof);
    out
}

/// A verification key in its envelope: the serialized setup and then the serialized layouts.
pub fn vk_envelope(setup: &[u8], layout: &[u8], security: SecurityModel) -> (bytes: Vec<u8>)
    ensures
        bytes@ == enveloped(VK_ENVELOPE_MAGIC@, security, setup@ + layout@),
{
    let mut out: Vec<u8> = Vec::new();
    append_envelope(&mut out, &VK_ENVELOPE_MAGIC, security);
    out.extend_from_slice(setup);
    out.extend_from_slice(layout);
    out
}

/// The form in which proofs are submitted and kept: the serialized proof in its envelope, compressed.
pub fn serialize_proof_to_bytes_enveloped(proof: &[u8], security: SecurityModel) -> (bytes: Vec<u8>)
    ensures
        bytes@ == gzip_of(enveloped(PROOF_ENVELOPE_MAGIC@, security, proof@)),
        looks_gzipped(bytes@),
{
    gzip(proof_envelope(proof, security).as_slice())
}

/// The older form of a proof: the serialized proof, compressed. Verifiers take it to be of 80 bits.
pub fn serialize_proof_to_bytes(proof: &[u8]) -> (bytes: Vec<u8>)
    ensures
        bytes@ == gzip_of(proof@),
        looks_gzipped(bytes@),
{
    gzip(proof)
}

/// The content of a proof file, which may be compressed or not. The error is the text of what is
/// wrong with a file that begins like a compressed one.
///
/// What was compressed comes back as it was.
pub fn unpack_proof_file(raw: Vec<u8>) -> (r: Result<Vec<u8>, String>)
    ensures
        !looks_gzipped(raw@) ==> r == Ok::<Vec<u8>, String>(raw),
        looks_gzipped(raw@) ==> match r {
            Ok(content) => gunzip_of(raw@) == Ok::<Seq<u8>, Seq<char>>(content@),
            Err(e) => gunzip_of(raw@) == Err::<Seq<u8>, Seq<char>>(e@),
        },
        forall|content: Seq<u8>|
            looks_gzipped(raw@) && raw@ == #[trigger] gzip_of(content) ==> r is Ok && r->Ok_0@
                == content,
{
    if raw.len() >= 2 && raw[0] == 0x1f && raw[1] == 0x8b {
        gunzip(raw.as_slice())
    } else {
        Ok(raw)
    }
}

/// What a proof file holds before it is compressed. Verifiers take a proof without an envelope to be
/// of 80 bits, so a proof of 100 bits has one.
pub open spec fn proof_file_content(proof: Seq<u8>, security: SecurityModel) -> Seq<u8> {
    match security {
        SecurityModel::Security80 => proof,
        SecurityModel::Security100 => enveloped(PROOF_ENVELOPE_MAGIC@, security, proof),
    }
}

/// The proof file of the prove command, from a serialized proof: in its envelope where verifiers need
/// one.
pub fn proof_file(proof: &[u8], security: SecurityModel) -> (bytes: Vec<u8>)
    ensures
        bytes@ == gzip_of(proof_file_content(proof@, security)),
        looks_gzipped(bytes@),
{
    match security {
        SecurityModel::Security80 => serialize_proof_to_bytes(proof),
        SecurityModel::Security100 => serialize_proof_to_bytes_enveloped(proof, security),
    }
}

/// The content of a file that may be compressed, or the text of what is wrong with it.
pub open spec fn unpacked(raw: Seq<u8>) -> Result<Seq<u8>, Seq<char>> {
    if looks_gzipped(raw) {
        gunzip_of(raw)
    } else {
        Ok(raw)
    }
}

/// Whether bytes begin like an enveloped proof.
pub open spec fn has_proof_magic(content: Seq<u8>) -> bool {
    content.len() >= 8 && content.take(8) == PROOF_ENVELOPE_MAGIC@
}

/// The serialized proof in an envelope. There is none where there is no envelope, in one that is cut
/// short, or in one whose version or security level is unknown.
pub open spec fn opened(content: Seq<u8>) -> Option<Seq<u8>> {
    if has_proof_magic(content) && content.len() >= 10 && content[8] == ENVELOPE_FORMAT_VERSION && (
    content[9] == 80 || content[9] == 100) {
        Some(content.skip(10))
    } else {
        None
    }
}

fn starts_with_proof_magic(content: &[u8]) -> (yes: bool)
    ensures
        yes == has_proof_magic(content@),
{
    if content.len() < 8 {
        return false;
    }
    let mut i: usize = 0;
    while i < 8
        invariant
            i <= 8 <= content@.len(),
            forall|k: int| 0 <= k < i ==> content@[k] == PROOF_ENVELOPE_MAGIC@[k],
        decreases 8 - i,
    {
        if content[i] != PROOF_ENVELOPE_MAGIC[i] {
            assert(content@.take(8)[i as int] == content@[i as int]);
            return false;
        }
        i = i + 1;
    }
    assert(content@.take(8) =~= PROOF_ENVELOPE_MAGIC@);
    true
}

/// What to decode a proof file as, in the order in which to try: its content as it is, which may be
/// compressed or not, and, where the content is an envelope, what the envelope holds. The error is the
/// text of what is wrong with a file that begins like a compressed one.
///
/// What was compressed is always the first to be tried, and what was enveloped is always tried.
pub fn proof_readings(raw: Vec<u8>) -> (r: Result<Vec<Vec<u8>>, String>)
    ensures
        match r {
            Ok(readings) => {
                &&& unpacked(raw@) is Ok
                &&& readings@.len() >= 1
                &&& readings@[0]@ == unpacked(raw@)->Ok_0
                &&& match opened(unpacked(raw@)->Ok_0) {
                    Some(proof) => readings@.len() == 2 && readings@[1]@ == proof,
                    None => readings@.len() == 1,
                }
            },
            Err(e) => unpacked(raw@) == Err::<Seq<u8>, Seq<char>>(e@),
        },
        forall|content: Seq<u8>|
            looks_gzipped(raw@) && raw@ == #[trigger] gzip_of(content) ==> r is Ok
                && r->Ok_0@[0]@ == content,
        forall|security: SecurityModel, proof: Seq<u8>|
            looks_gzipped(raw@) && raw@ == #[trigger] gzip_of(
                enveloped(PROOF_ENVELOPE_MAGIC@, security, proof),
            ) ==> r is Ok && r->Ok_0@.len() == 2 && r->Ok_0@[1]@ == proof,
{
    let content = match unpack_proof_file(raw) {
        Ok(content) => content,
        Err(e) => {
            return Err(e);
        },
    };
    proof {
        assert forall|security: SecurityModel, proof: Seq<u8>|
            looks_gzipped(raw@) && raw@ == #[trigger] gzip_of(
                enveloped(PROOF_ENVELOPE_MAGIC@, security, proof),
            ) implies opened(content@) == Some(proof) by {
            law_envelope_is_taken_off(security, proof);
        }
    }
    let n: usize = content.len();
    let mut readings: Vec<Vec<u8>> = Vec::new();
    if starts_with_proof_magic(content.as_slice()) && n >= 10 && content[8]
        == ENVELOPE_FORMAT_VERSION && (content[9] == 80 || content[9] == 100) {
        let mut proof: Vec<u8> = Vec::new();
        proof.extend_from_slice(vstd::slice::slice_subrange(content.as_slice(), 10, n));
        assert(proof@ =~= content@.skip(10));
        readings.push(content);
        readings.push(proof);
    } else {
        readings.push(content);
    }
    Ok(readings)
}

/// Opening an envelope gives the proof that was put into it.
pub proof fn law_envelope_is_taken_off(security: SecurityModel, proof: Seq<u8>)
    ensures
        opened(enveloped(PROOF_ENVELOPE_MAGIC@, security, proof)) == Some(proof),
{
    let content = enveloped(PROOF_ENVELOPE_MAGIC@, security, proof);
    assert(content.take(8) =~= PROOF_ENVELOPE_MAGIC@);
    assert(content.skip(10) =~= proof);
}

/// A file that is to be written.
#[derive(Clone, Debug)]
pub struct FileWrite {
    pub path: String,
    pub bytes: Vec<u8>,
}

/// The files that the verifier in the browser reads.
#[derive(Clone, Debug)]
pub struct WasmVerifierFiles {
    /// The setup of the unified recursion layer.
    pub setup: FileWrite,
    /// The circuit layouts of the unified recursion layer.
    pub layout: FileWrite,
    /// Both in one, with the security level.
    pub vk: FileWrite,
}

/// The files that the verifier in the browser reads, for a serialized setup and serialized layouts.
pub fn wasm_verifier_files(
    dir: &str,
    setup: Vec<u8>,
    layout: Vec<u8>,
    security: SecurityModel,
) -> (files: WasmVerifierFiles)
    ensures
        files.setup.path@ == joined(dir@, "setup.bin"@),
        files.setup.bytes == setup,
        files.layout.path@ == joined(dir@, "layout.bin"@),
        files.layout.bytes == layout,
        files.vk.path@ == joined(dir@, "vk.bin"@),
        files.vk.bytes@ == enveloped(VK_ENVELOPE_MAGIC@, security, setup@ + layout@),
{
    let vk = vk_envelope(setup.as_slice(), layout.as_slice(), security);
    WasmVerifierFiles {
        setup: FileWrite { path: join(dir, "setup.bin"), bytes: setup },
        layout: FileWrite { path: join(dir, "layout.bin"), bytes: layout },
        vk: FileWrite { path: join(dir, "vk.bin"), bytes: vk },
    }
}

/// An envelope of eight bytes of magic tells its security level and its content.
pub proof fn law_envelope_tells_its_content(
    magic: Seq<u8>,
    security_a: SecurityModel,
    content_a: Seq<u8>,
    security_b: SecurityModel,
    content_b: Seq<u8>,
)
    requires
        enveloped(magic, security_a, content_a) == enveloped(magic, security_b, content_b),
    ensures
        security_a == security_b,
        content_a == content_b,
{
    let a = enveloped(magic, security_a, content_a);
    let b = enveloped(magic, security_b, content_b);
    assert(a[magic.len() as int + 1] == security_a.bits() as u8);
    assert(b[magic.len() as int + 1] == security_b.bits() as u8);
    assert(a.skip(magic.len() as int + 2) == content_a);
    assert(b.skip(magic.len() as int + 2) == content_b);
}

/// A proof in its envelope is never a verification key in its envelope.
pub proof fn law_proofs_and_keys_are_told_apart(
    security_a: SecurityModel,
    proof: Seq<u8>,
    security_b: SecurityModel,
    key: Seq<u8>,
)
    ensures
        enveloped(PROOF_ENVELOPE_MAGIC@, security_a, proof) != enveloped(
            VK_ENVELOPE_MAGIC@,
            security_b,
            key,
        ),
{
    let a = enveloped(PROOF_ENVELOPE_MAGIC@, security_a, proof);
    let b = enveloped(VK_ENVELOPE_MAGIC@, security_b, key);
    assert(a[1] == PROOF_ENVELOPE_MAGIC@[1]);
    assert(b[1] == VK_ENVELOPE_MAGIC@[1]);
}

/// What an envelope begins with, and what follows.
pub proof fn law_envelope_layout(magic: Seq<u8>, security: SecurityModel, content: Seq<u8>)
    ensures
        enveloped(magic, security, content).len() == magic.len() + 2 + content.len(),
        enveloped(magic, security, content).take(magic.len() as int) == magic,
        enveloped(magic, security, content)[magic.len() as int] == ENVELOPE_FORMAT_VERSION,
        enveloped(magic, security, content)[magic.len() as int + 1] == security.bits(),
        enveloped(magic, security, content).skip(magic.len() as int + 2) == content,
{
}

/// The bytes of an enveloped proof: `EPROOF01`, the version one, the security level in bits, and then
/// the proof as it is.
pub proof fn law_bytes_of_an_enveloped_proof(security: SecurityModel, proof: Seq<u8>, key: Seq<u8>)
    ensures
        enveloped(PROOF_ENVELOPE_MAGIC@, security, proof) == seq![
            0x45u8,
            0x50,
            0x52,
            0x4f,
            0x4f,
            0x46,
            0x30,
            0x31,
            1,
            if security == SecurityModel::Security80 {
                80
            } else {
                100
            },
        ] + proof,
        enveloped(VK_ENVELOPE_MAGIC@, security, key) == seq![
            0x45u8,
            0x56,
            0x4b,
            0x45,
            0x59,
            0x30,
            0x30,
            0x31,
            1,
            if security == SecurityModel::Security80 {
                80
            } else {
                100
            },
        ] + key,
{
}

/// A proof file of 100 bits holds the proof in its envelope, and one of 80 bits the bare proof.
pub proof fn law_form_of_a_proof_file(proof: Seq<u8>)
    ensures
        proof_file_content(proof, SecurityModel::Security80) == proof,
        proof_file_content(proof, SecurityModel::Security100) == seq![
            0x45u8,
            0x50,
            0x52,
            0x4f,
            0x4f,
            0x46,
            0x30,
            0x31,
            1,
            100,
        ] + proof,
{
    law_bytes_of_an_enveloped_proof(SecurityModel::Security100, proof, proof);
}

/// How a file is unpacked: bytes that begin with `1f 8b` are decompressed, and all others are taken as
/// they are.
pub proof fn law_how_files_are_unpacked(raw: Seq<u8>)
    ensures
        raw.len() >= 2 && raw[0] == 0x1f && raw[1] == 0x8b ==> looks_gzipped(raw) && unpacked(raw)
            == gunzip_of(raw),
        raw.len() < 2 || raw[0] != 0x1f || raw[1] != 0x8b ==> !looks_gzipped(raw) && unpacked(raw)
            == Ok::<Seq<u8>, Seq<char>>(raw),
{
}

/// Only an envelope is opened: what comes out of one was put into it.
pub proof fn law_only_envelopes_are_opened(content: Seq<u8>)
    ensures
        match opened(content) {
            Some(proof) => {
                ||| content == enveloped(PROOF_ENVELOPE_MAGIC@, SecurityModel::Security80, proof)
                ||| content == enveloped(PROOF_ENVELOPE_MAGIC@, SecurityModel::Security100, proof)
            },
            None => forall|security: SecurityModel, proof: Seq<u8>|
                content != #[trigger] enveloped(PROOF_ENVELOPE_MAGIC@, security, proof),
        },
{
    match opened(content) {
        Some(proof) => {
            let security = if content[9] == 80 {
                SecurityModel::Security80
            } else {
                SecurityModel::Security100
            };
            assert forall|i: int| 0 <= i < 8 implies content[i] == PROOF_ENVELOPE_MAGIC@[i] by {
                assert(content.take(8)[i] == content[i]);
            }
            assert(content =~= enveloped(PROOF_ENVELOPE_MAGIC@, security, proof));
        },
        None => {
            assert forall|security: SecurityModel, proof: Seq<u8>|
                content != #[trigger] enveloped(PROOF_ENVELOPE_MAGIC@, security, proof) by {
                law_envelope_is_taken_off(security, proof);
            }
        },
    }
}

} // verus!
