//! The words that the guest reads as its input.
//!
//! The guest reads a byte count and then the bytes themselves, packed into words of four, the lowest
//! byte first, with zeros at the end of the last word. What the bytes are, the guest tells by the
//! magic that they begin with: inputs of blocks have theirs on disk already, and test fixtures in
//! JSON get theirs here.

use vstd::prelude::*;
use vstd::utf8::valid_utf8;
use crate::json::{json_parsed, json_text, parse, to_bytes, Json};

verus! {

/// The magic of a test fixture in JSON, `EJSN`, as a number of which the lowest byte comes first.
pub const INPUT_MAGIC_EJSN: u32 = 0x4E534A45;

/// The version of the envelope of a test fixture in JSON.
pub const INPUT_VERSION_EJSN: u32 = 1;

/// Why there are no words for the guest.
#[derive(Clone, Debug)]
pub enum OracleError {
    /// The test fixture is no text.
    InvalidUtf8(String),
    /// The test fixture is no JSON.
    InvalidJson(String),
    /// The test fixture could not be written again as JSON.
    Reserialize(String),
}

impl OracleError {
    /// What is said of the failure.
    pub open spec fn text_spec(self) -> Seq<char> {
        match self {
            OracleError::InvalidUtf8(e) => "invalid UTF-8 in test file: "@ + e@,
            OracleError::InvalidJson(e) => "invalid JSON in test file: "@ + e@,
            OracleError::Reserialize(e) => "JSON re-serialize failed: "@ + e@,
        }
    }

    /// What is said of the failure.
    pub fn text(&self) -> (text: String)
        ensures
            text@ == self.text_spec(),
    {
        match self {
            OracleError::InvalidUtf8(e) => "invalid UTF-8 in test file: ".to_owned().concat(
                e.as_str(),
            ),
            OracleError::InvalidJson(e) => "invalid JSON in test file: ".to_owned().concat(
                e.as_str(),
            ),
            OracleError::Reserialize(e) => "JSON re-serialize failed: ".to_owned().concat(
                e.as_str(),
            ),
        }
    }
}

/// The four bytes of a number, the lowest first.
pub open spec fn le_bytes(n: u32) -> Seq<u8> {
    seq![
        (n % 0x100) as u8,
        (n / 0x100 % 0x100) as u8,
        (n / 0x1_0000 % 0x100) as u8,
        (n / 0x100_0000) as u8,
    ]
}

/// A byte of the input, or zero after its end.
pub open spec fn byte_at(bytes: Seq<u8>, i: int) -> int {
    if 0 <= i < bytes.len() {
        bytes[i] as int
    } else {
        0
    }
}

/// The word that holds the four bytes from `4 * i`.
pub open spec fn word_at(bytes: Seq<u8>, i: int) -> u32 {
    (byte_at(bytes, 4 * i) + 0x100 * byte_at(bytes, 4 * i + 1) + 0x1_0000 * byte_at(
        bytes,
        4 * i + 2,
    ) + 0x100_0000 * byte_at(bytes, 4 * i + 3)) as u32
}

/// The words for the guest: the byte count, of which 32 bits are kept, and the bytes.
pub open spec fn oracle_words(bytes: Seq<u8>) -> Seq<u32> {
    seq![(bytes.len() % 0x1_0000_0000) as u32] + Seq::new(
        ((bytes.len() + 3) / 4) as nat,
        |i: int| word_at(bytes, i),
    )
}

/// A test fixture in its envelope.
pub open spec fn fixture_envelope(minified: Seq<u8>) -> Seq<u8> {
    le_bytes(INPUT_MAGIC_EJSN) + le_bytes(INPUT_VERSION_EJSN) + minified
}

/// What the standard library says is wrong with bytes that are no text in UTF-8.
pub uninterp spec fn utf8_error(bytes: Seq<u8>) -> Seq<char>;

/// Checks by `std::str::from_utf8` that bytes are a text in UTF-8. The text of an error depends on the
/// bytes alone, and is named by `utf8_error`.
#[verifier::external_body]
fn check_utf8(bytes: &[u8]) -> (r: Result<(), String>)
    ensures
        match r {
            Ok(_) => valid_utf8(bytes@),
            Err(e) => !valid_utf8(bytes@) && e@ == utf8_error(bytes@),
        },
{
    match std::str::from_utf8(bytes) {
        Ok(_) => Ok(()),
        Err(e) => Err(e.to_string()),
    }
}

fn push_le_bytes(out: &mut Vec<u8>, n: u32)
    ensures
        final(out)@ == old(out)@ + le_bytes(n),
{
    out.push((n % 0x100) as u8);
    out.push((n / 0x100 % 0x100) as u8);
    out.push((n / 0x1_0000 % 0x100) as u8);
    out.push((n / 0x100_0000) as u8);
}

/// Puts a test fixture, written in the shortest form, into its envelope.
pub fn envelop_fixture(minified: &[u8]) -> (bytes: Vec<u8>)
    ensures
        bytes@ == fixture_envelope(minified@),
{
    let mut out: Vec<u8> = Vec::new();
    push_le_bytes(&mut out, INPUT_MAGIC_EJSN);
    push_le_bytes(&mut out, INPUT_VERSION_EJSN);
    out.extend_from_slice(minified);
    out
}

fn word_of(bytes: &[u8], at: usize) -> (word: u32)
    requires
        at < bytes@.len(),
        at % 4 == 0,
    ensures
        word == word_at(bytes@, at as int / 4),
{
    let left: usize = bytes.len() - at;
    let b0: u32 = bytes[at] as u32;
    let b1: u32 = if left > 1 {
        bytes[at + 1] as u32
    } else {
        0
    };
    let b2: u32 = if left > 2 {
        bytes[at + 2] as u32
    } else {
        0
    };
    let b3: u32 = if left > 3 {
        bytes[at + 3] as u32
    } else {
        0
    };
    b0 + 0x100 * b1 + 0x1_0000 * b2 + 0x100_0000 * b3
}

/// Packs bytes into words for the guest.
pub fn pack_oracle(bytes: &[u8]) -> (words: Vec<u32>)
    ensures
        words@ == oracle_words(bytes@),
{
    let n: usize = bytes.len();
    let count: u32 = (n as u64 % 0x1_0000_0000) as u32;
    let mut words: Vec<u32> = Vec::new();
    words.push(count);
    let mut i: usize = 0;
    while i < n
        invariant
            n == bytes@.len(),
            count == bytes@.len() % 0x1_0000_0000,
            i % 4 == 0 || i == n,
            i <= n,
            words@ == seq![count] + Seq::new(
                ((i + 3) / 4) as nat,
                |k: int| word_at(bytes@, k),
            ),
        decreases n - i,
    {
        let ghost before = words@;
        let ghost at = i as int / 4;
        words.push(word_of(bytes, i));
        i = if n - i > 4 {
            i + 4
        } else {
            n
        };
        assert((i + 3) / 4 == at + 1);
        assert(words@ =~= seq![count] + Seq::new(
            ((i + 3) / 4) as nat,
            |k: int| word_at(bytes@, k),
        ));
    }
    words
}

/// The words for the guest, made from the content of an input file. The content of a block's input
/// is taken as it is. A test fixture is written again in its shortest form, and put into its
/// envelope.
pub fn build_oracle(content: Vec<u8>, is_test: bool) -> (r: Result<Vec<u32>, OracleError>)
    ensures
        !is_test ==> r is Ok && r->Ok_0@ == oracle_words(content@),
        is_test ==> match r {
            Ok(words) => {
                &&& valid_utf8(content@)
                &&& json_parsed(content@) is Ok
                &&& words@ == oracle_words(
                    fixture_envelope(json_text(json_parsed(content@)->Ok_0)),
                )
            },
            Err(OracleError::InvalidUtf8(e)) => !valid_utf8(content@) && e@ == utf8_error(content@),
            Err(OracleError::InvalidJson(e)) => valid_utf8(content@) && json_parsed(content@)
                == Err::<Json, Seq<char>>(e@),
            Err(OracleError::Reserialize(_)) => false,
        },
{
    if !is_test {
        return Ok(pack_oracle(content.as_slice()));
    }
    match check_utf8(content.as_slice()) {
        Ok(_) => {},
        Err(e) => {
            return Err(OracleError::InvalidUtf8(e));
        },
    }
    let value = match parse(content.as_slice()) {
        Ok(value) => value,
        Err(e) => {
            return Err(OracleError::InvalidJson(e));
        },
    };
    match to_bytes(&value) {
        Ok(minified) => Ok(pack_oracle(envelop_fixture(minified.as_slice()).as_slice())),
        Err(e) => Err(OracleError::Reserialize(e)),
    }
}

/// There is one word for the byte count and one for each four bytes that were begun.
pub proof fn law_oracle_length(bytes: Seq<u8>)
    ensures
        oracle_words(bytes).len() == 1 + (bytes.len() + 3) / 4,
        oracle_words(bytes)[0] as int == bytes.len() as int % 0x1_0000_0000,
        bytes.len() < 0x1_0000_0000 ==> oracle_words(bytes)[0] == bytes.len(),
{
}

/// The guest can tell the bytes from the words: below 4 GiB no two inputs give the same words.
pub proof fn law_oracle_tells_the_bytes(a: Seq<u8>, b: Seq<u8>)
    requires
        a.len() < 0x1_0000_0000,
        b.len() < 0x1_0000_0000,
        oracle_words(a) == oracle_words(b),
    ensures
        a == b,
{
    assert(oracle_words(a)[0] == a.len());
    assert(oracle_words(b)[0] == b.len());
    assert forall|i: int| 0 <= i < a.len() implies a[i] == b[i] by {
        let k = i / 4;
        assert(oracle_words(a)[1 + k] == word_at(a, k));
        assert(oracle_words(b)[1 + k] == word_at(b, k));
        lemma_word_tells_bytes(a, b, k);
    }
}

proof fn lemma_word_tells_bytes(a: Seq<u8>, b: Seq<u8>, k: int)
    requires
        word_at(a, k) == word_at(b, k),
    ensures
        byte_at(a, 4 * k) == byte_at(b, 4 * k),
        byte_at(a, 4 * k + 1) == byte_at(b, 4 * k + 1),
        byte_at(a, 4 * k + 2) == byte_at(b, 4 * k + 2),
        byte_at(a, 4 * k + 3) == byte_at(b, 4 * k + 3),
{
}

proof fn lemma_word_of_bytes(bytes: Seq<u8>, k: int, b0: u8, b1: u8, b2: u8, b3: u8)
    requires
        0 <= k,
        4 * k + 4 <= bytes.len(),
        bytes[4 * k] == b0,
        bytes[4 * k + 1] == b1,
        bytes[4 * k + 2] == b2,
        bytes[4 * k + 3] == b3,
    ensures
        word_at(bytes, k) == b0 + 0x100 * b1 + 0x1_0000 * b2 + 0x100_0000 * b3,
{
    assert(byte_at(bytes, 4 * k) == b0);
    assert(byte_at(bytes, 4 * k + 1) == b1);
    assert(byte_at(bytes, 4 * k + 2) == b2);
    assert(byte_at(bytes, 4 * k + 3) == b3);
}

proof fn lemma_fixture_head(minified: Seq<u8>)
    ensures
        fixture_envelope(minified).len() >= 8,
        fixture_envelope(minified).take(8) == seq![0x45u8, 0x4A, 0x53, 0x4E, 1, 0, 0, 0],
{
    assert(le_bytes(INPUT_MAGIC_EJSN) =~= seq![0x45u8, 0x4A, 0x53, 0x4E]);
    assert(le_bytes(INPUT_VERSION_EJSN) =~= seq![1u8, 0, 0, 0]);
    assert(fixture_envelope(minified).take(8) =~= seq![0x45u8, 0x4A, 0x53, 0x4E, 1, 0, 0, 0]);
}

/// An input that is a test fixture begins with the magic of one.
pub proof fn law_fixture_begins_with_its_magic(minified: Seq<u8>)
    ensures
        oracle_words(fixture_envelope(minified))[1] == INPUT_MAGIC_EJSN,
        oracle_words(fixture_envelope(minified))[2] == INPUT_VERSION_EJSN,
{
    let bytes = fixture_envelope(minified);
    lemma_fixture_head(minified);
    let head = bytes.take(8);
    assert(forall|i: int| 0 <= i < 8 ==> bytes[i] == #[trigger] head[i]);
    assert(head[0] == 0x45 && head[1] == 0x4A && head[2] == 0x53 && head[3] == 0x4E);
    assert(head[4] == 1 && head[5] == 0 && head[6] == 0 && head[7] == 0);
    lemma_word_of_bytes(bytes, 0, 0x45, 0x4A, 0x53, 0x4E);
    lemma_word_of_bytes(bytes, 1, 1, 0, 0, 0);
    assert(word_at(bytes, 0) == INPUT_MAGIC_EJSN);
    assert(word_at(bytes, 1) == INPUT_VERSION_EJSN);
    assert(oracle_words(bytes)[1] == word_at(bytes, 0));
    assert(oracle_words(bytes)[2] == word_at(bytes, 1));
}

proof fn lemma_bytes_of_word(bytes: Seq<u8>, k: int)
    requires
        0 <= k,
    ensures
        word_at(bytes, k) as int % 0x100 == byte_at(bytes, 4 * k),
        word_at(bytes, k) as int / 0x100 % 0x100 == byte_at(bytes, 4 * k + 1),
        word_at(bytes, k) as int / 0x1_0000 % 0x100 == byte_at(bytes, 4 * k + 2),
        word_at(bytes, k) as int / 0x100_0000 % 0x100 == byte_at(bytes, 4 * k + 3),
{
    let w = word_at(bytes, k) as int;
    let (a, b) = (byte_at(bytes, 4 * k), byte_at(bytes, 4 * k + 1));
    let (c, d) = (byte_at(bytes, 4 * k + 2), byte_at(bytes, 4 * k + 3));
    assert(w == a + 0x100 * b + 0x1_0000 * c + 0x100_0000 * d);
    assert(w / 0x100 == b + 0x100 * c + 0x1_0000 * d);
    assert(w / 0x1_0000 == c + 0x100 * d);
    assert(w / 0x100_0000 == d);
}

/// The words hold the bytes. After the byte count, of which 32 bits are kept, byte `i` of the input
/// stands in word `1 + i / 4`, at place `i % 4` from the lowest byte on. The places after the last
/// byte hold zeros, and there are no more words than it takes.
pub proof fn law_words_hold_the_bytes(bytes: Seq<u8>, i: int)
    requires
        0 <= i < 4 * (oracle_words(bytes).len() - 1),
    ensures
        oracle_words(bytes).len() == 1 + (bytes.len() + 3) / 4,
        oracle_words(bytes)[0] as int == bytes.len() as int % 0x1_0000_0000,
        ({
            let word = oracle_words(bytes)[1 + i / 4] as int;
            let byte = if i % 4 == 0 {
                word % 0x100
            } else if i % 4 == 1 {
                word / 0x100 % 0x100
            } else if i % 4 == 2 {
                word / 0x1_0000 % 0x100
            } else {
                word / 0x100_0000 % 0x100
            };
            &&& i < bytes.len() ==> byte == bytes[i]
            &&& i >= bytes.len() ==> byte == 0
        }),
{
    lemma_bytes_of_word(bytes, i / 4);
    assert(oracle_words(bytes)[1 + i / 4] == word_at(bytes, i / 4));
    assert(i == 4 * (i / 4) + i % 4);
}

/// The envelope of a test fixture is the text `EJSN`, the version as four bytes, and then the fixture
/// as it is.
pub proof fn law_envelope_of_a_fixture(minified: Seq<u8>)
    ensures
        fixture_envelope(minified).len() == 8 + minified.len(),
        fixture_envelope(minified).take(8) == seq![0x45u8, 0x4A, 0x53, 0x4E, 1, 0, 0, 0],
        fixture_envelope(minified).skip(8) == minified,
{
    lemma_fixture_head(minified);
    assert(fixture_envelope(minified).skip(8) =~= minified);
}

/// What is said of an input from which there are no words.
pub proof fn law_texts_of_unreadable_inputs(error: OracleError)
    ensures
        error matches OracleError::InvalidUtf8(e) ==> error.text_spec()
            == "invalid UTF-8 in test file: "@ + e@,
        error matches OracleError::InvalidJson(e) ==> error.text_spec()
            == "invalid JSON in test file: "@ + e@,
        error matches OracleError::Reserialize(e) ==> error.text_spec()
            == "JSON re-serialize failed: "@ + e@,
{
}

} // verus!
