//! Where the guest and the inputs of blocks are found.

use vstd::prelude::*;
use crate::execution::guest_bin_path;
use crate::path::{
    extension, file_stem, has_extension, join, joined, lemma_joined_file_name,
    law_extension_is_taken_off, lemma_name_parts, stem_of, strip_extension, without_extension,
};
use crate::text::{
    append_decimal, chars_of, decimal, decimal_text, digits_value, is_digit,
    law_decimal_reads_back, lemma_decimal_digits,
};

verus! {

/// Default path to the guest binary, relative to the project root.
pub const DEFAULT_GUEST_BIN: &'static str = "prover/guest_airbender/build/z6m_guest";

/// Why there is no path to the input of a block.
#[derive(Clone, Copy, Debug, PartialEq, Eq, Structural)]
pub enum InputPathError {
    /// Neither a file nor a block was named.
    NothingNamed,
}

/// A guest binary that is not there.
#[derive(Clone, Debug)]
pub struct GuestNotFound {
    pub bin_path: String,
    /// Whether the guest was looked for at its default path.
    pub at_default: bool,
}

impl InputPathError {
    /// What is said of the failure.
    pub open spec fn text_spec(self) -> Seq<char> {
        "either --file-name or a nonzero --block-number is required"@
    }

    /// What is said of the failure.
    pub fn text(&self) -> (text: String)
        ensures
            text@ == self.text_spec(),
    {
        "either --file-name or a nonzero --block-number is required".to_owned()
    }
}

impl GuestNotFound {
    /// What is said of the failure.
    pub open spec fn text_spec(self) -> Seq<char> {
        if self.at_default {
            "guest binary not found at default path '"@ + self.bin_path@
                + "'; pass --guest-bin or run from the project root"@
        } else {
            "guest binary not found at "@ + self.bin_path@
        }
    }

    /// What is said of the failure.
    pub fn text(&self) -> (text: String)
        ensures
            text@ == self.text_spec(),
    {
        if self.at_default {
            "guest binary not found at default path '".to_owned().concat(
                self.bin_path.as_str(),
            ).concat("'; pass --guest-bin or run from the project root")
        } else {
            "guest binary not found at ".to_owned().concat(self.bin_path.as_str())
        }
    }
}

/// Where the digits at the end of a text begin.
pub open spec fn digits_start(s: Seq<char>) -> int
    decreases s.len(),
{
    if s.len() == 0 {
        0
    } else if is_digit(s.last()) {
        digits_start(s.drop_last())
    } else {
        s.len() as int
    }
}

/// The number at the end of a text: zero where there is none, or where it is too large.
pub open spec fn number_at_end(s: Seq<char>) -> u64 {
    let value = digits_value(s.skip(digits_start(s)));
    if value <= u64::MAX {
        value as u64
    } else {
        0
    }
}

/// The block number in the name of a file.
pub open spec fn block_number_in(path: Seq<char>) -> u64 {
    match file_stem(path) {
        Some(stem) => number_at_end(stem),
        None => 0,
    }
}

/// The directory of a block.
pub open spec fn block_dir(data_dir: Seq<char>, block: u64) -> Seq<char> {
    joined(joined(data_dir, "blocks"@), decimal(block as nat))
}

/// The input of a block.
pub open spec fn bundle_path(data_dir: Seq<char>, block: u64) -> Seq<char> {
    joined(
        block_dir(data_dir, block),
        "flatWitnessBundle"@ + decimal(block as nat) + ".mfbd"@,
    )
}

/// The input of a block in the older layout.
pub open spec fn legacy_input_path(data_dir: Seq<char>, block: u64) -> Seq<char> {
    joined(
        block_dir(data_dir, block),
        "unifiedBlockAndStateRlp"@ + decimal(block as nat) + ".bin"@,
    )
}

/// The path of the guest without its extension.
pub open spec fn guest_base_of(named: Option<Seq<char>>) -> Seq<char> {
    match named {
        Some(path) => if extension(path) == Some("bin"@) {
            without_extension(path)
        } else {
            path
        },
        None => DEFAULT_GUEST_BIN@,
    }
}

/// Asks by `std::path::Path::exists` whether there is something at a path. What is on disk decides,
/// so nothing is said of the answer.
#[verifier::external_body]
pub(crate) fn path_exists(path: &str) -> (exists: bool) {
    std::path::Path::new(path).exists()
}

/// Whether `exists` is what the disk can answer when it is asked whether there is something at a path.
pub closed spec fn disk_answers(path: Seq<char>, exists: bool) -> bool {
    exists|asked: &str| asked@ == path && call_ensures(path_exists, (asked,), exists)
}

/// Asks the disk whether there is something at a path.
pub(crate) fn ask_disk(path: &str) -> (exists: bool)
    ensures
        disk_answers(path@, exists),
{
    path_exists(path)
}

/// The block number in the name of a file, such as `unifiedBlockAndStateRlp24522000.bin`: the digits
/// at the end of its stem, or zero.
pub fn block_number_from_filename(path: &str) -> (block: u64)
    ensures
        block == block_number_in(path@),
{
    let stem = stem_of(path);
    let chars = chars_of(stem.as_str());
    let n: usize = chars.len();
    let ghost s = chars@;
    proof {
        assert(digits_start(Seq::<char>::empty()) == 0);
        assert(Seq::<char>::empty().skip(0) == Seq::<char>::empty());
    }
    let mut start: usize = n;
    assert(s.take(n as int) == s);
    while start > 0 && '0' <= chars[start - 1] && chars[start - 1] <= '9'
        invariant
            s == chars@,
            n == s.len(),
            start <= n,
            digits_start(s.take(start as int)) == digits_start(s),
            forall|i: int| start <= i < n ==> is_digit(#[trigger] s[i]),
        decreases start,
    {
        assert(s.take(start as int).drop_last() == s.take(start - 1));
        start = start - 1;
    }
    assert(start == digits_start(s)) by {
        if start > 0 {
            assert(s.take(start as int).last() == s[start - 1]);
        }
    }
    let mut value: u64 = 0;
    let mut i: usize = start;
    let ghost digits = s.skip(start as int);
    assert(digits.take(0) == Seq::<char>::empty());
    while i < n
        invariant
            s == chars@,
            n == s.len(),
            start <= i <= n,
            start == digits_start(s),
            digits == s.skip(start as int),
            forall|k: int| start <= k < n ==> is_digit(#[trigger] s[k]),
            value == digits_value(digits.take(i - start)),
            block_number_in(path@) == number_at_end(s),
        decreases n - i,
    {
        let d: u64 = (chars[i] as u32 - 48) as u64;
        proof {
            let next = digits.take(i - start + 1);
            assert(next.drop_last() == digits.take(i - start));
            assert(next.last() == s[i as int]);
            assert(digits_value(next) == value * 10 + d);
            if digits_value(next) > u64::MAX {
                lemma_more_digits(digits, i - start + 1);
            }
        }
        if value > (u64::MAX - d) / 10 {
            return 0;
        }
        value = value * 10 + d;
        i = i + 1;
    }
    assert(digits.take(n - start) == digits);
    value
}

proof fn lemma_more_digits(digits: Seq<char>, k: int)
    requires
        0 <= k <= digits.len(),
    ensures
        digits_value(digits.take(k)) <= digits_value(digits),
    decreases digits.len() - k,
{
    if k < digits.len() {
        lemma_more_digits(digits, k + 1);
        assert(digits.take(k + 1).drop_last() == digits.take(k));
    } else {
        assert(digits.take(k) == digits);
    }
}

fn block_dir_path(data_dir: &str, block_number: u64) -> (dir: String)
    ensures
        dir@ == block_dir(data_dir@, block_number),
{
    join(join(data_dir, "blocks").as_str(), decimal_text(block_number).as_str())
}

/// The path of the input of a block.
pub fn bundle_path_of(data_dir: &str, block_number: u64) -> (path: String)
    ensures
        path@ == bundle_path(data_dir@, block_number),
{
    let mut name = "flatWitnessBundle".to_owned();
    append_decimal(&mut name, block_number);
    name.append(".mfbd");
    join(block_dir_path(data_dir, block_number).as_str(), name.as_str())
}

/// The path of the input of a block in the older layout.
pub fn legacy_input_path_of(data_dir: &str, block_number: u64) -> (path: String)
    ensures
        path@ == legacy_input_path(data_dir@, block_number),
{
    let mut name = "unifiedBlockAndStateRlp".to_owned();
    append_decimal(&mut name, block_number);
    name.append(".bin");
    join(block_dir_path(data_dir, block_number).as_str(), name.as_str())
}

/// The path of the input, where `bundle_exists` says whether the block has an input in the present
/// layout.
pub fn choose_input_path(
    block_number: u64,
    file_name: Option<String>,
    data_dir: &str,
    bundle_exists: bool,
) -> (r: Result<String, InputPathError>)
    ensures
        match r {
            Ok(path) => {
                &&& file_name matches Some(named) ==> path == named
                &&& file_name is None ==> block_number != 0 && path@ == (if bundle_exists {
                    bundle_path(data_dir@, block_number)
                } else {
                    legacy_input_path(data_dir@, block_number)
                })
            },
            Err(_) => file_name is None && block_number == 0,
        },
{
    if let Some(path) = file_name {
        return Ok(path);
    }
    if block_number == 0 {
        return Err(InputPathError::NothingNamed);
    }
    if bundle_exists {
        Ok(bundle_path_of(data_dir, block_number))
    } else {
        Ok(legacy_input_path_of(data_dir, block_number))
    }
}

/// The path of the input: the file that was named, or the input of the block, in the present layout
/// if it is there and in the older one otherwise.
pub fn resolve_input_path(block_number: u64, file_name: Option<String>, data_dir: &str) -> (r:
    Result<String, InputPathError>)
    ensures
        r is Err <==> file_name is None && block_number == 0,
        file_name matches Some(named) ==> r == Ok::<String, InputPathError>(named),
        file_name is None && block_number != 0 ==> (r->Ok_0@ == bundle_path(
            data_dir@,
            block_number,
        ) || r->Ok_0@ == legacy_input_path(data_dir@, block_number)),
        file_name is None && block_number != 0 ==> disk_answers(
            bundle_path(data_dir@, block_number),
            r->Ok_0@ == bundle_path(data_dir@, block_number),
        ),
{
    let bundle_exists = if file_name.is_none() && block_number != 0 {
        ask_disk(bundle_path_of(data_dir, block_number).as_str())
    } else {
        false
    };
    proof {
        law_layouts_are_told_apart(data_dir@, block_number);
    }
    choose_input_path(block_number, file_name, data_dir, bundle_exists)
}

/// The path of the guest without its extension.
pub fn guest_base(cli_override: Option<&str>) -> (base: String)
    ensures
        base@ == guest_base_of(
            match cli_override {
                Some(p) => Some(p@),
                None => None,
            },
        ),
{
    match cli_override {
        Some(p) => if has_extension(p, "bin") {
            strip_extension(p)
        } else {
            p.to_owned()
        },
        None => DEFAULT_GUEST_BIN.to_owned(),
    }
}

/// The path of the guest without its extension, where `bin_exists` says whether the guest is there.
pub fn choose_guest_bin(cli_override: Option<&str>, bin_exists: bool) -> (r: Result<
    String,
    GuestNotFound,
>)
    ensures
        ({
            let base = guest_base_of(
                match cli_override {
                    Some(p) => Some(p@),
                    None => None,
                },
            );
            match r {
                Ok(found) => bin_exists && found@ == base,
                Err(e) => {
                    &&& !bin_exists
                    &&& e.bin_path@ == base + ".bin"@
                    &&& e.at_default == cli_override is None
                },
            }
        }),
{
    let base = guest_base(cli_override);
    if bin_exists {
        Ok(base)
    } else {
        Err(
            GuestNotFound {
                bin_path: guest_bin_path(base.as_str()),
                at_default: cli_override.is_none(),
            },
        )
    }
}

/// Locates the guest: the path without its extension, whose `.bin` file is there.
pub fn resolve_guest_bin(cli_override: Option<&str>) -> (r: Result<String, GuestNotFound>)
    ensures
        ({
            let base = guest_base_of(
                match cli_override {
                    Some(p) => Some(p@),
                    None => None,
                },
            );
            match r {
                Ok(found) => found@ == base,
                Err(e) => e.bin_path@ == base + ".bin"@ && e.at_default == cli_override is None,
            }
        }),
        disk_answers(
            guest_base_of(
                match cli_override {
                    Some(p) => Some(p@),
                    None => None,
                },
            ) + ".bin"@,
            r is Ok,
        ),
{
    let bin_path = guest_bin_path(guest_base(cli_override).as_str());
    choose_guest_bin(cli_override, ask_disk(bin_path.as_str()))
}

/// The number of the block that is meant: the one that was named, or the one in the name of its
/// input.
pub fn block_number_of_input(block_number: u64, input_path: &str) -> (block: u64)
    ensures
        block == (if block_number > 0 {
            block_number
        } else {
            block_number_in(input_path@)
        }),
{
    if block_number > 0 {
        block_number
    } else {
        block_number_from_filename(input_path)
    }
}

proof fn lemma_digits_start(prefix: Seq<char>, digits: Seq<char>)
    requires
        prefix.len() > 0,
        !is_digit(prefix.last()),
        forall|i: int| 0 <= i < digits.len() ==> is_digit(#[trigger] digits[i]),
    ensures
        digits_start(prefix + digits) == prefix.len(),
    decreases digits.len(),
{
    let s = prefix + digits;
    if digits.len() == 0 {
        assert(s == prefix);
    } else {
        assert(s.last() == digits.last());
        assert(s.drop_last() == prefix + digits.drop_last());
        lemma_digits_start(prefix, digits.drop_last());
    }
}

proof fn lemma_number_in_name(dir: Seq<char>, prefix: Seq<char>, ext: Seq<char>, block: u64)
    requires
        prefix.len() > 0,
        !is_digit(prefix.last()),
        forall|i: int| 0 <= i < prefix.len() ==> prefix[i] != '/' && prefix[i] != '.',
        forall|i: int| 0 <= i < ext.len() ==> ext[i] != '/' && ext[i] != '.',
    ensures
        block_number_in(joined(dir, prefix + decimal(block as nat) + (seq!['.'] + ext))) == block,
{
    let digits = decimal(block as nat);
    let stem = prefix + digits;
    let name = stem + (seq!['.'] + ext);
    lemma_decimal_digits(block as nat);
    assert forall|i: int| 0 <= i < name.len() implies name[i] != '/' by {
        if prefix.len() <= i < stem.len() {
            assert(name[i] == digits[i - prefix.len()]);
        } else if i > stem.len() {
            assert(name[i] == ext[i - stem.len() - 1]);
        }
    }
    assert(name[0] == prefix[0]);
    lemma_joined_file_name(dir, name);
    assert(name == stem + seq!['.'] + ext);
    lemma_name_parts(joined(dir, name), stem, ext);
    lemma_digits_start(prefix, digits);
    assert(stem.skip(prefix.len() as int) == digits);
    law_decimal_reads_back(block as nat);
}

/// The two layouts never give the same path, so the path of an input tells its layout.
pub proof fn law_layouts_are_told_apart(data_dir: Seq<char>, block: u64)
    ensures
        bundle_path(data_dir, block) != legacy_input_path(data_dir, block),
{
    reveal_strlit(".mfbd");
    reveal_strlit(".bin");
    assert(bundle_path(data_dir, block).last() == 'd');
    assert(legacy_input_path(data_dir, block).last() == 'n');
}

/// The path of a block's input tells the block, in either layout.
pub proof fn law_input_path_tells_the_block(data_dir: Seq<char>, block: u64)
    ensures
        block_number_in(bundle_path(data_dir, block)) == block,
        block_number_in(legacy_input_path(data_dir, block)) == block,
{
    reveal_strlit("flatWitnessBundle");
    reveal_strlit(".mfbd");
    reveal_strlit("mfbd");
    reveal_strlit("unifiedBlockAndStateRlp");
    reveal_strlit(".bin");
    reveal_strlit("bin");
    assert(".mfbd"@ == seq!['.'] + "mfbd"@);
    assert(".bin"@ == seq!['.'] + "bin"@);
    let dir = block_dir(data_dir, block);
    lemma_number_in_name(dir, "flatWitnessBundle"@, "mfbd"@, block);
    lemma_number_in_name(dir, "unifiedBlockAndStateRlp"@, "bin"@, block);
}

/// Where the inputs of a block are, in the present and in the older layout.
pub proof fn law_where_inputs_are(data_dir: Seq<char>, block: u64)
    ensures
        bundle_path(data_dir, block) == joined(
            joined(joined(data_dir, "blocks"@), decimal(block as nat)),
            "flatWitnessBundle"@ + decimal(block as nat) + ".mfbd"@,
        ),
        legacy_input_path(data_dir, block) == joined(
            joined(joined(data_dir, "blocks"@), decimal(block as nat)),
            "unifiedBlockAndStateRlp"@ + decimal(block as nat) + ".bin"@,
        ),
{
}

/// The number at the end of a text is that of all the digits there, as far as it fits into 64 bits,
/// and zero where it does not or where there is no digit.
pub proof fn law_number_at_the_end(text: Seq<char>, mark: char, digits: Seq<char>)
    requires
        !is_digit(mark),
        forall|i: int| 0 <= i < digits.len() ==> is_digit(#[trigger] digits[i]),
    ensures
        digits_value(digits) <= u64::MAX ==> number_at_end(text.push(mark) + digits)
            == digits_value(digits),
        digits_value(digits) > u64::MAX ==> number_at_end(text.push(mark) + digits) == 0,
        digits_value(digits) <= u64::MAX ==> number_at_end(digits) == digits_value(digits),
        digits_value(digits) > u64::MAX ==> number_at_end(digits) == 0,
{
    lemma_digits_start(text.push(mark), digits);
    let s = text.push(mark) + digits;
    assert(s.skip(text.len() as int + 1) =~= digits);
    lemma_all_digits(digits);
    assert(digits.skip(0) =~= digits);
}

proof fn lemma_all_digits(digits: Seq<char>)
    requires
        forall|i: int| 0 <= i < digits.len() ==> is_digit(#[trigger] digits[i]),
    ensures
        digits_start(digits) == 0,
    decreases digits.len(),
{
    if digits.len() > 0 {
        assert(is_digit(digits.last()));
        assert forall|i: int| 0 <= i < digits.drop_last().len() implies is_digit(
            #[trigger] digits.drop_last()[i],
        ) by {
            assert(digits.drop_last()[i] == digits[i]);
        }
        lemma_all_digits(digits.drop_last());
    }
}

/// The block in the name of a file is the number at the end of its stem, and zero where a path names
/// no file.
pub proof fn law_block_in_a_file_name(path: Seq<char>)
    ensures
        file_stem(path) is Some ==> block_number_in(path) == number_at_end(file_stem(path)->0),
        file_stem(path) is None ==> block_number_in(path) == 0,
{
}

/// A guest may be named with or without the extension of its program, and is looked for at its default
/// path where it is not named.
pub proof fn law_how_guests_are_named(dir: Seq<char>, stem: Seq<char>, path: Seq<char>)
    requires
        stem.len() > 0,
        forall|i: int| 0 <= i < stem.len() ==> stem[i] != '/',
    ensures
        guest_base_of(Some(joined(dir, stem + ".bin"@))) == joined(dir, stem),
        extension(path) != Some("bin"@) ==> guest_base_of(Some(path)) == path,
        guest_base_of(None) == "prover/guest_airbender/build/z6m_guest"@,
{
    reveal_strlit(".bin");
    reveal_strlit("bin");
    assert(".bin"@ =~= seq!['.'] + "bin"@);
    let name = stem + seq!['.'] + "bin"@;
    assert(stem + ".bin"@ =~= name);
    assert forall|i: int| 0 <= i < name.len() implies name[i] != '/' by {
        if i < stem.len() {
            assert(name[i] == stem[i]);
        }
    }
    assert(name.len() >= 5);
    lemma_joined_file_name(dir, name);
    lemma_name_parts(joined(dir, name), stem, "bin"@);
    law_extension_is_taken_off(dir, stem, "bin"@);
}

/// What is said of inputs and guests that cannot be found.
pub proof fn law_texts_of_missing_files(error: InputPathError, guest: GuestNotFound)
    ensures
        error.text_spec() == "either --file-name or a nonzero --block-number is required"@,
        guest.at_default ==> guest.text_spec() == "guest binary not found at default path '"@
            + guest.bin_path@ + "'; pass --guest-bin or run from the project root"@,
        !guest.at_default ==> guest.text_spec() == "guest binary not found at "@ + guest.bin_path@,
{
}

} // verus!
