//! Text as the library writes it: decimal and hexadecimal numbers, and the digits at the end of a
//! name.

use vstd::arithmetic::div_mod::lemma_div_denominator;
use vstd::arithmetic::power::{lemma_pow_adds, lemma_pow_positive, lemma_pow0, lemma_pow1, pow};
use vstd::prelude::*;

verus! {

/// The character of a decimal digit.
pub open spec fn digit_char(d: nat) -> char
    recommends
        d < 10,
{
    (48 + d) as char
}

/// The decimal text of a number: no sign, no leading zero.
pub open spec fn decimal(n: nat) -> Seq<char>
    decreases n,
{
    if n < 10 {
        seq![digit_char(n)]
    } else {
        decimal(n / 10).push(digit_char(n % 10))
    }
}

/// Whether a character is one of `0` to `9`.
pub open spec fn is_digit(c: char) -> bool {
    '0' <= c && c <= '9'
}

/// The number that a run of decimal digits stands for. The empty run stands for zero.
pub open spec fn digits_value(digits: Seq<char>) -> nat
    decreases digits.len(),
{
    if digits.len() == 0 {
        0
    } else {
        digits_value(digits.drop_last()) * 10 + (digits.last() as nat - 48) as nat
    }
}

/// The character of a hexadecimal digit, in lower case.
pub open spec fn hex_char(d: nat) -> char
    recommends
        d < 16,
{
    if d < 10 {
        (48 + d) as char
    } else {
        (87 + d) as char
    }
}

/// Eight lower-case hexadecimal digits, most significant first.
pub open spec fn hex8(w: u32) -> Seq<char> {
    seq![
        hex_char((w / 0x1000_0000) as nat % 16),
        hex_char((w / 0x100_0000) as nat % 16),
        hex_char((w / 0x10_0000) as nat % 16),
        hex_char((w / 0x1_0000) as nat % 16),
        hex_char((w / 0x1000) as nat % 16),
        hex_char((w / 0x100) as nat % 16),
        hex_char((w / 0x10) as nat % 16),
        hex_char(w as nat % 16),
    ]
}

/// The text of a truth value.
pub open spec fn bool_text(b: bool) -> Seq<char> {
    if b {
        "true"@
    } else {
        "false"@
    }
}

fn digit_str(d: u64) -> (s: &'static str)
    requires
        d < 16,
    ensures
        s@ == seq![hex_char(d as nat)],
{
    proof {
        reveal_strlit("0");
        reveal_strlit("1");
        reveal_strlit("2");
        reveal_strlit("3");
        reveal_strlit("4");
        reveal_strlit("5");
        reveal_strlit("6");
        reveal_strlit("7");
        reveal_strlit("8");
        reveal_strlit("9");
        reveal_strlit("a");
        reveal_strlit("b");
        reveal_strlit("c");
        reveal_strlit("d");
        reveal_strlit("e");
        reveal_strlit("f");
    }
    match d {
        0 => "0",
        1 => "1",
        2 => "2",
        3 => "3",
        4 => "4",
        5 => "5",
        6 => "6",
        7 => "7",
        8 => "8",
        9 => "9",
        10 => "a",
        11 => "b",
        12 => "c",
        13 => "d",
        14 => "e",
        _ => "f",
    }
}

/// Appends the decimal text of `n`.
pub fn append_decimal(out: &mut String, n: u64)
    ensures
        final(out)@ == old(out)@ + decimal(n as nat),
    decreases n,
{
    if n >= 10 {
        append_decimal(out, n / 10);
    }
    out.append(digit_str(n % 10));
}

/// The decimal text of `n`.
pub fn decimal_text(n: u64) -> (s: String)
    ensures
        s@ == decimal(n as nat),
{
    let mut out = String::new();
    append_decimal(&mut out, n);
    out
}

/// Appends `w` as eight lower-case hexadecimal digits.
pub fn append_hex8(out: &mut String, w: u32)
    ensures
        final(out)@ == old(out)@ + hex8(w),
{
    let w: u64 = w as u64;
    out.append(digit_str(w / 0x1000_0000 % 16));
    out.append(digit_str(w / 0x100_0000 % 16));
    out.append(digit_str(w / 0x10_0000 % 16));
    out.append(digit_str(w / 0x1_0000 % 16));
    out.append(digit_str(w / 0x1000 % 16));
    out.append(digit_str(w / 0x100 % 16));
    out.append(digit_str(w / 0x10 % 16));
    out.append(digit_str(w % 16));
}

/// Appends `true` or `false`.
pub fn append_bool(out: &mut String, b: bool)
    ensures
        final(out)@ == old(out)@ + bool_text(b),
{
    if b {
        out.append("true");
    } else {
        out.append("false");
    }
}

/// The characters of a text, one by one.
pub fn chars_of(s: &str) -> (v: Vec<char>)
    ensures
        v@ == s@,
{
    let mut v: Vec<char> = Vec::new();
    for c in it: s.chars()
        invariant
            it.seq() == s@,
            v@ == s@.take(it.index() as int),
    {
        v.push(c);
    }
    v
}

/// Whether two texts are the same.
pub fn same_text(a: &str, b: &str) -> (same: bool)
    ensures
        same == (a@ == b@),
{
    a.to_owned() == b.to_owned()
}

/// The decimal text of a number is made of digits only.
pub proof fn lemma_decimal_digits(n: nat)
    ensures
        decimal(n).len() > 0,
        forall|i: int| 0 <= i < decimal(n).len() ==> is_digit(#[trigger] decimal(n)[i]),
    decreases n,
{
    if n >= 10 {
        lemma_decimal_digits(n / 10);
    }
}

/// Reading a decimal text gives back the number that was written.
pub proof fn law_decimal_reads_back(n: nat)
    ensures
        digits_value(decimal(n)) == n,
    decreases n,
{
    if n >= 10 {
        law_decimal_reads_back(n / 10);
        assert(decimal(n).drop_last() == decimal(n / 10));
    } else {
        assert(decimal(n).drop_last() == Seq::<char>::empty());
        assert(digits_value(Seq::<char>::empty()) == 0);
    }
}

/// What a log file holds after entries were appended to it in turn.
pub open spec fn log_after(content: Seq<char>, entries: Seq<Seq<char>>) -> Seq<char>
    decreases entries.len(),
{
    if entries.len() == 0 {
        content
    } else {
        log_after(content, entries.drop_last()) + entries.last()
    }
}

/// A log grows at its end only: nothing that it holds changes, and later entries come after earlier
/// ones.
pub proof fn law_log_grows_at_its_end(
    content: Seq<char>,
    earlier: Seq<Seq<char>>,
    later: Seq<Seq<char>>,
)
    ensures
        content.is_prefix_of(log_after(content, earlier)),
        log_after(content, earlier + later) == log_after(log_after(content, earlier), later),
    decreases earlier.len() + later.len(),
{
    if later.len() > 0 {
        law_log_grows_at_its_end(content, earlier, later.drop_last());
        assert((earlier + later).drop_last() =~= earlier + later.drop_last());
    } else {
        assert(earlier + later =~= earlier);
        if earlier.len() > 0 {
            law_log_grows_at_its_end(content, earlier.drop_last(), later);
        }
    }
}

/// The digits of a number stand at their places: the digit `k` places from the right is that of the
/// power `k` of ten, and a number of more than one digit does not begin with a zero.
pub proof fn law_decimal_digits_stand_at_their_places(n: nat, k: nat)
    requires
        k < decimal(n).len(),
    ensures
        decimal(n)[decimal(n).len() - 1 - k] as int == '0' as int + (n as int / pow(10, k)) % 10,
        n > 0 ==> decimal(n)[0] != '0',
        n == 0 ==> decimal(n).len() == 1,
    decreases n,
{
    lemma_pow0(10);
    lemma_decimal_digits(n);
    if n >= 10 {
        let m = n / 10;
        lemma_decimal_digits(m);
        law_decimal_digits_stand_at_their_places(m, 0);
        assert(decimal(n)[0] == decimal(m)[0]);
        if k > 0 {
            let j = (k - 1) as nat;
            law_decimal_digits_stand_at_their_places(m, j);
            lemma_pow_adds(10, 1, j);
            lemma_pow1(10);
            lemma_pow_positive(10, j);
            lemma_div_denominator(n as int, 10, pow(10, j));
            assert(n as int / pow(10, k) == m as int / pow(10, j));
        }
    } else {
        assert(n as int / 1 == n);
    }
}

/// Reading a digit more multiplies by ten and adds the digit, and no digits are zero. The digits are
/// the characters from `0` to `9`.
pub proof fn law_digits_are_read_in_order(digits: Seq<char>, c: char)
    ensures
        is_digit(c) <==> '0' as int <= c as int <= '9' as int,
        digits_value(Seq::<char>::empty()) == 0,
        is_digit(c) ==> digits_value(digits.push(c)) == 10 * digits_value(digits) + (c as int
            - '0' as int),
{
    assert(digits.push(c).drop_last() =~= digits);
}

/// A word in hexadecimal is eight digits, each of four bits from the highest on, in lower case.
pub proof fn law_hexadecimal_digits_stand_at_their_places(w: u32)
    ensures
        hex8(w).len() == 8,
        ({
            let digits = "0123456789abcdef"@;
            &&& hex8(w)[0] == digits[w as int / 0x1000_0000 % 16]
            &&& hex8(w)[1] == digits[w as int / 0x100_0000 % 16]
            &&& hex8(w)[2] == digits[w as int / 0x10_0000 % 16]
            &&& hex8(w)[3] == digits[w as int / 0x1_0000 % 16]
            &&& hex8(w)[4] == digits[w as int / 0x1000 % 16]
            &&& hex8(w)[5] == digits[w as int / 0x100 % 16]
            &&& hex8(w)[6] == digits[w as int / 0x10 % 16]
            &&& hex8(w)[7] == digits[w as int % 16]
        }),
{
    lemma_hex_digit(w as int / 0x1000_0000 % 16);
    lemma_hex_digit(w as int / 0x100_0000 % 16);
    lemma_hex_digit(w as int / 0x10_0000 % 16);
    lemma_hex_digit(w as int / 0x1_0000 % 16);
    lemma_hex_digit(w as int / 0x1000 % 16);
    lemma_hex_digit(w as int / 0x100 % 16);
    lemma_hex_digit(w as int / 0x10 % 16);
    lemma_hex_digit(w as int % 16);
}

proof fn lemma_hex_digit(d: int)
    requires
        0 <= d < 16,
    ensures
        hex_char(d as nat) == "0123456789abcdef"@[d],
{
    reveal_strlit("0123456789abcdef");
}

/// Truth values are written out.
pub proof fn law_truth_values_are_written_out(b: bool)
    ensures
        b ==> bool_text(b) == "true"@,
        !b ==> bool_text(b) == "false"@,
{
}

/// Entries that are appended to a log come after what it held, one by one.
pub proof fn law_log_entries_come_in_order(content: Seq<char>, entry: Seq<char>, other: Seq<char>)
    ensures
        log_after(content, Seq::<Seq<char>>::empty()) == content,
        log_after(content, seq![entry]) == content + entry,
        log_after(content, seq![entry, other]) == content + entry + other,
{
    reveal_with_fuel(log_after, 3);
    assert(seq![entry].drop_last() =~= Seq::<Seq<char>>::empty());
    assert(seq![entry, other].drop_last() =~= seq![entry]);
}

} // verus!
