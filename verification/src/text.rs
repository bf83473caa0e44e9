//! Text, as bytes.
use vstd::prelude::*;

verus! {

/// Whether `bytes` are text.
///
/// Calls `core::str::from_utf8`, which succeeds on the byte sequences that are
/// well-formed UTF-8 and fails on all others; that is what is claimed of it.
#[verifier::external_body]
pub(crate) fn is_utf8(bytes: &[u8]) -> (valid: bool)
    ensures
        valid == vstd::utf8::valid_utf8(bytes@),
{
    core::str::from_utf8(bytes).is_ok()
}

/// The decimal digits of a number, most significant first.
pub open spec fn digits(value: nat) -> Seq<u8>
    decreases value,
{
    if value < 10 {
        seq![(0x30 + value) as u8]
    } else {
        digits(value / 10).push((0x30 + value % 10) as u8)
    }
}

/// Append the decimal digits of a number.
pub fn put_decimal(out: &mut Vec<u8>, value: u64)
    ensures
        final(out)@ == old(out)@ + digits(value as nat),
    decreases value,
{
    if value < 10 {
        out.push(0x30 + value as u8);
    } else {
        put_decimal(out, value / 10);
        out.push(0x30 + (value % 10) as u8);
    }
    assert(out@ =~= old(out)@ + digits(value as nat));
}

/// The decimal digits of a number below a thousand, with zeros in front to make
/// three of them.
pub open spec fn three_digits(value: nat) -> Seq<u8> {
    seq![
        (0x30 + value / 100) as u8,
        (0x30 + (value / 10) % 10) as u8,
        (0x30 + value % 10) as u8,
    ]
}

/// Append three decimal digits.
pub fn put_three_digits(out: &mut Vec<u8>, value: u64)
    requires
        value < 1000,
    ensures
        final(out)@ == old(out)@ + three_digits(value as nat),
{
    out.push(0x30 + (value / 100) as u8);
    out.push(0x30 + ((value / 10) % 10) as u8);
    out.push(0x30 + (value % 10) as u8);
    assert(out@ =~= old(out)@ + three_digits(value as nat));
}

/// A hexadecimal digit.
pub open spec fn hex1(value: nat) -> u8 {
    if value < 10 {
        (0x30 + value) as u8
    } else {
        (0x57 + value) as u8
    }
}

/// The two hexadecimal digits of a byte.
pub open spec fn hex2(value: u8) -> Seq<u8> {
    seq![hex1((value / 16) as nat), hex1((value % 16) as nat)]
}

/// The four hexadecimal digits of a number of sixteen bits.
pub open spec fn hex4(value: u16) -> Seq<u8> {
    hex2((value / 256) as u8) + hex2((value % 256) as u8)
}

fn hex_digit(value: u8) -> (digit: u8)
    requires
        value < 16,
    ensures
        digit == hex1(value as nat),
{
    if value < 10 {
        0x30 + value
    } else {
        0x57 + value
    }
}

/// Append the two hexadecimal digits of a byte.
pub fn put_hex2(out: &mut Vec<u8>, value: u8)
    ensures
        final(out)@ == old(out)@ + hex2(value),
{
    out.push(hex_digit(value / 16));
    out.push(hex_digit(value % 16));
    assert(out@ =~= old(out)@ + hex2(value));
}

/// Append four hexadecimal digits.
pub fn put_hex4(out: &mut Vec<u8>, value: u16)
    ensures
        final(out)@ == old(out)@ + hex4(value),
{
    put_hex2(out, (value / 256) as u8);
    put_hex2(out, (value % 256) as u8);
    assert(out@ =~= old(out)@ + hex4(value));
}

/// How many bytes the white space at the end of a text takes, of one character.
pub open spec fn space_at_end(text: Seq<u8>) -> nat {
    let n = text.len();
    if n >= 1 && (0x09 <= text[n - 1] <= 0x0D || text[n - 1] == 0x20) {
        1
    } else if n >= 2 && text[n - 2] == 0xC2 && (text[n - 1] == 0x85 || text[n - 1] == 0xA0) {
        2
    } else if n >= 3 && is_wide_space(text[n - 3], text[n - 2], text[n - 1]) {
        3
    } else {
        0
    }
}

/// Whether three bytes are a character of white space.
pub open spec fn is_wide_space(first: u8, second: u8, third: u8) -> bool {
    ||| first == 0xE1 && second == 0x9A && third == 0x80
    ||| first == 0xE2 && second == 0x80 && (0x80 <= third <= 0x8A || third == 0xA8 || third == 0xA9
        || third == 0xAF)
    ||| first == 0xE2 && second == 0x81 && third == 0x9F
    ||| first == 0xE3 && second == 0x80 && third == 0x80
}

/// A text without the white space at its end.
pub open spec fn trimmed(text: Seq<u8>) -> Seq<u8>
    decreases text.len(),
{
    let space = space_at_end(text);
    if space == 0 {
        text
    } else {
        trimmed(text.take(text.len() - space))
    }
}

/// A text without the white space at its end.
pub fn trim_end(text: &[u8]) -> (out: Vec<u8>)
    ensures
        out@ == trimmed(text@),
{
    let mut end: usize = text.len();
    let mut more: bool = true;
    assert(text@.take(end as int) =~= text@);
    while more
        invariant
            end <= text@.len(),
            trimmed(text@) == trimmed(text@.take(end as int)),
            !more ==> space_at_end(text@.take(end as int)) == 0,
        decreases end + if more {
            1int
        } else {
            0
        },
    {
        let ghost now = text@.take(end as int);
        if end >= 1 && ((0x09 <= text[end - 1] && text[end - 1] <= 0x0D) || text[end - 1] == 0x20) {
            assert(now.take(end - 1) =~= text@.take(end - 1));
            end = end - 1;
        } else if end >= 2 && text[end - 2] == 0xC2 && (text[end - 1] == 0x85 || text[end - 1]
            == 0xA0) {
            assert(now.take(end - 2) =~= text@.take(end - 2));
            end = end - 2;
        } else if end >= 3 && ((text[end - 3] == 0xE1 && text[end - 2] == 0x9A && text[end - 1]
            == 0x80) || (text[end - 3] == 0xE2 && text[end - 2] == 0x80 && ((0x80 <= text[end - 1]
            && text[end - 1] <= 0x8A) || text[end - 1] == 0xA8 || text[end - 1] == 0xA9
            || text[end - 1] == 0xAF)) || (text[end - 3] == 0xE2 && text[end - 2] == 0x81
            && text[end - 1] == 0x9F) || (text[end - 3] == 0xE3 && text[end - 2] == 0x80
            && text[end - 1] == 0x80)) {
            assert(now.take(end - 3) =~= text@.take(end - 3));
            end = end - 3;
        } else {
            more = false;
        }
    }
    let out = crate::bytes::copy_range(text, 0, end);
    assert(out@ =~= text@.take(end as int));
    out
}

/// A digit, of a number in tens or in sixteens.
pub open spec fn digit_char(digit: nat) -> char {
    if digit < 10 {
        (0x30 + digit) as char
    } else {
        (0x57 + digit) as char
    }
}

/// A digit as text.
fn digit_text(digit: u64) -> (text: &'static str)
    requires
        digit < 16,
    ensures
        text@ == seq![digit_char(digit as nat)],
{
    proof {
        reveal_strlit("0");
        reveal_strlit("1");
        reveal_strlit("2");
        reveal_strlit("3");
        reveal_strlit("4");
        reveal_strlit("5");
        reveal_strlit("6");
        reveal_strlit("7");
        reveal_strlit("8");
        reveal_strlit("9");
        reveal_strlit("a");
        reveal_strlit("b");
        reveal_strlit("c");
        reveal_strlit("d");
        reveal_strlit("e");
        reveal_strlit("f");
    }
    let text: &'static str = match digit {
        0 => "0",
        1 => "1",
        2 => "2",
        3 => "3",
        4 => "4",
        5 => "5",
        6 => "6",
        7 => "7",
        8 => "8",
        9 => "9",
        10 => "a",
        11 => "b",
        12 => "c",
        13 => "d",
        14 => "e",
        _ => "f",
    };
    assert(text@ =~= seq![digit_char(digit as nat)]);
    text
}

/// A number in digits of a base.
pub open spec fn numeral(value: nat, base: nat) -> Seq<char>
    decreases value,
{
    if value < base || base < 2 {
        seq![digit_char(value)]
    } else {
        proof {
            assert(value / base < value) by (nonlinear_arith)
                requires
                    value >= base,
                    base >= 2,
            ;
        }
        numeral(value / base, base).push(digit_char(value % base))
    }
}

/// A number in tens.
pub open spec fn decimal(value: nat) -> Seq<char> {
    numeral(value, 10)
}

/// A number in sixteens, marked as one.
pub open spec fn hexadecimal(value: nat) -> Seq<char> {
    "0x"@ + numeral(value, 16)
}

/// Append a number in digits of a base.
fn append_numeral(out: &mut String, value: u64, base: u64)
    requires
        2 <= base <= 16,
    ensures
        final(out)@ == old(out)@ + numeral(value as nat, base as nat),
    decreases value,
{
    if value < base {
        out.append(digit_text(value));
    } else {
        assert(value / base < value) by (nonlinear_arith)
            requires
                value >= base,
                base >= 2,
        ;
        append_numeral(out, value / base, base);
        out.append(digit_text(value % base));
    }
    assert(out@ =~= old(out)@ + numeral(value as nat, base as nat));
}

/// Append a number in tens.
pub fn append_decimal(out: &mut String, value: u64)
    ensures
        final(out)@ == old(out)@ + decimal(value as nat),
{
    append_numeral(out, value, 10);
}

/// Append a number in sixteens, marked as one.
pub fn append_hexadecimal(out: &mut String, value: u64)
    ensures
        final(out)@ == old(out)@ + hexadecimal(value as nat),
{
    out.append("0x");
    append_numeral(out, value, 16);
    assert(out@ =~= old(out)@ + hexadecimal(value as nat));
}

/// A text, and a number in tens.
pub fn with_decimal(before: &str, value: u64) -> (text: String)
    ensures
        text@ == before@ + decimal(value as nat),
{
    let mut text: String = before.to_owned();
    append_decimal(&mut text, value);
    text
}

/// A text, a number in tens, and more text.
pub fn around_decimal(before: &str, value: u64, after: &str) -> (text: String)
    ensures
        text@ == before@ + decimal(value as nat) + after@,
{
    let mut text: String = before.to_owned();
    append_decimal(&mut text, value);
    text.append(after);
    text
}

/// The number a text of decimal digits stands for.
pub open spec fn read_digits(text: Seq<u8>) -> int
    decreases text.len(),
{
    if text.len() == 0 {
        0
    } else {
        10 * read_digits(text.drop_last()) + (text.last() - 0x30)
    }
}

/// A number written in digits reads back as that number, holds nothing but digits,
/// and starts with no zero but its own.
pub proof fn law_digits_read_back(value: nat)
    ensures
        read_digits(digits(value)) == value,
        digits(value).len() >= 1,
        forall|i: int| 0 <= i < digits(value).len() ==> 0x30 <= #[trigger] digits(value)[i] <= 0x39,
        value > 0 ==> digits(value)[0] != 0x30,
        value < 10 ==> digits(value).len() == 1,
    decreases value,
{
    reveal_with_fuel(read_digits, 2);
    if value >= 10 {
        law_digits_read_back(value / 10);
        let before = digits(value / 10);
        let last = (0x30 + value % 10) as u8;
        assert(before.push(last).drop_last() =~= before);
    } else {
        assert(digits(value).drop_last() =~= Seq::<u8>::empty());
    }
}

/// Three digits read back as a number below a thousand, zeros in front as well.
pub proof fn law_three_digits_read_back(value: nat)
    requires
        value < 1000,
    ensures
        three_digits(value).len() == 3,
        read_digits(three_digits(value)) == value,
        forall|i: int| 0 <= i < 3 ==> 0x30 <= #[trigger] three_digits(value)[i] <= 0x39,
{
    reveal_with_fuel(read_digits, 4);
    let text = three_digits(value);
    let two = text.drop_last();
    let one = two.drop_last();
    assert(one.drop_last() =~= Seq::<u8>::empty());
}

/// What a digit of sixteen stands for.
pub open spec fn read_hex1(digit: u8) -> int {
    if 0x30 <= digit <= 0x39 {
        digit - 0x30
    } else if 0x61 <= digit <= 0x66 {
        digit - 0x61 + 10
    } else {
        -1
    }
}

/// Digits to the base sixteen read back, the high one first and in small letters.
pub proof fn law_hex_reads_back(byte: u8, word: u16)
    ensures
        hex2(byte).len() == 2,
        16 * read_hex1(hex2(byte)[0]) + read_hex1(hex2(byte)[1]) == byte,
        hex4(word).len() == 4,
        4096 * read_hex1(hex4(word)[0]) + 256 * read_hex1(hex4(word)[1]) + 16 * read_hex1(
            hex4(word)[2],
        ) + read_hex1(hex4(word)[3]) == word,
{
}

/// What a digit of a text stands for.
pub open spec fn read_digit_char(digit: char) -> int {
    if '0' <= digit <= '9' {
        digit as int - '0' as int
    } else if 'a' <= digit <= 'f' {
        digit as int - 'a' as int + 10
    } else {
        -1
    }
}

/// The number a text of digits to a base stands for.
pub open spec fn read_numeral(text: Seq<char>, base: nat) -> int
    decreases text.len(),
{
    if text.len() == 0 {
        0
    } else {
        base * read_numeral(text.drop_last(), base) + read_digit_char(text.last())
    }
}

/// A number written to a base reads back as that number.
pub proof fn law_numerals_read_back(value: nat, base: nat)
    requires
        2 <= base <= 16,
    ensures
        read_numeral(numeral(value, base), base) == value,
        numeral(value, base).len() >= 1,
        value < base ==> numeral(value, base).len() == 1,
        value > 0 ==> read_digit_char(numeral(value, base)[0]) > 0,
    decreases value,
{
    reveal_with_fuel(read_numeral, 2);
    if value >= base {
        assert(value / base < value && value / base > 0) by (nonlinear_arith)
            requires
                value >= base,
                base >= 2,
        ;
        assert(value % base < base && value == base * (value / base) + value % base)
            by (nonlinear_arith)
            requires
                base >= 2,
        ;
        law_numerals_read_back(value / base, base);
        let before = numeral(value / base, base);
        let last = digit_char(value % base);
        assert(before.push(last).drop_last() =~= before);
    } else {
        assert(numeral(value, base).drop_last() =~= Seq::<char>::empty());
        assert(base * 0 == 0) by (nonlinear_arith);
    }
}

/// Which numbers are shown to which base: to ten as they are, to sixteen with a mark
/// in front.
pub proof fn law_which_base(value: nat)
    ensures
        read_numeral(decimal(value), 10) == value,
        hexadecimal(value).take(2) == seq!['0', 'x'],
        read_numeral(hexadecimal(value).skip(2), 16) == value,
{
    reveal_strlit("0x");
    law_numerals_read_back(value, 10);
    law_numerals_read_back(value, 16);
    assert("0x"@ =~= seq!['0', 'x']);
    assert(hexadecimal(value).take(2) =~= seq!['0', 'x']);
    assert(hexadecimal(value).skip(2) =~= numeral(value, 16));
}

/// What is trimmed ends in no white space, and what was cut from its end was white
/// space.
pub proof fn law_trimming_cuts_white_space(text: Seq<u8>)
    ensures
        trimmed(text).len() <= text.len(),
        trimmed(text) == text.take(trimmed(text).len() as int),
        trimmed(trimmed(text)) == trimmed(text),
        trimmed(text).len() > 0 ==> trimmed(text).last() != 0x20 && !(9 <= trimmed(text).last()
            <= 13),
    decreases text.len(),
{
    if space_at_end(text) != 0 {
        let less = text.take(text.len() - space_at_end(text));
        law_trimming_cuts_white_space(less);
        assert(less.take(trimmed(less).len() as int) =~= text.take(trimmed(less).len() as int));
    } else {
        assert(text.take(text.len() as int) =~= text);
    }
}

/// A space, a tab, a new line or its like at the end is cut, and so is a space of two
/// or three bytes; a visible character of one byte is not.
pub proof fn law_what_is_white_space(text: Seq<u8>, last: u8)
    ensures
        9 <= last <= 13 || last == 0x20 ==> trimmed(text.push(last)) == trimmed(text),
        last < 9 || 13 < last < 0x20 || 0x20 < last < 0x80 ==> trimmed(text.push(last))
            == text.push(last),
        trimmed(text + seq![0xC2u8, 0xA0]) == trimmed(text),
        trimmed(text + seq![0xC2u8, 0x85]) == trimmed(text),
        trimmed(text + seq![0xE1u8, 0x9A, 0x80]) == trimmed(text),
        0x80 <= last <= 0x8A || last == 0xA8 || last == 0xA9 || last == 0xAF ==> trimmed(
            text + seq![0xE2u8, 0x80, last],
        ) == trimmed(text),
        trimmed(text + seq![0xE2u8, 0x81, 0x9F]) == trimmed(text),
        trimmed(text + seq![0xE3u8, 0x80, 0x80]) == trimmed(text),
{
    assert(text.push(last).take(text.len() as int) =~= text);
    let two = text + seq![0xC2u8, 0xA0];
    assert(two.take(text.len() as int) =~= text && two.len() == text.len() + 2);
    let next = text + seq![0xC2u8, 0x85];
    assert(next.take(text.len() as int) =~= text && next.len() == text.len() + 2);
    let ogham = text + seq![0xE1u8, 0x9A, 0x80];
    assert(ogham.take(text.len() as int) =~= text && ogham.len() == text.len() + 3);
    let general = text + seq![0xE2u8, 0x80, last];
    assert(general.take(text.len() as int) =~= text && general.len() == text.len() + 3);
    let middle = text + seq![0xE2u8, 0x81, 0x9F];
    assert(middle.take(text.len() as int) =~= text && middle.len() == text.len() + 3);
    let full = text + seq![0xE3u8, 0x80, 0x80];
    assert(full.take(text.len() as int) =~= text && full.len() == text.len() + 3);
}

} // verus!
