//! Hexadecimal text: the digits of a byte string, and unsigned quantities
//! written in base sixteen.

use vstd::prelude::*;
use vstd::utf8::{encode_utf8, is_ascii_chars, is_ascii_chars_encode_utf8};

verus! {

/// The lower-case digit that stands for a value below sixteen.
pub open spec fn hex_digit(n: int) -> char {
    seq![
        '0', '1', '2', '3', '4', '5', '6', '7',
        '8', '9', 'a', 'b', 'c', 'd', 'e', 'f',
    ][n]
}

/// The value of an ASCII hexadecimal digit of either case, if `b` is one.
pub open spec fn digit_value(b: u8) -> Option<int> {
    if 0x30 <= b <= 0x39 {
        Some(b - 0x30)
    } else if 0x61 <= b <= 0x66 {
        Some(b - 0x61 + 10)
    } else if 0x41 <= b <= 0x46 {
        Some(b - 0x41 + 10)
    } else {
        None
    }
}

/// Every byte of `s` is a hexadecimal digit.
pub open spec fn all_digits(s: Seq<u8>) -> bool {
    forall|i: int| 0 <= i < s.len() ==> (#[trigger] digit_value(s[i])) is Some
}

/// Two lower-case digits per byte, the high half first.
pub open spec fn hex_text(bytes: Seq<u8>) -> Seq<char> {
    Seq::new(
        2 * bytes.len(),
        |i: int|
            if i % 2 == 0 {
                hex_digit(bytes[i / 2] as int / 16)
            } else {
                hex_digit(bytes[i / 2] as int % 16)
            },
    )
}

/// `s` can be read back as bytes: an even number of hexadecimal digits.
pub open spec fn is_hex_text(s: Seq<u8>) -> bool {
    s.len() % 2 == 0 && all_digits(s)
}

/// The bytes that the digit pairs of `s` stand for.
pub open spec fn hex_bytes(s: Seq<u8>) -> Seq<u8> {
    Seq::new(
        s.len() / 2,
        |i: int| (16 * digit_value(s[2 * i]).unwrap() + digit_value(s[2 * i + 1]).unwrap()) as u8,
    )
}

/// The number that a string of digits stands for, the first digit the
/// most significant.
pub open spec fn number(digits: Seq<u8>) -> nat
    decreases digits.len(),
{
    if digits.len() == 0 {
        0
    } else {
        (16 * number(digits.drop_last()) + digit_value(digits.last()).unwrap()) as nat
    }
}

/// What a text says as a quantity: after a plus sign, if there is one, at
/// least one digit and nothing but digits.
pub open spec fn quantity(text: Seq<u8>) -> Option<nat> {
    let digits = if text.len() > 0 && text[0] == 0x2b {
        text.skip(1)
    } else {
        text
    };
    if digits.len() > 0 && all_digits(digits) {
        Some(number(digits))
    } else {
        None
    }
}

/// A quantity that is at most `max`.
pub open spec fn quantity_within(text: Seq<u8>, max: nat) -> Option<nat> {
    match quantity(text) {
        Some(n) => if n <= max {
            Some(n)
        } else {
            None
        },
        None => None,
    }
}

/// The text without the markers `0x` that it begins with, however many.
pub open spec fn unmarked(text: Seq<u8>) -> Seq<u8>
    decreases text.len(),
{
    if text.len() >= 2 && text[0] == 0x30 && text[1] == 0x78 {
        unmarked(text.skip(2))
    } else {
        text
    }
}

/// The last `n` bytes of `x`, the most significant first.
pub open spec fn be_bytes(x: nat, n: nat) -> Seq<u8>
    decreases n,
{
    if n == 0 {
        Seq::empty()
    } else {
        be_bytes(x / 256, (n - 1) as nat).push((x % 256) as u8)
    }
}

/// `hex::FromHexError`: why `hex::decode` refused a text. Nothing is read
/// from it.
#[verifier::external_type_specification]
#[verifier::external_body]
pub struct ExFromHexError(hex::FromHexError);

/// `hex::encode`: the text has two lower-case digits for each byte of
/// `data`, in order, the high half of a byte before its low half.
#[verifier::external_body]
pub(crate) fn hex_encode(data: &[u8]) -> (text: String)
    ensures
        text@ == hex_text(data@),
{
    hex::encode(data)
}

/// `hex::decode`: succeeds exactly on an even number of hexadecimal digits
/// of either case, and then yields the byte of each pair of digits.
#[verifier::external_body]
pub(crate) fn hex_decode(text: &[u8]) -> (bytes: Result<Vec<u8>, hex::FromHexError>)
    ensures
        bytes is Ok <==> is_hex_text(text@),
        bytes matches Ok(v) ==> v@ == hex_bytes(text@),
{
    hex::decode(text)
}

/// Each digit is a character of one byte, and that byte reads as the
/// value the digit stands for.
pub proof fn lemma_digit_reads_back(n: int)
    requires
        0 <= n < 16,
    ensures
        '\0' <= hex_digit(n) <= '\u{7f}',
        digit_value(hex_digit(n) as u8) == Some(n),
{
    let digits = seq![
        '0', '1', '2', '3', '4', '5', '6', '7',
        '8', '9', 'a', 'b', 'c', 'd', 'e', 'f',
    ];
    assert(digits[0] == '0' && digits[1] == '1' && digits[2] == '2' && digits[3] == '3');
    assert(digits[4] == '4' && digits[5] == '5' && digits[6] == '6' && digits[7] == '7');
    assert(digits[8] == '8' && digits[9] == '9' && digits[10] == 'a' && digits[11] == 'b');
    assert(digits[12] == 'c' && digits[13] == 'd' && digits[14] == 'e' && digits[15] == 'f');
}

/// The text of some bytes has only characters of one byte.
pub proof fn lemma_hex_text_is_ascii(bytes: Seq<u8>)
    ensures
        is_ascii_chars(hex_text(bytes)),
        encode_utf8(hex_text(bytes)).len() == 2 * bytes.len(),
        forall|i: int|
            0 <= i < 2 * bytes.len() ==> #[trigger] encode_utf8(hex_text(bytes))[i] == hex_text(
                bytes,
            )[i] as u8,
{
    let text = hex_text(bytes);
    assert forall|i: int| 0 <= i < text.len() implies '\0' <= #[trigger] text[i] <= '\u{7f}' by {
        if i % 2 == 0 {
            lemma_digit_reads_back(bytes[i / 2] as int / 16);
        } else {
            lemma_digit_reads_back(bytes[i / 2] as int % 16);
        }
    }
    is_ascii_chars_encode_utf8(text);
}

/// What is written can be read: the text of some bytes, taken as bytes
/// itself, is an even number of digits that stand for those bytes.
pub proof fn lemma_hex_round_trip(bytes: Seq<u8>)
    ensures
        is_hex_text(encode_utf8(hex_text(bytes))),
        hex_bytes(encode_utf8(hex_text(bytes))) == bytes,
{
    let text = hex_text(bytes);
    let written = encode_utf8(text);
    lemma_hex_text_is_ascii(bytes);
    assert forall|i: int| 0 <= i < written.len() implies (#[trigger] digit_value(written[i])) is Some
        && digit_value(written[i]) == Some(
        if i % 2 == 0 {
            bytes[i / 2] as int / 16
        } else {
            bytes[i / 2] as int % 16
        },
    ) by {
        assert(written[i] == text[i] as u8);
        if i % 2 == 0 {
            lemma_digit_reads_back(bytes[i / 2] as int / 16);
        } else {
            lemma_digit_reads_back(bytes[i / 2] as int % 16);
        }
    }
    let read = hex_bytes(written);
    assert(read.len() == bytes.len());
    assert forall|k: int| 0 <= k < bytes.len() implies read[k] == bytes[k] by {
        assert(digit_value(written[2 * k]) == Some(bytes[k] as int / 16));
        assert(digit_value(written[2 * k + 1]) == Some(bytes[k] as int % 16));
    }
    assert(read =~= bytes);
}

/// A longer string of digits stands for no smaller a number than what it
/// begins with.
pub proof fn lemma_number_grows(digits: Seq<u8>, k: int)
    requires
        0 <= k <= digits.len(),
        all_digits(digits),
    ensures
        number(digits.take(k)) <= number(digits),
    decreases digits.len() - k,
{
    if k == digits.len() {
        assert(digits.take(k) =~= digits);
    } else {
        lemma_number_grows(digits, k + 1);
        assert(digits.take(k + 1).drop_last() =~= digits.take(k));
        assert(digit_value(digits[k]) is Some);
    }
}

/// The value of a digit, if `b` is one.
pub fn digit_of(b: u8) -> (value: Option<u8>)
    ensures
        match value {
            Some(v) => digit_value(b) == Some(v as int) && v < 16,
            None => digit_value(b) is None,
        },
{
    if 0x30 <= b && b <= 0x39 {
        Some(b - 0x30)
    } else if 0x61 <= b && b <= 0x66 {
        Some(b - 0x61 + 10)
    } else if 0x41 <= b && b <= 0x46 {
        Some(b - 0x41 + 10)
    } else {
        None
    }
}

/// Reads a quantity that fits in 128 bits.
pub fn parse_u128(text: &[u8]) -> (r: Option<u128>)
    ensures
        match r {
            Some(n) => quantity_within(text@, u128::MAX as nat) == Some(n as nat),
            None => quantity_within(text@, u128::MAX as nat) is None,
        },
{
    let start: usize = if text.len() > 0 && text[0] == 0x2b {
        1
    } else {
        0
    };
    if start == text.len() {
        return None;
    }
    let ghost digits = text@.skip(start as int);
    proof {
        assert(text@.skip(0) =~= text@);
        assert(digits == if text@.len() > 0 && text@[0] == 0x2b {
            text@.skip(1)
        } else {
            text@
        });
    }
    let mut value: u128 = 0;
    let mut i: usize = start;
    assert(digits.take(0) =~= Seq::<u8>::empty());
    while i < text.len()
        invariant
            start <= i <= text.len(),
            start < text.len(),
            digits == text@.skip(start as int),
            digits == if text@.len() > 0 && text@[0] == 0x2b {
                text@.skip(1)
            } else {
                text@
            },
            all_digits(digits.take(i - start)),
            value == number(digits.take(i - start)),
        decreases text.len() - i,
    {
        let ghost before = digits.take(i - start);
        let ghost after = digits.take(i - start + 1);
        proof {
            assert(after.drop_last() =~= before);
            assert(after.last() == text@[i as int]);
        }
        let digit = match digit_of(text[i]) {
            Some(d) => d,
            None => {
                assert(digit_value(digits[i - start]) is None);
                return None;
            },
        };
        proof {
            assert forall|k: int| 0 <= k < after.len() implies (#[trigger] digit_value(
                after[k],
            )) is Some by {
                if k < before.len() {
                    assert(after[k] == before[k]);
                }
            }
            if 16 * value + digit > u128::MAX {
                if all_digits(digits) {
                    lemma_number_grows(digits, i - start + 1);
                }
            }
        }
        value = match value.checked_mul(16) {
            Some(v) => match v.checked_add(digit as u128) {
                Some(w) => w,
                None => { return None; },
            },
            None => { return None; },
        };
        i += 1;
    }
    assert(digits.take(i - start) =~= digits);
    Some(value)
}

/// Reads a quantity that fits in 64 bits.
pub fn parse_u64(text: &[u8]) -> (r: Option<u64>)
    ensures
        match r {
            Some(n) => quantity_within(text@, u64::MAX as nat) == Some(n as nat),
            None => quantity_within(text@, u64::MAX as nat) is None,
        },
{
    match parse_u128(text) {
        Some(n) => if n <= 0xffff_ffff_ffff_ffff {
            Some(n as u64)
        } else {
            None
        },
        None => None,
    }
}

/// Drops the markers `0x` that a text begins with.
pub fn strip_markers(text: &[u8]) -> (rest: &[u8])
    ensures
        rest@ == unmarked(text@),
{
    let mut i: usize = 0;
    assert(text@.skip(0) =~= text@);
    while text.len() - i >= 2 && text[i] == 0x30 && text[i + 1] == 0x78
        invariant
            i <= text.len(),
            unmarked(text@) == unmarked(text@.skip(i as int)),
        decreases text.len() - i,
    {
        assert(text@.skip(i as int).skip(2) =~= text@.skip(i + 2));
        i += 2;
    }
    let rest = vstd::slice::slice_subrange(text, i, text.len());
    assert(rest@ =~= text@.skip(i as int));
    rest
}

/// The last `n` bytes of `x`, the most significant first.
pub fn to_be_bytes(x: u64, n: usize) -> (bytes: Vec<u8>)
    ensures
        bytes@ == be_bytes(x as nat, n as nat),
    decreases n,
{
    if n == 0 {
        Vec::new()
    } else {
        let mut bytes = to_be_bytes(x / 256, n - 1);
        bytes.push((x % 256) as u8);
        bytes
    }
}

} // verus!
