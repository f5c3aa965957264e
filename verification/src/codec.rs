//! The codec: lossless conversion between hexadecimal text and bytes.
//!
//! `encode` always emits lowercase hex. Decoding comes in two policies:
//! strict (`decode_strict`), which rejects malformed input with
//! `InvalidEncoding`, and lenient (`decode_lenient`), which substitutes a
//! zero byte for each malformed two-character group and drops a trailing
//! unpaired character.

use crate::errors::ErrorKind;
use vstd::prelude::*;
use vstd::string::StrSliceExecFns;
use vstd::string::StringExecFns;

verus! {

/// `c` is a hexadecimal digit, either case.
pub open spec fn is_hex_digit(c: char) -> bool {
    ('0' as int <= c as int <= '9' as int) || ('a' as int <= c as int <= 'f' as int) || (
    'A' as int <= c as int <= 'F' as int)
}

/// The value of the hexadecimal digit `c`; meaningful only when
/// `is_hex_digit(c)`.
pub open spec fn hex_val(c: char) -> nat {
    if '0' as int <= c as int <= '9' as int {
        (c as int - '0' as int) as nat
    } else if 'a' as int <= c as int <= 'f' as int {
        (c as int - 'a' as int + 10) as nat
    } else if 'A' as int <= c as int <= 'F' as int {
        (c as int - 'A' as int + 10) as nat
    } else {
        0
    }
}

/// The lowercase hex digit for a value below 16.
pub open spec fn hex_char_of(v: nat) -> char {
    if v == 0 {
        '0'
    } else if v == 1 {
        '1'
    } else if v == 2 {
        '2'
    } else if v == 3 {
        '3'
    } else if v == 4 {
        '4'
    } else if v == 5 {
        '5'
    } else if v == 6 {
        '6'
    } else if v == 7 {
        '7'
    } else if v == 8 {
        '8'
    } else if v == 9 {
        '9'
    } else if v == 10 {
        'a'
    } else if v == 11 {
        'b'
    } else if v == 12 {
        'c'
    } else if v == 13 {
        'd'
    } else if v == 14 {
        'e'
    } else {
        'f'
    }
}

/// The whole text is well-formed hex: even length, hex digits only.
pub open spec fn valid_hex(s: Seq<char>) -> bool {
    &&& s.len() % 2 == 0
    &&& forall|i: int| 0 <= i < s.len() ==> is_hex_digit(#[trigger] s[i])
}

/// The byte a two-character group decodes to under the lenient policy:
/// its hex value when both characters are hex digits, zero otherwise.
pub open spec fn pair_byte(hi: char, lo: char) -> u8 {
    if is_hex_digit(hi) && is_hex_digit(lo) {
        (16 * hex_val(hi) + hex_val(lo)) as u8
    } else {
        0
    }
}

/// What decoding yields: one byte per full two-character group, a
/// trailing unpaired character dropped.
pub open spec fn decode_of(s: Seq<char>) -> Seq<u8> {
    Seq::new((s.len() / 2) as nat, |i: int| pair_byte(s[2 * i], s[2 * i + 1]))
}

/// What encoding yields: two lowercase hex digits per byte, high nibble
/// first.
pub open spec fn encode_of(b: Seq<u8>) -> Seq<char> {
    Seq::new(
        2 * b.len(),
        |i: int|
            if i % 2 == 0 {
                hex_char_of(b[i / 2] as nat / 16)
            } else {
                hex_char_of(b[i / 2] as nat % 16)
            },
    )
}

/// `c` is a digit that `encode` may emit: lowercase hex.
pub open spec fn is_lower_hex_digit(c: char) -> bool {
    ('0' as int <= c as int <= '9' as int) || ('a' as int <= c as int <= 'f' as int)
}

/// Hex digits of value below 16 decode back to that value.
proof fn lemma_hex_char_of_val(v: nat)
    requires
        v < 16,
    ensures
        is_hex_digit(hex_char_of(v)),
        is_lower_hex_digit(hex_char_of(v)),
        hex_val(hex_char_of(v)) == v,
{
}

/// Round trip: decoding an encoding gives the bytes back, for every byte
/// sequence.
pub proof fn lemma_round_trip(b: Seq<u8>)
    ensures
        decode_of(encode_of(b)) == b,
{
    let e = encode_of(b);
    assert forall|i: int| 0 <= i < b.len() implies decode_of(e)[i] == b[i] by {
        lemma_hex_char_of_val(b[i] as nat / 16);
        lemma_hex_char_of_val(b[i] as nat % 16);
        assert(e[2 * i] == hex_char_of(b[i] as nat / 16));
        assert(e[2 * i + 1] == hex_char_of(b[i] as nat % 16));
    }
    assert(decode_of(e) =~= b);
}

/// Encoded text is well-formed hex of twice the byte length, and every
/// digit of it is lowercase.
pub proof fn lemma_encode_wellformed(b: Seq<u8>)
    ensures
        valid_hex(encode_of(b)),
        encode_of(b).len() == 2 * b.len(),
        forall|i: int|
            0 <= i < encode_of(b).len() ==> is_lower_hex_digit(#[trigger] encode_of(b)[i]),
{
    let e = encode_of(b);
    assert forall|i: int| 0 <= i < e.len() implies is_hex_digit(e[i]) && is_lower_hex_digit(
        e[i],
    ) by {
        if i % 2 == 0 {
            lemma_hex_char_of_val(b[i / 2] as nat / 16);
        } else {
            lemma_hex_char_of_val(b[i / 2] as nat % 16);
        }
    }
}

/// Two hex digits of either case that denote the same value.
pub open spec fn same_hex_value(c1: char, c2: char) -> bool {
    c1 == c2 || (is_hex_digit(c1) && is_hex_digit(c2) && hex_val(c1) == hex_val(c2))
}

/// Case insensitivity of decoding: texts that agree character by
/// character up to hex-digit case decode to the same bytes.
pub proof fn lemma_decode_case_insensitive(s1: Seq<char>, s2: Seq<char>)
    requires
        s1.len() == s2.len(),
        forall|i: int| 0 <= i < s1.len() ==> same_hex_value(#[trigger] s1[i], s2[i]),
    ensures
        decode_of(s1) == decode_of(s2),
{
    assert forall|i: int| 0 <= i < decode_of(s1).len() implies decode_of(s1)[i] == decode_of(
        s2,
    )[i] by {
        assert(same_hex_value(s1[2 * i], s2[2 * i]));
        assert(same_hex_value(s1[2 * i + 1], s2[2 * i + 1]));
    }
    assert(decode_of(s1) =~= decode_of(s2));
}

/// Whether `c` is a hexadecimal digit, either case.
pub fn is_hex_digit_exec(c: char) -> (res: bool)
    ensures
        res == is_hex_digit(c),
{
    let x = c as u32;
    (48 <= x && x <= 57) || (97 <= x && x <= 102) || (65 <= x && x <= 70)
}

/// The value of the hexadecimal digit `c`.
fn hex_val_exec(c: char) -> (res: u8)
    requires
        is_hex_digit(c),
    ensures
        res as nat == hex_val(c),
        res < 16,
{
    let x = c as u32;
    if 48 <= x && x <= 57 {
        (x - 48) as u8
    } else if 97 <= x && x <= 102 {
        (x - 87) as u8
    } else {
        (x - 55) as u8
    }
}

/// Decode hex text under the lenient policy: one byte per full
/// two-character group, zero for a malformed group, a trailing unpaired
/// character dropped. Total: accepts any text.
pub fn decode_lenient(hex: &str) -> (res: Vec<u8>)
    ensures
        res@ == decode_of(hex@),
{
    let len: usize = hex.unicode_len();
    let pairs: usize = len / 2;
    let mut out: Vec<u8> = Vec::new();
    let mut i: usize = 0;
    while i < pairs
        invariant
            len == hex@.len(),
            pairs == hex@.len() / 2,
            i <= pairs,
            out@ =~= decode_of(hex@).subrange(0, i as int),
        decreases pairs - i,
    {
        let hi = hex.get_char(2 * i);
        let lo = hex.get_char(2 * i + 1);
        let byte: u8 = if is_hex_digit_exec(hi) && is_hex_digit_exec(lo) {
            16 * hex_val_exec(hi) + hex_val_exec(lo)
        } else {
            0
        };
        out.push(byte);
        i = i + 1;
        proof {
            assert(out@ =~= decode_of(hex@).subrange(0, i as int));
        }
    }
    proof {
        assert(decode_of(hex@).subrange(0, pairs as int) =~= decode_of(hex@));
    }
    out
}

/// Decode hex text under the strict policy: the bytes of the text when it
/// is well-formed (even length, hex digits of either case only), and
/// `InvalidEncoding` exactly when it is not.
pub fn decode_strict(hex: &str) -> (res: Result<Vec<u8>, ErrorKind>)
    ensures
        res is Ok <==> valid_hex(hex@),
        res matches Ok(v) ==> v@ == decode_of(hex@),
        res matches Err(e) ==> e == ErrorKind::InvalidEncoding,
{
    let len: usize = hex.unicode_len();
    if len % 2 != 0 {
        return Err(ErrorKind::InvalidEncoding);
    }
    let mut i: usize = 0;
    while i < len
        invariant
            len == hex@.len(),
            i <= len,
            forall|j: int| 0 <= j < i ==> is_hex_digit(#[trigger] hex@[j]),
        decreases len - i,
    {
        if !is_hex_digit_exec(hex.get_char(i)) {
            return Err(ErrorKind::InvalidEncoding);
        }
        i = i + 1;
    }
    Ok(decode_lenient(hex))
}

/// The lowercase hex digit for a value below 16, as one-character text.
fn hex_digit_str(v: u8) -> (res: &'static str)
    requires
        v < 16,
    ensures
        res@ =~= seq![hex_char_of(v as nat)],
{
    proof {
        reveal_strlit("0");
        reveal_strlit("1");
        reveal_strlit("2");
        reveal_strlit("3");
        reveal_strlit("4");
        reveal_strlit("5");
        reveal_strlit("6");
        reveal_strlit("7");
        reveal_strlit("8");
        reveal_strlit("9");
        reveal_strlit("a");
        reveal_strlit("b");
        reveal_strlit("c");
        reveal_strlit("d");
        reveal_strlit("e");
        reveal_strlit("f");
    }
    match v {
        0 => "0",
        1 => "1",
        2 => "2",
        3 => "3",
        4 => "4",
        5 => "5",
        6 => "6",
        7 => "7",
        8 => "8",
        9 => "9",
        10 => "a",
        11 => "b",
        12 => "c",
        13 => "d",
        14 => "e",
        _ => "f",
    }
}

/// Encode bytes as lowercase hex, two digits per byte, high nibble
/// first. Total: accepts any bytes, including none.
pub fn encode(bytes: &Vec<u8>) -> (res: String)
    ensures
        res@ == encode_of(bytes@),
        res@.len() == 2 * bytes@.len(),
{
    let mut out = String::new();
    let mut i: usize = 0;
    while i < bytes.len()
        invariant
            i <= bytes@.len(),
            out@ =~= encode_of(bytes@).subrange(0, 2 * i as int),
        decreases bytes@.len() - i,
    {
        let b = bytes[i];
        out.append(hex_digit_str(b / 16));
        out.append(hex_digit_str(b % 16));
        i = i + 1;
        proof {
            assert(out@ =~= encode_of(bytes@).subrange(0, 2 * i as int));
        }
    }
    proof {
        assert(encode_of(bytes@).subrange(0, 2 * bytes@.len() as int) =~= encode_of(bytes@));
    }
    out
}

} // verus!

