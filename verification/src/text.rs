//! UTF-8 text: what the standard library's decoder is taken to do, and how
//! ASCII bytes and characters correspond.

use vstd::prelude::*;
use vstd::string::StringSliceAdditionalSpecFns;
use vstd::utf8::{
    decode_utf8, encode_utf8, encode_utf8_decode_utf8, encode_utf8_valid_utf8, is_ascii_chars,
    is_ascii_chars_encode_utf8, valid_utf8,
};

verus! {

/// The error of `core::str::from_utf8`. Nothing is read from it.
#[verifier::external_type_specification]
#[verifier::external_body]
pub struct ExUtf8Error(core::str::Utf8Error);

/// `core::str::from_utf8` accepts exactly the byte slices that are valid
/// UTF-8, and the string slice that it returns has the bytes that it was
/// given.
pub assume_specification[ core::str::from_utf8 ](v: &[u8]) -> (r: Result<
    &str,
    core::str::Utf8Error,
>)
    ensures
        r is Ok <==> valid_utf8(v@),
        r matches Ok(s) ==> s.spec_bytes() == v@,
;

/// True when every byte of `bytes` is an ASCII code, below 128.
pub open spec fn is_ascii_bytes(bytes: Seq<u8>) -> bool {
    forall|i: int| 0 <= i < bytes.len() ==> #[trigger] bytes[i] < 0x80
}

/// The characters that ASCII bytes stand for, one character for each byte.
pub open spec fn ascii_text(bytes: Seq<u8>) -> Seq<char> {
    Seq::new(bytes.len(), |i: int| bytes[i] as char)
}

/// ASCII bytes are valid UTF-8, and they encode the characters that they
/// stand for.
pub proof fn lemma_ascii_bytes_are_utf8(bytes: Seq<u8>)
    requires
        is_ascii_bytes(bytes),
    ensures
        valid_utf8(bytes),
        encode_utf8(ascii_text(bytes)) == bytes,
        decode_utf8(bytes) == ascii_text(bytes),
{
    let chars = ascii_text(bytes);
    assert(is_ascii_chars(chars)) by {
        assert forall|i: int| 0 <= i < chars.len() implies '\0' <= #[trigger] chars[i]
            <= '\u{7f}' by {
            assert(bytes[i] < 0x80);
        }
    }
    is_ascii_chars_encode_utf8(chars);
    assert(encode_utf8(chars) =~= bytes) by {
        assert forall|i: int| 0 <= i < bytes.len() implies encode_utf8(chars)[i] == bytes[i] by {
            assert(chars[i] as u8 == encode_utf8(chars)[i]);
            assert(bytes[i] < 0x80);
        }
    }
    encode_utf8_valid_utf8(chars);
    encode_utf8_decode_utf8(chars);
}

/// A text whose UTF-8 encoding is made of ASCII bytes is the text that these
/// bytes stand for.
pub proof fn lemma_text_of_ascii_bytes(text: Seq<char>)
    requires
        is_ascii_bytes(encode_utf8(text)),
    ensures
        text == ascii_text(encode_utf8(text)),
{
    let bytes = encode_utf8(text);
    lemma_ascii_bytes_are_utf8(bytes);
    encode_utf8_decode_utf8(text);
}

/// The character that writes the decimal digit `d`.
pub open spec fn spec_digit(d: nat) -> char
    recommends
        d < 10,
{
    (0x30 + d) as u8 as char
}

/// The number `n` written in decimal digits, without leading zeros.
pub open spec fn spec_decimal(n: nat) -> Seq<char>
    decreases n,
{
    if n < 10 {
        seq![spec_digit(n)]
    } else {
        spec_decimal(n / 10).push(spec_digit(n % 10))
    }
}

/// The text that `bytes` stand for, if they are ASCII codes.
pub fn ascii_to_string(bytes: &[u8]) -> (text: Option<String>)
    ensures
        match text {
            Some(s) => is_ascii_bytes(bytes@) && s@ == ascii_text(bytes@),
            None => !is_ascii_bytes(bytes@),
        },
{
    let mut i: usize = 0;
    while i < bytes.len()
        invariant
            i <= bytes.len(),
            forall|j: int| 0 <= j < i ==> #[trigger] bytes@[j] < 0x80,
        decreases bytes.len() - i,
    {
        if bytes[i] >= 0x80 {
            assert(!(bytes@[i as int] < 0x80));
            return None;
        }
        i += 1;
    }
    proof {
        lemma_ascii_bytes_are_utf8(bytes@);
    }
    match core::str::from_utf8(bytes) {
        Ok(s) => {
            proof {
                encode_utf8_decode_utf8(s@);
            }
            Some(s.to_owned())
        },
        Err(_) => None,
    }
}

/// The number `n` written in decimal digits, without leading zeros.
pub fn decimal(n: u64) -> (text: String)
    ensures
        text@ == spec_decimal(n as nat),
{
    let mut digits: Vec<u8> = Vec::new();
    let mut rest = n;
    assert(spec_decimal(rest as nat) + ascii_text(digits@) =~= spec_decimal(n as nat));
    while rest >= 10
        invariant
            is_ascii_bytes(digits@),
            spec_decimal(n as nat) == spec_decimal(rest as nat) + ascii_text(digits@),
        decreases rest,
    {
        let digit = 0x30 + (rest % 10) as u8;
        let ghost before = digits@;
        digits.insert(0, digit);
        proof {
            assert(digits@ =~= seq![digit] + before);
            assert(spec_decimal((rest / 10) as nat) + ascii_text(digits@) =~= spec_decimal(
                (rest / 10) as nat,
            ).push(spec_digit((rest % 10) as nat)) + ascii_text(before));
        }
        rest = rest / 10;
    }
    let digit = 0x30 + rest as u8;
    let ghost before = digits@;
    digits.insert(0, digit);
    proof {
        assert(digits@ =~= seq![digit] + before);
        assert(ascii_text(digits@) =~= seq![spec_digit(rest as nat)] + ascii_text(before));
    }
    ascii_to_string(digits.as_slice()).unwrap()
}

} // verus!
