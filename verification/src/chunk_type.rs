//! The four byte type code of a chunk.
//!
//! A type code is meant to be four ASCII letters. The case of each letter is
//! a flag: bit 5 of the byte, which is clear in an upper case letter and set
//! in a lower case one.

use crate::text::{
    ascii_text, ascii_to_string, is_ascii_bytes, lemma_ascii_bytes_are_utf8,
    lemma_text_of_ascii_bytes,
};
use crate::utils::Error;
use vstd::prelude::*;
use vstd::std_specs::cmp::PartialEqSpecImpl;
use vstd::std_specs::convert::TryFromSpecImpl;
use vstd::string::StringSliceAdditionalSpecFns;
use vstd::utf8::{encode_utf8, is_ascii_chars, is_ascii_chars_encode_utf8};

verus! {

/// The mask of bit 5, which tells an upper case ASCII letter from a lower
/// case one.
pub const CASE_BIT: u8 = 0x20;

/// True when `byte` is an ASCII letter, `A` to `Z` or `a` to `z`.
pub open spec fn is_ascii_letter(byte: u8) -> bool {
    (0x41 <= byte <= 0x5a) || (0x61 <= byte <= 0x7a)
}

/// True when every byte of `bytes` is an ASCII letter.
pub open spec fn all_ascii_letters(bytes: Seq<u8>) -> bool {
    forall|i: int| 0 <= i < bytes.len() ==> is_ascii_letter(#[trigger] bytes[i])
}

/// What reading a type code from the UTF-8 bytes of a text gives: the four
/// bytes themselves if they are four ASCII letters, else the reason why not.
/// A wrong length is reported before a wrong byte.
pub open spec fn spec_parse_type(text: Seq<u8>) -> Result<Seq<u8>, Error> {
    if text.len() != 4 {
        Err(Error::CodeLengthError(text.len() as usize))
    } else if !all_ascii_letters(text) {
        Err(Error::InvalidChar)
    } else {
        Ok(text)
    }
}

/// The text of a type code with the bytes `bytes`: the bytes read as ASCII
/// characters. A type code with a byte outside ASCII has no text.
pub open spec fn spec_type_text(bytes: Seq<u8>) -> Option<Seq<char>> {
    if is_ascii_bytes(bytes) {
        Some(ascii_text(bytes))
    } else {
        None
    }
}

/// True when `c` is an ASCII letter, `A` to `Z` or `a` to `z`.
pub open spec fn is_ascii_letter_char(c: char) -> bool {
    ('A' <= c <= 'Z') || ('a' <= c <= 'z')
}

/// Reading a type code from a text succeeds exactly when the text is four
/// ASCII letters, and the text of the type code read is the text given.
pub proof fn lemma_parse_type_of_text(text: Seq<char>)
    ensures
        spec_parse_type(encode_utf8(text)) is Ok <==> text.len() == 4 && forall|i: int|
            0 <= i < 4 ==> is_ascii_letter_char(#[trigger] text[i]),
        spec_parse_type(encode_utf8(text)) matches Ok(code) ==> spec_type_text(code) == Some(text),
{
    let bytes = encode_utf8(text);
    if spec_parse_type(bytes) is Ok {
        assert forall|i: int| 0 <= i < bytes.len() implies #[trigger] bytes[i] < 0x80 by {
            assert(is_ascii_letter(bytes[i]));
        }
        lemma_text_of_ascii_bytes(text);
        assert forall|i: int| 0 <= i < 4 implies is_ascii_letter_char(#[trigger] text[i]) by {
            assert(is_ascii_letter(bytes[i]));
            assert(text[i] == bytes[i] as char);
        }
    }
    if text.len() == 4 && forall|i: int| 0 <= i < 4 ==> is_ascii_letter_char(#[trigger] text[i]) {
        assert(is_ascii_chars(text)) by {
            assert forall|i: int| 0 <= i < text.len() implies '\0' <= #[trigger] text[i]
                <= '\u{7f}' by {
                assert(is_ascii_letter_char(text[i]));
            }
        }
        is_ascii_chars_encode_utf8(text);
        assert forall|i: int| 0 <= i < bytes.len() implies is_ascii_letter(
            #[trigger] bytes[i],
        ) by {
            assert(is_ascii_letter_char(text[i]));
            assert(text[i] as u8 == bytes[i]);
        }
    }
}

/// An ASCII letter is upper case exactly when its case bit is clear.
pub proof fn lemma_case_bit(byte: u8)
    requires
        is_ascii_letter(byte),
    ensures
        byte & CASE_BIT == 0 <==> 0x41 <= byte <= 0x5a,
        byte & CASE_BIT == CASE_BIT <==> 0x61 <= byte <= 0x7a,
{
    assert(((0x41 <= byte <= 0x5a) || (0x61 <= byte <= 0x7a)) ==> ((byte & 0x20 == 0 <==> 0x41
        <= byte <= 0x5a) && (byte & 0x20 == 0x20 <==> 0x61 <= byte <= 0x7a))) by (bit_vector);
}

/// The type code of a chunk: four raw bytes.
///
/// The view of a type code is the sequence of its four bytes. A type code can
/// hold any four bytes: `is_valid` tells whether they are a well-formed code.
#[derive(Debug, Clone, Copy)]
pub struct ChunkType {
    bytes: [u8; 4],
}

impl View for ChunkType {
    type V = Seq<u8>;

    closed spec fn view(&self) -> Seq<u8> {
        self.bytes@
    }
}

impl ChunkType {
    /// Every type code has four bytes.
    pub proof fn lemma_len(self)
        ensures
            self@.len() == 4,
    {
    }

    /// Two type codes with the same bytes are the same type code.
    pub proof fn lemma_view_injective(self, other: ChunkType)
        requires
            self@ == other@,
        ensures
            self == other,
    {
        assert(self.bytes =~= other.bytes);
    }

    /// True when bit 5 of byte 0 is clear: the first letter is upper case.
    pub open spec fn spec_is_critical(&self) -> bool {
        self@[0] & CASE_BIT == 0
    }

    /// True when bit 5 of byte 1 is clear: the second letter is upper case.
    pub open spec fn spec_is_public(&self) -> bool {
        self@[1] & CASE_BIT == 0
    }

    /// True when bit 5 of byte 2 is clear: the third letter is upper case.
    pub open spec fn spec_is_reserved_bit_valid(&self) -> bool {
        self@[2] & CASE_BIT == 0
    }

    /// True when bit 5 of byte 3 is set: the fourth letter is lower case.
    pub open spec fn spec_is_safe_to_copy(&self) -> bool {
        self@[3] & CASE_BIT == CASE_BIT
    }

    /// True when the four bytes are ASCII letters and the reserved bit is
    /// valid.
    pub open spec fn spec_is_valid(&self) -> bool {
        all_ascii_letters(self@) && self.spec_is_reserved_bit_valid()
    }

    /// The text of the type code, if it has one.
    pub open spec fn spec_text(&self) -> Option<Seq<char>> {
        spec_type_text(self@)
    }

    /// True when `text` is the text of this type code.
    pub open spec fn spec_has_text(&self, text: Seq<char>) -> bool {
        spec_type_text(self@) == Some(text)
    }

    /// The type code made of `bytes`.
    pub closed spec fn spec_from_bytes(bytes: [u8; 4]) -> ChunkType {
        ChunkType { bytes }
    }

    /// The type code made of `bytes`, whatever they are.
    pub fn from_bytes(bytes: [u8; 4]) -> (chunk_type: ChunkType)
        ensures
            chunk_type == Self::spec_from_bytes(bytes),
            chunk_type@ == bytes@,
    {
        ChunkType { bytes }
    }

    /// Reads a type code from text. The text must be four ASCII letters.
    ///
    /// The length that is tested, and reported, is that of the text in bytes.
    pub fn from_str(s: &str) -> (r: Result<ChunkType, Error>)
        ensures
            match r {
                Ok(chunk_type) => spec_parse_type(s.spec_bytes()) == Ok::<Seq<u8>, Error>(
                    chunk_type@,
                ),
                Err(e) => spec_parse_type(s.spec_bytes()) == Err::<Seq<u8>, Error>(e),
            },
    {
        let text = s.as_bytes();
        if text.len() != 4 {
            return Err(Error::CodeLengthError(text.len()));
        }
        let mut i: usize = 0;
        while i < 4
            invariant
                i <= 4,
                text@ == s.spec_bytes(),
                text@.len() == 4,
                forall|j: int| 0 <= j < i ==> is_ascii_letter(#[trigger] text@[j]),
            decreases 4 - i,
        {
            if !is_letter(text[i]) {
                assert(!is_ascii_letter(text@[i as int]));
                return Err(Error::InvalidChar);
            }
            i += 1;
        }
        let chunk_type = ChunkType { bytes: [text[0], text[1], text[2], text[3]] };
        assert(chunk_type@ =~= text@);
        Ok(chunk_type)
    }

    /// The raw bytes.
    pub fn bytes(&self) -> (bytes: [u8; 4])
        ensures
            bytes@ == self@,
    {
        self.bytes
    }

    /// Whether the type code is well formed: four ASCII letters, the third
    /// of them upper case.
    #[verifier::when_used_as_spec(spec_is_valid)]
    pub fn is_valid(&self) -> (b: bool)
        ensures
            b == self.spec_is_valid(),
    {
        let letters = is_letter(self.bytes[0]) && is_letter(self.bytes[1]) && is_letter(
            self.bytes[2],
        ) && is_letter(self.bytes[3]);
        letters && self.is_reserved_bit_valid()
    }

    /// Whether the chunk is critical: bit 5 of byte 0 is clear.
    #[verifier::when_used_as_spec(spec_is_critical)]
    pub fn is_critical(&self) -> (b: bool)
        ensures
            b == self.spec_is_critical(),
    {
        (self.bytes[0] & CASE_BIT) == 0
    }

    /// Whether the chunk is public: bit 5 of byte 1 is clear.
    #[verifier::when_used_as_spec(spec_is_public)]
    pub fn is_public(&self) -> (b: bool)
        ensures
            b == self.spec_is_public(),
    {
        (self.bytes[1] & CASE_BIT) == 0
    }

    /// Whether the reserved bit is valid: bit 5 of byte 2 is clear.
    #[verifier::when_used_as_spec(spec_is_reserved_bit_valid)]
    pub fn is_reserved_bit_valid(&self) -> (b: bool)
        ensures
            b == self.spec_is_reserved_bit_valid(),
    {
        (self.bytes[2] & CASE_BIT) == 0
    }

    /// Whether the chunk is safe to copy: bit 5 of byte 3 is set.
    #[verifier::when_used_as_spec(spec_is_safe_to_copy)]
    pub fn is_safe_to_copy(&self) -> (b: bool)
        ensures
            b == self.spec_is_safe_to_copy(),
    {
        (self.bytes[3] & CASE_BIT) == CASE_BIT
    }

    /// Whether `text` is the text of this type code.
    ///
    /// A type code with a byte outside ASCII has no text and matches nothing.
    pub fn has_text(&self, text: &str) -> (b: bool)
        ensures
            b == self.spec_has_text(text@),
    {
        let wanted = text.as_bytes();
        let same = wanted.len() == 4 && wanted[0] == self.bytes[0] && wanted[1] == self.bytes[1]
            && wanted[2] == self.bytes[2] && wanted[3] == self.bytes[3];
        let ascii = self.bytes[0] < 0x80 && self.bytes[1] < 0x80 && self.bytes[2] < 0x80
            && self.bytes[3] < 0x80;
        proof {
            if same && ascii {
                assert(wanted@ =~= self@);
                lemma_text_of_ascii_bytes(text@);
            }
            if self.spec_has_text(text@) {
                lemma_ascii_bytes_are_utf8(self@);
            }
        }
        same && ascii
    }

    /// The type code as text: `None` if a byte lies outside ASCII, else the
    /// four bytes read as ASCII characters.
    pub fn text(&self) -> (text: Option<String>)
        ensures
            match text {
                Some(s) => self.spec_text() == Some(s@),
                None => self.spec_text() is None,
            },
    {
        ascii_to_string(self.bytes.as_slice())
    }
}

impl PartialEq for ChunkType {
    /// Two type codes are equal when their bytes are.
    fn eq(&self, other: &ChunkType) -> (b: bool) {
        let b = self.bytes[0] == other.bytes[0] && self.bytes[1] == other.bytes[1]
            && self.bytes[2] == other.bytes[2] && self.bytes[3] == other.bytes[3];
        assert(b ==> self@ =~= other@);
        b
    }
}

impl PartialEqSpecImpl for ChunkType {
    open spec fn obeys_eq_spec() -> bool {
        true
    }

    open spec fn eq_spec(&self, other: &ChunkType) -> bool {
        self@ == other@
    }
}

impl Eq for ChunkType {

}

impl TryFrom<[u8; 4]> for ChunkType {
    type Error = Error;

    /// The type code made of `value`. Never fails.
    fn try_from(value: [u8; 4]) -> (r: Result<ChunkType, Error>)
        ensures
            r matches Ok(chunk_type) && chunk_type@ == value@,
    {
        Ok(ChunkType::from_bytes(value))
    }
}

impl TryFromSpecImpl<[u8; 4]> for ChunkType {
    open spec fn obeys_try_from_spec() -> bool {
        true
    }

    open spec fn try_from_spec(value: [u8; 4]) -> Result<ChunkType, Error> {
        Ok(ChunkType::spec_from_bytes(value))
    }
}

impl core::str::FromStr for ChunkType {
    type Err = Error;

    /// Reads a type code from text, as the method of the same name does: the
    /// text must be four ASCII letters, and its length is counted in bytes.
    fn from_str(s: &str) -> (r: Result<ChunkType, Error>)
        ensures
            match r {
                Ok(chunk_type) => spec_parse_type(s.spec_bytes()) == Ok::<Seq<u8>, Error>(
                    chunk_type@,
                ),
                Err(e) => spec_parse_type(s.spec_bytes()) == Err::<Seq<u8>, Error>(e),
            },
    {
        ChunkType::from_str(s)
    }
}

/// Whether `byte` is an ASCII letter.
fn is_letter(byte: u8) -> (b: bool)
    ensures
        b == is_ascii_letter(byte),
{
    (0x41 <= byte && byte <= 0x5a) || (0x61 <= byte && byte <= 0x7a)
}

} // verus!
