//! The error type of the crate and a slice helper.

use crate::text::{decimal, spec_decimal};
use vstd::prelude::*;
use vstd::string::StringExecFns;

verus! {

/// What can go wrong while reading or editing a PNG container.
#[derive(Debug, PartialEq, Eq)]
pub enum Error {
    /// A type code was given as text that is not four bytes long. Holds the
    /// length that was found.
    CodeLengthError(usize),
    /// A type code was given as text with a byte that is not an ASCII letter.
    InvalidChar,
    /// A buffer ends before the chunk that it declares.
    ChunkSliceSizeError,
    /// The checksum stored in a chunk is not the checksum of its type and data.
    CRC,
    /// No chunk of the container has the requested type. Holds the requested
    /// type.
    ChunkNotFound(String),
    /// A buffer does not begin with the PNG signature.
    InvalidPngHeader,
    /// The data of a chunk is not valid UTF-8.
    InvalidText,
    /// Reading or writing a file failed. The codec never produces this
    /// variant: callers that do the I/O report their failures with it.
    FileError,
}

/// The message of an error, with a line feed at its end.
pub open spec fn spec_message(error: Error) -> Seq<char> {
    match error {
        Error::CodeLengthError(length) => "Invalid code length for chunktype encountered (found size: "@
            + spec_decimal(length as nat) + ")\n"@,
        Error::InvalidChar => "Invalid char in type-code\n"@,
        Error::ChunkSliceSizeError => "Chunk has invalid sequence of bytes length\n"@,
        Error::CRC => "Invalid CRC\n"@,
        Error::ChunkNotFound(chunk_type) => "No chunk found for the chunktype "@ + chunk_type@
            + "\n"@,
        Error::InvalidPngHeader => "Png contains invalid header\n"@,
        Error::InvalidText => "Chunk data is not valid UTF-8 text\n"@,
        Error::FileError => "IO error occured\n"@,
    }
}

impl Error {
    /// The message of the error, for a reader, with a line feed at its end.
    pub fn message(&self) -> (text: String)
        ensures
            text@ == spec_message(*self),
    {
        match self {
            Error::CodeLengthError(length) => {
                let mut text = "Invalid code length for chunktype encountered (found size: ".to_owned();
                text.append(decimal(*length as u64).as_str());
                text.append(")\n");
                text
            },
            Error::InvalidChar => "Invalid char in type-code\n".to_owned(),
            Error::ChunkSliceSizeError => "Chunk has invalid sequence of bytes length\n".to_owned(),
            Error::CRC => "Invalid CRC\n".to_owned(),
            Error::ChunkNotFound(chunk_type) => {
                let mut text = "No chunk found for the chunktype ".to_owned();
                text.append(chunk_type.as_str());
                text.append("\n");
                text
            },
            Error::InvalidPngHeader => "Png contains invalid header\n".to_owned(),
            Error::InvalidText => "Chunk data is not valid UTF-8 text\n".to_owned(),
            Error::FileError => "IO error occured\n".to_owned(),
        }
    }
}

/// Splits `slice` at `mid` if `mid` lies strictly inside it.
///
/// Unlike `split_at`, the split point must leave the second part non-empty:
/// `mid == slice.len()` gives `None`.
pub fn checked_split_at<T>(slice: &[T], mid: usize) -> (parts: Option<(&[T], &[T])>)
    ensures
        parts is Some <==> mid < slice@.len(),
        parts matches Some((head, tail)) ==> head@ == slice@.subrange(0, mid as int) && tail@
            == slice@.subrange(mid as int, slice@.len() as int),
{
    if mid < slice.len() {
        Some(slice.split_at(mid))
    } else {
        None
    }
}

} // verus!
