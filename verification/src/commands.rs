//! The four operations on a PNG file, from the bytes of the file to the bytes
//! or the text that the operation gives. Reading and writing the file is left
//! to the caller.

use crate::chunk::{spec_chunk_bytes, spec_writable, Chunk, ChunkView};
use crate::chunk_type::{spec_parse_type, ChunkType};
use crate::png::{
    lemma_chunks_bytes_push, lemma_parsed_png_bytes, lemma_position, spec_parse_png,
    spec_png_bytes, spec_png_summary, spec_position, Png,
};
use crate::utils::Error;
use vstd::prelude::*;
use vstd::string::StringSliceAdditionalSpecFns;
use vstd::utf8::{decode_utf8, valid_utf8};

verus! {

/// What hiding a message in a file gives: the file as it was, with one chunk
/// more behind it, of the type given and with the message as its data. The
/// file is read before the type code is.
pub open spec fn spec_encode(contents: Seq<u8>, chunk_type: Seq<u8>, message: Seq<u8>) -> Result<
    Seq<u8>,
    Error,
> {
    match spec_parse_png(contents) {
        Err(e) => Err(e),
        Ok(chunks) => match spec_parse_type(chunk_type) {
            Err(e) => Err(e),
            Ok(code) => Ok(contents + spec_chunk_bytes(ChunkView { chunk_type: code, data: message })),
        },
    }
}

/// Hides `message` in the PNG file `contents`: returns the bytes of the file
/// with a chunk of type `chunk_type` behind its chunks, whose data is the
/// message.
///
/// Fails as reading the file fails, or else as reading the type code fails.
/// The message must not be longer than the data of a chunk can be.
pub fn encode(contents: &[u8], chunk_type: &str, message: &str) -> (r: Result<Vec<u8>, Error>)
    requires
        message.spec_bytes().len() <= u32::MAX,
    ensures
        match r {
            Ok(bytes) => spec_encode(contents@, chunk_type.spec_bytes(), message.spec_bytes())
                == Ok::<Seq<u8>, Error>(bytes@),
            Err(e) => spec_encode(contents@, chunk_type.spec_bytes(), message.spec_bytes())
                == Err::<Seq<u8>, Error>(e),
        },
{
    let mut png = match Png::try_from(contents) {
        Ok(png) => png,
        Err(e) => {
            return Err(e);
        },
    };
    let code = match ChunkType::from_str(chunk_type) {
        Ok(code) => code,
        Err(e) => {
            return Err(e);
        },
    };
    let chunk = Chunk::new(code, message.as_bytes_vec());
    proof {
        lemma_parsed_png_bytes(contents@);
        lemma_chunks_bytes_push(png@, chunk@);
        assert forall|i: int| 0 <= i < png@.push(chunk@).len() implies (#[trigger] png@.push(
            chunk@,
        )[i]).data.len() <= u32::MAX by {
            if i < png@.len() {
                assert(spec_writable(png@[i]));
            }
        }
        assert(spec_png_bytes(png@.push(chunk@)) =~= contents@ + spec_chunk_bytes(chunk@));
    }
    png.append_chunk(chunk);
    Ok(png.as_bytes())
}

/// Reads the message hidden in the PNG file `contents`: the data, as text, of
/// the first chunk of type `chunk_type`.
///
/// Fails as reading the file fails, with `ChunkNotFound` when the file has no
/// chunk of the type, and with `InvalidText` when the data of the chunk is
/// not valid UTF-8.
pub fn decode(contents: &[u8], chunk_type: &str) -> (r: Result<String, Error>)
    ensures
        match spec_parse_png(contents@) {
            Err(e) => r == Err::<String, Error>(e),
            Ok(chunks) => match spec_position(chunks, chunk_type@) {
                None => {
                    &&& r matches Err(Error::ChunkNotFound(text))
                    &&& text@ == chunk_type@
                },
                Some(i) => if valid_utf8(chunks[i].data) {
                    &&& r matches Ok(message)
                    &&& message@ == decode_utf8(chunks[i].data)
                } else {
                    r == Err::<String, Error>(Error::InvalidText)
                },
            },
        },
{
    let png = match Png::try_from(contents) {
        Ok(png) => png,
        Err(e) => {
            return Err(e);
        },
    };
    match png.chunk_by_type(chunk_type) {
        None => Err(Error::ChunkNotFound(chunk_type.to_owned())),
        Some(chunk) => chunk.data_as_string(),
    }
}

/// Takes the first chunk of type `chunk_type` out of the PNG file `contents`
/// and returns the bytes of the file without it.
///
/// Fails as reading the file fails, and with `ChunkNotFound` when the file
/// has no chunk of the type.
pub fn remove(contents: &[u8], chunk_type: &str) -> (r: Result<Vec<u8>, Error>)
    ensures
        match spec_parse_png(contents@) {
            Err(e) => r == Err::<Vec<u8>, Error>(e),
            Ok(chunks) => match spec_position(chunks, chunk_type@) {
                None => {
                    &&& r matches Err(Error::ChunkNotFound(text))
                    &&& text@ == chunk_type@
                },
                Some(i) => {
                    &&& r matches Ok(bytes)
                    &&& bytes@ == spec_png_bytes(chunks.remove(i))
                },
            },
        },
{
    let mut png = match Png::try_from(contents) {
        Ok(png) => png,
        Err(e) => {
            return Err(e);
        },
    };
    proof {
        lemma_parsed_png_bytes(contents@);
    }
    let ghost chunks = png@;
    match png.remove_chunk(chunk_type) {
        Err(e) => Err(e),
        Ok(_) => {
            proof {
                let i = spec_position(chunks, chunk_type@)->Some_0;
                lemma_position(chunks, chunk_type@);
                assert forall|j: int| 0 <= j < png@.len() implies (#[trigger] png@[j]).data.len()
                    <= u32::MAX by {
                    if j < i {
                        assert(spec_writable(chunks[j]));
                    } else {
                        assert(spec_writable(chunks[j + 1]));
                    }
                }
            }
            Ok(png.as_bytes())
        },
    }
}

/// Describes the PNG file `contents`: one line for each chunk, in order, with
/// the length of its data, its type code and its checksum.
///
/// Fails as reading the file fails, and with `InvalidChar` when the type code
/// of some chunk cannot be shown as text.
pub fn print(contents: &[u8]) -> (r: Result<String, Error>)
    ensures
        match spec_parse_png(contents@) {
            Err(e) => r == Err::<String, Error>(e),
            Ok(chunks) => match spec_png_summary(chunks) {
                None => r == Err::<String, Error>(Error::InvalidChar),
                Some(lines) => {
                    &&& r matches Ok(text)
                    &&& text@ == lines
                },
            },
        },
{
    let png = match Png::try_from(contents) {
        Ok(png) => png,
        Err(e) => {
            return Err(e);
        },
    };
    match png.summary() {
        None => Err(Error::InvalidChar),
        Some(text) => Ok(text),
    }
}

} // verus!
