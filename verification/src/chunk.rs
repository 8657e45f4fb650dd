//! A chunk: a type code and data, written with a length before them and a
//! checksum behind.
//!
//! On the wire a chunk is the length of its data as a big-endian 32 bit
//! integer, the four bytes of its type code, the data, and the CRC-32 of type
//! code and data as a big-endian 32 bit integer. Length and checksum are not
//! stored in a [`Chunk`]: they are computed from type code and data whenever
//! they are asked for, so they cannot go stale.

use crate::checksum::{checksum, crc32_iso_hdlc};
use crate::chunk_type::{spec_type_text, ChunkType};
use crate::text::{decimal, spec_decimal};
use crate::utils::Error;
use crate::wire::{
    lemma_be_u32_round_trip, lemma_u32_be_round_trip, spec_u32_from_be, spec_u32_to_be,
    u32_from_be_bytes, u32_to_be_bytes,
};
use vstd::prelude::*;
use vstd::slice::slice_to_vec;
use vstd::std_specs::cmp::PartialEqSpecImpl;
use vstd::std_specs::convert::TryFromSpecImpl;
use vstd::string::StringExecFns;
use vstd::utf8::{decode_utf8, encode_utf8_decode_utf8, valid_utf8};

verus! {

/// What a chunk is: the four bytes of its type code, and its data.
pub struct ChunkView {
    pub chunk_type: Seq<u8>,
    pub data: Seq<u8>,
}

/// The checksum of a chunk: the CRC-32 of its type code followed by its data.
pub open spec fn spec_crc(chunk: ChunkView) -> u32 {
    crc32_iso_hdlc(chunk.chunk_type + chunk.data)
}

/// The bytes of a chunk written with `crc` in the place of its checksum:
/// length, type code, data, `crc`.
pub open spec fn spec_frame(chunk: ChunkView, crc: u32) -> Seq<u8> {
    spec_u32_to_be(chunk.data.len() as u32) + chunk.chunk_type + chunk.data + spec_u32_to_be(crc)
}

/// The bytes of a chunk: length, type code, data, checksum.
pub open spec fn spec_chunk_bytes(chunk: ChunkView) -> Seq<u8> {
    spec_frame(chunk, spec_crc(chunk))
}

/// Takes the frame of one chunk off the front of `bytes`: the chunk, the
/// checksum that the frame declares, and the bytes behind the frame. `None`
/// when `bytes` end before the frame that they declare does.
pub open spec fn spec_read_frame(bytes: Seq<u8>) -> Option<(ChunkView, u32, Seq<u8>)> {
    if bytes.len() < 12 {
        None
    } else {
        let n = spec_u32_from_be(bytes) as int;
        if bytes.len() - 4 < 4 + n + 4 {
            None
        } else {
            Some(
                (
                    ChunkView { chunk_type: bytes.subrange(4, 8), data: bytes.subrange(8, 8 + n) },
                    spec_u32_from_be(bytes.subrange(8 + n, 12 + n)),
                    bytes.subrange(12 + n, bytes.len() as int),
                ),
            )
        }
    }
}

/// Whether a chunk read from a frame is accepted: only if the checksum
/// computed for it is the one that the frame declared.
pub open spec fn spec_accept(chunk: ChunkView, declared: u32, computed: u32) -> Result<
    ChunkView,
    Error,
> {
    if computed == declared {
        Ok(chunk)
    } else {
        Err(Error::CRC)
    }
}

/// Reads one chunk off the front of `bytes`: the chunk and the bytes behind
/// it, or the reason why there is no chunk.
pub open spec fn spec_deserialize(bytes: Seq<u8>) -> Result<(ChunkView, Seq<u8>), Error> {
    match spec_read_frame(bytes) {
        None => Err(Error::ChunkSliceSizeError),
        Some((chunk, declared, rest)) => match spec_accept(chunk, declared, spec_crc(chunk)) {
            Ok(chunk) => Ok((chunk, rest)),
            Err(e) => Err(e),
        },
    }
}

/// Reads the chunk that `bytes` are, from their first byte to their last.
/// Bytes behind the chunk are an error of size, reported before a wrong
/// checksum.
pub open spec fn spec_try_from(bytes: Seq<u8>) -> Result<ChunkView, Error> {
    match spec_read_frame(bytes) {
        None => Err(Error::ChunkSliceSizeError),
        Some((chunk, declared, rest)) => if rest.len() != 0 {
            Err(Error::ChunkSliceSizeError)
        } else {
            spec_accept(chunk, declared, spec_crc(chunk))
        },
    }
}

/// The line that describes a chunk whose checksum is `crc`: the length of
/// its data, the text of its type code, a note in the place of the data, and
/// the checksum. A chunk whose type code has no text has no such line.
pub open spec fn spec_summary(chunk: ChunkView, crc: u32) -> Option<Seq<char>> {
    match spec_type_text(chunk.chunk_type) {
        None => None,
        Some(code) => Some(
            spec_decimal(chunk.data.len()) + ", "@ + code + ", [some lengthy data sequence], "@
                + spec_decimal(crc as nat) + "\n"@,
        ),
    }
}

/// True when `chunk` can be written: its type code has four bytes, and a 32
/// bit integer can count its data.
pub open spec fn spec_writable(chunk: ChunkView) -> bool {
    chunk.chunk_type.len() == 4 && chunk.data.len() <= u32::MAX
}

/// A frame is read back as it was written, whatever follows it: the chunk,
/// the checksum written, and the bytes behind the frame come out again.
pub proof fn lemma_read_frame_of_frame(chunk: ChunkView, crc: u32, tail: Seq<u8>)
    requires
        spec_writable(chunk),
    ensures
        spec_frame(chunk, crc).len() == 12 + chunk.data.len(),
        spec_read_frame(spec_frame(chunk, crc) + tail) == Some((chunk, crc, tail)),
{
    let n = chunk.data.len() as int;
    let bytes = spec_frame(chunk, crc) + tail;
    lemma_u32_be_round_trip(n as u32);
    lemma_u32_be_round_trip(crc);
    assert(bytes.subrange(0, 4) =~= spec_u32_to_be(n as u32));
    assert(spec_u32_from_be(bytes) == spec_u32_from_be(bytes.subrange(0, 4)));
    assert(bytes.subrange(4, 8) =~= chunk.chunk_type);
    assert(bytes.subrange(8, 8 + n) =~= chunk.data);
    assert(bytes.subrange(8 + n, 12 + n) =~= spec_u32_to_be(crc));
    assert(bytes.subrange(12 + n, bytes.len() as int) =~= tail);
}

/// Round trip: the bytes of a chunk, with anything behind them, are read as
/// that chunk, and what was behind them is left over.
pub proof fn lemma_deserialize_chunk_bytes(chunk: ChunkView, tail: Seq<u8>)
    requires
        spec_writable(chunk),
    ensures
        spec_deserialize(spec_chunk_bytes(chunk) + tail) == Ok::<(ChunkView, Seq<u8>), Error>(
            (chunk, tail),
        ),
{
    lemma_read_frame_of_frame(chunk, spec_crc(chunk), tail);
}

/// Round trip: the bytes of a chunk are read as that chunk, with nothing left
/// over.
pub proof fn lemma_chunk_round_trip(chunk: ChunkView)
    requires
        spec_writable(chunk),
    ensures
        spec_deserialize(spec_chunk_bytes(chunk)) == Ok::<(ChunkView, Seq<u8>), Error>(
            (chunk, Seq::empty()),
        ),
        spec_try_from(spec_chunk_bytes(chunk)) == Ok::<ChunkView, Error>(chunk),
{
    lemma_read_frame_of_frame(chunk, spec_crc(chunk), Seq::empty());
    assert(spec_chunk_bytes(chunk) + Seq::<u8>::empty() =~= spec_chunk_bytes(chunk));
}

/// Truncation: the first `k` bytes of a chunk, for `k` less than the number
/// of its bytes, are not read as a chunk. They fail with
/// `ChunkSliceSizeError`.
pub proof fn lemma_truncated_chunk_rejected(chunk: ChunkView, k: int)
    requires
        spec_writable(chunk),
        0 <= k < spec_chunk_bytes(chunk).len(),
    ensures
        spec_deserialize(spec_chunk_bytes(chunk).subrange(0, k)) == Err::<
            (ChunkView, Seq<u8>),
            Error,
        >(Error::ChunkSliceSizeError),
        spec_try_from(spec_chunk_bytes(chunk).subrange(0, k)) == Err::<ChunkView, Error>(
            Error::ChunkSliceSizeError,
        ),
{
    let n = chunk.data.len() as int;
    let bytes = spec_chunk_bytes(chunk);
    let prefix = bytes.subrange(0, k);
    lemma_u32_be_round_trip(n as u32);
    if k >= 12 {
        assert(prefix.subrange(0, 4) =~= spec_u32_to_be(n as u32));
        assert(spec_u32_from_be(prefix) == spec_u32_from_be(prefix.subrange(0, 4)));
    }
}

/// Checksum rejection: bytes that differ from the bytes of a chunk in the
/// last four only, where the checksum stands, fail with `CRC`.
pub proof fn lemma_corrupted_crc_rejected(chunk: ChunkView, corrupted: Seq<u8>)
    requires
        spec_writable(chunk),
        corrupted.len() == spec_chunk_bytes(chunk).len(),
        corrupted.subrange(0, corrupted.len() - 4) == spec_chunk_bytes(chunk).subrange(
            0,
            corrupted.len() - 4,
        ),
        corrupted != spec_chunk_bytes(chunk),
    ensures
        spec_deserialize(corrupted) == Err::<(ChunkView, Seq<u8>), Error>(Error::CRC),
        spec_try_from(corrupted) == Err::<ChunkView, Error>(Error::CRC),
{
    let n = chunk.data.len() as int;
    let bytes = spec_chunk_bytes(chunk);
    let found = corrupted.subrange(8 + n, 12 + n);
    let declared = spec_u32_from_be(found);
    lemma_u32_be_round_trip(n as u32);
    assert(bytes.len() == 12 + n);
    assert forall|i: int| 0 <= i < 8 + n implies corrupted[i] == bytes[i] by {
        assert(corrupted[i] == corrupted.subrange(0, corrupted.len() - 4)[i]);
        assert(bytes[i] == bytes.subrange(0, corrupted.len() - 4)[i]);
    }
    assert(corrupted =~= spec_frame(chunk, declared)) by {
        lemma_be_u32_round_trip(found);
        assert forall|i: int| 8 + n <= i < 12 + n implies corrupted[i] == spec_frame(
            chunk,
            declared,
        )[i] by {
            assert(corrupted[i] == found[i - (8 + n)]);
        }
    }
    lemma_read_frame_of_frame(chunk, declared, Seq::empty());
    assert(spec_frame(chunk, declared) + Seq::<u8>::empty() =~= spec_frame(chunk, declared));
}

/// Bytes that are read as a chunk begin with the bytes of that chunk: what
/// is written back is what was read, byte for byte.
pub proof fn lemma_deserialized_bytes(bytes: Seq<u8>)
    requires
        spec_deserialize(bytes) is Ok,
    ensures
        ({
            let (chunk, rest) = spec_deserialize(bytes)->Ok_0;
            &&& spec_writable(chunk)
            &&& bytes == spec_chunk_bytes(chunk) + rest
        }),
{
    let (chunk, declared, rest) = spec_read_frame(bytes)->Some_0;
    let n = spec_u32_from_be(bytes) as int;
    lemma_be_u32_round_trip(bytes.subrange(0, 4));
    assert(spec_u32_from_be(bytes) == spec_u32_from_be(bytes.subrange(0, 4)));
    lemma_be_u32_round_trip(bytes.subrange(8 + n, 12 + n));
    assert(bytes =~= spec_chunk_bytes(chunk) + rest);
}

/// A chunk of a PNG file. Its view is a [`ChunkView`].
#[derive(Debug)]
pub struct Chunk {
    chunk_type: ChunkType,
    data: Vec<u8>,
}

impl View for Chunk {
    type V = ChunkView;

    closed spec fn view(&self) -> ChunkView {
        ChunkView { chunk_type: self.chunk_type@, data: self.data@ }
    }
}

impl Chunk {
    /// The number of bytes that write the length of the data.
    pub const DATA_LEN_BYTES: usize = 4;

    /// The number of bytes of the type code.
    pub const CHUNK_TYPE_BYTES: usize = 4;

    /// The number of bytes that write the checksum.
    pub const CRC_BYTES: usize = 4;

    /// The number of bytes of a chunk besides its data.
    pub const TOTAL_BYTES: usize = Self::DATA_LEN_BYTES + Self::CHUNK_TYPE_BYTES + Self::CRC_BYTES;

    /// The type code of every chunk has four bytes.
    pub proof fn lemma_type_len(&self)
        ensures
            self@.chunk_type.len() == 4,
    {
        self.chunk_type.lemma_len();
    }

    /// The chunk of type `chunk_type` that holds `data`. Neither is tested.
    pub fn new(chunk_type: ChunkType, data: Vec<u8>) -> (chunk: Chunk)
        ensures
            chunk@ == (ChunkView { chunk_type: chunk_type@, data: data@ }),
    {
        Chunk { chunk_type, data }
    }

    /// The number of bytes of data. The format has no chunks with more data
    /// than a 32 bit length can count.
    pub fn length(&self) -> (length: u32)
        requires
            self@.data.len() <= u32::MAX,
        ensures
            length == self@.data.len(),
    {
        self.data.len() as u32
    }

    /// The type code.
    pub fn chunk_type(&self) -> (chunk_type: &ChunkType)
        ensures
            chunk_type@ == self@.chunk_type,
    {
        &self.chunk_type
    }

    /// The data.
    pub fn data(&self) -> (data: &[u8])
        ensures
            data@ == self@.data,
    {
        self.data.as_slice()
    }

    /// The checksum: the CRC-32 of the type code followed by the data,
    /// computed anew at each call.
    pub fn crc(&self) -> (crc: u32)
        ensures
            crc == spec_crc(self@),
    {
        let mut covered: Vec<u8> = Vec::new();
        append_bytes(&mut covered, self.chunk_type.bytes().as_slice());
        append_bytes(&mut covered, self.data.as_slice());
        checksum(covered.as_slice())
    }

    /// The data as text, if it is valid UTF-8.
    pub fn data_as_string(&self) -> (r: Result<String, Error>)
        ensures
            match r {
                Ok(text) => valid_utf8(self@.data) && text@ == decode_utf8(self@.data),
                Err(e) => !valid_utf8(self@.data) && e == Error::InvalidText,
            },
    {
        match core::str::from_utf8(self.data.as_slice()) {
            Ok(text) => {
                proof {
                    encode_utf8_decode_utf8(text@);
                }
                Ok(text.to_owned())
            },
            Err(_) => Err(Error::InvalidText),
        }
    }

    /// Takes the frame of one chunk off the front of `bytes`, without testing
    /// its checksum: the chunk, the checksum that the frame declares, and the
    /// bytes behind the frame.
    ///
    /// Fails when `bytes` are fewer than the twelve that the smallest chunk
    /// has, or fewer than the length at their front declares.
    pub fn read_frame(bytes: &[u8]) -> (r: Result<(Chunk, u32, &[u8]), Error>)
        ensures
            match r {
                Ok((chunk, declared, rest)) => spec_read_frame(bytes@) == Some(
                    (chunk@, declared, rest@),
                ),
                Err(e) => spec_read_frame(bytes@) is None && e == Error::ChunkSliceSizeError,
            },
    {
        if bytes.len() < Self::TOTAL_BYTES {
            return Err(Error::ChunkSliceSizeError);
        }
        let (length_bytes, remaining) = bytes.split_at(Self::DATA_LEN_BYTES);
        let declared_length = u32_from_be_bytes(
            [length_bytes[0], length_bytes[1], length_bytes[2], length_bytes[3]],
        );
        assert([length_bytes[0], length_bytes[1], length_bytes[2], length_bytes[3]]@
            =~= length_bytes@);
        if remaining.len() - (Self::CHUNK_TYPE_BYTES + Self::CRC_BYTES) < declared_length as usize {
            return Err(Error::ChunkSliceSizeError);
        }
        let (type_bytes, remaining) = remaining.split_at(Self::CHUNK_TYPE_BYTES);
        let chunk_type = ChunkType::from_bytes(
            [type_bytes[0], type_bytes[1], type_bytes[2], type_bytes[3]],
        );
        let (data, remaining) = remaining.split_at(declared_length as usize);
        let (crc_bytes, rest) = remaining.split_at(Self::CRC_BYTES);
        let declared = u32_from_be_bytes([crc_bytes[0], crc_bytes[1], crc_bytes[2], crc_bytes[3]]);
        let chunk = Chunk::new(chunk_type, slice_to_vec(data));
        proof {
            let n = declared_length as int;
            assert(chunk@.chunk_type =~= bytes@.subrange(4, 8));
            assert(chunk@.data =~= bytes@.subrange(8, 8 + n));
            assert([crc_bytes[0], crc_bytes[1], crc_bytes[2], crc_bytes[3]]@ =~= bytes@.subrange(
                8 + n,
                12 + n,
            ));
            assert(rest@ =~= bytes@.subrange(12 + n, bytes@.len() as int));
        }
        Ok((chunk, declared, rest))
    }

    /// Accepts a chunk read from a frame if the checksum computed for it is
    /// the one that the frame declared, and rejects it otherwise.
    pub fn accept(self, declared: u32, computed: u32) -> (r: Result<Chunk, Error>)
        ensures
            match r {
                Ok(chunk) => spec_accept(self@, declared, computed) == Ok::<ChunkView, Error>(
                    chunk@,
                ),
                Err(e) => spec_accept(self@, declared, computed) == Err::<ChunkView, Error>(e),
            },
    {
        if computed == declared {
            Ok(self)
        } else {
            Err(Error::CRC)
        }
    }

    /// Reads one chunk off the front of `bytes`: the chunk and the bytes
    /// behind it.
    ///
    /// Fails with `ChunkSliceSizeError` when `bytes` end before the chunk
    /// does, and with `CRC` when the checksum of the type code and data found
    /// is not the checksum found behind them.
    pub fn deserialize(bytes: &[u8]) -> (r: Result<(Chunk, &[u8]), Error>)
        ensures
            match r {
                Ok((chunk, rest)) => spec_deserialize(bytes@) == Ok::<
                    (ChunkView, Seq<u8>),
                    Error,
                >((chunk@, rest@)),
                Err(e) => spec_deserialize(bytes@) == Err::<(ChunkView, Seq<u8>), Error>(e),
            },
    {
        match Chunk::read_frame(bytes) {
            Err(e) => Err(e),
            Ok((candidate, declared, rest)) => {
                let computed = candidate.crc();
                match candidate.accept(declared, computed) {
                    Ok(chunk) => Ok((chunk, rest)),
                    Err(e) => Err(e),
                }
            },
        }
    }

    /// The line that describes the chunk, with `crc` in the place of the
    /// checksum. `None` when the type code has no text.
    pub fn summary_with_crc(&self, crc: u32) -> (line: Option<String>)
        ensures
            match line {
                Some(text) => spec_summary(self@, crc) == Some(text@),
                None => spec_summary(self@, crc) is None,
            },
    {
        match self.chunk_type.text() {
            None => None,
            Some(code) => {
                let mut text = decimal(self.data.len() as u64);
                text.append(", ");
                text.append(code.as_str());
                text.append(", [some lengthy data sequence], ");
                text.append(decimal(crc as u64).as_str());
                text.append("\n");
                Some(text)
            },
        }
    }

    /// The line that describes the chunk: the length of its data, its type
    /// code, and its checksum. `None` when the type code has no text.
    pub fn summary(&self) -> (line: Option<String>)
        ensures
            match line {
                Some(text) => spec_summary(self@, spec_crc(self@)) == Some(text@),
                None => spec_summary(self@, spec_crc(self@)) is None,
            },
    {
        self.summary_with_crc(self.crc())
    }

    /// The bytes of the chunk with `crc` written in the place of the
    /// checksum.
    pub fn write_frame(&self, crc: u32) -> (bytes: Vec<u8>)
        requires
            self@.data.len() <= u32::MAX,
        ensures
            bytes@ == spec_frame(self@, crc),
    {
        let length_bytes = u32_to_be_bytes(self.length());
        let crc_bytes = u32_to_be_bytes(crc);
        let mut bytes: Vec<u8> = Vec::new();
        append_bytes(&mut bytes, length_bytes.as_slice());
        append_bytes(&mut bytes, self.chunk_type.bytes().as_slice());
        append_bytes(&mut bytes, self.data.as_slice());
        append_bytes(&mut bytes, crc_bytes.as_slice());
        bytes
    }

    /// The bytes of the chunk: length, type code, data, checksum.
    pub fn as_bytes(&self) -> (bytes: Vec<u8>)
        requires
            self@.data.len() <= u32::MAX,
        ensures
            bytes@ == spec_chunk_bytes(self@),
    {
        self.write_frame(self.crc())
    }
}

impl PartialEq for Chunk {
    /// Two chunks are equal when their type codes and their data are.
    fn eq(&self, other: &Chunk) -> (b: bool) {
        if self.chunk_type != other.chunk_type || self.data.len() != other.data.len() {
            return false;
        }
        let mut i: usize = 0;
        while i < self.data.len()
            invariant
                i <= self.data.len(),
                self.data.len() == other.data.len(),
                forall|j: int| 0 <= j < i ==> self.data@[j] == other.data@[j],
            decreases self.data.len() - i,
        {
            if self.data[i] != other.data[i] {
                return false;
            }
            i += 1;
        }
        assert(self.data@ =~= other.data@);
        true
    }
}

impl PartialEqSpecImpl for Chunk {
    open spec fn obeys_eq_spec() -> bool {
        true
    }

    open spec fn eq_spec(&self, other: &Chunk) -> bool {
        self@ == other@
    }
}

impl Eq for Chunk {

}

impl TryFrom<&[u8]> for Chunk {
    type Error = Error;

    /// Reads the chunk that `bytes` are, from their first byte to their last.
    ///
    /// Fails with `ChunkSliceSizeError` when `bytes` end before the chunk does
    /// or go on behind it, and with `CRC` when the checksum of the type code
    /// and data found is not the checksum found behind them.
    fn try_from(bytes: &[u8]) -> (r: Result<Chunk, Error>)
        ensures
            match r {
                Ok(chunk) => spec_try_from(bytes@) == Ok::<ChunkView, Error>(chunk@),
                Err(e) => spec_try_from(bytes@) == Err::<ChunkView, Error>(e),
            },
    {
        match Chunk::read_frame(bytes) {
            Err(e) => Err(e),
            Ok((candidate, declared, rest)) => {
                if rest.len() != 0 {
                    return Err(Error::ChunkSliceSizeError);
                }
                let computed = candidate.crc();
                candidate.accept(declared, computed)
            },
        }
    }
}

/// The contract of `try_from` is stated on the method itself, over the view
/// of the chunk: no value of `Chunk` is named here for it to return.
impl TryFromSpecImpl<&[u8]> for Chunk {
    open spec fn obeys_try_from_spec() -> bool {
        false
    }

    open spec fn try_from_spec(bytes: &[u8]) -> Result<Chunk, Error> {
        arbitrary()
    }
}

/// Appends `bytes` to `out`.
fn append_bytes(out: &mut Vec<u8>, bytes: &[u8])
    ensures
        final(out)@ == old(out)@ + bytes@,
{
    out.extend_from_slice(bytes);
    assert(out@ =~= old(out)@ + bytes@);
}

} // verus!
