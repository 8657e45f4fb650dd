//! The container: the PNG signature followed by chunks, in order.

use crate::chunk::{
    lemma_deserialize_chunk_bytes, lemma_deserialized_bytes, lemma_read_frame_of_frame,
    spec_chunk_bytes, spec_crc, spec_deserialize, spec_summary, spec_writable, Chunk, ChunkView,
};
use crate::chunk_type::spec_type_text;
use crate::utils::Error;
use vstd::prelude::*;
use vstd::std_specs::convert::TryFromSpecImpl;
use vstd::string::StringExecFns;

verus! {

/// The eight bytes that every PNG file begins with.
pub open spec fn spec_header() -> Seq<u8> {
    seq![137u8, 80u8, 78u8, 71u8, 13u8, 10u8, 26u8, 10u8]
}

/// The bytes of `chunks`, one chunk after the other.
pub open spec fn spec_chunks_bytes(chunks: Seq<ChunkView>) -> Seq<u8>
    decreases chunks.len(),
{
    if chunks.len() == 0 {
        Seq::empty()
    } else {
        spec_chunk_bytes(chunks[0]) + spec_chunks_bytes(chunks.drop_first())
    }
}

/// The bytes of a PNG file that holds `chunks`: the signature, then the
/// chunks in their order.
pub open spec fn spec_png_bytes(chunks: Seq<ChunkView>) -> Seq<u8> {
    spec_header() + spec_chunks_bytes(chunks)
}

/// Reads chunks off `bytes` until none are left. The first chunk that cannot
/// be read fails the whole.
pub open spec fn spec_parse_chunks(bytes: Seq<u8>) -> Result<Seq<ChunkView>, Error>
    decreases bytes.len(),
{
    if bytes.len() == 0 {
        Ok(Seq::empty())
    } else {
        match spec_deserialize(bytes) {
            Err(e) => Err(e),
            Ok((chunk, rest)) => match spec_parse_chunks(rest) {
                Err(e) => Err(e),
                Ok(chunks) => Ok(seq![chunk] + chunks),
            },
        }
    }
}

/// Reads a PNG file: `bytes` must begin with the signature, and what follows
/// must be chunks to the last byte.
pub open spec fn spec_parse_png(bytes: Seq<u8>) -> Result<Seq<ChunkView>, Error> {
    if bytes.len() < 8 || bytes.subrange(0, 8) != spec_header() {
        Err(Error::InvalidPngHeader)
    } else {
        spec_parse_chunks(bytes.subrange(8, bytes.len() as int))
    }
}

/// True when chunk `i` of `chunks` is the first whose type code has the text
/// `text`.
pub open spec fn spec_is_first_of_type(chunks: Seq<ChunkView>, text: Seq<char>, i: int) -> bool {
    &&& 0 <= i < chunks.len()
    &&& spec_type_text(chunks[i].chunk_type) == Some(text)
    &&& forall|j: int| 0 <= j < i ==> spec_type_text(#[trigger] chunks[j].chunk_type) != Some(text)
}

/// The place of the first chunk of `chunks` whose type code has the text
/// `text`, if there is one.
pub open spec fn spec_position(chunks: Seq<ChunkView>, text: Seq<char>) -> Option<int> {
    if exists|i: int| spec_is_first_of_type(chunks, text, i) {
        Some(choose|i: int| spec_is_first_of_type(chunks, text, i))
    } else {
        None
    }
}

/// What each of `chunks` is.
pub open spec fn spec_views(chunks: Seq<Chunk>) -> Seq<ChunkView> {
    Seq::new(chunks.len(), |i: int| chunks[i]@)
}

/// The first chunk of a type is the one at `spec_position`.
pub proof fn lemma_position_is_first(chunks: Seq<ChunkView>, text: Seq<char>, i: int)
    requires
        spec_is_first_of_type(chunks, text, i),
    ensures
        spec_position(chunks, text) == Some(i),
{
    let k = choose|k: int| spec_is_first_of_type(chunks, text, k);
    assert(spec_is_first_of_type(chunks, text, k));
    if k < i {
        assert(spec_type_text(chunks[k].chunk_type) != Some(text));
    }
    if i < k {
        assert(spec_type_text(chunks[i].chunk_type) != Some(text));
    }
}

/// Where no chunk has the type, `spec_position` is `None`; where one has, it
/// is the place of the first.
pub proof fn lemma_position(chunks: Seq<ChunkView>, text: Seq<char>)
    ensures
        match spec_position(chunks, text) {
            Some(i) => spec_is_first_of_type(chunks, text, i),
            None => forall|j: int|
                0 <= j < chunks.len() ==> spec_type_text(#[trigger] chunks[j].chunk_type) != Some(
                    text,
                ),
        },
{
    if spec_position(chunks, text) is None {
        assert forall|j: int| 0 <= j < chunks.len() implies spec_type_text(
            #[trigger] chunks[j].chunk_type,
        ) != Some(text) by {
            lemma_no_match_before(chunks, text, j + 1);
        }
    }
}

/// With no first chunk of the type, no chunk before `n` has the type.
proof fn lemma_no_match_before(chunks: Seq<ChunkView>, text: Seq<char>, n: int)
    requires
        0 <= n <= chunks.len(),
        spec_position(chunks, text) is None,
    ensures
        forall|j: int| 0 <= j < n ==> spec_type_text(#[trigger] chunks[j].chunk_type) != Some(text),
    decreases n,
{
    if n > 0 {
        lemma_no_match_before(chunks, text, n - 1);
        if spec_type_text(chunks[n - 1].chunk_type) == Some(text) {
            assert(spec_is_first_of_type(chunks, text, n - 1));
        }
    }
}

/// Removing undoes appending: where no chunk has the type of the chunk that
/// is put last, that chunk is the first of its type, and taking it out leaves
/// the chunks as they were.
pub proof fn lemma_remove_undoes_append(chunks: Seq<ChunkView>, chunk: ChunkView, text: Seq<char>)
    requires
        spec_position(chunks, text) is None,
        spec_type_text(chunk.chunk_type) == Some(text),
    ensures
        spec_position(chunks.push(chunk), text) == Some(chunks.len() as int),
        chunks.push(chunk).remove(chunks.len() as int) == chunks,
{
    lemma_position(chunks, text);
    let more = chunks.push(chunk);
    assert forall|j: int| 0 <= j < chunks.len() implies spec_type_text(
        #[trigger] more[j].chunk_type,
    ) != Some(text) by {
        assert(more[j] == chunks[j]);
    }
    lemma_position_is_first(more, text, chunks.len() as int);
    assert(more.remove(chunks.len() as int) =~= chunks);
}

/// The bytes of chunks with one more chunk behind them are the bytes of the
/// chunks with the bytes of that chunk behind them.
pub proof fn lemma_chunks_bytes_push(chunks: Seq<ChunkView>, chunk: ChunkView)
    ensures
        spec_chunks_bytes(chunks.push(chunk)) == spec_chunks_bytes(chunks) + spec_chunk_bytes(
            chunk,
        ),
    decreases chunks.len(),
{
    if chunks.len() == 0 {
        assert(chunks.push(chunk).drop_first() =~= Seq::<ChunkView>::empty());
        assert(spec_chunks_bytes(Seq::<ChunkView>::empty()) =~= Seq::<u8>::empty());
        assert(spec_chunks_bytes(chunks.push(chunk)) =~= spec_chunk_bytes(chunk));
        assert(spec_chunks_bytes(chunks) + spec_chunk_bytes(chunk) =~= spec_chunk_bytes(chunk));
    } else {
        lemma_chunks_bytes_push(chunks.drop_first(), chunk);
        assert(chunks.push(chunk).drop_first() =~= chunks.drop_first().push(chunk));
        assert(spec_chunks_bytes(chunks.push(chunk)) =~= spec_chunks_bytes(chunks)
            + spec_chunk_bytes(chunk));
    }
}

/// The lines that describe `chunks`, one line for each chunk, in order.
/// `None` when the type code of some chunk has no text.
pub open spec fn spec_png_summary(chunks: Seq<ChunkView>) -> Option<Seq<char>>
    decreases chunks.len(),
{
    if chunks.len() == 0 {
        Some(Seq::empty())
    } else {
        match (
            spec_png_summary(chunks.drop_last()),
            spec_summary(chunks.last(), spec_crc(chunks.last())),
        ) {
            (Some(before), Some(line)) => Some(before + line),
            _ => None,
        }
    }
}

/// True when every chunk of `chunks` can be written.
pub open spec fn spec_all_writable(chunks: Seq<ChunkView>) -> bool {
    forall|i: int| 0 <= i < chunks.len() ==> spec_writable(#[trigger] chunks[i])
}

/// Round trip of chunks: the bytes of chunks are read as these chunks, in
/// their order.
pub proof fn lemma_parse_chunks_bytes(chunks: Seq<ChunkView>)
    requires
        spec_all_writable(chunks),
    ensures
        spec_parse_chunks(spec_chunks_bytes(chunks)) == Ok::<Seq<ChunkView>, Error>(chunks),
    decreases chunks.len(),
{
    if chunks.len() == 0 {
        assert(chunks =~= Seq::<ChunkView>::empty());
    } else {
        let first = chunks[0];
        let others = chunks.drop_first();
        assert(spec_writable(first));
        assert forall|i: int| 0 <= i < others.len() implies spec_writable(
            #[trigger] others[i],
        ) by {
            assert(others[i] == chunks[i + 1]);
        }
        lemma_read_frame_of_frame(first, spec_crc(first), spec_chunks_bytes(others));
        lemma_deserialize_chunk_bytes(first, spec_chunks_bytes(others));
        lemma_parse_chunks_bytes(others);
        assert(seq![first] + others =~= chunks);
    }
}

/// Round trip of the container: the bytes of a PNG file that holds `chunks`
/// are read as a file that holds the same chunks in the same order.
pub proof fn lemma_png_round_trip(chunks: Seq<ChunkView>)
    requires
        spec_all_writable(chunks),
    ensures
        spec_parse_png(spec_png_bytes(chunks)) == Ok::<Seq<ChunkView>, Error>(chunks),
{
    let bytes = spec_png_bytes(chunks);
    assert(bytes.subrange(0, 8) =~= spec_header());
    assert(bytes.subrange(8, bytes.len() as int) =~= spec_chunks_bytes(chunks));
    lemma_parse_chunks_bytes(chunks);
}

/// Bytes that are read as chunks are the bytes of these chunks, and each of
/// the chunks can be written.
pub proof fn lemma_parsed_chunks_bytes(bytes: Seq<u8>)
    requires
        spec_parse_chunks(bytes) is Ok,
    ensures
        spec_all_writable(spec_parse_chunks(bytes)->Ok_0),
        spec_chunks_bytes(spec_parse_chunks(bytes)->Ok_0) == bytes,
    decreases bytes.len(),
{
    if bytes.len() == 0 {
        assert(spec_chunks_bytes(Seq::<ChunkView>::empty()) =~= bytes);
    } else {
        let (first, rest) = spec_deserialize(bytes)->Ok_0;
        lemma_deserialized_bytes(bytes);
        lemma_read_frame_of_frame(first, spec_crc(first), rest);
        lemma_parsed_chunks_bytes(rest);
        let others = spec_parse_chunks(rest)->Ok_0;
        let chunks = seq![first] + others;
        assert(chunks.drop_first() =~= others);
        assert forall|i: int| 0 <= i < chunks.len() implies spec_writable(
            #[trigger] chunks[i],
        ) by {
            if i > 0 {
                assert(chunks[i] == others[i - 1]);
            }
        }
    }
}

/// A file that is read is written back byte for byte: bytes that are read as
/// a PNG file are the bytes of the file that holds the chunks read.
pub proof fn lemma_parsed_png_bytes(bytes: Seq<u8>)
    requires
        spec_parse_png(bytes) is Ok,
    ensures
        spec_all_writable(spec_parse_png(bytes)->Ok_0),
        spec_png_bytes(spec_parse_png(bytes)->Ok_0) == bytes,
{
    let head = bytes.subrange(0, 8);
    let body = bytes.subrange(8, bytes.len() as int);
    assert(head == spec_header());
    assert(spec_parse_png(bytes) == spec_parse_chunks(body));
    lemma_parsed_chunks_bytes(body);
    lemma_split_at(bytes, 8);
}

/// Chunks have lines only if the first `n` of them have.
proof fn lemma_summary_prefix(chunks: Seq<ChunkView>, n: int)
    requires
        0 <= n <= chunks.len(),
        spec_png_summary(chunks.subrange(0, n)) is None,
    ensures
        spec_png_summary(chunks) is None,
    decreases chunks.len(),
{
    if n < chunks.len() {
        assert(chunks.drop_last().subrange(0, n) =~= chunks.subrange(0, n));
        lemma_summary_prefix(chunks.drop_last(), n);
    } else {
        assert(chunks.subrange(0, n) =~= chunks);
    }
}

/// A sequence is what lies before a place in it, followed by what lies behind.
proof fn lemma_split_at(bytes: Seq<u8>, mid: int)
    requires
        0 <= mid <= bytes.len(),
    ensures
        bytes == bytes.subrange(0, mid) + bytes.subrange(mid, bytes.len() as int),
{
    assert(bytes =~= bytes.subrange(0, mid) + bytes.subrange(mid, bytes.len() as int));
}

/// A PNG file: the chunks behind the signature, in their order. Its view is
/// the sequence of what its chunks are.
#[derive(Debug)]
pub struct Png {
    chunks: Vec<Chunk>,
}

impl View for Png {
    type V = Seq<ChunkView>;

    closed spec fn view(&self) -> Seq<ChunkView> {
        spec_views(self.chunks@)
    }
}

impl Png {
    /// The eight bytes that every PNG file begins with.
    pub const STANDARD_HEADER: [u8; 8] = [137, 80, 78, 71, 13, 10, 26, 10];

    /// The PNG file that holds `chunks`.
    pub fn from_chunks(chunks: Vec<Chunk>) -> (png: Png)
        ensures
            png@ == spec_views(chunks@),
    {
        Png { chunks }
    }

    /// Puts `chunk` behind the chunks that the file holds. A file may hold
    /// several chunks of one type.
    pub fn append_chunk(&mut self, chunk: Chunk)
        ensures
            final(self)@ == old(self)@.push(chunk@),
    {
        self.chunks.push(chunk);
        assert(self@ =~= old(self)@.push(chunk@));
    }

    /// Takes out the first chunk whose type code has the text `chunk_type`,
    /// and returns it. The chunks behind it move up; later chunks of the same
    /// type stay.
    ///
    /// Fails with `ChunkNotFound`, and changes nothing, when no chunk has the
    /// type.
    pub fn remove_chunk(&mut self, chunk_type: &str) -> (r: Result<Chunk, Error>)
        ensures
            match r {
                Ok(chunk) => {
                    &&& spec_position(old(self)@, chunk_type@) matches Some(i)
                    &&& chunk@ == old(self)@[i]
                    &&& final(self)@ == old(self)@.remove(i)
                },
                Err(e) => {
                    &&& spec_position(old(self)@, chunk_type@) is None
                    &&& final(self)@ == old(self)@
                    &&& e matches Error::ChunkNotFound(text)
                    &&& text@ == chunk_type@
                },
            },
    {
        match self.position(chunk_type) {
            Some(i) => {
                let chunk = self.chunks.remove(i);
                assert(self@ =~= old(self)@.remove(i as int));
                Ok(chunk)
            },
            None => Err(Error::ChunkNotFound(chunk_type.to_owned())),
        }
    }

    /// The signature.
    pub fn header(&self) -> (header: &[u8; 8])
        ensures
            header@ == spec_header(),
    {
        &Self::STANDARD_HEADER
    }

    /// The chunks, in their order.
    pub fn chunks(&self) -> (chunks: &[Chunk])
        ensures
            spec_views(chunks@) == self@,
    {
        self.chunks.as_slice()
    }

    /// The first chunk whose type code has the text `chunk_type`, if there is
    /// one.
    pub fn chunk_by_type(&self, chunk_type: &str) -> (r: Option<&Chunk>)
        ensures
            match r {
                Some(chunk) => {
                    &&& spec_position(self@, chunk_type@) matches Some(i)
                    &&& chunk@ == self@[i]
                },
                None => spec_position(self@, chunk_type@) is None,
            },
    {
        match self.position(chunk_type) {
            Some(i) => Some(&self.chunks[i]),
            None => None,
        }
    }

    /// The bytes of the file: the signature, then each chunk in order.
    pub fn as_bytes(&self) -> (bytes: Vec<u8>)
        requires
            forall|i: int| 0 <= i < self@.len() ==> (#[trigger] self@[i]).data.len() <= u32::MAX,
        ensures
            bytes@ == spec_png_bytes(self@),
    {
        let mut bytes: Vec<u8> = Vec::new();
        bytes.extend_from_slice(Self::STANDARD_HEADER.as_slice());
        assert(bytes@ =~= spec_header());
        let mut i: usize = 0;
        assert(self@.subrange(0, 0) =~= Seq::<ChunkView>::empty());
        while i < self.chunks.len()
            invariant
                i <= self.chunks.len(),
                self@.len() == self.chunks.len(),
                forall|j: int| 0 <= j < self@.len() ==> (#[trigger] self@[j]).data.len() <= u32::MAX,
                bytes@ == spec_header() + spec_chunks_bytes(self@.subrange(0, i as int)),
            decreases self.chunks.len() - i,
        {
            assert(self@[i as int] == self.chunks[i as int]@);
            let chunk_bytes = self.chunks[i].as_bytes();
            bytes.extend_from_slice(chunk_bytes.as_slice());
            proof {
                let done = self@.subrange(0, i as int);
                assert(self@.subrange(0, i + 1) =~= done.push(self@[i as int]));
                lemma_chunks_bytes_push(done, self@[i as int]);
                assert(bytes@ =~= spec_header() + spec_chunks_bytes(self@.subrange(0, i + 1)));
            }
            i += 1;
        }
        assert(self@.subrange(0, i as int) =~= self@);
        bytes
    }

    /// The lines that describe the chunks, one line for each chunk, in order.
    /// `None` when the type code of some chunk has no text.
    pub fn summary(&self) -> (lines: Option<String>)
        ensures
            match lines {
                Some(text) => spec_png_summary(self@) == Some(text@),
                None => spec_png_summary(self@) is None,
            },
    {
        let mut text = String::new();
        let mut i: usize = 0;
        assert(self@.subrange(0, 0) =~= Seq::<ChunkView>::empty());
        while i < self.chunks.len()
            invariant
                i <= self.chunks.len(),
                self@.len() == self.chunks.len(),
                spec_png_summary(self@.subrange(0, i as int)) == Some(text@),
            decreases self.chunks.len() - i,
        {
            assert(self@[i as int] == self.chunks[i as int]@);
            proof {
                let done = self@.subrange(0, i + 1);
                assert(done.drop_last() =~= self@.subrange(0, i as int));
                assert(done.last() == self@[i as int]);
            }
            match self.chunks[i].summary() {
                None => {
                    proof {
                        lemma_summary_prefix(self@, i + 1);
                    }
                    return None;
                },
                Some(line) => {
                    text.append(line.as_str());
                },
            }
            i += 1;
        }
        assert(self@.subrange(0, i as int) =~= self@);
        Some(text)
    }

    /// The place of the first chunk whose type code has the text
    /// `chunk_type`.
    fn position(&self, chunk_type: &str) -> (r: Option<usize>)
        ensures
            match r {
                Some(i) => spec_position(self@, chunk_type@) == Some(i as int),
                None => spec_position(self@, chunk_type@) is None,
            },
            self@.len() == self.chunks@.len(),
    {
        let mut i: usize = 0;
        while i < self.chunks.len()
            invariant
                i <= self.chunks.len(),
                self@.len() == self.chunks.len(),
                forall|j: int|
                    0 <= j < i ==> spec_type_text(#[trigger] self@[j].chunk_type) != Some(
                        chunk_type@,
                    ),
            decreases self.chunks.len() - i,
        {
            if self.chunks[i].chunk_type().has_text(chunk_type) {
                proof {
                    lemma_position_is_first(self@, chunk_type@, i as int);
                }
                return Some(i);
            }
            i += 1;
        }
        proof {
            if spec_position(self@, chunk_type@) is Some {
                let k = choose|k: int| spec_is_first_of_type(self@, chunk_type@, k);
                assert(spec_type_text(self@[k].chunk_type) != Some(chunk_type@));
            }
        }
        None
    }
}

impl TryFrom<&[u8]> for Png {
    type Error = Error;

    /// Reads a PNG file from `bytes`.
    ///
    /// Fails with `InvalidPngHeader` when `bytes` do not begin with the
    /// signature, and with the error of the first chunk that cannot be read.
    /// Nothing may be left behind the last chunk.
    fn try_from(bytes: &[u8]) -> (r: Result<Png, Error>)
        ensures
            match r {
                Ok(png) => spec_parse_png(bytes@) == Ok::<Seq<ChunkView>, Error>(png@),
                Err(e) => spec_parse_png(bytes@) == Err::<Seq<ChunkView>, Error>(e),
            },
    {
        if bytes.len() < 8 {
            return Err(Error::InvalidPngHeader);
        }
        let (header, body) = bytes.split_at(8);
        let mut k: usize = 0;
        while k < 8
            invariant
                k <= 8,
                header@.len() == 8,
                header@ == bytes@.subrange(0, 8),
                bytes@.len() >= 8,
                forall|j: int| 0 <= j < k ==> header@[j] == spec_header()[j],
            decreases 8 - k,
        {
            if header[k] != Self::STANDARD_HEADER[k] {
                assert(header@[k as int] != spec_header()[k as int]);
                return Err(Error::InvalidPngHeader);
            }
            k += 1;
        }
        assert(header@ =~= spec_header());
        let mut chunks: Vec<Chunk> = Vec::new();
        let mut remaining = body;
        assert(spec_views(chunks@) + Seq::<ChunkView>::empty() =~= Seq::<ChunkView>::empty());
        while remaining.len() > 0
            invariant
                bytes@.len() >= 8,
                bytes@.subrange(0, 8) == spec_header(),
                body@ == bytes@.subrange(8, bytes@.len() as int),
                match spec_parse_chunks(remaining@) {
                    Ok(tail) => spec_parse_chunks(body@) == Ok::<Seq<ChunkView>, Error>(
                        spec_views(chunks@) + tail,
                    ),
                    Err(e) => spec_parse_chunks(body@) == Err::<Seq<ChunkView>, Error>(e),
                },
            decreases remaining@.len(),
        {
            match Chunk::deserialize(remaining) {
                Err(e) => {
                    return Err(e);
                },
                Ok((chunk, rest)) => {
                    proof {
                        assert(rest@.len() < remaining@.len());
                        match spec_parse_chunks(rest@) {
                            Ok(tail) => {
                                assert(spec_views(chunks@.push(chunk)) + tail =~= spec_views(
                                    chunks@,
                                ) + (seq![chunk@] + tail));
                            },
                            Err(e) => {},
                        }
                    }
                    chunks.push(chunk);
                    remaining = rest;
                },
            }
        }
        assert(spec_views(chunks@) + Seq::<ChunkView>::empty() =~= spec_views(chunks@));
        Ok(Png { chunks })
    }
}

/// The contract of `try_from` is stated on the method itself, over the view
/// of the file: no value of `Png` is named here for it to return.
impl TryFromSpecImpl<&[u8]> for Png {
    open spec fn obeys_try_from_spec() -> bool {
        false
    }

    open spec fn try_from_spec(bytes: &[u8]) -> Result<Png, Error> {
        arbitrary()
    }
}

} // verus!
