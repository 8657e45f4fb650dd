use pngme::chunk::Chunk;
use pngme::chunk_type::ChunkType;
use pngme::png::Png;
use pngme::utils::Error;
use std::convert::TryFrom;
use std::str::FromStr;

fn chunk_from_strings(chunk_type: &str, data: &str) -> Chunk {
    Chunk::new(ChunkType::from_str(chunk_type).unwrap(), data.bytes().collect())
}

fn testing_chunks() -> Vec<Chunk> {
    vec![
        chunk_from_strings("FrSt", "I am the first chunk"),
        chunk_from_strings("miDl", "I am another chunk"),
        chunk_from_strings("LASt", "I am the last chunk"),
    ]
}

fn testing_png() -> Png {
    Png::from_chunks(testing_chunks())
}

fn types_of(png: &Png) -> Vec<String> {
    png.chunks().iter().map(|chunk| chunk.chunk_type().text().unwrap()).collect()
}

#[test]
fn header_is_the_png_signature() {
    assert_eq!(Png::STANDARD_HEADER, [0x89, b'P', b'N', b'G', 0x0d, 0x0a, 0x1a, 0x0a]);
    assert_eq!(testing_png().header(), &[137, 80, 78, 71, 13, 10, 26, 10]);
}

#[test]
fn from_chunks_keeps_the_chunks_in_order() {
    let png = testing_png();
    assert_eq!(png.chunks().len(), 3);
    assert_eq!(types_of(&png), vec!["FrSt", "miDl", "LASt"]);
    assert_eq!(png.chunks(), testing_chunks().as_slice());
    assert!(Png::from_chunks(Vec::new()).chunks().is_empty());
}

#[test]
fn as_bytes_is_signature_then_chunks() {
    let png = testing_png();
    let mut expected: Vec<u8> = vec![137, 80, 78, 71, 13, 10, 26, 10];
    for chunk in testing_chunks() {
        expected.extend(chunk.as_bytes());
    }
    assert_eq!(png.as_bytes(), expected);
    assert_eq!(Png::from_chunks(Vec::new()).as_bytes(), vec![137, 80, 78, 71, 13, 10, 26, 10]);
}

#[test]
fn smallest_file_with_a_chunk() {
    let png = Png::from_chunks(vec![Chunk::new(ChunkType::from_bytes(*b"IEND"), Vec::new())]);
    assert_eq!(
        png.as_bytes(),
        vec![137, 80, 78, 71, 13, 10, 26, 10, 0, 0, 0, 0, 73, 69, 78, 68, 0xae, 0x42, 0x60, 0x82]
    );
}

#[test]
fn container_round_trip() {
    let png = testing_png();
    let bytes = png.as_bytes();
    let read = Png::try_from(bytes.as_slice()).unwrap();
    assert_eq!(read.chunks(), png.chunks());
    assert_eq!(read.as_bytes(), bytes);
    let empty = Png::try_from(Png::from_chunks(Vec::new()).as_bytes().as_slice()).unwrap();
    assert!(empty.chunks().is_empty());
}

#[test]
fn a_file_that_is_read_is_written_back_byte_for_byte() {
    let mut bytes: Vec<u8> = Png::STANDARD_HEADER.to_vec();
    bytes.extend(Chunk::new(ChunkType::from_bytes([1, 2, 3, 4]), vec![0; 5]).as_bytes());
    bytes.extend(Chunk::new(ChunkType::from_bytes(*b"IEND"), Vec::new()).as_bytes());
    let png = Png::try_from(bytes.as_slice()).unwrap();
    assert_eq!(png.chunks().len(), 2);
    assert_eq!(png.as_bytes(), bytes);
}

#[test]
fn parse_wants_the_signature() {
    assert!(matches!(Png::try_from(&[][..]), Err(Error::InvalidPngHeader)));
    assert!(matches!(
        Png::try_from(&[137, 80, 78, 71, 13, 10, 26][..]),
        Err(Error::InvalidPngHeader)
    ));
    let mut bytes = testing_png().as_bytes();
    bytes[0] = 13;
    assert!(matches!(Png::try_from(bytes.as_slice()), Err(Error::InvalidPngHeader)));
    let mut bytes = testing_png().as_bytes();
    bytes[7] = 11;
    assert!(matches!(Png::try_from(bytes.as_slice()), Err(Error::InvalidPngHeader)));
}

#[test]
fn parse_fails_with_the_error_of_the_first_bad_chunk() {
    let mut bytes = testing_png().as_bytes();
    let n = bytes.len();
    bytes[n - 1] ^= 1;
    assert!(matches!(Png::try_from(bytes.as_slice()), Err(Error::CRC)));

    let mut bytes = testing_png().as_bytes();
    bytes.pop();
    assert!(matches!(Png::try_from(bytes.as_slice()), Err(Error::ChunkSliceSizeError)));

    // A bad checksum in the first chunk is met before the missing byte at the end.
    let mut bytes = testing_png().as_bytes();
    bytes[8 + 8] ^= 1;
    bytes.pop();
    assert!(matches!(Png::try_from(bytes.as_slice()), Err(Error::CRC)));
}

#[test]
fn parse_leaves_nothing_over() {
    let mut bytes = testing_png().as_bytes();
    bytes.push(0);
    assert!(matches!(Png::try_from(bytes.as_slice()), Err(Error::ChunkSliceSizeError)));
}

#[test]
fn append_puts_the_chunk_last() {
    let mut png = testing_png();
    png.append_chunk(chunk_from_strings("TeSt", "Message"));
    assert_eq!(types_of(&png), vec!["FrSt", "miDl", "LASt", "TeSt"]);
    assert_eq!(png.chunks()[3].data_as_string().unwrap(), "Message");
    png.append_chunk(chunk_from_strings("miDl", "again"));
    assert_eq!(types_of(&png), vec!["FrSt", "miDl", "LASt", "TeSt", "miDl"]);
}

#[test]
fn chunk_by_type_finds_the_first() {
    let mut png = testing_png();
    png.append_chunk(chunk_from_strings("miDl", "again"));
    let found = png.chunk_by_type("miDl").unwrap();
    assert_eq!(found.data_as_string().unwrap(), "I am another chunk");
    assert_eq!(png.chunk_by_type("FrSt").unwrap().data_as_string().unwrap(), "I am the first chunk");
    assert!(png.chunk_by_type("zzZz").is_none());
    assert!(png.chunk_by_type("midl").is_none());
    assert!(png.chunk_by_type("").is_none());
    assert_eq!(png.chunks().len(), 4);
}

#[test]
fn remove_takes_the_first_of_two() {
    let mut png = testing_png();
    png.append_chunk(chunk_from_strings("teSt", "one"));
    png.append_chunk(chunk_from_strings("teSt", "two"));
    let removed = png.remove_chunk("teSt").unwrap();
    assert_eq!(removed.data_as_string().unwrap(), "one");
    assert_eq!(types_of(&png), vec!["FrSt", "miDl", "LASt", "teSt"]);
    assert_eq!(png.chunk_by_type("teSt").unwrap().data_as_string().unwrap(), "two");
    let removed = png.remove_chunk("teSt").unwrap();
    assert_eq!(removed.data_as_string().unwrap(), "two");
    assert!(png.chunk_by_type("teSt").is_none());
}

#[test]
fn remove_keeps_the_order_of_the_others() {
    let mut png = testing_png();
    let removed = png.remove_chunk("FrSt").unwrap();
    assert_eq!(removed, chunk_from_strings("FrSt", "I am the first chunk"));
    assert_eq!(types_of(&png), vec!["miDl", "LASt"]);
}

#[test]
fn remove_of_a_missing_type_changes_nothing() {
    let mut png = testing_png();
    let before = png.as_bytes();
    match png.remove_chunk("zzZz") {
        Err(Error::ChunkNotFound(text)) => assert_eq!(text, "zzZz"),
        other => panic!("not a ChunkNotFound: {:?}", other),
    }
    assert_eq!(png.as_bytes(), before);
    assert_eq!(png.chunks(), testing_chunks().as_slice());
}

#[test]
fn a_type_code_outside_ascii_matches_no_text() {
    let mut png = Png::from_chunks(vec![Chunk::new(
        ChunkType::from_bytes([0xc3, 0xa9, 65, 66]),
        vec![1],
    )]);
    assert!(png.chunk_by_type("\u{e9}AB").is_none());
    assert!(matches!(png.remove_chunk("\u{e9}AB"), Err(Error::ChunkNotFound(_))));
    assert_eq!(png.chunks().len(), 1);
}

#[test]
fn summary_has_a_line_for_each_chunk() {
    let png = Png::from_chunks(vec![
        chunk_from_strings("RuSt", "This is where your secret message will be!"),
        Chunk::new(ChunkType::from_bytes(*b"IEND"), Vec::new()),
    ]);
    assert_eq!(
        png.summary().unwrap(),
        "42, RuSt, [some lengthy data sequence], 2882656334\n\
         0, IEND, [some lengthy data sequence], 2923585666\n"
    );
    assert_eq!(Png::from_chunks(Vec::new()).summary().unwrap(), "");
    let odd = Png::from_chunks(vec![
        chunk_from_strings("RuSt", "x"),
        Chunk::new(ChunkType::from_bytes([1, 2, 3, 200]), vec![5]),
        chunk_from_strings("RuSt", "y"),
    ]);
    assert_eq!(odd.summary(), None);
}
