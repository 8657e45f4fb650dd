use pngme::chunk::Chunk;
use pngme::chunk_type::ChunkType;
use pngme::commands::{decode, encode, print, remove};
use pngme::png::Png;
use pngme::utils::Error;
use std::convert::TryFrom;
use std::str::FromStr;

fn chunk_from_strings(chunk_type: &str, data: &str) -> Chunk {
    Chunk::new(ChunkType::from_str(chunk_type).unwrap(), data.bytes().collect())
}

fn testing_file() -> Vec<u8> {
    Png::from_chunks(vec![
        chunk_from_strings("FrSt", "I am the first chunk"),
        Chunk::new(ChunkType::from_bytes(*b"IEND"), Vec::new()),
    ])
    .as_bytes()
}

#[test]
fn encode_puts_one_chunk_behind_the_file() {
    let file = testing_file();
    let out = encode(&file, "RuSt", "This is where your secret message will be!").unwrap();
    let mut expected = file.clone();
    expected.extend(chunk_from_strings("RuSt", "This is where your secret message will be!").as_bytes());
    assert_eq!(out, expected);
    assert_eq!(&out[out.len() - 4..], &2882656334u32.to_be_bytes());
    let png = Png::try_from(out.as_slice()).unwrap();
    assert_eq!(png.chunks().len(), 3);
}

#[test]
fn encode_accepts_an_empty_message() {
    let file = testing_file();
    let out = encode(&file, "RuSt", "").unwrap();
    assert_eq!(out.len(), file.len() + 12);
    assert_eq!(decode(&out, "RuSt"), Ok(String::new()));
}

#[test]
fn encode_reads_the_file_before_the_type() {
    assert_eq!(encode(&[1, 2, 3], "Ru1t", "m"), Err(Error::InvalidPngHeader));
    assert_eq!(encode(&testing_file(), "Ru1t", "m"), Err(Error::InvalidChar));
    assert_eq!(encode(&testing_file(), "RuStt", "m"), Err(Error::CodeLengthError(5)));
    let mut cut = testing_file();
    cut.pop();
    assert_eq!(encode(&cut, "RuSt", "m"), Err(Error::ChunkSliceSizeError));
}

#[test]
fn decode_gives_the_message_back() {
    let out = encode(&testing_file(), "RuSt", "a secret \u{2764}").unwrap();
    assert_eq!(decode(&out, "RuSt"), Ok(String::from("a secret \u{2764}")));
    assert_eq!(decode(&out, "FrSt"), Ok(String::from("I am the first chunk")));
}

#[test]
fn decode_reads_the_first_chunk_of_the_type() {
    let out = encode(&testing_file(), "RuSt", "one").unwrap();
    let out = encode(&out, "RuSt", "two").unwrap();
    assert_eq!(decode(&out, "RuSt"), Ok(String::from("one")));
}

#[test]
fn decode_fails_when_absent_or_not_text() {
    assert_eq!(
        decode(&testing_file(), "zzZz"),
        Err(Error::ChunkNotFound(String::from("zzZz")))
    );
    let file = Png::from_chunks(vec![Chunk::new(
        ChunkType::from_str("RuSt").unwrap(),
        vec![0xff, 0x00],
    )])
    .as_bytes();
    assert_eq!(decode(&file, "RuSt"), Err(Error::InvalidText));
    assert_eq!(decode(&[0; 8], "RuSt"), Err(Error::InvalidPngHeader));
}

#[test]
fn remove_undoes_encode() {
    let file = testing_file();
    let out = encode(&file, "RuSt", "hidden").unwrap();
    assert_eq!(remove(&out, "RuSt"), Ok(file));
}

#[test]
fn remove_takes_one_chunk_only() {
    let out = encode(&testing_file(), "RuSt", "one").unwrap();
    let out = encode(&out, "RuSt", "two").unwrap();
    let less = remove(&out, "RuSt").unwrap();
    assert_eq!(decode(&less, "RuSt"), Ok(String::from("two")));
    let least = remove(&less, "RuSt").unwrap();
    assert_eq!(least, testing_file());
}

#[test]
fn remove_fails_when_absent() {
    assert_eq!(
        remove(&testing_file(), "zzZz"),
        Err(Error::ChunkNotFound(String::from("zzZz")))
    );
    let mut bad = testing_file();
    let n = bad.len();
    bad[n - 1] ^= 0x80;
    assert_eq!(remove(&bad, "FrSt"), Err(Error::CRC));
}

#[test]
fn print_describes_each_chunk() {
    assert_eq!(
        print(&testing_file()),
        Ok(String::from(
            "20, FrSt, [some lengthy data sequence], 920434671\n\
             0, IEND, [some lengthy data sequence], 2923585666\n"
        ))
    );
    assert_eq!(print(&Png::STANDARD_HEADER), Ok(String::new()));
    assert_eq!(print(&[]), Err(Error::InvalidPngHeader));
}

#[test]
fn print_fails_on_a_type_code_without_text() {
    let file = Png::from_chunks(vec![Chunk::new(ChunkType::from_bytes([1, 2, 3, 200]), vec![5])])
        .as_bytes();
    assert_eq!(print(&file), Err(Error::InvalidChar));
}
