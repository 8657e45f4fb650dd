use pngme::text::{ascii_to_string, decimal};
use pngme::utils::{checked_split_at, Error};
use pngme::wire::{u32_from_be_bytes, u32_to_be_bytes};

#[test]
fn checked_split_at_splits_strictly_inside() {
    let items = [1, 2, 3, 4];
    assert_eq!(checked_split_at(&items, 0), Some((&[][..], &[1, 2, 3, 4][..])));
    assert_eq!(checked_split_at(&items, 1), Some((&[1][..], &[2, 3, 4][..])));
    assert_eq!(checked_split_at(&items, 3), Some((&[1, 2, 3][..], &[4][..])));
    assert_eq!(checked_split_at(&items, 4), None);
    assert_eq!(checked_split_at(&items, 5), None);
    let none: [u8; 0] = [];
    assert_eq!(checked_split_at(&none, 0), None);
}

#[test]
fn big_endian_bytes_of_integers() {
    assert_eq!(u32_to_be_bytes(0), [0, 0, 0, 0]);
    assert_eq!(u32_to_be_bytes(42), [0, 0, 0, 42]);
    assert_eq!(u32_to_be_bytes(0x01020304), [1, 2, 3, 4]);
    assert_eq!(u32_to_be_bytes(2882656334), 2882656334u32.to_be_bytes());
    assert_eq!(u32_to_be_bytes(u32::MAX), [255, 255, 255, 255]);
}

#[test]
fn integers_of_big_endian_bytes() {
    assert_eq!(u32_from_be_bytes([0, 0, 0, 0]), 0);
    assert_eq!(u32_from_be_bytes([0, 0, 0, 42]), 42);
    assert_eq!(u32_from_be_bytes([1, 2, 3, 4]), 0x01020304);
    assert_eq!(u32_from_be_bytes([0, 0, 1, 0]), 256);
    assert_eq!(u32_from_be_bytes([255, 255, 255, 255]), u32::MAX);
    for x in [0u32, 1, 255, 256, 65535, 65536, 0x00ff_ffff, 0x0100_0000, 0xdead_beef] {
        assert_eq!(u32_from_be_bytes(u32_to_be_bytes(x)), x);
        assert_eq!(u32_from_be_bytes(x.to_be_bytes()), x);
    }
}

#[test]
fn decimal_writes_numbers() {
    assert_eq!(decimal(0), "0");
    assert_eq!(decimal(7), "7");
    assert_eq!(decimal(9), "9");
    assert_eq!(decimal(10), "10");
    assert_eq!(decimal(42), "42");
    assert_eq!(decimal(100), "100");
    assert_eq!(decimal(2882656334), "2882656334");
    assert_eq!(decimal(u64::MAX), "18446744073709551615");
}

#[test]
fn ascii_to_string_wants_ascii() {
    assert_eq!(ascii_to_string(b"RuSt"), Some(String::from("RuSt")));
    assert_eq!(ascii_to_string(&[]), Some(String::new()));
    assert_eq!(ascii_to_string(&[0, 127]), Some(String::from("\u{0}\u{7f}")));
    assert_eq!(ascii_to_string(&[65, 128]), None);
    assert_eq!(ascii_to_string(&[0xc3, 0xa9]), None);
}

#[test]
fn messages_of_errors() {
    assert_eq!(
        Error::CodeLengthError(5).message(),
        "Invalid code length for chunktype encountered (found size: 5)\n"
    );
    assert_eq!(
        Error::CodeLengthError(12).message(),
        "Invalid code length for chunktype encountered (found size: 12)\n"
    );
    assert_eq!(Error::InvalidChar.message(), "Invalid char in type-code\n");
    assert_eq!(
        Error::ChunkSliceSizeError.message(),
        "Chunk has invalid sequence of bytes length\n"
    );
    assert_eq!(Error::CRC.message(), "Invalid CRC\n");
    assert_eq!(
        Error::ChunkNotFound(String::from("zzZz")).message(),
        "No chunk found for the chunktype zzZz\n"
    );
    assert_eq!(Error::InvalidPngHeader.message(), "Png contains invalid header\n");
    assert_eq!(Error::InvalidText.message(), "Chunk data is not valid UTF-8 text\n");
    assert_eq!(Error::FileError.message(), "IO error occured\n");
}
