use imgmod::png::chunk::{Chunk, ChunkError};
use imgmod::png::chunk_type::ChunkType;
use imgmod::png::endian::{u32_from_be_bytes, u32_to_be_bytes, u8_4_from_slice};

fn sample_bytes() -> Vec<u8> {
    let data_length: u32 = 42;
    let chunk_type = "RuSt".as_bytes();
    let message_bytes = "This is where your secret message will be!".as_bytes();
    let crc: u32 = 2882656334;

    data_length
        .to_be_bytes()
        .iter()
        .chain(chunk_type.iter())
        .chain(message_bytes.iter())
        .chain(crc.to_be_bytes().iter())
        .copied()
        .collect()
}

#[test]
fn new_chunk_counts_and_seals_its_payload() {
    let chunk_type = ChunkType::from_str("RuSt").unwrap();
    let data = "This is where your secret message will be!".as_bytes().to_vec();
    let chunk = Chunk::new(chunk_type, data);
    assert_eq!(chunk.length(), 42);
    assert_eq!(chunk.crc(), 2882656334);
    assert_eq!(chunk.chunk_type().to_string(), "RuSt");
    assert_eq!(chunk.data(), "This is where your secret message will be!".as_bytes());
}

#[test]
fn checksum_of_the_end_chunk_is_the_well_known_one() {
    let chunk = Chunk::new(ChunkType::from_str("IEND").unwrap(), Vec::new());
    assert_eq!(chunk.length(), 0);
    assert_eq!(chunk.crc(), 0xAE42_6082);
    assert_eq!(chunk.as_bytes(), vec![0, 0, 0, 0, 73, 69, 78, 68, 0xAE, 0x42, 0x60, 0x82]);
}

#[test]
fn checksum_covers_type_code_and_payload() {
    let a = Chunk::new(ChunkType::from_str("RuSt").unwrap(), vec![1, 2, 3]);
    let b = Chunk::new(ChunkType::from_str("RuSu").unwrap(), vec![1, 2, 3]);
    let c = Chunk::new(ChunkType::from_str("RuSt").unwrap(), vec![1, 2, 4]);
    let d = Chunk::new(ChunkType::from_str("RuSt").unwrap(), vec![1, 2, 3]);
    assert_ne!(a.crc(), b.crc());
    assert_ne!(a.crc(), c.crc());
    assert_eq!(a.crc(), d.crc());
    // the check value of CRC-32/ISO-HDLC, with the type code as the first four bytes
    let check = Chunk::new(ChunkType::from_str("abcd").unwrap(), Vec::new());
    assert_eq!(check.crc(), 0xED82_CD11);
}

#[test]
fn chunk_is_decoded_field_by_field() {
    let chunk = Chunk::try_from(&sample_bytes()).unwrap();
    assert_eq!(chunk.length(), 42);
    assert_eq!(chunk.chunk_type().to_string(), "RuSt");
    assert_eq!(chunk.chunk_type().bytes(), [82, 117, 83, 116]);
    assert_eq!(chunk.data_as_string().unwrap(), "This is where your secret message will be!");
    assert_eq!(chunk.crc(), 2882656334);
}

#[test]
fn chunk_bytes_are_length_code_payload_checksum() {
    let chunk = Chunk::new(ChunkType::from_str("maTt").unwrap(), "Hello Matt!".as_bytes().to_vec());
    let bytes = chunk.as_bytes();
    assert_eq!(bytes.len(), 4 + 4 + 11 + 4);
    assert_eq!(&bytes[0..4], &[0, 0, 0, 11]);
    assert_eq!(&bytes[4..8], "maTt".as_bytes());
    assert_eq!(&bytes[8..19], "Hello Matt!".as_bytes());
    assert_eq!(&bytes[19..23], &chunk.crc().to_be_bytes());
}

#[test]
fn decoding_what_was_encoded_gives_the_same_chunk() {
    for (code, data) in [
        ("RuSt", "This is where your secret message will be!".as_bytes().to_vec()),
        ("IEND", Vec::new()),
        ("maTt", vec![0, 255, 128, 7]),
        ("IDAT", vec![9; 1000]),
    ] {
        let made = Chunk::new(ChunkType::from_str(code).unwrap(), data.clone());
        let read = Chunk::try_from(&made.as_bytes()).unwrap();
        assert_eq!(read.length(), made.length());
        assert_eq!(read.length() as usize, data.len());
        assert_eq!(read.chunk_type(), made.chunk_type());
        assert_eq!(read.data(), made.data());
        assert_eq!(read.crc(), made.crc());
        assert_eq!(read.as_bytes(), made.as_bytes());
    }
}

#[test]
fn encoding_what_was_decoded_gives_the_same_bytes() {
    let bytes = sample_bytes();
    let chunk = Chunk::try_from(&bytes).unwrap();
    assert_eq!(chunk.as_bytes(), bytes);
}

#[test]
fn stored_checksum_is_not_verified() {
    let mut bytes = sample_bytes();
    let last = bytes.len() - 1;
    bytes[last] ^= 0xff;
    let chunk = Chunk::try_from(&bytes).unwrap();
    assert_eq!(chunk.crc(), 2882656334 ^ 0xff);
    assert_eq!(chunk.data_as_string().unwrap(), "This is where your secret message will be!");
    assert_eq!(chunk.as_bytes(), bytes);
}

#[test]
fn bytes_behind_the_checksum_are_ignored() {
    let mut bytes = sample_bytes();
    bytes.extend_from_slice(&[1, 2, 3]);
    let chunk = Chunk::try_from(&bytes).unwrap();
    assert_eq!(chunk.length(), 42);
    assert_eq!(chunk.as_bytes(), sample_bytes());
}

#[test]
fn fewer_than_twelve_bytes_are_no_chunk() {
    assert_eq!(Chunk::try_from(&[]).err(), Some(ChunkError::ConversionError));
    assert_eq!(
        Chunk::try_from(&[0, 0, 0, 0, 73, 69, 78, 68, 0xAE, 0x42, 0x60]).err(),
        Some(ChunkError::ConversionError)
    );
}

#[test]
fn type_code_with_a_digit_is_refused() {
    let bytes = [0, 0, 0, 0, 73, 69, 49, 68, 0, 0, 0, 0];
    assert_eq!(Chunk::try_from(&bytes).err(), Some(ChunkError::ConversionError));
}

#[test]
fn declared_length_past_the_end_is_an_unexpected_end() {
    let mut bytes = sample_bytes();
    bytes.pop();
    assert_eq!(Chunk::try_from(&bytes).err(), Some(ChunkError::UnexpectedEOF));
    let huge = [0xff, 0xff, 0xff, 0xff, 73, 69, 78, 68, 0, 0, 0, 0];
    assert_eq!(Chunk::try_from(&huge).err(), Some(ChunkError::UnexpectedEOF));
    let one = [0, 0, 0, 1, 73, 69, 78, 68, 0, 0, 0, 0];
    assert_eq!(Chunk::try_from(&one).err(), Some(ChunkError::UnexpectedEOF));
}

#[test]
fn invalid_type_code_is_reported_before_a_short_payload() {
    let bytes = [0, 0, 0, 9, 73, 69, 49, 68, 0, 0, 0, 0];
    assert_eq!(Chunk::try_from(&bytes).err(), Some(ChunkError::ConversionError));
}

#[test]
fn chunk_from_strings_holds_the_text_as_utf8() {
    let chunk = Chunk::from_strings("maTt", "Hello Matt!").unwrap();
    assert_eq!(chunk.length(), 11);
    assert_eq!(chunk.chunk_type().to_string(), "maTt");
    assert_eq!(chunk.data(), "Hello Matt!".as_bytes());
    assert_eq!(chunk.data_as_string().unwrap(), "Hello Matt!");
    let made = Chunk::new(ChunkType::from_str("maTt").unwrap(), "Hello Matt!".as_bytes().to_vec());
    assert_eq!(chunk.crc(), made.crc());

    let accents = Chunk::from_strings(" maTt ", "h\u{e9}llo").unwrap();
    assert_eq!(accents.length(), 6);
    assert_eq!(accents.data(), &[104, 0xc3, 0xa9, 108, 108, 111]);
    assert_eq!(accents.data_as_string().unwrap(), "h\u{e9}llo");
}

#[test]
fn chunk_from_strings_refuses_a_bad_type_code() {
    assert_eq!(Chunk::from_strings("ma1t", "x").err(), Some(ChunkError::ConversionError));
    assert_eq!(Chunk::from_strings("maTtt", "x").err(), Some(ChunkError::ConversionError));
    assert_eq!(Chunk::from_strings("", "x").err(), Some(ChunkError::ConversionError));
}

#[test]
fn payload_that_is_no_utf8_is_no_text() {
    let chunk = Chunk::new(ChunkType::from_str("RuSt").unwrap(), vec![0xff, 0xfe]);
    assert!(chunk.data_as_string().is_err());
    let cut = Chunk::new(ChunkType::from_str("RuSt").unwrap(), vec![104, 0xc3]);
    assert!(cut.data_as_string().is_err());
    let empty = Chunk::new(ChunkType::from_str("RuSt").unwrap(), Vec::new());
    assert_eq!(empty.data_as_string().unwrap(), "");
}

#[test]
fn chunk_errors_are_shown_by_name() {
    assert_eq!(ChunkError::ConversionError.to_string(), "ConversionError");
    assert_eq!(ChunkError::UnexpectedEOF.to_string(), "UnexpectedEOF");
}

#[test]
fn integers_are_framed_big_endian() {
    assert_eq!(u32_to_be_bytes(0), [0, 0, 0, 0]);
    assert_eq!(u32_to_be_bytes(13), [0, 0, 0, 13]);
    assert_eq!(u32_to_be_bytes(0x0102_0304), [1, 2, 3, 4]);
    assert_eq!(u32_to_be_bytes(u32::MAX), [255, 255, 255, 255]);
    assert_eq!(u32_to_be_bytes(2882656334), 2882656334u32.to_be_bytes());
    assert_eq!(u32_from_be_bytes([0, 0, 0, 13]), 13);
    assert_eq!(u32_from_be_bytes([1, 2, 3, 4]), 0x0102_0304);
    assert_eq!(u32_from_be_bytes([255, 255, 255, 255]), u32::MAX);
    assert_eq!(u32_from_be_bytes([0, 3, 255, 54]), 261942);
    for x in [0u32, 1, 255, 256, 65535, 65536, 0x00ff_ffff, 0x0100_0000, 0x8000_0000, u32::MAX] {
        assert_eq!(u32_from_be_bytes(u32_to_be_bytes(x)), x);
    }
}

#[test]
fn four_bytes_of_a_slice_become_an_array() {
    let bytes = [9u8, 8, 7, 6];
    assert_eq!(u8_4_from_slice(&bytes), [9, 8, 7, 6]);
    let longer = [1u8, 2, 3, 4, 5, 6];
    assert_eq!(u8_4_from_slice(&longer[2..6]), [3, 4, 5, 6]);
}
