use imgmod::png::chunk::{Chunk, ChunkError};
use imgmod::png::chunk_type::ChunkType;
use imgmod::png::image::{Png, PngError};

const SIGNATURE: [u8; 8] = [137, 80, 78, 71, 13, 10, 26, 10];

fn chunk(code: &str, data: &[u8]) -> Chunk {
    Chunk::new(ChunkType::from_str(code).unwrap(), data.to_vec())
}

fn header_payload() -> Vec<u8> {
    vec![0, 0, 0, 1, 0, 0, 0, 1, 8, 2, 0, 0, 0]
}

fn minimal_file() -> Vec<u8> {
    let mut bytes = SIGNATURE.to_vec();
    bytes.extend(chunk("IHDR", &header_payload()).as_bytes());
    bytes.extend(chunk("IEND", &[]).as_bytes());
    bytes
}

fn codes(png: &Png) -> Vec<String> {
    png.chunks().iter().map(|c| c.chunk_type().to_string()).collect()
}

#[test]
fn signature_is_the_eight_fixed_bytes() {
    assert_eq!(Png::STANDARD_HEADER, [0x89, 0x50, 0x4E, 0x47, 0x0D, 0x0A, 0x1A, 0x0A]);
    let png = Png::from_chunks(Vec::new());
    assert_eq!(png.header(), &SIGNATURE);
    assert_eq!(png.as_bytes(), SIGNATURE.to_vec());
    let read = Png::try_from(&minimal_file()).unwrap();
    assert_eq!(read.header(), &SIGNATURE);
}

#[test]
fn minimal_file_decodes_to_two_chunks_and_encodes_to_itself() {
    let bytes = minimal_file();
    assert_eq!(bytes.len(), 8 + 25 + 12);
    let png = Png::try_from(&bytes).unwrap();
    assert_eq!(png.chunks().len(), 2);
    assert_eq!(png.chunks()[0].chunk_type().to_string(), "IHDR");
    assert_eq!(png.chunks()[0].length(), 13);
    assert_eq!(png.chunks()[0].data(), header_payload().as_slice());
    assert_eq!(png.chunks()[1].chunk_type().to_string(), "IEND");
    assert_eq!(png.chunks()[1].length(), 0);
    assert_eq!(png.chunks()[1].crc(), 0xAE42_6082);
    assert_eq!(png.as_bytes(), bytes);
}

#[test]
fn signature_alone_is_an_image_without_chunks() {
    let png = Png::try_from(&SIGNATURE).unwrap();
    assert_eq!(png.chunks().len(), 0);
    assert_eq!(png.as_bytes(), SIGNATURE.to_vec());
}

#[test]
fn appended_chunk_adds_its_framed_size_and_is_found() {
    let mut png = Png::try_from(&minimal_file()).unwrap();
    let before = png.as_bytes().len();
    png.append_chunk(Chunk::from_strings("maTt", "Hello Matt!").unwrap());
    let after = png.as_bytes();
    assert_eq!(after.len(), before + 23);
    assert_eq!(after.len(), before + 4 + 4 + 11 + 4);
    assert_eq!(&after[..before], minimal_file().as_slice());
    assert_eq!(codes(&png), ["IHDR", "IEND", "maTt"]);
    let found = png.chunk_by_type("maTt").unwrap();
    assert_eq!(found.data_as_string().unwrap(), "Hello Matt!");
    assert_eq!(found.length(), 11);
    // and the file that was written is read back with the chunk in it
    let again = Png::try_from(&after).unwrap();
    assert_eq!(again.chunk_by_type("maTt").unwrap().data_as_string().unwrap(), "Hello Matt!");
    assert_eq!(again.as_bytes(), after);
}

#[test]
fn image_from_chunks_keeps_their_order() {
    let png = Png::from_chunks(vec![chunk("FrSt", b"one"), chunk("miDl", b"two"), chunk("LASt", b"three")]);
    assert_eq!(codes(&png), ["FrSt", "miDl", "LASt"]);
    let bytes = png.as_bytes();
    let mut expected = SIGNATURE.to_vec();
    expected.extend(chunk("FrSt", b"one").as_bytes());
    expected.extend(chunk("miDl", b"two").as_bytes());
    expected.extend(chunk("LASt", b"three").as_bytes());
    assert_eq!(bytes, expected);
    assert_eq!(bytes.len(), 8 + (12 + 3) + (12 + 3) + (12 + 5));
}

#[test]
fn written_image_is_read_back_chunk_by_chunk() {
    let png = Png::from_chunks(vec![
        chunk("IHDR", &header_payload()),
        chunk("teXt", "h\u{e9}llo".as_bytes()),
        chunk("IDAT", &[7; 300]),
        chunk("teXt", b"again"),
        chunk("IEND", &[]),
    ]);
    let read = Png::try_from(&png.as_bytes()).unwrap();
    assert_eq!(read.header(), png.header());
    assert_eq!(read.chunks().len(), png.chunks().len());
    for (a, b) in read.chunks().iter().zip(png.chunks().iter()) {
        assert_eq!(a.length(), b.length());
        assert_eq!(a.chunk_type(), b.chunk_type());
        assert_eq!(a.data(), b.data());
        assert_eq!(a.crc(), b.crc());
    }
    assert_eq!(read.as_bytes(), png.as_bytes());
}

#[test]
fn first_of_several_chunks_of_a_type_is_found() {
    let png = Png::from_chunks(vec![
        chunk("IHDR", &header_payload()),
        chunk("teXt", b"first"),
        chunk("teXt", b"second"),
        chunk("IEND", &[]),
    ]);
    assert_eq!(png.chunk_by_type("teXt").unwrap().data(), b"first");
    assert_eq!(png.chunk_by_type("IEND").unwrap().length(), 0);
    assert!(png.chunk_by_type("none").is_none());
    assert!(png.chunk_by_type("text").is_none());
    // the name is compared as it is given
    assert!(png.chunk_by_type(" teXt").is_none());
    assert!(png.chunk_by_type("").is_none());
    assert_eq!(png.chunks().len(), 4);
}

#[test]
fn removing_takes_the_first_of_a_type_and_keeps_the_order() {
    let mut png = Png::from_chunks(vec![
        chunk("IHDR", &header_payload()),
        chunk("teXt", b"first"),
        chunk("IDAT", &[1, 2, 3]),
        chunk("teXt", b"second"),
        chunk("IEND", &[]),
    ]);
    let found = png.chunk_by_type("teXt").unwrap().as_bytes();
    let removed = png.remove_chunk("teXt").unwrap();
    assert_eq!(removed.data(), b"first");
    assert_eq!(removed.as_bytes(), found);
    assert_eq!(codes(&png), ["IHDR", "IDAT", "teXt", "IEND"]);
    assert_eq!(png.chunks()[1].data(), &[1, 2, 3]);
    assert_eq!(png.chunks()[2].data(), b"second");

    let removed = png.remove_chunk("teXt").unwrap();
    assert_eq!(removed.data(), b"second");
    assert_eq!(codes(&png), ["IHDR", "IDAT", "IEND"]);

    assert_eq!(png.remove_chunk("teXt").err(), Some(PngError::InvalidChunk));
    assert_eq!(codes(&png), ["IHDR", "IDAT", "IEND"]);

    let mut expected = SIGNATURE.to_vec();
    expected.extend(chunk("IHDR", &header_payload()).as_bytes());
    expected.extend(chunk("IDAT", &[1, 2, 3]).as_bytes());
    expected.extend(chunk("IEND", &[]).as_bytes());
    assert_eq!(png.as_bytes(), expected);
}

#[test]
fn removing_from_an_empty_image_finds_nothing() {
    let mut png = Png::from_chunks(Vec::new());
    assert_eq!(png.remove_chunk("IEND").err(), Some(PngError::InvalidChunk));
    assert!(png.chunk_by_type("IEND").is_none());
}

#[test]
fn appending_and_removing_gives_the_file_back() {
    let mut png = Png::try_from(&minimal_file()).unwrap();
    png.append_chunk(Chunk::from_strings("maTt", "Hello Matt!").unwrap());
    png.remove_chunk("maTt").unwrap();
    assert_eq!(png.as_bytes(), minimal_file());
}

#[test]
fn declared_length_past_the_end_of_the_file_is_an_unexpected_end() {
    let mut bytes = minimal_file();
    // the header chunk now claims 14 bytes of payload more than the file holds
    bytes[8..12].copy_from_slice(&[0, 0, 0, 60]);
    assert_eq!(Png::try_from(&bytes).err(), Some(PngError::UnexpectedEOF));

    let mut cut = minimal_file();
    cut.pop();
    assert_eq!(Png::try_from(&cut).err(), Some(PngError::UnexpectedEOF));

    let mut huge = SIGNATURE.to_vec();
    huge.extend([0xff, 0xff, 0xff, 0xff, 73, 69, 78, 68, 0, 0, 0, 0]);
    assert_eq!(Png::try_from(&huge).err(), Some(PngError::UnexpectedEOF));
}

#[test]
fn fewer_than_four_bytes_of_a_length_field_are_an_unexpected_end() {
    for extra in 1..4 {
        let mut bytes = minimal_file();
        bytes.extend(vec![0; extra]);
        assert_eq!(Png::try_from(&bytes).err(), Some(PngError::UnexpectedEOF));
    }
    let mut bytes = minimal_file();
    bytes.extend([0, 0, 0, 0, 73, 69, 78]);
    assert_eq!(Png::try_from(&bytes).err(), Some(PngError::UnexpectedEOF));
}

#[test]
fn wrong_signature_is_refused_whatever_follows() {
    let mut bytes = minimal_file();
    bytes[0] = 0x88;
    assert_eq!(Png::try_from(&bytes).err(), Some(PngError::InvalidSignature));
    let mut bytes = minimal_file();
    bytes[7] = 11;
    assert_eq!(Png::try_from(&bytes).err(), Some(PngError::InvalidSignature));
    assert_eq!(Png::try_from(&minimal_file()[8..]).err(), Some(PngError::InvalidSignature));
    assert_eq!(Png::try_from(&[]).err(), Some(PngError::InvalidSignature));
    assert_eq!(Png::try_from(&SIGNATURE[..7]).err(), Some(PngError::InvalidSignature));
}

#[test]
fn chunk_with_a_bad_type_code_makes_the_file_malformed() {
    let mut bytes = minimal_file();
    bytes[12] = b'1';
    assert_eq!(Png::try_from(&bytes).err(), Some(PngError::Chunk(ChunkError::ConversionError)));
    // also where the bad chunk is not the first
    let mut bytes = minimal_file();
    let at = bytes.len() - 8;
    bytes[at] = b'_';
    assert_eq!(Png::try_from(&bytes).err(), Some(PngError::Chunk(ChunkError::ConversionError)));
}

#[test]
fn first_unreadable_chunk_decides_the_error() {
    // a bad type code in front of a truncated chunk
    let mut bytes = SIGNATURE.to_vec();
    bytes.extend([0, 0, 0, 0, 73, 69, 49, 68, 0, 0, 0, 0]);
    bytes.extend([0, 0, 0, 9, 73, 69, 78, 68]);
    assert_eq!(Png::try_from(&bytes).err(), Some(PngError::Chunk(ChunkError::ConversionError)));
    // a truncated chunk with a bad type code: the length is tested first
    let mut bytes = SIGNATURE.to_vec();
    bytes.extend([0, 0, 0, 9, 73, 69, 49, 68, 0, 0, 0, 0]);
    assert_eq!(Png::try_from(&bytes).err(), Some(PngError::UnexpectedEOF));
}

#[test]
fn no_type_code_ends_the_file_early() {
    let mut bytes = minimal_file();
    bytes.extend(chunk("teXt", b"behind the end").as_bytes());
    let png = Png::try_from(&bytes).unwrap();
    assert_eq!(codes(&png), ["IHDR", "IEND", "teXt"]);
    assert_eq!(png.as_bytes(), bytes);
    // and none is required
    let mut only = SIGNATURE.to_vec();
    only.extend(chunk("teXt", b"alone").as_bytes());
    assert_eq!(codes(&Png::try_from(&only).unwrap()), ["teXt"]);
}

#[test]
fn wrong_checksum_in_a_file_is_kept_as_it_stands() {
    let mut bytes = minimal_file();
    let last = bytes.len() - 1;
    bytes[last] ^= 1;
    let png = Png::try_from(&bytes).unwrap();
    assert_eq!(png.chunks()[1].crc(), 0xAE42_6082 ^ 1);
    assert_eq!(png.as_bytes(), bytes);
}

#[test]
fn png_errors_are_shown_by_name() {
    assert_eq!(PngError::InvalidSignature.to_string(), "InvalidSignature");
    assert_eq!(PngError::InvalidChunk.to_string(), "InvalidChunk");
    assert_eq!(PngError::UnexpectedEOF.to_string(), "UnexpectedEOF");
    assert_eq!(PngError::Chunk(ChunkError::ConversionError).to_string(), "Chunk(ConversionError)");
    assert_eq!(PngError::Chunk(ChunkError::UnexpectedEOF).to_string(), "Chunk(UnexpectedEOF)");
}
