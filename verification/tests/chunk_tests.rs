use pngme::Chunk;
use pngme::ChunkType;
use pngme::PngError;

fn testing_chunk() -> Chunk {
    let data_length: u32 = 42;
    let chunk_type = "RuSt".as_bytes();
    let message_bytes = "This is where your secret message will be!".as_bytes();
    let crc: u32 = 2882656334;

    let chunk_data: Vec<u8> = data_length
        .to_be_bytes()
        .iter()
        .chain(chunk_type.iter())
        .chain(message_bytes.iter())
        .chain(crc.to_be_bytes().iter())
        .copied()
        .collect();

    Chunk::parse(chunk_data.as_ref()).unwrap()
}

#[test]
fn test_new_chunk() {
    let chunk_type = ChunkType::parse_str("RuSt").unwrap();
    let data = "This is where your secret message will be!"
        .as_bytes()
        .to_vec();
    let chunk = Chunk::new(chunk_type, data);
    assert_eq!(chunk.length(), 42);
    assert_eq!(chunk.crc(), 2882656334);
}

#[test]
fn test_chunk_length() {
    let chunk = testing_chunk();
    assert_eq!(chunk.length(), 42);
}

#[test]
fn test_chunk_type() {
    let chunk = testing_chunk();
    assert_eq!(chunk.chunk_type().to_string(), String::from("RuSt"));
}

#[test]
fn test_chunk_string() {
    let chunk = testing_chunk();
    let chunk_string = chunk.data_as_string().unwrap();
    let expected_chunk_string = String::from("This is where your secret message will be!");
    assert_eq!(chunk_string, expected_chunk_string);
}

#[test]
fn test_chunk_crc() {
    let chunk = testing_chunk();
    assert_eq!(chunk.crc(), 2882656334);
}

#[test]
fn test_valid_chunk_from_bytes() {
    let data_length: u32 = 42;
    let chunk_type = "RuSt".as_bytes();
    let message_bytes = "This is where your secret message will be!".as_bytes();
    let crc: u32 = 2882656334;

    let chunk_data: Vec<u8> = data_length
        .to_be_bytes()
        .iter()
        .chain(chunk_type.iter())
        .chain(message_bytes.iter())
        .chain(crc.to_be_bytes().iter())
        .copied()
        .collect();

    let chunk = Chunk::parse(chunk_data.as_ref()).unwrap();

    let chunk_string = chunk.data_as_string().unwrap();
    let expected_chunk_string = String::from("This is where your secret message will be!");

    assert_eq!(chunk.length(), 42);
    assert_eq!(chunk.chunk_type().to_string(), String::from("RuSt"));
    assert_eq!(chunk_string, expected_chunk_string);
    assert_eq!(chunk.crc(), 2882656334);
}

#[test]
fn test_invalid_chunk_from_bytes() {
    let data_length: u32 = 42;
    let chunk_type = "RuSt".as_bytes();
    let message_bytes = "This is where your secret message will be!".as_bytes();
    let crc: u32 = 2882656333;

    let chunk_data: Vec<u8> = data_length
        .to_be_bytes()
        .iter()
        .chain(chunk_type.iter())
        .chain(message_bytes.iter())
        .chain(crc.to_be_bytes().iter())
        .copied()
        .collect();

    let chunk = Chunk::parse(chunk_data.as_ref());

    assert!(chunk.is_err());
}

#[test]
fn test_chunk_trait_impls() {
    let data_length: u32 = 42;
    let chunk_type = "RuSt".as_bytes();
    let message_bytes = "This is where your secret message will be!".as_bytes();
    let crc: u32 = 2882656334;

    let chunk_data: Vec<u8> = data_length
        .to_be_bytes()
        .iter()
        .chain(chunk_type.iter())
        .chain(message_bytes.iter())
        .chain(crc.to_be_bytes().iter())
        .copied()
        .collect();

    let chunk: Chunk = Chunk::parse(chunk_data.as_ref()).unwrap();

    let _chunk_string = format!(
        "Chunk: length {} type {} crc {}",
        chunk.length(),
        chunk.chunk_type().to_string(),
        chunk.crc()
    );
}

#[test]
fn test_round_trip_through_bytes() {
    let chunk_type = ChunkType::parse_str("TeSt").unwrap();
    let data: Vec<u8> = vec![0, 1, 2, 127, 128, 255];
    let chunk = Chunk::new(chunk_type, data.clone());
    let serialized = chunk.as_bytes();
    let reparsed = Chunk::parse(serialized.as_ref()).unwrap();
    assert_eq!(reparsed.length(), chunk.length());
    assert_eq!(
        reparsed.chunk_type().to_string(),
        chunk.chunk_type().to_string()
    );
    assert_eq!(reparsed.data(), chunk.data());
    assert_eq!(reparsed.crc(), chunk.crc());
}

#[test]
fn test_exact_wire_layout() {
    let chunk_type = ChunkType::parse_str("TeSt").unwrap();
    let chunk = Chunk::new(chunk_type, vec![1, 2]);
    let serialized = chunk.as_bytes();
    assert_eq!(serialized.len(), 14);
    assert_eq!(&serialized[0..4], &[0, 0, 0, 2]);
    assert_eq!(&serialized[4..8], "TeSt".as_bytes());
    assert_eq!(&serialized[8..10], &[1, 2]);
    assert_eq!(&serialized[10..14], &chunk.crc().to_be_bytes());
}

#[test]
fn test_empty_payload_round_trip() {
    let chunk_type = ChunkType::parse_str("TeSt").unwrap();
    let chunk = Chunk::new(chunk_type, Vec::new());
    assert_eq!(chunk.length(), 0);
    let serialized = chunk.as_bytes();
    assert_eq!(serialized.len(), 12);
    let reparsed = Chunk::parse(serialized.as_ref()).unwrap();
    assert_eq!(reparsed.length(), 0);
    assert_eq!(reparsed.crc(), chunk.crc());
}

#[test]
fn test_crc_bit_flip_rejected() {
    let chunk_type = ChunkType::parse_str("RuSt").unwrap();
    let data = "This is where your secret message will be!"
        .as_bytes()
        .to_vec();
    let chunk = Chunk::new(chunk_type, data);
    let good = chunk.as_bytes();
    // Flip each single bit of the four-byte crc field in turn.
    for byte_in_field in 0..4 {
        for bit in 0..8 {
            let mut bad = good.clone();
            let idx = good.len() - 4 + byte_in_field;
            bad[idx] ^= 1u8 << bit;
            assert_eq!(Chunk::parse(bad.as_ref()).unwrap_err(), PngError::InvalidCrc);
        }
    }
}

#[test]
fn test_truncated_payload_rejected() {
    let data_length: u32 = 42;
    let chunk_type = "RuSt".as_bytes();
    let short_payload = "only a few bytes".as_bytes();
    let crc: u32 = 2882656334;

    let chunk_data: Vec<u8> = data_length
        .to_be_bytes()
        .iter()
        .chain(chunk_type.iter())
        .chain(short_payload.iter())
        .chain(crc.to_be_bytes().iter())
        .copied()
        .collect();

    assert_eq!(Chunk::parse(chunk_data.as_ref()).unwrap_err(), PngError::TruncatedInput);
}

#[test]
fn test_tiny_buffer_rejected() {
    let buf: Vec<u8> = vec![0, 0];
    assert_eq!(Chunk::parse(buf.as_ref()).unwrap_err(), PngError::TruncatedInput);
}

#[test]
fn test_nonalphabetic_type_rejected() {
    let chunk_type = "RU1T".as_bytes();
    let payload = "hi".as_bytes();
    let data_length: u32 = payload.len() as u32;
    let crc: u32 = 0;

    let chunk_data: Vec<u8> = data_length
        .to_be_bytes()
        .iter()
        .chain(chunk_type.iter())
        .chain(payload.iter())
        .chain(crc.to_be_bytes().iter())
        .copied()
        .collect();

    assert_eq!(Chunk::parse(chunk_data.as_ref()).unwrap_err(), PngError::InvalidChunkType);
}

#[test]
fn test_data_as_string_maps_bytes_beyond_ascii() {
    let chunk_type = ChunkType::parse_str("TeSt").unwrap();
    let chunk = Chunk::new(chunk_type, vec![72, 105, 0xC3, 0xA9]);
    let s = chunk.data_as_string().unwrap();
    let expected: String = [72u8, 105, 0xC3, 0xA9].iter().map(|b| *b as char).collect();
    assert_eq!(s, expected);
    assert_eq!(s.chars().count(), 4);
}
