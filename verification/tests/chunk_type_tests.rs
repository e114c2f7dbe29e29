use pngme::ChunkType;
use pngme::PngError;

#[test]
fn test_parse_str_valid_flags() {
    let t = ChunkType::parse_str("RuSt").unwrap();
    assert!(t.is_valid());
    assert!(t.is_critical());
    assert!(!t.is_public());
    assert!(t.is_reserved_bit_valid());
    // Byte 3 is lowercase, so its case bit is set: the type is safe to copy.
    assert!(t.is_safe_to_copy());
}

#[test]
fn test_parse_str_constructs_but_invalid() {
    let t = ChunkType::parse_str("Rust").unwrap();
    assert!(!t.is_valid());
    assert!(!t.is_reserved_bit_valid());
}

#[test]
fn test_parse_str_nonalphabetic_fails() {
    assert_eq!(
        ChunkType::parse_str("RU1T"),
        Err(PngError::InvalidChunkType)
    );
}

#[test]
fn test_parse_str_wrong_length_fails() {
    assert_eq!(ChunkType::parse_str("Rus"), Err(PngError::InvalidChunkType));
    assert_eq!(
        ChunkType::parse_str("Rusty"),
        Err(PngError::InvalidChunkType)
    );
    assert_eq!(ChunkType::parse_str(""), Err(PngError::InvalidChunkType));
}

#[test]
fn test_parse_bytes_and_accessors() {
    let t = ChunkType::parse([82, 117, 83, 116]).unwrap();
    assert_eq!(t.bytes(), [82, 117, 83, 116]);
    assert_eq!(t.to_string(), String::from("RuSt"));
}

#[test]
fn test_parse_bytes_nonalphabetic_fails() {
    assert_eq!(
        ChunkType::parse([82, 117, 49, 116]),
        Err(PngError::InvalidChunkType)
    );
    assert_eq!(
        ChunkType::parse([0, 0, 0, 0]),
        Err(PngError::InvalidChunkType)
    );
}

#[test]
fn test_all_lowercase_flags() {
    let t = ChunkType::parse_str("rust").unwrap();
    assert!(!t.is_critical());
    assert!(t.is_public() == false);
    assert!(!t.is_reserved_bit_valid());
    assert!(t.is_safe_to_copy());
    assert!(!t.is_valid());
}

#[test]
fn test_all_uppercase_flags() {
    let t = ChunkType::parse_str("RUST").unwrap();
    assert!(t.is_critical());
    assert!(t.is_public());
    assert!(t.is_reserved_bit_valid());
    assert!(!t.is_safe_to_copy());
    assert!(t.is_valid());
}
