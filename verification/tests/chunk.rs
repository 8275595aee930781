use pngme::chunk::Chunk;
use pngme::chunk_type::ChunkType;
use pngme::error::PngError;

fn testing_chunk() -> Chunk {
    let data_length: u32 = 42;
    let chunk_type = "RuSt".as_bytes();
    let message_bytes = "This is where your secret message will be!".as_bytes();
    let crc: u32 = 2882656334;

    let chunk_data: Vec<u8> = data_length
        .to_be_bytes()
        .iter()
        .chain(chunk_type.iter())
        .chain(message_bytes.iter())
        .chain(crc.to_be_bytes().iter())
        .copied()
        .collect();

    Chunk::parse(&chunk_data).unwrap()
}

#[test]
fn test_new_chunk() {
    let chunk_type = ChunkType::from_text("RuSt").unwrap();
    let data = "This is where your secret message will be!"
        .as_bytes()
        .to_vec();
    let chunk = Chunk::new(chunk_type, data);
    assert_eq!(chunk.length(), 42);
    assert_eq!(chunk.crc(), 2882656334);
}

#[test]
fn test_chunk_length() {
    let chunk = testing_chunk();
    assert_eq!(chunk.length(), 42);
}

#[test]
fn test_chunk_type() {
    let chunk = testing_chunk();
    assert_eq!(chunk.chunk_type().to_text(), String::from("RuSt"));
}

#[test]
fn test_chunk_string() {
    let chunk = testing_chunk();
    let chunk_string = chunk.data_as_string().unwrap();
    let expected_chunk_string = String::from("This is where your secret message will be!");
    assert_eq!(chunk_string, expected_chunk_string);
}

#[test]
fn test_chunk_serialize_parse_round_trip() {
    let chunk_type = ChunkType::from_text("RuSt").unwrap();
    let data = "This is where your secret message will be!"
        .as_bytes()
        .to_vec();
    let original = Chunk::new(chunk_type, data);
    let bytes = original.as_bytes();

    let reparsed = Chunk::parse(&bytes).unwrap();
    assert_eq!(reparsed.chunk_type().bytes(), original.chunk_type().bytes());
    assert_eq!(reparsed.data(), original.data());
    assert_eq!(reparsed.crc(), original.crc());
    assert_eq!(reparsed.length(), original.length());
    assert_eq!(reparsed.as_bytes(), bytes);
}

#[test]
fn test_chunk_parse_truncated() {
    // Fewer than the 12 fixed bytes.
    let chunk_data: Vec<u8> = vec![0, 0, 0, 1, 82, 117, 83];
    assert_eq!(Chunk::parse(&chunk_data).unwrap_err(), PngError::Truncated);

    // A declared payload length larger than what follows.
    let chunk_data: Vec<u8> = vec![0, 0, 0, 9, 82, 117, 83, 116, 1, 2, 3, 4];
    assert_eq!(Chunk::parse(&chunk_data).unwrap_err(), PngError::Truncated);
}

#[test]
fn test_empty_payload_has_no_text() {
    let chunk_type = ChunkType::from_text("RuSt").unwrap();
    let chunk = Chunk::new(chunk_type, Vec::new());
    assert_eq!(chunk.length(), 0);
    assert_eq!(chunk.data_as_string(), Err(PngError::EmptyPayload));
}
