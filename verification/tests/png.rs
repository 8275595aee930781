use pngme::chunk::Chunk;
use pngme::chunk_type::ChunkType;
use pngme::error::PngError;
use pngme::png::Png;

const SIGNATURE: [u8; 8] = [137, 80, 78, 71, 13, 10, 26, 10];

fn chunk(type_text: &str, message: &str) -> Chunk {
    let chunk_type = ChunkType::from_text(type_text).unwrap();
    Chunk::new(chunk_type, message.as_bytes().to_vec())
}

fn testing_png() -> Png {
    let mut png = Png::new();
    png.append_chunk(chunk("FrSt", "I am the first chunk"));
    png.append_chunk(chunk("miDl", "I am another chunk"));
    png.append_chunk(chunk("LASt", "I am the last chunk"));
    png
}

#[test]
fn test_parse_empty_container() {
    let bytes: Vec<u8> = SIGNATURE.to_vec();
    let png = Png::parse(&bytes).unwrap();
    assert_eq!(png.chunk_count(), 0);
    assert_eq!(png.as_bytes(), bytes);
}

#[test]
fn test_parse_bad_signature() {
    let bytes: Vec<u8> = vec![13, 80, 78, 71, 13, 10, 26, 10];
    assert_eq!(Png::parse(&bytes).unwrap_err(), PngError::BadSignature);

    let bytes: Vec<u8> = vec![137, 80, 78];
    assert_eq!(Png::parse(&bytes).unwrap_err(), PngError::BadSignature);
}

#[test]
fn test_parse_truncated_chunk_stream() {
    let mut bytes: Vec<u8> = SIGNATURE.to_vec();
    // A chunk that declares 5 payload bytes but carries none.
    bytes.extend_from_slice(&[0, 0, 0, 5, 82, 117, 83, 116, 0, 0, 0, 0]);
    assert_eq!(Png::parse(&bytes).unwrap_err(), PngError::Truncated);
}

#[test]
fn test_container_round_trip() {
    let png = testing_png();
    let bytes = png.as_bytes();

    let reparsed = Png::parse(&bytes).unwrap();
    assert_eq!(reparsed.as_bytes(), bytes);
    assert_eq!(reparsed.chunk_count(), 3);
    for i in 0..3 {
        assert_eq!(
            reparsed.chunk_at(i).as_bytes(),
            png.chunk_at(i).as_bytes()
        );
    }
}

#[test]
fn test_append_then_find() {
    let mut png = testing_png();
    png.append_chunk(chunk("TeSt", "Message"));

    let found = png.chunk_by_type("TeSt").unwrap();
    assert_eq!(found.chunk_type().to_text(), "TeSt");
    assert_eq!(found.data_as_string().unwrap(), "Message");
}

#[test]
fn test_find_first_of_duplicates() {
    let mut png = Png::new();
    png.append_chunk(chunk("RuSt", "first"));
    png.append_chunk(chunk("RuSt", "second"));

    let found = png.chunk_by_type("RuSt").unwrap();
    assert_eq!(found.data_as_string().unwrap(), "first");
}

#[test]
fn test_chunk_by_type_missing() {
    let png = testing_png();
    assert!(png.chunk_by_type("zzzz").is_none());
}

#[test]
fn test_remove_chunk_found() {
    let mut png = testing_png();
    let removed = png.remove_chunk("miDl").unwrap();
    assert_eq!(removed.chunk_type().to_text(), "miDl");
    assert_eq!(png.chunk_count(), 2);
    assert!(png.chunk_by_type("miDl").is_none());
    // The remaining chunks keep their relative order.
    assert_eq!(png.chunk_at(0).chunk_type().to_text(), "FrSt");
    assert_eq!(png.chunk_at(1).chunk_type().to_text(), "LASt");
}

#[test]
fn test_remove_missing_leaves_container_unchanged() {
    let mut png = testing_png();
    let before = png.as_bytes();
    assert_eq!(png.remove_chunk("zzzz").unwrap_err(), PngError::ChunkNotFound);
    assert_eq!(png.as_bytes(), before);
}
