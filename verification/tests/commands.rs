use pngme::commands::{decode_message, encode_message, remove_chunk};
use pngme::error::PngError;

const SIGNATURE: [u8; 8] = [137, 80, 78, 71, 13, 10, 26, 10];

#[test]
fn test_encode_then_decode() {
    let bytes: Vec<u8> = SIGNATURE.to_vec();
    let png = encode_message(&bytes, "RuSt", "a hidden message").unwrap();
    let encoded = png.as_bytes();

    let decoded = decode_message(&encoded, "RuSt").unwrap();
    assert_eq!(decoded, "a hidden message");
}

#[test]
fn test_encode_bad_type_text() {
    let bytes: Vec<u8> = SIGNATURE.to_vec();
    let r = encode_message(&bytes, "toolong", "message");
    assert_eq!(r.unwrap_err(), PngError::InvalidLength);
}

#[test]
fn test_encode_bad_signature() {
    let bytes: Vec<u8> = vec![1, 2, 3];
    let r = encode_message(&bytes, "RuSt", "message");
    assert_eq!(r.unwrap_err(), PngError::BadSignature);
}

#[test]
fn test_decode_missing_chunk() {
    let bytes: Vec<u8> = SIGNATURE.to_vec();
    let r = decode_message(&bytes, "RuSt");
    assert_eq!(r.unwrap_err(), PngError::ChunkNotFound);
}

#[test]
fn test_decode_empty_payload() {
    let bytes: Vec<u8> = SIGNATURE.to_vec();
    let png = encode_message(&bytes, "RuSt", "").unwrap();
    let encoded = png.as_bytes();
    assert_eq!(decode_message(&encoded, "RuSt").unwrap_err(), PngError::EmptyPayload);
}

#[test]
fn test_remove_then_decode_fails() {
    let bytes: Vec<u8> = SIGNATURE.to_vec();
    let png = encode_message(&bytes, "RuSt", "a hidden message").unwrap();
    let encoded = png.as_bytes();

    let (stripped, removed) = remove_chunk(&encoded, "RuSt").unwrap();
    assert_eq!(removed.data_as_string().unwrap(), "a hidden message");
    assert_eq!(stripped.as_bytes(), SIGNATURE.to_vec());
    assert_eq!(
        decode_message(&stripped.as_bytes(), "RuSt").unwrap_err(),
        PngError::ChunkNotFound
    );
}

#[test]
fn test_remove_missing_chunk() {
    let bytes: Vec<u8> = SIGNATURE.to_vec();
    assert_eq!(remove_chunk(&bytes, "zzzz").unwrap_err(), PngError::ChunkNotFound);
}

#[test]
fn test_remove_truncated_container() {
    let mut bytes: Vec<u8> = SIGNATURE.to_vec();
    bytes.extend_from_slice(&[0, 0, 0, 1]);
    assert_eq!(remove_chunk(&bytes, "RuSt").unwrap_err(), PngError::Truncated);
}
