use sha1::{Digest, Sha1};

use mega_p2p::blob::{
    bytes_eq, find_byte, parse_size_from_bytes, Blob, ObjectType, ParseSizeError, SHA1,
};

#[test]
fn test_parse_size_from_bytes() {
    let size: usize = 12345;
    let size_bytes = size.to_string().as_bytes().to_vec();

    let parsed_size = parse_size_from_bytes(&size_bytes).unwrap();

    assert_eq!(size, parsed_size);
}

#[test]
fn test_parse_size_accepts_leading_plus() {
    assert_eq!(parse_size_from_bytes(b"+123").unwrap(), 123);
    assert_eq!(parse_size_from_bytes(b"0").unwrap(), 0);
}

#[test]
fn test_parse_size_rejects_bad_input() {
    assert_eq!(parse_size_from_bytes(b"").unwrap_err(), ParseSizeError::NotANumber);
    assert_eq!(parse_size_from_bytes(b"+").unwrap_err(), ParseSizeError::NotANumber);
    assert_eq!(parse_size_from_bytes(b"12a").unwrap_err(), ParseSizeError::NotANumber);
    assert_eq!(parse_size_from_bytes(b"-5").unwrap_err(), ParseSizeError::NotANumber);
    assert_eq!(
        parse_size_from_bytes(b"99999999999999999999999999").unwrap_err(),
        ParseSizeError::TooLarge
    );
}

#[test]
fn test_find_byte() {
    assert_eq!(find_byte(b"blob 5\x00hello", 0x20), Some(4));
    assert_eq!(find_byte(b"blob 5\x00hello", 0x00), Some(6));
    assert_eq!(find_byte(b"hello", b'z'), None);
    assert_eq!(find_byte(b"aba", b'a'), Some(0));
}

#[test]
fn test_bytes_eq() {
    assert!(bytes_eq(b"abc", b"abc"));
    assert!(!bytes_eq(b"abc", b"abd"));
    assert!(!bytes_eq(b"abc", b"ab"));
}

#[test]
fn test_blob_from_bytes() {
    let raw = b"blob 13\x00Hello, world!".to_vec();
    let blob = Blob::from_bytes(raw.clone());
    assert_eq!(blob.size, 13);
    assert_eq!(blob.data, b"Hello, world!".to_vec());
    assert_eq!(blob.get_type(), ObjectType::Blob);
    // The identifier is the SHA-1 of the whole serialized form.
    let expected: Vec<u8> = Sha1::digest(&raw).to_vec();
    assert_eq!(blob.id.bytes, expected);
}

#[test]
fn test_blob_equality_is_by_id() {
    let a = Blob::from_bytes(b"blob 2\x00hi".to_vec());
    let b = Blob::from_bytes(b"blob 2\x00hi".to_vec());
    let c = Blob::from_bytes(b"blob 2\x00ho".to_vec());
    assert!(a == b);
    assert!(a != c);
}

#[test]
fn test_blob_from_bytes_with_id() {
    let id = SHA1::new(b"something else");
    let id_bytes = id.bytes.clone();
    let blob = Blob::from_bytes_with_id(b"blob 3\x00abc".to_vec(), id);
    assert_eq!(blob.size, 3);
    assert_eq!(blob.data, b"abc".to_vec());
    assert_eq!(blob.id.bytes, id_bytes);
}

#[test]
fn test_sha1_to_hex() {
    let id = SHA1 { bytes: vec![0x00, 0xab, 0x1f] };
    assert_eq!(id.to_hex(), b"00ab1f".to_vec());
}
