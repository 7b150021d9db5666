use mist::encoding::{is_encodable, to_base64};

#[test]
fn base64_is_padded() {
    assert_eq!(to_base64(&vec![]), "");
    assert_eq!(to_base64(&vec![b'f']), "Zg==");
    assert_eq!(to_base64(&vec![b'f', b'o']), "Zm8=");
    assert_eq!(to_base64(&vec![b'f', b'o', b'o']), "Zm9v");
    assert_eq!(to_base64(&b"foob".to_vec()), "Zm9vYg==");
    assert_eq!(to_base64(&b"fooba".to_vec()), "Zm9vYmE=");
    assert_eq!(to_base64(&b"foobar".to_vec()), "Zm9vYmFy");
}

#[test]
fn base64_uses_the_whole_standard_alphabet() {
    assert_eq!(to_base64(&vec![0xfb, 0xff, 0xbf]), "+/+/");
    assert_eq!(to_base64(&vec![0x00, 0x10, 0x83, 0x10, 0x51, 0x87]), "ABCDEFGH");
    assert_eq!(to_base64(&vec![0xd3, 0x5d, 0xb7, 0xe3, 0x9e, 0xbb]), "01234567");
    assert_eq!(to_base64(&vec![0x69, 0xb7, 0x1d]), "abcd");
}

#[test]
fn base64_tells_bytes_apart() {
    assert_ne!(to_base64(&vec![0]), to_base64(&vec![0, 0]));
    assert_ne!(to_base64(&vec![1, 2, 3]), to_base64(&vec![1, 2, 4]));
}

#[test]
fn ordinary_sizes_are_encodable() {
    assert!(is_encodable(0));
    assert!(is_encodable(0x1000));
    assert!(!is_encodable(usize::MAX));
    assert!(!is_encodable(isize::MAX as usize));
}
