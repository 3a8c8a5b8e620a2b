use clipforge::base64::base64_encode;

#[test]
fn encodes_empty_input_as_empty_text() {
    assert_eq!(base64_encode(b""), "");
}

#[test]
fn pads_one_byte_with_two_marks() {
    assert_eq!(base64_encode(b"f"), "Zg==");
}

#[test]
fn pads_two_bytes_with_one_mark() {
    assert_eq!(base64_encode(b"fo"), "Zm8=");
}

#[test]
fn encodes_full_groups_without_padding() {
    assert_eq!(base64_encode(b"foo"), "Zm9v");
    assert_eq!(base64_encode(b"foobar"), "Zm9vYmFy");
}

#[test]
fn encodes_mixed_lengths() {
    assert_eq!(base64_encode(b"foob"), "Zm9vYg==");
    assert_eq!(base64_encode(b"fooba"), "Zm9vYmE=");
    assert_eq!(base64_encode(b"hello"), "aGVsbG8=");
}

#[test]
fn reaches_both_ends_of_the_alphabet() {
    assert_eq!(base64_encode(&[0x00, 0x00, 0x00]), "AAAA");
    assert_eq!(base64_encode(&[0xff, 0xff, 0xff]), "////");
    assert_eq!(base64_encode(&[0xfb, 0xef, 0xbe]), "++++");
    assert_eq!(base64_encode(&[0x89, 0x50, 0x4e, 0x47]), "iVBORw==");
}
