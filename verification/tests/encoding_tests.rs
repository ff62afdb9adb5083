use whatszara::encoding::base64_encode;

fn b64(s: &str) -> String {
    String::from_utf8(base64_encode(&s.as_bytes().to_vec())).unwrap()
}

#[test]
fn base64_of_known_texts() {
    assert_eq!(b64(""), "");
    assert_eq!(b64("M"), "TQ==");
    assert_eq!(b64("Ma"), "TWE=");
    assert_eq!(b64("Man"), "TWFu");
    assert_eq!(b64("hello world"), "aGVsbG8gd29ybGQ=");
    assert_eq!(String::from_utf8(base64_encode(&vec![0xfb, 0xff, 0xbf])).unwrap(), "+/+/");
    assert_eq!(String::from_utf8(base64_encode(&vec![137, 80, 78, 71, 13, 10, 26, 10])).unwrap(), "iVBORw0KGgo=");
}
