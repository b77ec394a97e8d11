use rusty_workers_runtime::codec::{decode_id128, decode_key, encode_id128, render_key};
use rusty_workers_runtime::types::RequestObject;

#[test]
fn id128_encodes_to_lowercase_hex() {
    let id: Vec<u8> = vec![
        0x00, 0x01, 0x0a, 0x10, 0x7f, 0x80, 0xab, 0xcd, 0xef, 0xfe, 0x42, 0x13, 0x37, 0x99,
        0x00, 0xff,
    ];
    let encoded = encode_id128(&id);
    assert_eq!(encoded, b"00010a107f80abcdeffe4213379900ff".to_vec());
}

#[test]
fn id128_round_trips() {
    let id: Vec<u8> = (0u8..16).collect();
    let encoded = encode_id128(&id);
    assert_eq!(decode_id128(&encoded), Some(id));
}

#[test]
fn id128_rejects_bad_input() {
    assert_eq!(decode_id128(&b"too-short".to_vec()), None);
    // Right length, but holds a non-hex character.
    assert_eq!(decode_id128(&b"zz010a107f80abcdeffe4213379900ff".to_vec()), None);
    // Uppercase digits are not part of the rendering.
    assert_eq!(decode_id128(&b"AB010a107f80abcdeffe4213379900ff".to_vec()), None);
}

#[test]
fn raw_keys_pass_through_as_bytes() {
    assert_eq!(decode_key("abc", false), Some(b"abc".to_vec()));
    assert_eq!(render_key(b"abc".to_vec(), false), Some("abc".to_string()));
    assert_eq!(render_key(vec![0xff, 0xfe], false), None);
}

#[test]
fn base64_keys_are_decoded_and_encoded() {
    assert_eq!(decode_key("aGVsbG8=", true), Some(b"hello".to_vec()));
    assert_eq!(decode_key("!!!not base64!!!", true), None);
    assert_eq!(render_key(b"hello".to_vec(), true), Some("aGVsbG8=".to_string()));
    assert_eq!(render_key(Vec::new(), true), Some(String::new()));
}

#[test]
fn default_request_is_an_empty_get() {
    let req = RequestObject::default();
    assert_eq!(req.method, "GET");
    assert_eq!(req.url, "");
    assert!(req.headers.is_empty());
    assert!(req.body.is_empty());
}
