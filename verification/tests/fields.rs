//! The grammar of header names and header values, byte by byte.

use response_decoder::field::{header_value_of, FieldName, MAX_NAME_LEN};

fn is_name_byte(b: u8) -> bool {
    b.is_ascii_alphanumeric() || b"!\"#$%&'*+-.^_`|~".contains(&b)
}

#[test]
fn name_bytes() {
    let mut accepted = 0;
    for b in 0..=255u8 {
        let name = FieldName::parse(&[b]);
        assert_eq!(name.is_some(), is_name_byte(b), "byte {}", b);
        if let Some(name) = name {
            assert_eq!(name.as_bytes(), &[b.to_ascii_lowercase()]);
            accepted += 1;
        }
    }
    assert_eq!(accepted, 78);
}

#[test]
fn name_bytes_in_a_long_name() {
    for b in 0..=255u8 {
        let mut name = vec![b'a'; 100];
        name[70] = b;
        assert_eq!(FieldName::parse(&name).is_some(), is_name_byte(b), "byte {}", b);
    }
}

#[test]
fn names_are_lowered() {
    let name = FieldName::parse(b"Content-Type").unwrap();
    assert_eq!(name.as_bytes(), b"content-type");
    let name = FieldName::parse(b"X-ABCDEFGHIJKLMNOPQRSTUVWXYZ_09").unwrap();
    assert_eq!(name.as_bytes(), b"x-abcdefghijklmnopqrstuvwxyz_09");
    let long = vec![b'Q'; 300];
    assert_eq!(FieldName::parse(&long).unwrap().as_bytes(), &vec![b'q'; 300][..]);
}

#[test]
fn name_lengths() {
    assert!(FieldName::parse(b"").is_none());
    assert!(FieldName::parse(b"a").is_some());
    assert!(FieldName::parse(&vec![b'a'; 64]).is_some());
    assert!(FieldName::parse(&vec![b'a'; 65]).is_some());
    assert_eq!(MAX_NAME_LEN, 65_535);
    assert!(FieldName::parse(&vec![b'a'; MAX_NAME_LEN]).is_some());
    assert!(FieldName::parse(&vec![b'a'; MAX_NAME_LEN + 1]).is_none());
}

#[test]
fn names_with_a_control_character_or_a_separator() {
    for name in [&b"a\x00b"[..], b"a\x1fb", b"a b", b"a:b", b"a\tb", b"a\x7fb", b"a\xc3\xa9", b"a(b", b"a/b"] {
        assert!(FieldName::parse(name).is_none(), "{:?}", name);
    }
}

#[test]
fn value_bytes() {
    for b in 0..=255u8 {
        let expected = b == b'\t' || (32..127).contains(&b);
        assert_eq!(header_value_of(&[b]).is_some(), expected, "byte {}", b);
        assert_eq!(header_value_of(&[b'a', b, b'z']).is_some(), expected, "byte {}", b);
    }
}

#[test]
fn values_are_kept_as_they_are() {
    assert_eq!(header_value_of(b""), Some(vec![]));
    assert_eq!(header_value_of(b"Keep-Alive"), Some(b"Keep-Alive".to_vec()));
    assert_eq!(header_value_of(b"a\tb  c"), Some(b"a\tb  c".to_vec()));
}

#[test]
fn values_beyond_ascii_must_be_text() {
    assert_eq!(header_value_of("é".as_bytes()), Some(vec![0xc3, 0xa9]));
    assert_eq!(header_value_of("日本語".as_bytes()), Some("日本語".as_bytes().to_vec()));
    assert_eq!(header_value_of(&[0xc3]), None);
    assert_eq!(header_value_of(&[0xa9, 0xc3]), None);
    assert_eq!(header_value_of(&[0xc0, 0x80]), None);
    assert_eq!(header_value_of(&[0xed, 0xa0, 0x80]), None);
    assert_eq!(header_value_of(&[0xf4, 0x90, 0x80, 0x80]), None);
    assert_eq!(header_value_of(&[0xff]), None);
}
