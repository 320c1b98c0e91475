use flowy_document::codec::{from_bytes, to_bytes};
use flowy_document::document::Glyph;

#[test]
fn round_trip_keeps_text_and_style() {
    let glyphs = vec![Glyph { ch: 'a', style: 0 }, Glyph { ch: 'é', style: 3 }, Glyph { ch: '😀', style: 0xdead_beef }];
    let bytes = to_bytes(&glyphs);
    assert_eq!(bytes.len(), 24);
    assert_eq!(&bytes[0..8], &[0x61, 0, 0, 0, 0, 0, 0, 0]);
    assert_eq!(&bytes[8..16], &[0xe9, 0, 0, 0, 3, 0, 0, 0]);
    assert_eq!(from_bytes(&bytes), Some(glyphs));
    assert_eq!(from_bytes(&Vec::new()), Some(Vec::new()));
}

#[test]
fn malformed_bytes_are_refused() {
    assert_eq!(from_bytes(&vec![0x61, 0, 0, 0]), None);
    assert_eq!(from_bytes(&vec![0x00, 0xd8, 0, 0, 0, 0, 0, 0]), None);
    assert_eq!(from_bytes(&vec![0x00, 0x00, 0x11, 0, 0, 0, 0, 0]), None);
}
