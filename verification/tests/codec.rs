use dotsage::codec::{decode, encode};
use dotsage::record::{Category, Question};

fn sample(text: &str, category: Category) -> Question {
    Question {
        id: 42,
        author: [0xAB; 32],
        text: text.to_string(),
        category,
        created_at: 1_700_000_000_000,
        upvotes: 17,
        downvotes: 3,
    }
}

#[test]
fn round_trip_plain() {
    let q = sample("where are the docs?", Category::Docs);
    let bytes = encode(&q);
    let back = decode(&bytes).unwrap();
    assert_eq!(back, q);
}

#[test]
fn round_trip_unicode() {
    // Multi-byte characters exercise the UTF-8 leg of the codec: a codec
    // that stored anything but the exact text bytes would not come back.
    let q = sample("\u{00e9}\u{4e16}\u{754c} caf\u{00e9} \u{1f600}", Category::Ecosystem);
    let bytes = encode(&q);
    let back = decode(&bytes).unwrap();
    assert_eq!(back, q);
}

#[test]
fn round_trip_empty_text() {
    let q = sample("", Category::Governance);
    let bytes = encode(&q);
    assert_eq!(bytes.len(), 55);
    let back = decode(&bytes).unwrap();
    assert_eq!(back, q);
}

#[test]
fn question_equality_by_value() {
    let a = sample("same", Category::Docs);
    let b = sample("same", Category::Docs);
    assert_eq!(a, b);
    let mut c = sample("same", Category::Docs);
    c.author[31] = 0;
    assert_ne!(a, c);
    let d = sample("other", Category::Docs);
    assert_ne!(a, d);
}

#[test]
fn round_trip_every_category() {
    for c in [
        Category::Docs,
        Category::Builders,
        Category::Governance,
        Category::Ecosystem,
    ] {
        let q = sample("cat", c);
        let back = decode(&encode(&q)).unwrap();
        assert_eq!(back.category, c);
    }
}

#[test]
fn every_truncation_fails() {
    let q = sample("truncate me", Category::Builders);
    let bytes = encode(&q);
    for n in 0..bytes.len() {
        assert!(decode(&bytes[..n]).is_none(), "prefix of {} bytes decoded", n);
    }
}

#[test]
fn trailing_garbage_fails() {
    let q = sample("tail", Category::Docs);
    let mut bytes = encode(&q);
    bytes.push(0);
    assert!(decode(&bytes).is_none());
}

#[test]
fn unknown_category_discriminant_fails() {
    let q = sample("", Category::Docs);
    let mut bytes = encode(&q);
    // With empty text the category discriminant sits right after the header.
    assert_eq!(bytes[38], 0);
    for bad in [4u8, 5, 200, 255] {
        bytes[38] = bad;
        assert!(decode(&bytes).is_none(), "discriminant {} decoded", bad);
    }
    bytes[38] = 2;
    assert_eq!(decode(&bytes).unwrap().category, Category::Governance);
}

#[test]
fn invalid_utf8_fails() {
    let mut bytes = Vec::new();
    bytes.extend_from_slice(&[0, 0, 0, 0]); // id
    bytes.extend_from_slice(&[9u8; 32]); // author
    bytes.extend_from_slice(&[1, 0]); // text length 1
    bytes.push(0xFF); // not UTF-8
    bytes.push(0); // category
    bytes.extend_from_slice(&[0u8; 16]); // timestamp and counters
    assert_eq!(bytes.len(), 56);
    assert!(decode(&bytes).is_none());
}

#[test]
fn overlong_text_fails() {
    // 300 one-byte characters: well-formed UTF-8, but past the 256-character
    // cap that every stored record respects.
    let mut bytes = Vec::new();
    bytes.extend_from_slice(&[0, 0, 0, 0]);
    bytes.extend_from_slice(&[9u8; 32]);
    bytes.extend_from_slice(&(300u16).to_le_bytes());
    bytes.extend_from_slice(&[b'a'; 300]);
    bytes.push(0);
    bytes.extend_from_slice(&[0u8; 16]);
    assert!(decode(&bytes).is_none());
}

#[test]
fn empty_input_fails() {
    assert!(decode(&[]).is_none());
}

#[test]
fn length_field_mismatch_fails() {
    let q = sample("abc", Category::Docs);
    let mut bytes = encode(&q);
    // Claim a longer text than the buffer holds.
    bytes[36] = 200;
    assert!(decode(&bytes).is_none());
}
