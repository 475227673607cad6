use std::cmp::Ordering;

use laxa::line_hash::{lex_compare, same_bytes, DigestConstructionError, LineHash};

/// Text with enough variety for the TLSH generator.
fn text(seed: usize, words: usize) -> String {
    (0..words)
        .map(|i| format!("w{}x{} ", (i * 7919 + seed * 104729) % 997, i % 13))
        .collect()
}

#[test]
fn short_input_is_rejected() {
    assert_eq!(
        LineHash::try_from_str("too short").err(),
        Some(DigestConstructionError::InputRejected)
    );
    assert_eq!(
        LineHash::try_from_iterator(&[]).err(),
        Some(DigestConstructionError::InputRejected)
    );
}

#[test]
fn fragments_hash_as_their_concatenation() {
    let t = text(1, 80);
    let (a, b) = t.split_at(t.len() / 2);
    let whole = LineHash::try_from_str(&t).unwrap();
    let parts = LineHash::try_from_iterator(&[a, b]).unwrap();
    assert!(whole == parts);
    assert_eq!(whole.digest().to_bytes(), parts.digest().to_bytes());
}

#[test]
fn digest_is_at_distance_zero_from_itself() {
    let h = LineHash::try_from_str(&text(2, 80)).unwrap();
    assert_eq!(h.compare(h.inner()), 0);
    let other = LineHash::try_from_str(&text(3, 80)).unwrap();
    assert!(h.compare(other.inner()) > 0);
    assert!(other.compare(h.inner()) > 0);
}

#[test]
fn digest_is_the_tlsh_digest_of_the_bytes() {
    let t = text(4, 80);
    let h = LineHash::try_from_str(&t).unwrap();
    let expected = tlsh::hash_buf(t.as_bytes()).unwrap();
    let mut bytes = vec![0u8; 35];
    let _ = tlsh::FuzzyHashType::store_into_bytes(&expected, &mut bytes);
    assert_eq!(h.digest().to_bytes(), bytes);
    assert_eq!(h.body(), &bytes[3..]);
    assert_eq!(h.inner().body(), h.body());
    let other = LineHash::try_from_str(&text(5, 80)).unwrap();
    let other_tlsh = tlsh::hash_buf(text(5, 80).as_bytes()).unwrap();
    assert_eq!(
        h.compare(other.digest()),
        tlsh::FuzzyHashType::compare(&expected, &other_tlsh)
    );
}

#[test]
fn equal_text_equal_hash() {
    let a = LineHash::try_from_str(&text(5, 80)).unwrap();
    let b = LineHash::try_from_str(&text(5, 80)).unwrap();
    let c = LineHash::try_from_str(&text(6, 80)).unwrap();
    assert!(a == b);
    assert!(a != c);
    assert_eq!(a.partial_cmp(&b), Some(Ordering::Equal));
}

#[test]
fn shorter_input_orders_first() {
    let short = LineHash::try_from_str(&text(7, 20)).unwrap();
    let long = LineHash::try_from_str(&text(7, 2000)).unwrap();
    assert!(short.digest().length() < long.digest().length());
    assert_eq!(short.partial_cmp(&long), Some(Ordering::Less));
    assert_eq!(long.partial_cmp(&short), Some(Ordering::Greater));
    assert!(short < long);
}

#[test]
fn equal_lengths_order_by_body() {
    let a = LineHash::try_from_str(&text(8, 80)).unwrap();
    let b = LineHash::try_from_str(&text(9, 80)).unwrap();
    if a.digest().length() == b.digest().length() {
        let expected = a.digest().body().cmp(b.digest().body());
        assert_eq!(a.partial_cmp(&b), Some(expected));
    }
}

#[test]
fn byte_string_helpers() {
    assert_eq!(lex_compare(&[0x00, 0xff], &[0x01]), Ordering::Less);
    assert_eq!(lex_compare(&[0x01], &[0x00, 0xff]), Ordering::Greater);
    assert_eq!(lex_compare(&[1, 2], &[1, 2, 3]), Ordering::Less);
    assert_eq!(lex_compare(&[1, 2], &[1, 2]), Ordering::Equal);
    assert_eq!(lex_compare(&[0x80], &[0x7f]), Ordering::Greater);
    assert!(same_bytes(&[1, 2, 3], &[1, 2, 3]));
    assert!(!same_bytes(&[1, 2, 3], &[1, 2, 4]));
    assert!(!same_bytes(&[1, 2], &[1, 2, 3]));
}
