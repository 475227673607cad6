use laxa::digest::{bucket_of_byte, pack_byte, DigestFormatError, FuzzyDigest, DIGEST_SIZE};

fn sample_bytes() -> Vec<u8> {
    (0..DIGEST_SIZE).map(|i| (i * 37 + 11) as u8).collect()
}

#[test]
fn round_trip_keeps_every_field() {
    let bytes = sample_bytes();
    let d = FuzzyDigest::from_bytes(&bytes).unwrap();
    assert_eq!(d.checksum(), bytes[0]);
    assert_eq!(d.length(), bytes[1]);
    assert_eq!(d.quartiles(), bytes[2]);
    assert_eq!(d.body(), &bytes[3..]);
    let again = FuzzyDigest::from_bytes(&d.to_bytes()).unwrap();
    assert_eq!(again.to_bytes(), bytes);
}

#[test]
fn wrong_size_is_a_format_error() {
    assert_eq!(
        FuzzyDigest::from_bytes(&[0u8; 34]).err(),
        Some(DigestFormatError::InvalidLength)
    );
    assert_eq!(
        FuzzyDigest::from_bytes(&[0u8; 36]).err(),
        Some(DigestFormatError::InvalidLength)
    );
    assert_eq!(FuzzyDigest::from_bytes(&[]).err(), Some(DigestFormatError::InvalidLength));
}

#[test]
fn quartile_nibbles() {
    let mut bytes = vec![0u8; DIGEST_SIZE];
    bytes[2] = 0xa3;
    let d = FuzzyDigest::from_bytes(&bytes).unwrap();
    assert_eq!(d.q1(), 0xa);
    assert_eq!(d.q2(), 0x3);
}

#[test]
fn buckets_read_most_significant_pair_first() {
    let mut bytes = vec![0u8; DIGEST_SIZE];
    bytes[3] = 0b01_10_11_00;
    bytes[4] = 0b11_00_00_01;
    let d = FuzzyDigest::from_bytes(&bytes).unwrap();
    assert_eq!(d.bucket(0), 1);
    assert_eq!(d.bucket(1), 2);
    assert_eq!(d.bucket(2), 3);
    assert_eq!(d.bucket(3), 0);
    assert_eq!(d.bucket(4), 3);
    assert_eq!(d.bucket(7), 1);
    assert_eq!(bucket_of_byte(0b10_01_11_00, 0), 2);
    assert_eq!(bucket_of_byte(0b10_01_11_00, 2), 3);
    assert_eq!(pack_byte(2, 1, 3, 0), 0b10_01_11_00);
}
