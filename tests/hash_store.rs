use laxa::digest::{FuzzyDigest, BODY_SIZE, DIGEST_SIZE, NUM_BUCKETS};
use laxa::hash_store::{most_probable_byte, HashStore};

/// A digest with the given length, quartile ratios and bucket values.
fn digest_with(length: u8, q1: u8, q2: u8, buckets: &[u8; NUM_BUCKETS]) -> FuzzyDigest {
    let mut bytes = vec![0x5a, length, (q1 << 4) | q2];
    for i in 0..BODY_SIZE {
        bytes.push(
            (buckets[4 * i] << 6)
                | (buckets[4 * i + 1] << 4)
                | (buckets[4 * i + 2] << 2)
                | buckets[4 * i + 3],
        );
    }
    assert_eq!(bytes.len(), DIGEST_SIZE);
    FuzzyDigest::from_bytes(&bytes).unwrap()
}

fn pattern(seed: usize) -> [u8; NUM_BUCKETS] {
    let mut b = [0u8; NUM_BUCKETS];
    for (k, v) in b.iter_mut().enumerate() {
        *v = ((k * 7 + seed * 3) % 4) as u8;
    }
    b
}

#[test]
fn test_most_probable_byte() {
    assert_eq!(most_probable_byte(&[1, 938, 0, 2893, 287, 23, 827]), 3);
}

#[test]
fn most_probable_byte_takes_lowest_index_on_tie() {
    assert_eq!(most_probable_byte(&[4, 9, 2, 9, 9]), 1);
    assert_eq!(most_probable_byte(&[0, 0, 0]), 0);
    assert_eq!(most_probable_byte(&[7]), 0);
}

#[test]
fn empty_store_gives_all_zero_digest() {
    let store = HashStore::new();
    assert_eq!(store.len(), 0);
    let d = store.most_probable_hash();
    assert_eq!(d.checksum(), 0);
    assert_eq!(d.length(), 0);
    assert_eq!(d.q1(), 0);
    assert_eq!(d.q2(), 0);
    for k in 0..NUM_BUCKETS {
        assert_eq!(d.bucket(k), 0);
    }
    assert_eq!(HashStore::default().most_probable_hash().to_bytes(), vec![0u8; DIGEST_SIZE]);
}

#[test]
fn singleton_store_gives_back_the_digest() {
    let buckets = pattern(1);
    let d = digest_with(77, 9, 14, &buckets);
    let mut store = HashStore::new();
    store.add_hash(&d);
    assert_eq!(store.len(), 1);
    let c = store.most_probable_hash();
    assert_eq!(c.checksum(), 0);
    assert_eq!(c.length(), 77);
    assert_eq!(c.q1(), 9);
    assert_eq!(c.q2(), 14);
    for k in 0..NUM_BUCKETS {
        assert_eq!(c.bucket(k), buckets[k]);
    }
    assert_eq!(&c.to_bytes()[1..], &d.to_bytes()[1..]);
}

#[test]
fn majority_vote_on_bucket_zero() {
    let mut b1 = pattern(0);
    let mut b2 = pattern(1);
    let mut b3 = pattern(2);
    b1[0] = 1;
    b2[0] = 1;
    b3[0] = 2;
    let mut store = HashStore::new();
    store.add_hash(&digest_with(10, 1, 2, &b1));
    store.add_hash(&digest_with(20, 3, 4, &b2));
    store.add_hash(&digest_with(30, 5, 6, &b3));
    let c = store.most_probable_hash();
    assert_eq!(c.bucket(0), 1);
    // Every length seen once: the lowest wins the tie.
    assert_eq!(c.length(), 10);
    assert_eq!(c.q1(), 1);
    assert_eq!(c.q2(), 2);
}

#[test]
fn majority_picks_most_frequent_fields() {
    let mut store = HashStore::new();
    store.add_hash(&digest_with(200, 15, 0, &pattern(3)));
    store.add_hash(&digest_with(5, 2, 7, &pattern(0)));
    store.add_hash(&digest_with(200, 15, 7, &pattern(3)));
    let c = store.most_probable_hash();
    assert_eq!(c.length(), 200);
    assert_eq!(c.q1(), 15);
    assert_eq!(c.q2(), 7);
    assert_eq!(c.quartiles(), 0xf7);
    let expected = pattern(3);
    for k in 0..NUM_BUCKETS {
        assert_eq!(c.bucket(k), expected[k]);
    }
}

#[test]
fn folding_order_does_not_matter() {
    let ds = [
        digest_with(3, 1, 1, &pattern(0)),
        digest_with(9, 4, 2, &pattern(1)),
        digest_with(3, 4, 5, &pattern(2)),
        digest_with(9, 1, 5, &pattern(1)),
    ];
    let mut a = HashStore::new();
    for d in ds.iter() {
        a.add_hash(d);
    }
    let mut b = HashStore::new();
    for i in [2usize, 0, 3, 1] {
        b.add_hash(&ds[i]);
    }
    assert_eq!(a.most_probable_hash().to_bytes(), b.most_probable_hash().to_bytes());
    for k in 0..NUM_BUCKETS {
        assert_eq!(a.most_probable_bucket(k), b.most_probable_bucket(k));
    }
}

#[test]
fn queries_interleave_with_adds() {
    let mut store = HashStore::new();
    store.add_hash(&digest_with(40, 2, 3, &pattern(0)));
    assert_eq!(store.most_probable_hash().length(), 40);
    store.add_hash(&digest_with(50, 2, 3, &pattern(0)));
    store.add_hash(&digest_with(50, 2, 3, &pattern(0)));
    assert_eq!(store.most_probable_hash().length(), 50);
    assert_eq!(store.len(), 3);
}
