//! The binary layout of a 128-bucket TLSH digest, as plain values.

use vstd::prelude::*;

verus! {

/// Number of 2-bit buckets in a digest body.
pub const NUM_BUCKETS: usize = 128;

/// Number of bytes of a digest body: four buckets to a byte.
pub const BODY_SIZE: usize = 32;

/// Number of bytes of a digest in binary form: checksum, length, quartiles
/// and body.
pub const DIGEST_SIZE: usize = 35;

/// Bucket `j` (0 to 3) of a body byte; the pairs of bits are read from the
/// most significant one down.
pub open spec fn bucket_in_byte(x: u8, j: int) -> u8 {
    if j == 0 {
        (x / 64) as u8
    } else if j == 1 {
        ((x / 16) % 4) as u8
    } else if j == 2 {
        ((x / 4) % 4) as u8
    } else {
        (x % 4) as u8
    }
}

/// Four bucket values (each below 4) packed into one body byte, the first in
/// the top bits.
pub open spec fn pack_buckets(b0: u8, b1: u8, b2: u8, b3: u8) -> u8 {
    (b0 * 64 + b1 * 16 + b2 * 4 + b3) as u8
}

/// The fields of a digest.
pub struct DigestView {
    pub checksum: u8,
    pub length: u8,
    pub quartiles: u8,
    pub body: Seq<u8>,
}

impl DigestView {
    pub open spec fn wf(self) -> bool {
        self.body.len() == BODY_SIZE
    }

    /// The first quartile ratio: the high nibble of the quartiles byte.
    pub open spec fn q1(self) -> u8 {
        (self.quartiles / 16) as u8
    }

    /// The second quartile ratio: the low nibble of the quartiles byte.
    pub open spec fn q2(self) -> u8 {
        (self.quartiles % 16) as u8
    }

    /// Bucket `k` (0 to 127) of the body.
    pub open spec fn bucket(self, k: int) -> u8 {
        bucket_in_byte(self.body[k / 4], k % 4)
    }

    /// The binary form: checksum, length, quartiles, then the body.
    pub open spec fn encode(self) -> Seq<u8> {
        seq![self.checksum, self.length, self.quartiles] + self.body
    }
}

/// The digest that a byte string holds, if it has the size of one.
pub open spec fn decode(b: Seq<u8>) -> Option<DigestView> {
    if b.len() == DIGEST_SIZE {
        Some(
            DigestView {
                checksum: b[0],
                length: b[1],
                quartiles: b[2],
                body: b.subrange(3, DIGEST_SIZE as int),
            },
        )
    } else {
        None
    }
}

/// A byte string could not be read as a digest: it does not have the size
/// of one.
#[derive(Debug, Clone, Copy, PartialEq, Eq, Structural)]
pub enum DigestFormatError {
    InvalidLength,
}

/// A 128-bucket TLSH digest as plain values.
#[derive(Debug, Hash)]
pub struct FuzzyDigest {
    checksum: u8,
    length: u8,
    quartiles: u8,
    body: Vec<u8>,
}

impl View for FuzzyDigest {
    type V = DigestView;

    closed spec fn view(&self) -> DigestView {
        DigestView {
            checksum: self.checksum,
            length: self.length,
            quartiles: self.quartiles,
            body: self.body@,
        }
    }
}

impl FuzzyDigest {
    #[verifier::type_invariant]
    spec fn inv(self) -> bool {
        self.body@.len() == BODY_SIZE
    }

    /// Reads a digest from its binary form.
    pub fn from_bytes(bytes: &[u8]) -> (r: Result<FuzzyDigest, DigestFormatError>)
        ensures
            r is Ok <==> bytes@.len() == DIGEST_SIZE,
            r matches Ok(d) ==> decode(bytes@) == Some(d@),
    {
        if bytes.len() != DIGEST_SIZE {
            return Err(DigestFormatError::InvalidLength);
        }
        Ok(FuzzyDigest::read(bytes))
    }

    /// Reads the fields of a byte string of the digest size.
    pub(crate) fn read(bytes: &[u8]) -> (r: FuzzyDigest)
        requires
            bytes@.len() == DIGEST_SIZE,
        ensures
            decode(bytes@) == Some(r@),
            r@.wf(),
    {
        let mut body: Vec<u8> = Vec::with_capacity(BODY_SIZE);
        let mut i: usize = 3;
        while i < DIGEST_SIZE
            invariant
                bytes@.len() == DIGEST_SIZE,
                3 <= i <= DIGEST_SIZE,
                body@ == bytes@.subrange(3, i as int),
            decreases DIGEST_SIZE - i,
        {
            body.push(bytes[i]);
            i = i + 1;
        }
        FuzzyDigest { checksum: bytes[0], length: bytes[1], quartiles: bytes[2], body }
    }

    /// A digest from its fields; the body must have `BODY_SIZE` bytes.
    pub(crate) fn from_fields(checksum: u8, length: u8, quartiles: u8, body: Vec<u8>) -> (r:
        FuzzyDigest)
        requires
            body@.len() == BODY_SIZE,
        ensures
            r@ == (DigestView { checksum, length, quartiles, body: body@ }),
    {
        FuzzyDigest { checksum, length, quartiles, body }
    }

    /// The binary form: checksum, length, quartiles, then the body.
    pub fn to_bytes(&self) -> (r: Vec<u8>)
        ensures
            r@ == self@.encode(),
            r@.len() == DIGEST_SIZE,
            self@.wf(),
    {
        proof {
            use_type_invariant(self);
        }
        let mut out: Vec<u8> = Vec::with_capacity(DIGEST_SIZE);
        out.push(self.checksum);
        out.push(self.length);
        out.push(self.quartiles);
        let mut i: usize = 0;
        while i < BODY_SIZE
            invariant
                self.body@.len() == BODY_SIZE,
                0 <= i <= BODY_SIZE,
                out@ == seq![self.checksum, self.length, self.quartiles] + self.body@.take(i as int),
            decreases BODY_SIZE - i,
        {
            out.push(self.body[i]);
            i = i + 1;
            assert(self.body@.take(i as int) == self.body@.take(i - 1).push(self.body@[i - 1]));
        }
        assert(self.body@.take(BODY_SIZE as int) == self.body@);
        out
    }

    pub fn checksum(&self) -> (r: u8)
        ensures
            r == self@.checksum,
    {
        self.checksum
    }

    /// The encoded length of the hashed input.
    pub fn length(&self) -> (r: u8)
        ensures
            r == self@.length,
    {
        self.length
    }

    /// The byte that packs the two quartile ratios.
    pub fn quartiles(&self) -> (r: u8)
        ensures
            r == self@.quartiles,
    {
        self.quartiles
    }

    pub fn q1(&self) -> (r: u8)
        ensures
            r == self@.q1(),
            r < 16,
    {
        let x = self.quartiles;
        assert(x >> 4u8 == x / 16 && x >> 4u8 < 16) by (bit_vector);
        x >> 4
    }

    pub fn q2(&self) -> (r: u8)
        ensures
            r == self@.q2(),
            r < 16,
    {
        let x = self.quartiles;
        assert(x & 15u8 == x % 16 && x & 15u8 < 16) by (bit_vector);
        x & 15
    }

    pub fn body(&self) -> (r: &[u8])
        ensures
            r@ == self@.body,
            r@.len() == BODY_SIZE,
    {
        proof {
            use_type_invariant(self);
        }
        self.body.as_slice()
    }

    /// Bucket `k` of the body, a value below 4.
    pub fn bucket(&self, k: usize) -> (r: u8)
        requires
            k < NUM_BUCKETS,
        ensures
            r == self@.bucket(k as int),
            r < 4,
    {
        proof {
            use_type_invariant(self);
        }
        bucket_of_byte(self.body[k / 4], k % 4)
    }
}

/// Bucket `j` (0 to 3) of a body byte.
pub fn bucket_of_byte(x: u8, j: usize) -> (r: u8)
    requires
        j < 4,
    ensures
        r == bucket_in_byte(x, j as int),
        r < 4,
{
    if j == 0 {
        assert(x >> 6u8 == x / 64 && x >> 6u8 < 4) by (bit_vector);
        x >> 6
    } else if j == 1 {
        assert((x >> 4u8) & 3u8 == (x / 16) % 4 && (x >> 4u8) & 3u8 < 4) by (bit_vector);
        (x >> 4) & 3
    } else if j == 2 {
        assert((x >> 2u8) & 3u8 == (x / 4) % 4 && (x >> 2u8) & 3u8 < 4) by (bit_vector);
        (x >> 2) & 3
    } else {
        assert(x & 3u8 == x % 4 && x & 3u8 < 4) by (bit_vector);
        x & 3
    }
}

/// Packs four bucket values (each below 4) into one body byte, the first in
/// the top bits.
pub fn pack_byte(b0: u8, b1: u8, b2: u8, b3: u8) -> (r: u8)
    requires
        b0 < 4,
        b1 < 4,
        b2 < 4,
        b3 < 4,
    ensures
        r == pack_buckets(b0, b1, b2, b3),
        bucket_in_byte(r, 0) == b0,
        bucket_in_byte(r, 1) == b1,
        bucket_in_byte(r, 2) == b2,
        bucket_in_byte(r, 3) == b3,
{
    assert(b0 < 4 && b1 < 4 && b2 < 4 && b3 < 4 ==> (b0 << 6u8) | (b1 << 4u8) | (b2 << 2u8) | b3
        == b0 * 64 + b1 * 16 + b2 * 4 + b3) by (bit_vector);
    let r = (b0 << 6) | (b1 << 4) | (b2 << 2) | b3;
    assert(r == b0 * 64 + b1 * 16 + b2 * 4 + b3);
    r
}

/// Each bucket packed into a byte reads back unchanged.
pub proof fn lemma_unpack_pack(b0: u8, b1: u8, b2: u8, b3: u8)
    requires
        b0 < 4,
        b1 < 4,
        b2 < 4,
        b3 < 4,
    ensures
        bucket_in_byte(pack_buckets(b0, b1, b2, b3), 0) == b0,
        bucket_in_byte(pack_buckets(b0, b1, b2, b3), 1) == b1,
        bucket_in_byte(pack_buckets(b0, b1, b2, b3), 2) == b2,
        bucket_in_byte(pack_buckets(b0, b1, b2, b3), 3) == b3,
{
}

/// Bucket values are below 4, quartile ratios below 16.
pub proof fn lemma_field_ranges(d: DigestView, k: int)
    ensures
        d.bucket(k) < 4,
        d.q1() < 16,
        d.q2() < 16,
{
}

/// Reading a byte string of the digest size and encoding the digest gives
/// the bytes back.
pub proof fn lemma_decode_encode(b: Seq<u8>)
    requires
        b.len() == DIGEST_SIZE,
    ensures
        decode(b) matches Some(d) && d.wf() && d.encode() == b,
{
    let d = decode(b)->Some_0;
    assert(d.encode() =~= b);
}

/// Digests with the same binary form are the same digest.
pub proof fn lemma_encode_injective(d1: DigestView, d2: DigestView)
    requires
        d1.wf(),
        d2.wf(),
        d1.encode() == d2.encode(),
    ensures
        d1 == d2,
{
    lemma_round_trip(d1);
    lemma_round_trip(d2);
}

/// Encoding a digest and reading the bytes back gives the same digest, field
/// for field.
pub proof fn lemma_round_trip(d: DigestView)
    requires
        d.wf(),
    ensures
        decode(d.encode()) == Some(d),
{
    let b = d.encode();
    assert(b.subrange(3, DIGEST_SIZE as int) == d.body);
}

} // verus!
