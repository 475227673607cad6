//! A record's fuzzy digest, with the comparison, equality and order that the
//! rest of the library uses.

use vstd::prelude::*;
use vstd::slice::slice_to_vec;
use vstd::string::StringSliceAdditionalSpecFns;
use vstd::std_specs::cmp::{PartialEqSpec, PartialOrdSpec};
use core::cmp::Ordering;
use crate::digest::{DigestView, FuzzyDigest, lemma_decode_encode, lemma_encode_injective};
use crate::primitive::{self, tlsh_accepts, tlsh_digest_of, tlsh_distance};

verus! {

/// The bytes of the fragments of a record, one after another.
pub open spec fn fragments_bytes(fragments: Seq<&str>) -> Seq<u8>
    decreases fragments.len(),
{
    if fragments.len() == 0 {
        Seq::empty()
    } else {
        fragments_bytes(fragments.drop_last()) + fragments.last().spec_bytes()
    }
}

/// Byte strings in lexicographic order, unsigned byte by byte; a proper
/// prefix comes first.
pub open spec fn lex_cmp(a: Seq<u8>, b: Seq<u8>) -> Ordering
    decreases a.len(),
{
    if a.len() == 0 {
        if b.len() == 0 {
            Ordering::Equal
        } else {
            Ordering::Less
        }
    } else if b.len() == 0 {
        Ordering::Greater
    } else if a[0] < b[0] {
        Ordering::Less
    } else if a[0] > b[0] {
        Ordering::Greater
    } else {
        lex_cmp(a.drop_first(), b.drop_first())
    }
}

/// The order of two digests: by length first, then by body bytes.
pub open spec fn digest_order(a: DigestView, b: DigestView) -> Ordering {
    if a.length < b.length {
        Ordering::Less
    } else if a.length > b.length {
        Ordering::Greater
    } else {
        lex_cmp(a.body, b.body)
    }
}

/// The opposite order.
pub open spec fn reversed(o: Ordering) -> Ordering {
    match o {
        Ordering::Less => Ordering::Greater,
        Ordering::Equal => Ordering::Equal,
        Ordering::Greater => Ordering::Less,
    }
}

/// Compares two byte strings lexicographically.
pub fn lex_compare(a: &[u8], b: &[u8]) -> (r: Ordering)
    ensures
        r == lex_cmp(a@, b@),
{
    let mut i: usize = 0;
    assert(a@.skip(0) =~= a@);
    assert(b@.skip(0) =~= b@);
    while i < a.len() && i < b.len()
        invariant
            0 <= i <= a@.len(),
            i <= b@.len(),
            lex_cmp(a@, b@) == lex_cmp(a@.skip(i as int), b@.skip(i as int)),
        decreases a@.len() - i,
    {
        assert(a@.skip(i as int)[0] == a@[i as int]);
        assert(b@.skip(i as int)[0] == b@[i as int]);
        if a[i] < b[i] {
            return Ordering::Less;
        }
        if a[i] > b[i] {
            return Ordering::Greater;
        }
        assert(a@.skip(i as int).drop_first() =~= a@.skip(i + 1));
        assert(b@.skip(i as int).drop_first() =~= b@.skip(i + 1));
        i = i + 1;
    }
    if i == a.len() {
        if i == b.len() {
            Ordering::Equal
        } else {
            Ordering::Less
        }
    } else {
        Ordering::Greater
    }
}

/// Whether two byte strings are equal.
pub fn same_bytes(a: &[u8], b: &[u8]) -> (r: bool)
    ensures
        r == (a@ == b@),
{
    if a.len() != b.len() {
        return false;
    }
    let mut i: usize = 0;
    while i < a.len()
        invariant
            a@.len() == b@.len(),
            0 <= i <= a@.len(),
            forall|j: int| 0 <= j < i ==> a@[j] == b@[j],
        decreases a@.len() - i,
    {
        if a[i] != b[i] {
            return false;
        }
        i = i + 1;
    }
    assert(a@ =~= b@);
    true
}

/// The TLSH generator would not give a digest for the record.
#[derive(Debug, Clone, Copy, PartialEq, Eq, Structural)]
pub enum DigestConstructionError {
    InputRejected,
}

/// What a `LineHash` holds: the TLSH digest, and a copy of its body bytes.
pub struct LineHashView {
    pub digest: DigestView,
    pub body: Seq<u8>,
}

/// The fuzzy digest of one record, with a copy of its body bytes taken when
/// it was made.
#[derive(Debug, Hash)]
pub struct LineHash {
    digest: FuzzyDigest,
    body: Vec<u8>,
}

impl View for LineHash {
    type V = LineHashView;

    closed spec fn view(&self) -> LineHashView {
        LineHashView { digest: self.digest@, body: self.body@ }
    }
}

impl LineHash {
    #[verifier::type_invariant]
    spec fn inv(self) -> bool {
        &&& self.digest@.wf()
        &&& self.body@ == self.digest@.body
    }

    /// Hashes the bytes of the fragments, one after another: the digest is
    /// the TLSH digest of those bytes. Fails where the TLSH generator refuses
    /// them (too little data, or too little variety).
    pub fn try_from_iterator(fragments: &[&str]) -> (r: Result<LineHash, DigestConstructionError>)
        ensures
            r is Ok <==> tlsh_accepts(fragments_bytes(fragments@)),
            r matches Ok(h) ==> h@.digest.encode() == tlsh_digest_of(fragments_bytes(fragments@)),
            r matches Ok(h) ==> h@.digest.wf() && h@.body == h@.digest.body,
    {
        let mut data: Vec<u8> = Vec::new();
        let mut i: usize = 0;
        while i < fragments.len()
            invariant
                0 <= i <= fragments@.len(),
                data@ == fragments_bytes(fragments@.take(i as int)),
            decreases fragments@.len() - i,
        {
            let bytes = fragments[i].as_bytes();
            let ghost before = data@;
            let mut j: usize = 0;
            while j < bytes.len()
                invariant
                    0 <= j <= bytes@.len(),
                    data@ == before + bytes@.take(j as int),
                decreases bytes@.len() - j,
            {
                data.push(bytes[j]);
                j = j + 1;
                assert(bytes@.take(j as int) == bytes@.take(j - 1).push(bytes@[j - 1]));
            }
            assert(bytes@.take(bytes@.len() as int) == bytes@);
            assert(fragments@.take(i + 1).drop_last() == fragments@.take(i as int));
            i = i + 1;
        }
        assert(fragments@.take(fragments@.len() as int) == fragments@);
        match primitive::hash_buf(data.as_slice()) {
            Ok(bytes) => {
                let digest = FuzzyDigest::read(bytes.as_slice());
                proof {
                    lemma_decode_encode(bytes@);
                }
                let body = slice_to_vec(digest.body());
                Ok(LineHash { digest, body })
            },
            Err(_) => Err(DigestConstructionError::InputRejected),
        }
    }

    /// The digest of one string: the same as of the one fragment `s`.
    pub fn try_from_str(s: &str) -> (r: Result<LineHash, DigestConstructionError>)
        ensures
            r is Ok <==> tlsh_accepts(s.spec_bytes()),
            r matches Ok(h) ==> h@.digest.encode() == tlsh_digest_of(s.spec_bytes()),
            r matches Ok(h) ==> h@.digest.wf() && h@.body == h@.digest.body,
    {
        let fragments: [&str; 1] = [s];
        let r = LineHash::try_from_iterator(fragments.as_slice());
        assert(fragments@ =~= seq![s]);
        assert(fragments@.drop_last() =~= Seq::<&str>::empty());
        assert(fragments_bytes(Seq::<&str>::empty()) == Seq::<u8>::empty());
        assert(fragments_bytes(fragments@) == Seq::<u8>::empty() + s.spec_bytes());
        assert(Seq::<u8>::empty() + s.spec_bytes() == s.spec_bytes());
        r
    }

    /// The digest, as made when the record was hashed; its body is the held
    /// body copy.
    pub fn inner(&self) -> (r: &FuzzyDigest)
        ensures
            r@ == self@.digest,
            r@.body == self@.body,
            r@.wf(),
    {
        proof {
            use_type_invariant(self);
        }
        &self.digest
    }

    /// The digest, as made when the record was hashed.
    pub fn digest(&self) -> (r: &FuzzyDigest)
        ensures
            r@ == self@.digest,
    {
        &self.digest
    }

    /// The copy of the body bytes taken when the record was hashed.
    pub fn body(&self) -> (r: &[u8])
        ensures
            r@ == self@.body,
    {
        self.body.as_slice()
    }

    /// The TLSH distance from this digest to `hash`: lower means more alike,
    /// and a digest is at distance 0 from itself.
    pub fn compare(&self, hash: &FuzzyDigest) -> (r: u32)
        ensures
            r == tlsh_distance(self@.digest.encode(), hash@.encode()),
            hash@ == self@.digest ==> r == 0,
    {
        let a = self.digest.to_bytes();
        let b = hash.to_bytes();
        primitive::compare(a.as_slice(), b.as_slice())
    }
}

/// A shorter encoded length orders first whatever the bodies; on equal
/// lengths the body bytes decide, and a smaller first byte orders first.
pub proof fn lemma_order_length_then_body(a: DigestView, b: DigestView)
    ensures
        a.length < b.length ==> digest_order(a, b) == Ordering::Less,
        a.length > b.length ==> digest_order(a, b) == Ordering::Greater,
        a.length == b.length && a.body.len() > 0 && b.body.len() > 0 && a.body[0] < b.body[0]
            ==> digest_order(a, b) == Ordering::Less,
{
}

/// Two record digests whose captured bodies differ are unequal, even where
/// the digests themselves are equal.
pub proof fn lemma_equality_needs_same_body(a: LineHash, b: LineHash)
    requires
        a@.body != b@.body,
    ensures
        !a.eq_spec(&b),
{
}

/// Two records hashed from the same bytes (in one fragment or several, in
/// one call or two) get equal digests.
pub proof fn lemma_same_bytes_equal(h1: LineHash, h2: LineHash, data: Seq<u8>)
    requires
        h1@.digest.wf() && h1@.body == h1@.digest.body,
        h2@.digest.wf() && h2@.body == h2@.digest.body,
        h1@.digest.encode() == tlsh_digest_of(data),
        h2@.digest.encode() == tlsh_digest_of(data),
    ensures
        h1.eq_spec(&h2),
{
    lemma_encode_injective(h1@.digest, h2@.digest);
}

/// A byte string is equal to itself in lexicographic order.
pub proof fn lemma_lex_cmp_reflexive(a: Seq<u8>)
    ensures
        lex_cmp(a, a) == Ordering::Equal,
    decreases a.len(),
{
    if a.len() > 0 {
        lemma_lex_cmp_reflexive(a.drop_first());
    }
}

/// Swapping the operands reverses the lexicographic order.
pub proof fn lemma_lex_cmp_reverse(a: Seq<u8>, b: Seq<u8>)
    ensures
        lex_cmp(b, a) == reversed(lex_cmp(a, b)),
    decreases a.len(),
{
    if a.len() > 0 && b.len() > 0 && a[0] == b[0] {
        lemma_lex_cmp_reverse(a.drop_first(), b.drop_first());
    }
}

/// The lexicographic order is transitive.
pub proof fn lemma_lex_cmp_transitive(a: Seq<u8>, b: Seq<u8>, c: Seq<u8>)
    requires
        lex_cmp(a, b) != Ordering::Greater,
        lex_cmp(b, c) != Ordering::Greater,
    ensures
        lex_cmp(a, c) != Ordering::Greater,
    decreases a.len(),
{
    if a.len() > 0 && b.len() > 0 && c.len() > 0 && a[0] == b[0] && b[0] == c[0] {
        lemma_lex_cmp_transitive(a.drop_first(), b.drop_first(), c.drop_first());
    }
}

/// The order of record digests: swapping the operands reverses it, equal
/// digests order `Equal`, and it is transitive.
pub proof fn lemma_digest_order(a: DigestView, b: DigestView, c: DigestView)
    ensures
        digest_order(b, a) == reversed(digest_order(a, b)),
        digest_order(a, a) == Ordering::Equal,
        digest_order(a, b) != Ordering::Greater && digest_order(b, c) != Ordering::Greater
            ==> digest_order(a, c) != Ordering::Greater,
{
    lemma_lex_cmp_reverse(a.body, b.body);
    lemma_lex_cmp_reflexive(a.body);
    if digest_order(a, b) != Ordering::Greater && digest_order(b, c) != Ordering::Greater {
        if a.length == b.length && b.length == c.length {
            lemma_lex_cmp_transitive(a.body, b.body, c.body);
        }
    }
}

/// Record digests that are equal order `Equal`.
pub proof fn lemma_equal_orders_equal(a: LineHash, b: LineHash)
    requires
        a.eq_spec(&b),
    ensures
        a.partial_cmp_spec(&b) == Some(Ordering::Equal),
{
    lemma_lex_cmp_reflexive(a@.digest.body);
}

impl PartialEq for LineHash {
    /// Equal digests, and equal captured body bytes.
    fn eq(&self, other: &LineHash) -> (r: bool)
        ensures
            r == (self@.digest == other@.digest && self@.body == other@.body),
    {
        proof {
            use_type_invariant(self);
            use_type_invariant(other);
        }
        let a = self.digest.to_bytes();
        let b = other.digest.to_bytes();
        let same_digest = same_bytes(a.as_slice(), b.as_slice());
        proof {
            if same_digest {
                lemma_encode_injective(self@.digest, other@.digest);
            }
        }
        same_digest && same_bytes(self.body.as_slice(), other.body.as_slice())
    }
}

impl vstd::std_specs::cmp::PartialEqSpecImpl for LineHash {
    open spec fn obeys_eq_spec() -> bool {
        true
    }

    open spec fn eq_spec(&self, other: &LineHash) -> bool {
        self@.digest == other@.digest && self@.body == other@.body
    }
}

impl Eq for LineHash {

}

impl PartialOrd for LineHash {
    /// By decoded length first, then by body bytes; always an ordering.
    fn partial_cmp(&self, other: &LineHash) -> (r: Option<Ordering>)
        ensures
            r == Some(digest_order(self@.digest, other@.digest)),
    {
        let a = self.digest.length();
        let b = other.digest.length();
        if a < b {
            Some(Ordering::Less)
        } else if a > b {
            Some(Ordering::Greater)
        } else {
            Some(lex_compare(self.digest.body(), other.digest.body()))
        }
    }
}

impl vstd::std_specs::cmp::PartialOrdSpecImpl for LineHash {
    open spec fn obeys_partial_cmp_spec() -> bool {
        true
    }

    open spec fn partial_cmp_spec(&self, other: &LineHash) -> Option<Ordering> {
        Some(digest_order(self@.digest, other@.digest))
    }
}

} // verus!
