//! Per-field histograms over many digests and the consensus digest that a
//! majority vote over them gives.

use vstd::prelude::*;
use vstd::slice::slice_subrange;
use crate::digest::{
    DigestView, FuzzyDigest, BODY_SIZE, NUM_BUCKETS, pack_buckets, pack_byte, lemma_field_ranges,
    lemma_unpack_pack,
};

verus! {

/// Number of counters kept for the buckets: four values for each bucket.
pub const BUCKET_COUNTERS: usize = 4 * NUM_BUCKETS;

/// Number of values of a quartile ratio.
pub const QRATIO_VALUES: usize = 16;

/// Number of values of the length byte.
pub const LENGTH_VALUES: usize = 256;

/// The index of the first maximum of a non-empty sequence of counts.
pub open spec fn first_max(s: Seq<usize>) -> int
    decreases s.len(),
{
    if s.len() <= 1 {
        0
    } else {
        let m = first_max(s.drop_last());
        if s.last() > s[m] {
            s.len() - 1
        } else {
            m
        }
    }
}

/// `i` is the position of a largest count, and no earlier count is as large.
pub open spec fn is_first_max(s: Seq<usize>, i: int) -> bool {
    &&& 0 <= i < s.len()
    &&& forall|j: int| 0 <= j < s.len() ==> s[j] <= s[i]
    &&& forall|j: int| 0 <= j < i ==> s[j] < s[i]
}

/// `first_max` is the one index that `is_first_max` allows.
pub proof fn lemma_first_max(s: Seq<usize>)
    requires
        s.len() > 0,
    ensures
        is_first_max(s, first_max(s)),
        forall|i: int| is_first_max(s, i) ==> i == first_max(s),
    decreases s.len(),
{
    if s.len() > 1 {
        let p = s.drop_last();
        lemma_first_max(p);
        assert forall|j: int| 0 <= j < p.len() implies p[j] == s[j] by {}
    }
    assert forall|i: int| is_first_max(s, i) implies i == first_max(s) by {
        let m = first_max(s);
        if i < m {
            assert(s[i] < s[m]);
        } else if m < i {
            assert(s[m] < s[i]);
        }
    }
}

/// The index of the largest count; where several are equally large, the
/// lowest of their indices.
pub fn most_probable_byte(a: &[usize]) -> (r: usize)
    requires
        a@.len() > 0,
    ensures
        is_first_max(a@, r as int),
        r == first_max(a@),
{
    let mut best: usize = 0;
    let mut i: usize = 1;
    while i < a.len()
        invariant
            1 <= i <= a@.len(),
            best == first_max(a@.take(i as int)),
            best < i,
        decreases a@.len() - i,
    {
        assert(a@.take(i as int + 1).drop_last() =~= a@.take(i as int));
        if a[i] > a[best] {
            best = i;
        }
        i = i + 1;
    }
    assert(a@.take(a@.len() as int) =~= a@);
    proof {
        lemma_first_max(a@);
    }
    best
}

/// `s` with the count at `i` raised by one.
pub open spec fn bump(s: Seq<usize>, i: int) -> Seq<usize> {
    s.update(i, (s[i] + 1) as usize)
}

/// The counts kept by a `HashStore`.
pub struct Histograms {
    /// For each bucket, how often each of its four values was seen.
    pub buckets: Seq<Seq<usize>>,
    /// How often each first quartile ratio was seen.
    pub q1: Seq<usize>,
    /// How often each second quartile ratio was seen.
    pub q2: Seq<usize>,
    /// How often each length byte was seen.
    pub lengths: Seq<usize>,
    /// How many digests were folded in.
    pub count: nat,
}

impl Histograms {
    /// Every count zero.
    pub open spec fn empty() -> Histograms {
        Histograms {
            buckets: Seq::new(NUM_BUCKETS as nat, |k: int| Seq::new(4, |v: int| 0usize)),
            q1: Seq::new(QRATIO_VALUES as nat, |i: int| 0usize),
            q2: Seq::new(QRATIO_VALUES as nat, |i: int| 0usize),
            lengths: Seq::new(LENGTH_VALUES as nat, |i: int| 0usize),
            count: 0,
        }
    }

    /// The tables have their fixed sizes.
    pub open spec fn shaped(self) -> bool {
        &&& self.buckets.len() == NUM_BUCKETS
        &&& forall|k: int| 0 <= k < NUM_BUCKETS ==> #[trigger] self.buckets[k].len() == 4
        &&& self.q1.len() == QRATIO_VALUES
        &&& self.q2.len() == QRATIO_VALUES
        &&& self.lengths.len() == LENGTH_VALUES
    }

    /// The tables have their fixed sizes, and no count exceeds the number of
    /// digests folded in.
    pub open spec fn wf(self) -> bool {
        &&& self.shaped()
        &&& forall|k: int|
            0 <= k < NUM_BUCKETS ==> bounded_by(#[trigger] self.buckets[k], self.count)
        &&& bounded_by(self.q1, self.count)
        &&& bounded_by(self.q2, self.count)
        &&& bounded_by(self.lengths, self.count)
    }

    /// The counts after one more digest is folded in.
    pub open spec fn add(self, d: DigestView) -> Histograms {
        Histograms {
            buckets: Seq::new(
                NUM_BUCKETS as nat,
                |k: int| bump(self.buckets[k], d.bucket(k) as int),
            ),
            q1: bump(self.q1, d.q1() as int),
            q2: bump(self.q2, d.q2() as int),
            lengths: bump(self.lengths, d.length as int),
            count: self.count + 1,
        }
    }

    /// The digest that takes, for every field, the value seen most often
    /// (the lowest such value on a tie), with a zero checksum.
    pub open spec fn consensus(self) -> DigestView {
        DigestView {
            checksum: 0,
            length: first_max(self.lengths) as u8,
            quartiles: (first_max(self.q1) * 16 + first_max(self.q2)) as u8,
            body: Seq::new(
                BODY_SIZE as nat,
                |i: int|
                    pack_buckets(
                        first_max(self.buckets[4 * i]) as u8,
                        first_max(self.buckets[4 * i + 1]) as u8,
                        first_max(self.buckets[4 * i + 2]) as u8,
                        first_max(self.buckets[4 * i + 3]) as u8,
                    ),
            ),
        }
    }
}

/// The counts after folding the digests `ds`, in order, into `h`.
pub open spec fn fold_digests(h: Histograms, ds: Seq<DigestView>) -> Histograms
    decreases ds.len(),
{
    if ds.len() == 0 {
        h
    } else {
        fold_digests(h, ds.drop_last()).add(ds.last())
    }
}

/// Every count of `s` is at most `n`.
pub open spec fn bounded_by(s: Seq<usize>, n: nat) -> bool {
    forall|i: int| 0 <= i < s.len() ==> #[trigger] s[i] <= n
}

/// Counts of the values of every field over the digests added so far, from
/// which a consensus digest is drawn.
pub struct HashStore {
    /// The count of value `v` of bucket `k` stands at `4 * k + v`.
    bucket_probabilities: Vec<usize>,
    q1_ratios: Vec<usize>,
    q2_ratios: Vec<usize>,
    lengths: Vec<usize>,
    hashes: usize,
}

impl View for HashStore {
    type V = Histograms;

    closed spec fn view(&self) -> Histograms {
        Histograms {
            buckets: Seq::new(
                NUM_BUCKETS as nat,
                |k: int| self.bucket_probabilities@.subrange(4 * k, 4 * k + 4),
            ),
            q1: self.q1_ratios@,
            q2: self.q2_ratios@,
            lengths: self.lengths@,
            count: self.hashes as nat,
        }
    }
}

proof fn lemma_div_mod_4(k: int, v: int)
    requires
        0 <= v < 4,
    ensures
        (4 * k + v) / 4 == k,
        (4 * k + v) % 4 == v,
{
    assert((4 * k + v) / 4 == k && (4 * k + v) % 4 == v) by (nonlinear_arith)
        requires
            0 <= v < 4,
    ;
}

impl HashStore {
    #[verifier::type_invariant]
    spec fn inv(self) -> bool {
        &&& self.bucket_probabilities@.len() == BUCKET_COUNTERS
        &&& self.q1_ratios@.len() == QRATIO_VALUES
        &&& self.q2_ratios@.len() == QRATIO_VALUES
        &&& self.lengths@.len() == LENGTH_VALUES
    }

    /// A store with every count zero.
    pub fn new() -> (r: HashStore)
        ensures
            r@ == Histograms::empty(),
            r@.wf(),
    {
        let r = HashStore {
            bucket_probabilities: vec![0usize; BUCKET_COUNTERS],
            q1_ratios: vec![0usize; QRATIO_VALUES],
            q2_ratios: vec![0usize; QRATIO_VALUES],
            lengths: vec![0usize; LENGTH_VALUES],
            hashes: 0,
        };
        assert(r@.buckets =~= Histograms::empty().buckets) by {
            assert forall|k: int| 0 <= k < NUM_BUCKETS implies r@.buckets[k]
                =~= Histograms::empty().buckets[k] by {}
        }
        assert(r@.q1 =~= Histograms::empty().q1);
        assert(r@.q2 =~= Histograms::empty().q2);
        assert(r@.lengths =~= Histograms::empty().lengths);
        r
    }

    /// Number of digests added so far.
    pub fn len(&self) -> (r: usize)
        ensures
            r == self@.count,
    {
        self.hashes
    }

    /// Folds one digest into the counts: its quartile ratios, its length and
    /// the value of each of its buckets are each counted once more.
    pub fn add_hash(&mut self, hash: &FuzzyDigest)
        requires
            old(self)@.wf(),
            old(self)@.count < usize::MAX,
        ensures
            final(self)@ == old(self)@.add(hash@),
            final(self)@.wf(),
    {
        proof {
            use_type_invariant(&*self);
            assert forall|i: int| 0 <= i < BUCKET_COUNTERS implies #[trigger] self.bucket_probabilities@[i]
                <= self.hashes by {
                let k = i / 4;
                let v = i % 4;
                assert(i == 4 * k + v);
                assert(self@.buckets[k].len() == 4);
                assert(self@.buckets[k][v] == self.bucket_probabilities@[i]);
            }
        }
        let ghost old_bp = self.bucket_probabilities@;
        let n = self.hashes;
        self.hashes = n + 1;

        let q1 = hash.q1() as usize;
        let c = self.q1_ratios[q1];
        self.q1_ratios[q1] = c + 1;
        let q2 = hash.q2() as usize;
        let c = self.q2_ratios[q2];
        self.q2_ratios[q2] = c + 1;
        let length = hash.length() as usize;
        let c = self.lengths[length];
        self.lengths[length] = c + 1;

        let ghost q1_after = self.q1_ratios@;
        let ghost q2_after = self.q2_ratios@;
        let ghost lengths_after = self.lengths@;
        let mut k: usize = 0;
        while k < NUM_BUCKETS
            invariant
                0 <= k <= NUM_BUCKETS,
                self.q1_ratios@ == q1_after,
                self.q2_ratios@ == q2_after,
                self.lengths@ == lengths_after,
                q1_after.len() == QRATIO_VALUES,
                q2_after.len() == QRATIO_VALUES,
                lengths_after.len() == LENGTH_VALUES,
                n + 1 == self.hashes,
                n < usize::MAX,
                self.bucket_probabilities@.len() == BUCKET_COUNTERS,
                old_bp.len() == BUCKET_COUNTERS,
                bounded_by(old_bp, n as nat),
                forall|i: int|
                    0 <= i < BUCKET_COUNTERS ==> #[trigger] self.bucket_probabilities@[i] == if i
                        < 4 * k && i % 4 == hash@.bucket(i / 4) as int {
                        (old_bp[i] + 1) as usize
                    } else {
                        old_bp[i]
                    },
            decreases NUM_BUCKETS - k,
        {
            let v = hash.bucket(k) as usize;
            let pos = 4 * k + v;
            proof {
                lemma_div_mod_4(k as int, v as int);
            }
            let c = self.bucket_probabilities[pos];
            self.bucket_probabilities[pos] = c + 1;
            k = k + 1;
            proof {
                assert forall|i: int| 0 <= i < BUCKET_COUNTERS implies #[trigger] self.bucket_probabilities@[i]
                    == if i < 4 * k && i % 4 == hash@.bucket(i / 4) as int {
                    (old_bp[i] + 1) as usize
                } else {
                    old_bp[i]
                } by {
                    if 4 * (k - 1) <= i < 4 * k {
                        lemma_div_mod_4(k - 1, i - 4 * (k - 1));
                    }
                }
            }
        }
        proof {
            let h = old(self)@;
            let d = hash@;
            assert forall|k: int| 0 <= k < NUM_BUCKETS implies #[trigger] self@.buckets[k] =~= h.add(
                d,
            ).buckets[k] by {
                assert forall|v: int| 0 <= v < 4 implies self@.buckets[k][v] == h.add(
                    d,
                ).buckets[k][v] by {
                    lemma_div_mod_4(k, v);
                }
            }
            assert(self@.buckets =~= h.add(d).buckets);
            assert(self@.q1 =~= h.add(d).q1);
            assert(self@.q2 =~= h.add(d).q2);
            assert(self@.lengths =~= h.add(d).lengths);
            assert forall|k: int| 0 <= k < NUM_BUCKETS implies bounded_by(
                #[trigger] self@.buckets[k],
                self@.count,
            ) by {
                assert forall|v: int| 0 <= v < 4 implies #[trigger] self@.buckets[k][v] <= self@.count by {
                    lemma_div_mod_4(k, v);
                }
            }
        }
    }

    /// The value of bucket `bucket_idx` seen most often, the lowest on a tie.
    pub fn most_probable_bucket(&self, bucket_idx: usize) -> (r: u8)
        requires
            bucket_idx < NUM_BUCKETS,
        ensures
            r == first_max(self@.buckets[bucket_idx as int]),
            r < 4,
    {
        proof {
            use_type_invariant(self);
        }
        let counts = slice_subrange(
            self.bucket_probabilities.as_slice(),
            4 * bucket_idx,
            4 * bucket_idx + 4,
        );
        most_probable_byte(counts) as u8
    }

    /// The consensus digest: for every field the value seen most often, the
    /// lowest on a tie, and a zero checksum. With no digest added, every
    /// field is zero.
    pub fn most_probable_hash(&self) -> (r: FuzzyDigest)
        ensures
            r@ == self@.consensus(),
    {
        proof {
            use_type_invariant(self);
        }
        let q1 = most_probable_byte(self.q1_ratios.as_slice()) as u8;
        let q2 = most_probable_byte(self.q2_ratios.as_slice()) as u8;
        let length = most_probable_byte(self.lengths.as_slice()) as u8;
        assert(q1 < 16 && q2 < 16 ==> (q1 << 4u8) | q2 == q1 * 16 + q2) by (bit_vector);
        let q_byte = (q1 << 4) | q2;

        let mut body: Vec<u8> = Vec::with_capacity(BODY_SIZE);
        let mut idx: usize = 0;
        while idx < BODY_SIZE
            invariant
                0 <= idx <= BODY_SIZE,
                body@.len() == idx,
                forall|i: int| 0 <= i < idx ==> #[trigger] body@[i] == self@.consensus().body[i],
            decreases BODY_SIZE - idx,
        {
            let byte = pack_byte(
                self.most_probable_bucket(idx * 4),
                self.most_probable_bucket(idx * 4 + 1),
                self.most_probable_bucket(idx * 4 + 2),
                self.most_probable_bucket(idx * 4 + 3),
            );
            body.push(byte);
            idx = idx + 1;
        }
        let checksum: u8 = 0;
        let r = FuzzyDigest::from_fields(checksum, length, q_byte, body);
        assert(r@.body =~= self@.consensus().body);
        r
    }
}

/// The consensus digest reads back, field by field, as the most frequent
/// value of each table.
pub proof fn lemma_consensus_fields(h: Histograms)
    requires
        h.wf(),
    ensures
        h.consensus().wf(),
        h.consensus().checksum == 0,
        h.consensus().length == first_max(h.lengths),
        h.consensus().q1() == first_max(h.q1),
        h.consensus().q2() == first_max(h.q2),
        forall|k: int| 0 <= k < NUM_BUCKETS ==> #[trigger] h.consensus().bucket(k) == first_max(h.buckets[k]),
{
    lemma_first_max(h.lengths);
    lemma_first_max(h.q1);
    lemma_first_max(h.q2);
    let c = h.consensus();
    assert forall|k: int| 0 <= k < NUM_BUCKETS implies #[trigger] c.bucket(k) == first_max(h.buckets[k]) by {
        let i = k / 4;
        let j = k % 4;
        assert(k == 4 * i + j);
        assert(h.buckets[4 * i].len() == 4);
        assert(h.buckets[4 * i + 1].len() == 4);
        assert(h.buckets[4 * i + 2].len() == 4);
        assert(h.buckets[4 * i + 3].len() == 4);
        lemma_first_max(h.buckets[4 * i]);
        lemma_first_max(h.buckets[4 * i + 1]);
        lemma_first_max(h.buckets[4 * i + 2]);
        lemma_first_max(h.buckets[4 * i + 3]);
        lemma_unpack_pack(
            first_max(h.buckets[4 * i]) as u8,
            first_max(h.buckets[4 * i + 1]) as u8,
            first_max(h.buckets[4 * i + 2]) as u8,
            first_max(h.buckets[4 * i + 3]) as u8,
        );
    }
}

/// Folding in a digest keeps the tables well formed, as long as the number
/// of digests still fits in a `usize`.
pub proof fn lemma_add_wf(h: Histograms, d: DigestView)
    requires
        h.wf(),
        h.count < usize::MAX,
    ensures
        h.add(d).wf(),
        h.add(d).count == h.count + 1,
{
    let r = h.add(d);
    assert forall|k: int| 0 <= k < NUM_BUCKETS implies #[trigger] r.buckets[k].len() == 4 && bounded_by(
        r.buckets[k],
        r.count,
    ) by {
        lemma_field_ranges(d, k);
        assert(h.buckets[k].len() == 4);
    }
    lemma_field_ranges(d, 0);
}

/// The first maximum of counts that are all zero but one is that one.
proof fn lemma_first_max_single(s: Seq<usize>, v: int)
    requires
        0 <= v < s.len(),
        s[v] > 0,
        forall|j: int| 0 <= j < s.len() && j != v ==> s[j] == 0,
    ensures
        first_max(s) == v,
{
    lemma_first_max(s);
    assert(is_first_max(s, v));
}

/// The first maximum of counts that are all zero is the first index.
proof fn lemma_first_max_zeros(s: Seq<usize>)
    requires
        s.len() > 0,
        forall|j: int| 0 <= j < s.len() ==> s[j] == 0,
    ensures
        first_max(s) == 0,
{
    lemma_first_max(s);
    assert(is_first_max(s, 0));
}

/// A store that has seen no digest gives the all-zero digest.
pub proof fn lemma_empty_consensus()
    ensures
        Histograms::empty().consensus().checksum == 0,
        Histograms::empty().consensus().length == 0,
        Histograms::empty().consensus().q1() == 0,
        Histograms::empty().consensus().q2() == 0,
        forall|k: int| 0 <= k < NUM_BUCKETS ==> #[trigger] Histograms::empty().consensus().bucket(k) == 0,
{
    let h = Histograms::empty();
    lemma_consensus_fields(h);
    lemma_first_max_zeros(h.lengths);
    lemma_first_max_zeros(h.q1);
    lemma_first_max_zeros(h.q2);
    assert forall|k: int| 0 <= k < NUM_BUCKETS implies #[trigger] h.consensus().bucket(k) == 0 by {
        lemma_first_max_zeros(h.buckets[k]);
    }
}

/// A store that has seen exactly one digest gives back its length, its
/// quartile ratios and every one of its buckets.
pub proof fn lemma_singleton_consensus(d: DigestView)
    requires
        d.wf(),
    ensures
        Histograms::empty().add(d).consensus().length == d.length,
        Histograms::empty().add(d).consensus().q1() == d.q1(),
        Histograms::empty().add(d).consensus().q2() == d.q2(),
        forall|k: int|
            0 <= k < NUM_BUCKETS ==> #[trigger] Histograms::empty().add(d).consensus().bucket(k)
                == d.bucket(k),
{
    let h = Histograms::empty().add(d);
    lemma_add_wf(Histograms::empty(), d);
    lemma_consensus_fields(h);
    lemma_field_ranges(d, 0);
    lemma_first_max_single(h.lengths, d.length as int);
    lemma_first_max_single(h.q1, d.q1() as int);
    lemma_first_max_single(h.q2, d.q2() as int);
    assert forall|k: int| 0 <= k < NUM_BUCKETS implies #[trigger] h.consensus().bucket(k) == d.bucket(k) by {
        lemma_field_ranges(d, k);
        lemma_first_max_single(h.buckets[k], d.bucket(k) as int);
    }
}

/// Three digests whose first bucket holds 1, 1 and 2: the consensus holds 1
/// there.
pub proof fn lemma_majority_vote(d1: DigestView, d2: DigestView, d3: DigestView)
    requires
        d1.wf(),
        d2.wf(),
        d3.wf(),
        d1.bucket(0) == 1,
        d2.bucket(0) == 1,
        d3.bucket(0) == 2,
    ensures
        fold_digests(Histograms::empty(), seq![d1, d2, d3]).consensus().bucket(0) == 1,
{
    let ds = seq![d1, d2, d3];
    let e = Histograms::empty();
    assert(ds.drop_last() == seq![d1, d2]);
    assert(seq![d1, d2].drop_last() == seq![d1]);
    assert(seq![d1].drop_last() == Seq::<DigestView>::empty());
    let h = e.add(d1).add(d2).add(d3);
    assert(fold_digests(e, Seq::<DigestView>::empty()) == e);
    assert(fold_digests(e, seq![d1]) == e.add(d1));
    assert(fold_digests(e, seq![d1, d2]) == e.add(d1).add(d2));
    assert(fold_digests(e, ds) == h);
    lemma_add_wf(e, d1);
    lemma_add_wf(e.add(d1), d2);
    lemma_add_wf(e.add(d1).add(d2), d3);
    lemma_consensus_fields(h);
    let b = h.buckets[0];
    assert(b[0] == 0 && b[1] == 2 && b[2] == 1 && b[3] == 0);
    lemma_first_max(b);
    assert(is_first_max(b, 1));
}

/// Folding in a digest keeps the table sizes.
proof fn lemma_add_shaped(h: Histograms, d: DigestView)
    requires
        h.shaped(),
    ensures
        h.add(d).shaped(),
{
    assert forall|k: int| 0 <= k < NUM_BUCKETS implies #[trigger] h.add(d).buckets[k].len() == 4 by {
        assert(h.buckets[k].len() == 4);
    }
}

/// Folding in two digests gives the same counts in either order.
pub proof fn lemma_add_commutes(h: Histograms, a: DigestView, b: DigestView)
    requires
        h.shaped(),
    ensures
        h.add(a).add(b) == h.add(b).add(a),
{
    let l = h.add(a).add(b);
    let r = h.add(b).add(a);
    lemma_add_shaped(h, a);
    lemma_add_shaped(h, b);
    assert forall|k: int| 0 <= k < NUM_BUCKETS implies #[trigger] l.buckets[k] =~= r.buckets[k] by {
        lemma_field_ranges(a, k);
        lemma_field_ranges(b, k);
        assert(h.buckets[k].len() == 4);
    }
    assert(l.buckets =~= r.buckets);
    lemma_field_ranges(a, 0);
    lemma_field_ranges(b, 0);
    assert(l.q1 =~= r.q1);
    assert(l.q2 =~= r.q2);
    assert(l.lengths =~= r.lengths);
}

proof fn lemma_fold_shaped(h: Histograms, ds: Seq<DigestView>)
    requires
        h.shaped(),
    ensures
        fold_digests(h, ds).shaped(),
    decreases ds.len(),
{
    if ds.len() > 0 {
        lemma_fold_shaped(h, ds.drop_last());
        lemma_add_shaped(fold_digests(h, ds.drop_last()), ds.last());
    }
}

/// The digest at `i` can be folded in last without changing the counts.
proof fn lemma_fold_remove(h: Histograms, s: Seq<DigestView>, i: int)
    requires
        h.shaped(),
        0 <= i < s.len(),
    ensures
        fold_digests(h, s) == fold_digests(h, s.remove(i)).add(s[i]),
    decreases s.len(),
{
    if i == s.len() - 1 {
        assert(s.remove(i) =~= s.drop_last());
    } else {
        let p = s.drop_last();
        lemma_fold_remove(h, p, i);
        lemma_fold_shaped(h, p.remove(i));
        lemma_add_commutes(fold_digests(h, p.remove(i)), s[i], s.last());
        assert(s.remove(i).drop_last() =~= p.remove(i));
        assert(s.remove(i).last() == s.last());
    }
}

proof fn lemma_fold_permutation(h: Histograms, ds1: Seq<DigestView>, ds2: Seq<DigestView>)
    requires
        h.shaped(),
        ds1.to_multiset() == ds2.to_multiset(),
    ensures
        fold_digests(h, ds1) == fold_digests(h, ds2),
    decreases ds1.len(),
{
    broadcast use vstd::seq_lib::group_to_multiset_ensures;

    if ds1.len() == 0 {
        assert(ds2.len() == ds2.to_multiset().len());
        assert(ds2 =~= Seq::<DigestView>::empty());
    } else {
        let x = ds1.last();
        let rest1 = ds1.drop_last();
        assert(rest1.push(x) =~= ds1);
        assert(ds1.to_multiset() =~= rest1.to_multiset().insert(x));
        assert(ds1.to_multiset().count(x) > 0);
        assert(ds2.contains(x));
        let i = choose|i: int| 0 <= i < ds2.len() && ds2[i] == x;
        let rest2 = ds2.remove(i);
        assert(rest2.to_multiset() =~= ds2.to_multiset().remove(x));
        assert(rest1.to_multiset() =~= rest1.to_multiset().insert(x).remove(x));
        lemma_fold_permutation(h, rest1, rest2);
        lemma_fold_remove(h, ds2, i);
    }
}

/// Folding the same digests into a store in any order gives the same counts,
/// and so the same consensus digest.
pub proof fn lemma_order_independent(ds1: Seq<DigestView>, ds2: Seq<DigestView>)
    requires
        ds1.to_multiset() == ds2.to_multiset(),
    ensures
        fold_digests(Histograms::empty(), ds1) == fold_digests(Histograms::empty(), ds2),
        fold_digests(Histograms::empty(), ds1).consensus() == fold_digests(
            Histograms::empty(),
            ds2,
        ).consensus(),
{
    lemma_fold_permutation(Histograms::empty(), ds1, ds2);
}

impl Default for HashStore {
    fn default() -> (r: HashStore)
        ensures
            r@ == Histograms::empty(),
            r@.wf(),
    {
        HashStore::new()
    }
}

} // verus!
