//! Text prepared for the screen: clusters of characters that would not show
//! (those of no width) are replaced by their code points, and texts that
//! name sensitive accounts are flagged.

use vstd::prelude::*;
use vstd::utf8::encode_utf8;
use unicode_segmentation::UnicodeSegmentation;
use unicode_width::UnicodeWidthStr;

verus! {

/// The extended grapheme clusters of a text, each with the byte offset at
/// which it starts.
pub uninterp spec fn graphemes_of(s: Seq<char>) -> Seq<(usize, Seq<char>)>;

/// The number of screen columns that a text takes.
pub uninterp spec fn text_width(s: Seq<char>) -> usize;

/// A text in lower case.
pub uninterp spec fn lower_of(s: Seq<char>) -> Seq<char>;

/// The characters of a text, each written as its code point (`\u{200e}`).
pub uninterp spec fn escaped_of(s: Seq<char>) -> Seq<char>;

/// `p` occurs in `s`.
pub open spec fn occurs_in(p: Seq<char>, s: Seq<char>) -> bool {
    exists|i: int| 0 <= i && i + p.len() <= s.len() && #[trigger] s.subrange(i, i + p.len()) == p
}

/// Relies on `UnicodeSegmentation::grapheme_indices` of unicode-segmentation
/// (extended clusters): the clusters and their byte offsets depend on the
/// text alone.
#[verifier::external_body]
fn grapheme_indices(s: &str) -> (r: Vec<(usize, String)>)
    ensures
        r@.map_values(|p: (usize, String)| (p.0, p.1@)) == graphemes_of(s@),
{
    s.grapheme_indices(true).map(|(i, g)| (i, g.to_string())).collect()
}

/// Relies on `UnicodeWidthStr::width` of unicode-width: the width depends on
/// the text alone.
#[verifier::external_body]
fn width(s: &str) -> (r: usize)
    ensures
        r == text_width(s@),
{
    s.width()
}

/// Relies on `str::to_lowercase`: the result depends on the text alone.
#[verifier::external_body]
fn to_lowercase(s: &str) -> (r: String)
    ensures
        r@ == lower_of(s@),
{
    s.to_lowercase()
}

/// Relies on `str::escape_unicode`: each character written as its code
/// point; the result depends on the characters alone.
#[verifier::external_body]
fn escape_unicode(s: &str) -> (r: String)
    ensures
        r@ == escaped_of(s@),
{
    s.escape_unicode().to_string()
}

/// Relies on `str::contains` with a `&str` pattern: whether the pattern
/// occurs in the text.
#[verifier::external_body]
fn contains(s: &str, p: &str) -> (r: bool)
    ensures
        r == occurs_in(p@, s@),
{
    s.contains(p)
}

/// Account names that mark a text as sensitive.
pub open spec fn interesting_strings() -> Seq<Seq<char>> {
    seq![seq!['k', 'r', 'b', 't', 'g', 't'], seq!['a', 'd', 'm', 'i', 'n']]
}

/// A run of clusters shown as they are, or one cluster shown as code points.
#[derive(Debug, PartialEq, Eq)]
pub enum Segment {
    Plain(Vec<String>),
    Masked(String),
}

/// What a `Segment` holds.
pub enum SegmentView {
    Plain(Seq<Seq<char>>),
    Masked(Seq<char>),
}

impl View for Segment {
    type V = SegmentView;

    open spec fn view(&self) -> SegmentView {
        match self {
            Segment::Plain(v) => SegmentView::Plain(v@.map_values(|s: String| s@)),
            Segment::Masked(s) => SegmentView::Masked(s@),
        }
    }
}

/// A cluster is masked where it takes more than one byte and no screen
/// column. (A one-byte cluster is an ASCII character and always shows.)
pub open spec fn cluster_masked(c: Seq<char>) -> bool {
    encode_utf8(c).len() != 1 && text_width(c) < 1
}

/// The segments for the clusters that start at byte `from` or later:
/// consecutive shown clusters form one plain run, each masked cluster a
/// segment of its own.
pub open spec fn segments_of(cs: Seq<(usize, Seq<char>)>, from: usize) -> Seq<SegmentView>
    decreases cs.len(),
{
    if cs.len() == 0 {
        Seq::empty()
    } else {
        let prev = segments_of(cs.drop_last(), from);
        let c = cs.last();
        if c.0 < from {
            prev
        } else if cluster_masked(c.1) {
            prev.push(SegmentView::Masked(escaped_of(c.1)))
        } else if prev.len() > 0 && prev.last() is Plain {
            prev.update(prev.len() - 1, SegmentView::Plain(prev.last()->Plain_0.push(c.1)))
        } else {
            prev.push(SegmentView::Plain(seq![c.1]))
        }
    }
}

/// The texts of the clusters that start at byte `from` or later, in order.
pub open spec fn clusters_from(cs: Seq<(usize, Seq<char>)>, from: usize) -> Seq<Seq<char>>
    decreases cs.len(),
{
    if cs.len() == 0 {
        Seq::empty()
    } else if cs.last().0 < from {
        clusters_from(cs.drop_last(), from)
    } else {
        clusters_from(cs.drop_last(), from).push(cs.last().1)
    }
}

/// The clusters as values.
pub open spec fn clusters_view(clusters: Seq<(usize, String)>) -> Seq<(usize, Seq<char>)> {
    clusters.map_values(|p: (usize, String)| (p.0, p.1@))
}

/// The segments of a sequence of segments, as values.
pub open spec fn segments_view(segments: Seq<Segment>) -> Seq<SegmentView> {
    segments.map_values(|s: Segment| s@)
}

/// Splits the clusters that start at byte `from` or later into plain runs
/// and masked clusters.
pub fn masked_segments(clusters: &[(usize, String)], from: usize) -> (r: Vec<Segment>)
    ensures
        segments_view(r@) == segments_of(clusters_view(clusters@), from),
{
    let ghost cs = clusters_view(clusters@);
    let mut out: Vec<Segment> = Vec::new();
    let mut cur: Vec<String> = Vec::new();
    let mut i: usize = 0;
    while i < clusters.len()
        invariant
            cs == clusters_view(clusters@),
            0 <= i <= clusters@.len(),
            out@.len() == 0 || out@.last() is Masked,
            segments_of(cs.take(i as int), from) == if cur@.len() > 0 {
                segments_view(out@).push(SegmentView::Plain(cur@.map_values(|s: String| s@)))
            } else {
                segments_view(out@)
            },
        decreases clusters@.len() - i,
    {
        assert(cs.take(i + 1).drop_last() =~= cs.take(i as int));
        assert(cs.take(i + 1).last() == cs[i as int]);
        let offset = clusters[i].0;
        let text = clusters[i].1.as_str();
        if offset >= from {
            let masked = text.as_bytes().len() != 1 && width(text) < 1;
            if masked {
                if cur.len() > 0 {
                    let mut run: Vec<String> = Vec::new();
                    std::mem::swap(&mut run, &mut cur);
                    out.push(Segment::Plain(run));
                }
                out.push(Segment::Masked(escape_unicode(text)));
                proof {
                    assert(segments_view(out@) =~= segments_of(cs.take(i + 1), from));
                }
            } else {
                let ghost before = cur@;
                let ghost prev = segments_of(cs.take(i as int), from);
                cur.push(clusters[i].1.clone());
                proof {
                    let cur_v = cur@.map_values(|s: String| s@);
                    let c = cs[i as int].1;
                    assert(cur_v =~= before.map_values(|s: String| s@).push(c));
                    if before.len() == 0 {
                        assert(segments_view(out@).len() == 0 || segments_view(out@).last() is Masked);
                        assert(cur_v =~= seq![c]);
                        assert(segments_of(cs.take(i + 1), from) == prev.push(SegmentView::Plain(seq![c])));
                    } else {
                        assert(prev.last() is Plain);
                        assert(prev.update(prev.len() - 1, SegmentView::Plain(prev.last()->Plain_0.push(c)))
                            =~= segments_view(out@).push(SegmentView::Plain(cur_v)));
                    }
                }
            }
        } else {
            assert(segments_of(cs.take(i + 1), from) == segments_of(cs.take(i as int), from));
        }
        i = i + 1;
    }
    if cur.len() > 0 {
        out.push(Segment::Plain(cur));
    }
    assert(cs.take(clusters@.len() as int) =~= cs);
    assert(segments_view(out@) =~= segments_of(cs, from));
    out
}

/// The texts of the clusters that start at byte `from` or later.
pub fn plain_clusters(clusters: &[(usize, String)], from: usize) -> (r: Vec<String>)
    ensures
        r@.map_values(|s: String| s@) == clusters_from(clusters_view(clusters@), from),
{
    let ghost cs = clusters_view(clusters@);
    let mut out: Vec<String> = Vec::new();
    let mut i: usize = 0;
    while i < clusters.len()
        invariant
            cs == clusters_view(clusters@),
            0 <= i <= clusters@.len(),
            out@.map_values(|s: String| s@) == clusters_from(cs.take(i as int), from),
        decreases clusters@.len() - i,
    {
        assert(cs.take(i + 1).drop_last() =~= cs.take(i as int));
        let ghost before = out@;
        if clusters[i].0 >= from {
            out.push(clusters[i].1.clone());
            assert(out@.map_values(|s: String| s@) =~= before.map_values(|s: String| s@).push(
                cs[i as int].1,
            ));
        }
        i = i + 1;
    }
    assert(cs.take(clusters@.len() as int) =~= cs);
    out
}

/// Whether the text names one of the sensitive accounts, in any case.
pub fn is_interesting(s: &str) -> (r: bool)
    ensures
        r == exists|k: int|
            0 <= k < interesting_strings().len() && occurs_in(
                #[trigger] interesting_strings()[k],
                lower_of(s@),
            ),
{
    let l = to_lowercase(s);
    let a = contains(l.as_str(), "krbtgt");
    let b = contains(l.as_str(), "admin");
    proof {
        reveal_strlit("krbtgt");
        reveal_strlit("admin");
        assert("krbtgt"@ =~= interesting_strings()[0]);
        assert("admin"@ =~= interesting_strings()[1]);
    }
    a || b
}

/// A text ready for the screen: its segments, and whether it names a
/// sensitive account.
pub struct MaskedLine {
    pub segments: Vec<Segment>,
    pub interesting: bool,
}

/// The part of `s` from byte `from` on, as segments: with `mask_unicode`,
/// clusters of no width are masked; without it, all those clusters form one
/// plain run.
pub fn mask(s: &str, from: usize, mask_unicode: bool) -> (r: MaskedLine)
    ensures
        r.interesting == exists|k: int|
            0 <= k < interesting_strings().len() && occurs_in(
                #[trigger] interesting_strings()[k],
                lower_of(s@),
            ),
        mask_unicode ==> segments_view(r.segments@) == segments_of(graphemes_of(s@), from),
        !mask_unicode ==> segments_view(r.segments@) == seq![
            SegmentView::Plain(clusters_from(graphemes_of(s@), from)),
        ],
{
    let interesting = is_interesting(s);
    let clusters = grapheme_indices(s);
    let segments = if mask_unicode {
        masked_segments(clusters.as_slice(), from)
    } else {
        let run = plain_clusters(clusters.as_slice(), from);
        let segments = vec![Segment::Plain(run)];
        assert(segments_view(segments@) =~= seq![
            SegmentView::Plain(clusters_from(graphemes_of(s@), from)),
        ]);
        segments
    };
    MaskedLine { segments, interesting }
}

} // verus!
