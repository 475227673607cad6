//! Log data from plain text: each line splits at its first delimiter into
//! a key and one data column.

use vstd::prelude::*;
use vstd::slice::slice_subrange;
use vstd::string::StringSliceAdditionalSpecFns;
use vstd::utf8::encode_utf8;
use crate::log_data::{ColumnInfo, ColumnWidth, IterDataColumns, LogData};
use crate::log_line::{LogLine, LogLineView};
use crate::viewport::ViewPort;

verus! {

/// The largest of some widths, 0 where there are none.
pub open spec fn widest(ws: Seq<int>) -> int
    decreases ws.len(),
{
    if ws.len() == 0 {
        0
    } else {
        let m = widest(ws.drop_last());
        if ws.last() > m {
            ws.last()
        } else {
            m
        }
    }
}

/// `key` and `contents` are a text line split at its first `delimiter`, or,
/// where the line has none, an empty key and the whole line.
pub open spec fn split_line(line: Seq<char>, delimiter: char, l: LogLineView) -> bool {
    &&& l.contents.len() == 1
    &&& if line.contains(delimiter) {
        &&& l.key + seq![delimiter] + l.contents[0] == line
        &&& !l.key.contains(delimiter)
    } else {
        &&& l.key == Seq::<char>::empty()
        &&& l.contents[0] == line
    }
}

/// Relies on `str::split_once` with a `char` pattern: the text before and
/// after the first occurrence of the delimiter, or `None` where there is
/// none.
#[verifier::external_body]
fn split_once(s: &str, delimiter: char) -> (r: Option<(String, String)>)
    ensures
        r is None <==> !s@.contains(delimiter),
        r matches Some(p) ==> p.0@ + seq![delimiter] + p.1@ == s@ && !p.0@.contains(delimiter),
{
    s.split_once(delimiter).map(|(a, b)| (a.to_string(), b.to_string()))
}

/// What a `TxtData` holds.
pub struct TxtDataView {
    pub lines: Seq<LogLineView>,
    pub index_width: ColumnWidth,
    pub contents_width: ColumnWidth,
}

/// Lines of text, each split into a key and its contents, with the widths
/// of both columns.
#[derive(Debug)]
pub struct TxtData {
    lines: Vec<LogLine>,
    index_info: ColumnInfo,
    contents_info: ColumnInfo,
}

impl View for TxtData {
    type V = TxtDataView;

    closed spec fn view(&self) -> TxtDataView {
        TxtDataView {
            lines: self.lines@.map_values(|l: LogLine| l@),
            index_width: self.index_info.width,
            contents_width: self.contents_info.width,
        }
    }
}

impl TxtData {
    #[verifier::type_invariant]
    spec fn inv(self) -> bool {
        &&& self.index_info.width is Width
        &&& self.contents_info.width is Width
    }

    /// Splits each line at its first `delimiter`. The key column is as wide
    /// as the widest key, the data column as the widest contents, in bytes;
    /// only lines that hold the delimiter count toward either.
    pub fn from_lines(lines: Vec<String>, delimiter: char) -> (r: TxtData)
        ensures
            r@.lines.len() == lines@.len(),
            forall|i: int|
                0 <= i < lines@.len() ==> split_line(lines@[i]@, delimiter, #[trigger] r@.lines[i]),
            r@.index_width == ColumnWidth::Width(
                widest(
                    Seq::new(
                        lines@.len(),
                        |i: int|
                            if lines@[i]@.contains(delimiter) {
                                encode_utf8(r@.lines[i].key).len() as int
                            } else {
                                0
                            },
                    ),
                ) as usize,
            ),
            r@.contents_width == ColumnWidth::Width(
                widest(
                    Seq::new(
                        lines@.len(),
                        |i: int|
                            if lines@[i]@.contains(delimiter) {
                                encode_utf8(r@.lines[i].contents[0]).len() as int
                            } else {
                                0
                            },
                    ),
                ) as usize,
            ),
    {
        let mut out: Vec<LogLine> = Vec::new();
        let mut index_width: usize = 0;
        let mut contents_width: usize = 0;
        let ghost keys: Seq<int> = Seq::empty();
        let ghost conts: Seq<int> = Seq::empty();
        let mut i: usize = 0;
        while i < lines.len()
            invariant
                0 <= i <= lines@.len(),
                out@.len() == i,
                keys.len() == i,
                conts.len() == i,
                forall|j: int|
                    0 <= j < i ==> split_line(lines@[j]@, delimiter, #[trigger] out@[j]@),
                forall|j: int|
                    0 <= j < i ==> #[trigger] keys[j] == if lines@[j]@.contains(delimiter) {
                        encode_utf8(out@[j]@.key).len() as int
                    } else {
                        0
                    },
                forall|j: int|
                    0 <= j < i ==> #[trigger] conts[j] == if lines@[j]@.contains(delimiter) {
                        encode_utf8(out@[j]@.contents[0]).len() as int
                    } else {
                        0
                    },
                index_width as int == widest(keys),
                contents_width as int == widest(conts),
            decreases lines@.len() - i,
        {
            let line = lines[i].as_str();
            match split_once(line, delimiter) {
                Some((index, content)) => {
                    let iw = index.as_str().as_bytes().len();
                    let cw = content.as_str().as_bytes().len();
                    if iw > index_width {
                        index_width = iw;
                    }
                    if cw > contents_width {
                        contents_width = cw;
                    }
                    proof {
                        let old_keys = keys;
                        let old_conts = conts;
                        keys = keys.push(iw as int);
                        conts = conts.push(cw as int);
                        assert(keys.drop_last() =~= old_keys);
                        assert(conts.drop_last() =~= old_conts);
                    }
                    let ghost k = index@;
                    let ghost c = content@;
                    assert(iw == encode_utf8(k).len());
                    assert(cw == encode_utf8(c).len());
                    let l = LogLine::new(index, content);
                    match l {
                        Ok(l) => {
                            assert(l@.contents == seq![c]);
                            out.push(l);
                        },
                        Err(_) => {},
                    }
                    assert(out@[i as int]@.key == k);
                    assert(out@[i as int]@.contents[0] == c);
                },
                None => {
                    let l = LogLine::new(String::new(), lines[i].clone());
                    proof {
                        let old_keys = keys;
                        let old_conts = conts;
                        keys = keys.push(0);
                        conts = conts.push(0);
                        assert(keys.drop_last() =~= old_keys);
                        assert(conts.drop_last() =~= old_conts);
                    }
                    match l {
                        Ok(l) => {
                            out.push(l);
                        },
                        Err(_) => {},
                    }
                },
            }
            i = i + 1;
        }
        assert(keys =~= Seq::new(
            lines@.len(),
            |i: int|
                if lines@[i]@.contains(delimiter) {
                    encode_utf8(out@[i]@.key).len() as int
                } else {
                    0
                },
        ));
        let ghost ks = keys;
        let ghost cs = conts;
        assert(conts =~= Seq::new(
            lines@.len(),
            |i: int|
                if lines@[i]@.contains(delimiter) {
                    encode_utf8(out@[i]@.contents[0]).len() as int
                } else {
                    0
                },
        ));
        let r = TxtData {
            lines: out,
            index_info: ColumnInfo::new(ColumnWidth::Width(index_width)),
            contents_info: ColumnInfo::new(ColumnWidth::Width(contents_width)),
        };
        assert(ks =~= Seq::new(
            lines@.len(),
            |i: int|
                if lines@[i]@.contains(delimiter) {
                    encode_utf8(r@.lines[i].key).len() as int
                } else {
                    0
                },
        ));
        assert(cs =~= Seq::new(
            lines@.len(),
            |i: int|
                if lines@[i]@.contains(delimiter) {
                    encode_utf8(r@.lines[i].contents[0]).len() as int
                } else {
                    0
                },
        ));
        r
    }

    /// The lines in the window's rows: from its first row up to its end or
    /// the last line, whichever comes first.
    pub fn visible_lines(&self, viewport: &ViewPort) -> (r: &[LogLine])
        requires
            viewport.voffset + viewport.vsize <= usize::MAX,
            viewport.voffset <= self@.lines.len(),
        ensures
            r@.map_values(|l: LogLine| l@) == self@.lines.subrange(
                viewport.voffset as int,
                if viewport.voffset + viewport.vsize <= self@.lines.len() {
                    viewport.voffset + viewport.vsize
                } else {
                    self@.lines.len() as int
                },
            ),
    {
        let end = viewport.vend();
        let upper_bound = if end <= self.lines.len() {
            end
        } else {
            self.lines.len()
        };
        let r = slice_subrange(self.lines.as_slice(), viewport.vbegin(), upper_bound);
        assert(r@.map_values(|l: LogLine| l@) =~= self@.lines.subrange(
            viewport.voffset as int,
            upper_bound as int,
        ));
        r
    }
}

impl LogData for TxtData {
    fn len(&self) -> (r: usize)
        ensures
            r == self@.lines.len(),
    {
        self.lines.len()
    }

    fn is_empty(&self) -> (r: bool)
        ensures
            r == (self@.lines.len() == 0),
    {
        self.lines.len() == 0
    }

    fn index_info(&self) -> (r: &ColumnInfo)
        ensures
            r.width == self@.index_width,
    {
        &self.index_info
    }

    /// A text has one data column.
    fn data_columns(&self) -> (r: usize)
        ensures
            r == 1,
    {
        1
    }

    fn data_infos(&self, idx: usize) -> (r: Option<&ColumnInfo>)
        ensures
            idx == 0 ==> (r matches Some(c) && c.width == self@.contents_width),
            idx != 0 ==> r is None,
    {
        if idx == 0 {
            Some(&self.contents_info)
        } else {
            None
        }
    }

    fn iter_data_columns(&self) -> (r: IterDataColumns)
        ensures
            r@ == seq![ColumnInfo { width: self@.contents_width }],
    {
        let r = IterDataColumns::from(vec![self.contents_info]);
        assert(r@ =~= seq![ColumnInfo { width: self@.contents_width }]);
        r
    }

    /// The width of the one data column.
    fn data_widths(&self, viewport: &ViewPort) -> (r: Vec<usize>)
        ensures
            self@.contents_width matches ColumnWidth::Width(w) && r@ == seq![w],
    {
        proof {
            use_type_invariant(self);
        }
        let w = match self.contents_info.width {
            ColumnWidth::Width(w) => w,
            ColumnWidth::Unknown => 0,
        };
        let r = vec![w];
        assert(r@ =~= seq![w]);
        r
    }
}

} // verus!
