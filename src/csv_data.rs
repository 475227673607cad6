//! Log data from CSV records: the first field of each record is its key,
//! the others are data columns.

use vstd::prelude::*;
use vstd::slice::slice_subrange;
use vstd::utf8::encode_utf8;
use crate::log_data::{ColumnInfo, ColumnWidth, IterDataColumns, LogData};
use crate::log_line::{LogLine, LogLineError, LogLineView};
use crate::txt_data::widest;
use crate::viewport::ViewPort;

verus! {

/// Records could not be read as log data.
#[derive(Clone, Copy, Debug, PartialEq, Eq, Structural)]
pub enum CsvDataError {
    /// A record has no field, so no key.
    MissingKeyColumn,
    /// A record has more fields than the first one.
    RecordTooLong,
    /// The records have a key column but no data column.
    KeyColumnOnly,
    /// There are no records.
    NoData,
}

/// The fields of each record, as text.
pub open spec fn records_view(records: Seq<Vec<String>>) -> Seq<Seq<Seq<char>>> {
    records.map_values(|r: Vec<String>| r@.map_values(|s: String| s@))
}

/// Record `i` cannot be read: it is empty, or it is not the first and has
/// more fields than the first.
pub open spec fn bad_record(records: Seq<Seq<Seq<char>>>, i: int) -> bool {
    records[i].len() == 0 || (i > 0 && records[i].len() > records[0].len())
}

/// The error that a bad record `i` gives.
pub open spec fn record_error(records: Seq<Seq<Seq<char>>>, i: int) -> CsvDataError {
    if records[i].len() == 0 {
        CsvDataError::MissingKeyColumn
    } else {
        CsvDataError::RecordTooLong
    }
}

/// The width of column `j`: the widest of its fields in bytes, over all
/// records but the first.
pub open spec fn column_width(records: Seq<Seq<Seq<char>>>, j: int) -> int {
    widest(
        Seq::new(
            records.len(),
            |i: int|
                if i >= 1 && j < records[i].len() {
                    encode_utf8(records[i][j]).len() as int
                } else {
                    0
                },
        ),
    )
}

/// Record `i` is the first that cannot be read.
pub open spec fn first_bad_record(records: Seq<Seq<Seq<char>>>, i: int) -> bool {
    &&& 0 <= i < records.len()
    &&& bad_record(records, i)
    &&& forall|j: int| 0 <= j < i ==> !bad_record(records, j)
}

/// Whether reading the records fails: one of them cannot be read, there are
/// none, or the first has no data column.
pub open spec fn records_fail(records: Seq<Seq<Seq<char>>>) -> bool {
    ||| exists|i: int| 0 <= i < records.len() && bad_record(records, i)
    ||| records.len() == 0
    ||| records[0].len() < 2
}

/// The widths of the first `n` columns over the records before record `i`.
spec fn widths_so_far(records: Seq<Seq<Seq<char>>>, i: int, cols: Seq<ColumnInfo>) -> bool {
    forall|c: int|
        0 <= c < cols.len() ==> #[trigger] cols[c].width == ColumnWidth::Width(
            column_width(records.take(i), c) as usize,
        ) && 0 <= column_width(records.take(i), c) <= usize::MAX
}

proof fn lemma_widest_push(s: Seq<int>, x: int)
    ensures
        widest(s.push(x)) == if x > widest(s) {
            x
        } else {
            widest(s)
        },
{
    assert(s.push(x).drop_last() =~= s);
}

proof fn lemma_widest_nonneg(s: Seq<int>)
    ensures
        widest(s) >= 0,
    decreases s.len(),
{
    if s.len() > 0 {
        lemma_widest_nonneg(s.drop_last());
    }
}

proof fn lemma_column_width_step(rv: Seq<Seq<Seq<char>>>, i: int, c: int)
    requires
        0 <= i < rv.len(),
    ensures
        column_width(rv.take(i), c) >= 0,
        column_width(rv.take(i + 1), c) == {
            let w = if i >= 1 && c < rv[i].len() {
                encode_utf8(rv[i][c]).len() as int
            } else {
                0
            };
            if w > column_width(rv.take(i), c) {
                w
            } else {
                column_width(rv.take(i), c)
            }
        },
{
    let f = |k: int|
        if k >= 1 && c < rv.take(i + 1)[k].len() {
            encode_utf8(rv.take(i + 1)[k][c]).len() as int
        } else {
            0
        };
    let g = |k: int|
        if k >= 1 && c < rv.take(i)[k].len() {
            encode_utf8(rv.take(i)[k][c]).len() as int
        } else {
            0
        };
    assert(Seq::new((i + 1) as nat, f) =~= Seq::new(i as nat, g).push(f(i)));
    lemma_widest_push(Seq::new(i as nat, g), f(i));
    lemma_widest_nonneg(Seq::new(i as nat, g));
    assert(rv.take(i + 1)[i] == rv[i]);
}

/// The width of a column, 0 where unknown.
pub open spec fn width_of(c: ColumnInfo) -> int {
    match c.width {
        ColumnWidth::Width(w) => w as int,
        ColumnWidth::Unknown => 0,
    }
}

/// The widths of the data columns: every column after the key column.
pub open spec fn data_widths_of(columns: Seq<ColumnInfo>) -> Seq<int> {
    Seq::new((columns.len() - 1) as nat, |i: int| width_of(columns[i + 1]))
}

/// Where a horizontal offset falls among columns of widths `ws`: the index
/// of the first column it reaches into and how far into it, or, past them
/// all, the number of columns and what is left over.
pub open spec fn start_in(ws: Seq<int>, skip: int) -> (int, int)
    decreases ws.len(),
{
    if ws.len() == 0 || skip < ws[0] {
        (0, skip)
    } else {
        let r = start_in(ws.drop_first(), skip - ws[0]);
        (r.0 + 1, r.1)
    }
}

/// The widths of the columns from `start.0` on, the first of them cut by
/// `start.1`.
pub open spec fn widths_from(ws: Seq<int>, start: (int, int)) -> Seq<int> {
    Seq::new(
        (ws.len() - start.0) as nat,
        |k: int|
            if k == 0 {
                if ws[start.0] > start.1 {
                    ws[start.0] - start.1
                } else {
                    0
                }
            } else {
                ws[start.0 + k]
            },
    )
}

proof fn lemma_start_in_bound(ws: Seq<int>, skip: int)
    ensures
        0 <= start_in(ws, skip).0 <= ws.len(),
    decreases ws.len(),
{
    if ws.len() > 0 && skip >= ws[0] {
        lemma_start_in_bound(ws.drop_first(), skip - ws[0]);
    }
}

/// What a `CsvData` holds.
pub struct CsvDataView {
    pub records: Seq<LogLineView>,
    pub columns: Seq<ColumnInfo>,
}

/// Log lines read from CSV records, with the width of each column; the key
/// column comes first.
#[derive(Debug)]
pub struct CsvData {
    records: Vec<LogLine>,
    columns: Vec<ColumnInfo>,
}

impl View for CsvData {
    type V = CsvDataView;

    closed spec fn view(&self) -> CsvDataView {
        CsvDataView { records: self.records@.map_values(|l: LogLine| l@), columns: self.columns@ }
    }
}

impl CsvData {
    #[verifier::type_invariant]
    spec fn inv(self) -> bool {
        &&& self.columns@.len() >= 2
        &&& forall|j: int| 0 <= j < self.columns@.len() ==> #[trigger] self.columns@[j].width is Width
    }

    /// Reads log lines from the fields of CSV records. The first record
    /// fixes the columns; a column is as wide as its widest field, in bytes,
    /// over the records after the first.
    pub fn from_records(rows: Vec<Vec<String>>) -> (r: Result<CsvData, CsvDataError>)
        ensures
            r is Err <==> records_fail(records_view(rows@)),
            forall|i: int|
                first_bad_record(records_view(rows@), i) ==> r == Err::<CsvData, CsvDataError>(
                    record_error(records_view(rows@), i),
                ),
            rows@.len() == 0 ==> r == Err::<CsvData, CsvDataError>(CsvDataError::NoData),
            (forall|i: int|
                0 <= i < rows@.len() ==> !bad_record(records_view(rows@), i))
                && rows@.len() > 0 && rows@[0]@.len() < 2 ==> r == Err::<
                CsvData,
                CsvDataError,
            >(CsvDataError::KeyColumnOnly),
            r matches Ok(d) ==> {
                &&& d@.records.len() == rows@.len()
                &&& forall|i: int|
                    0 <= i < rows@.len() ==> #[trigger] d@.records[i].key == records_view(
                        rows@,
                    )[i][0] && d@.records[i].contents == records_view(rows@)[i].drop_first()
                &&& d@.columns.len() == rows@[0]@.len()
                &&& forall|c: int|
                    0 <= c < d@.columns.len() ==> #[trigger] d@.columns[c].width == ColumnWidth::Width(
                        column_width(records_view(rows@), c) as usize,
                    )
            },
    {
        let ghost rv = records_view(rows@);
        let mut records = rows;
        let mut lines: Vec<LogLine> = Vec::new();
        let mut columns: Vec<ColumnInfo> = Vec::new();
        let n = records.len();
        let mut i: usize = 0;
        while i < n
            invariant
                n == records@.len(),
                rv == records_view(rows@),
                rv.len() == n,
                0 <= i <= n,
                forall|j: int| i <= j < n ==> #[trigger] records_view(records@)[j] == rv[j],
                forall|j: int| 0 <= j < i ==> !bad_record(rv, j),
                lines@.len() == i,
                forall|j: int|
                    0 <= j < i ==> #[trigger] lines@[j]@.key == rv[j][0] && lines@[j]@.contents
                        == rv[j].drop_first(),
                i == 0 ==> columns@.len() == 0,
                i > 0 ==> columns@.len() == rv[0].len(),
                widths_so_far(rv, i as int, columns@),
            decreases n - i,
        {
            let ghost cur = records@[i as int];
            let ghost before = records@;
            assert(records_view(records@)[i as int] == cur@.map_values(|s: String| s@));
            let mut rec: Vec<String> = Vec::new();
            std::mem::swap(&mut rec, &mut records[i]);
            assert(rec == cur);
            assert forall|j: int| i < j < n implies #[trigger] records_view(records@)[j] == rv[j] by {
                assert(records_view(before)[j] == rv[j]);
                assert(records@[j] == before[j]);
            }
            assert(rec@.map_values(|s: String| s@) == rv[i as int]);
            if i > 0 && rec.len() > columns.len() {
                assert(bad_record(rv, i as int));
                assert(first_bad_record(rv, i as int));
                return Err(CsvDataError::RecordTooLong);
            }
            let ghost cols_before = columns@;
            if i == 0 {
                let mut c: usize = 0;
                while c < rec.len()
                    invariant
                        i == 0,
                        0 <= c <= rec@.len(),
                        columns@.len() == c,
                        forall|k: int| 0 <= k < c ==> #[trigger] columns@[k].width == ColumnWidth::Width(0),
                    decreases rec@.len() - c,
                {
                    columns.push(ColumnInfo::new(ColumnWidth::Width(0)));
                    c = c + 1;
                }
            } else {
                let mut idx: usize = 0;
                while idx < rec.len()
                    invariant
                        0 < i < n,
                        rec@.len() <= columns@.len(),
                        columns@.len() == cols_before.len(),
                        rec@.map_values(|s: String| s@) == rv[i as int],
                        0 <= idx <= rec@.len(),
                        forall|c: int|
                            idx <= c < columns@.len() ==> #[trigger] columns@[c] == cols_before[c],
                        forall|c: int|
                            0 <= c < idx ==> #[trigger] encode_utf8(rv[i as int][c]).len() <= usize::MAX,
                        forall|c: int|
                            0 <= c < idx ==> #[trigger] columns@[c].width == match cols_before[c].width {
                                ColumnWidth::Width(me) => ColumnWidth::Width(
                                    if me >= encode_utf8(rv[i as int][c]).len() {
                                        me
                                    } else {
                                        encode_utf8(rv[i as int][c]).len() as usize
                                    },
                                ),
                                ColumnWidth::Unknown => ColumnWidth::Unknown,
                            },
                    decreases rec@.len() - idx,
                {
                    let w = rec[idx].as_str().as_bytes().len();
                    assert(rec@[idx as int]@ == rv[i as int][idx as int]);
                    let mut cw = columns[idx].width;
                    cw.advance_to(w);
                    columns.set(idx, ColumnInfo::new(cw));
                    idx = idx + 1;
                }
            }
            let ghost recv = rec@;
            let line = LogLine::from_record(rec);
            match line {
                Ok(l) => {
                    assert(rv[i as int].drop_first() =~= recv.drop_first().map_values(|s: String| s@));
                    lines.push(l);
                },
                Err(LogLineError::MissingKeyColumn) => {
                    assert(bad_record(rv, i as int));
                    assert(first_bad_record(rv, i as int));
                    return Err(CsvDataError::MissingKeyColumn);
                },
            }
            proof {
                assert forall|c: int| 0 <= c < columns@.len() implies #[trigger] columns@[c].width
                    == ColumnWidth::Width(column_width(rv.take(i + 1), c) as usize) && 0
                    <= column_width(rv.take(i + 1), c) <= usize::MAX by {
                    lemma_column_width_step(rv, i as int, c);
                    if i > 0 {
                        assert(cols_before[c].width == ColumnWidth::Width(
                            column_width(rv.take(i as int), c) as usize,
                        ));
                    }
                }
            }
            i = i + 1;
        }
        assert(rv.take(n as int) =~= rv);
        if n > 0 {
            assert(!bad_record(rv, 0));
        }
        if columns.len() < 2 {
            if columns.len() == 1 {
                return Err(CsvDataError::KeyColumnOnly);
            } else {
                return Err(CsvDataError::NoData);
            }
        }
        let r = CsvData { records: lines, columns };
        assert(r@.records.len() == n);
        Ok(r)
    }

    /// The width of data column `idx`.
    fn data_width(&self, idx: usize) -> (r: usize)
        requires
            idx + 1 < self@.columns.len(),
        ensures
            r == data_widths_of(self@.columns)[idx as int],
    {
        let n = self.columns.len();
        match self.columns[idx + 1].width {
            ColumnWidth::Width(w) => w,
            ColumnWidth::Unknown => 0,
        }
    }

    /// The data column that the window's first screen column falls in, and
    /// how many of its columns lie left of the window.
    pub fn find_start(&self, viewport: &ViewPort) -> (r: (usize, usize))
        ensures
            r.0 as int == start_in(data_widths_of(self@.columns), viewport.hoffset as int).0,
            r.1 as int == start_in(data_widths_of(self@.columns), viewport.hoffset as int).1,
    {
        proof {
            use_type_invariant(self);
        }
        let ghost ws = data_widths_of(self@.columns);
        let n = self.columns.len() - 1;
        let mut skip = viewport.hoffset;
        let mut idx: usize = 0;
        assert(ws.skip(0) =~= ws);
        while idx < n
            invariant
                ws == data_widths_of(self@.columns),
                n == ws.len(),
                n + 1 == self@.columns.len(),
                0 <= idx <= n,
                0 <= skip,
                start_in(ws, viewport.hoffset as int) == ({
                    let r = start_in(ws.skip(idx as int), skip as int);
                    (r.0 + idx, r.1)
                }),
            decreases n - idx,
        {
            let width = self.data_width(idx);
            assert(ws.skip(idx as int)[0] == ws[idx as int]);
            if skip < width {
                assert(start_in(ws.skip(idx as int), skip as int) == (0int, skip as int));
                return (idx, skip);
            }
            assert(start_in(ws.skip(idx as int), skip as int) == ({
                let r = start_in(ws.skip(idx as int).drop_first(), skip - width);
                (r.0 + 1, r.1)
            }));
            assert(ws.skip(idx as int).drop_first() =~= ws.skip(idx + 1));
            skip = skip - width;
            idx = idx + 1;
        }
        assert(ws.skip(n as int) =~= Seq::<int>::empty());
        (n, skip)
    }

    /// The records in the window's rows: from its first row up to its end or
    /// the last record, whichever comes first.
    pub fn visible_lines(&self, viewport: &ViewPort) -> (r: &[LogLine])
        requires
            viewport.voffset + viewport.vsize <= usize::MAX,
            viewport.voffset <= self@.records.len(),
        ensures
            r@.map_values(|l: LogLine| l@) == self@.records.subrange(
                viewport.voffset as int,
                if viewport.voffset + viewport.vsize <= self@.records.len() {
                    viewport.voffset + viewport.vsize
                } else {
                    self@.records.len() as int
                },
            ),
    {
        let end = viewport.vend();
        let upper_bound = if end <= self.records.len() {
            end
        } else {
            self.records.len()
        };
        let r = slice_subrange(self.records.as_slice(), viewport.vbegin(), upper_bound);
        assert(r@.map_values(|l: LogLine| l@) =~= self@.records.subrange(
            viewport.voffset as int,
            upper_bound as int,
        ));
        r
    }
}

impl LogData for CsvData {
    fn len(&self) -> (r: usize)
        ensures
            r == self@.records.len(),
    {
        self.records.len()
    }

    fn is_empty(&self) -> (r: bool)
        ensures
            r == (self@.records.len() == 0),
    {
        self.records.len() == 0
    }

    /// The key column, which comes first.
    fn index_info(&self) -> (r: &ColumnInfo)
        ensures
            *r == self@.columns[0],
    {
        proof {
            use_type_invariant(self);
        }
        &self.columns[0]
    }

    /// The number of columns, the key column included.
    fn data_columns(&self) -> (r: usize)
        ensures
            r == self@.columns.len(),
    {
        self.columns.len()
    }

    fn data_infos(&self, idx: usize) -> (r: Option<&ColumnInfo>)
        ensures
            idx + 1 < self@.columns.len() ==> (r matches Some(c) && *c == self@.columns[idx + 1]),
            idx + 1 >= self@.columns.len() ==> r is None,
    {
        proof {
            use_type_invariant(self);
        }
        if idx < self.columns.len() - 1 {
            Some(&self.columns[idx + 1])
        } else {
            None
        }
    }

    fn iter_data_columns(&self) -> (r: IterDataColumns)
        ensures
            r@ == self@.columns.drop_first(),
    {
        proof {
            use_type_invariant(self);
        }
        let mut cols: Vec<ColumnInfo> = Vec::new();
        let mut i: usize = 1;
        while i < self.columns.len()
            invariant
                1 <= i <= self@.columns.len(),
                cols@ == self@.columns.subrange(1, i as int),
            decreases self@.columns.len() - i,
        {
            cols.push(self.columns[i]);
            i = i + 1;
        }
        assert(self@.columns.subrange(1, self@.columns.len() as int) =~= self@.columns.drop_first());
        IterDataColumns::from(cols)
    }

    /// The widths of the data columns from the one the window starts in,
    /// that first one cut by what lies left of the window.
    fn data_widths(&self, viewport: &ViewPort) -> (r: Vec<usize>)
        ensures
            r@.map_values(|w: usize| w as int) == widths_from(
                data_widths_of(self@.columns),
                start_in(data_widths_of(self@.columns), viewport.hoffset as int),
            ),
    {
        let ghost ws = data_widths_of(self@.columns);
        let (first_column_index, skip_in_column) = self.find_start(viewport);
        proof {
            use_type_invariant(self);
            lemma_start_in_bound(ws, viewport.hoffset as int);
        }
        let n = self.columns.len() - 1;
        let mut out: Vec<usize> = Vec::new();
        let mut idx: usize = first_column_index;
        let ghost target = widths_from(ws, start_in(ws, viewport.hoffset as int));
        while idx < n
            invariant
                ws == data_widths_of(self@.columns),
                n == ws.len(),
                n + 1 == self@.columns.len(),
                first_column_index <= idx <= n,
                target == widths_from(ws, (first_column_index as int, skip_in_column as int)),
                out@.len() == idx - first_column_index,
                forall|k: int| 0 <= k < out@.len() ==> #[trigger] out@[k] as int == target[k],
            decreases n - idx,
        {
            let width = self.data_width(idx);
            if idx == first_column_index {
                if width > skip_in_column {
                    out.push(width - skip_in_column);
                } else {
                    out.push(0);
                }
            } else {
                out.push(width);
            }
            idx = idx + 1;
        }
        assert(out@.map_values(|w: usize| w as int) =~= target);
        out
    }
}

} // verus!
