//! Column widths and what a table of log data offers to the views that
//! show it.

use vstd::prelude::*;
use crate::viewport::ViewPort;

verus! {

/// The width of a column in bytes, where known.
#[derive(Clone, Copy, Debug, PartialEq, Eq, Structural)]
pub enum ColumnWidth {
    Width(usize),
    Unknown,
}

/// A column width could not be given as a number.
#[derive(Clone, Copy, Debug, PartialEq, Eq, Structural)]
pub enum ColumnWidthError {
    /// The column has no width.
    NoWidth,
    /// The width does not fit the integer type asked for.
    TooWide,
}

impl ColumnWidth {
    /// Widens a known width to at least `width`; an unknown width stays
    /// unknown.
    pub fn advance_to(&mut self, width: usize)
        ensures
            *final(self) == match *old(self) {
                ColumnWidth::Width(me) => ColumnWidth::Width(
                    if me >= width {
                        me
                    } else {
                        width
                    },
                ),
                ColumnWidth::Unknown => ColumnWidth::Unknown,
            },
    {
        match *self {
            ColumnWidth::Width(me) => {
                *self = ColumnWidth::Width(if me >= width { me } else { width });
            },
            ColumnWidth::Unknown => {},
        }
    }

    /// The width as a `usize`.
    pub fn as_usize(&self) -> (r: Result<usize, ColumnWidthError>)
        ensures
            r == match *self {
                ColumnWidth::Width(w) => Ok::<usize, ColumnWidthError>(w),
                ColumnWidth::Unknown => Err(ColumnWidthError::NoWidth),
            },
    {
        match *self {
            ColumnWidth::Width(w) => Ok(w),
            ColumnWidth::Unknown => Err(ColumnWidthError::NoWidth),
        }
    }

    /// The width as a `u16`, for a screen layout.
    pub fn as_u16(&self) -> (r: Result<u16, ColumnWidthError>)
        ensures
            r == match *self {
                ColumnWidth::Width(w) => if w <= u16::MAX {
                    Ok::<u16, ColumnWidthError>(w as u16)
                } else {
                    Err(ColumnWidthError::TooWide)
                },
                ColumnWidth::Unknown => Err(ColumnWidthError::NoWidth),
            },
    {
        match *self {
            ColumnWidth::Width(w) => if w <= u16::MAX as usize {
                Ok(w as u16)
            } else {
                Err(ColumnWidthError::TooWide)
            },
            ColumnWidth::Unknown => Err(ColumnWidthError::NoWidth),
        }
    }
}

/// What is known of one column.
#[derive(Clone, Copy, Debug, PartialEq, Eq, Structural)]
pub struct ColumnInfo {
    pub width: ColumnWidth,
}

impl ColumnInfo {
    pub fn new(width: ColumnWidth) -> (r: ColumnInfo)
        ensures
            r.width == width,
    {
        ColumnInfo { width }
    }

    pub fn width(&self) -> (r: &ColumnWidth)
        ensures
            *r == self.width,
    {
        &self.width
    }
}

/// The data columns of a table, handed out one at a time.
pub struct IterDataColumns {
    columns: Vec<ColumnInfo>,
    next: usize,
}

impl View for IterDataColumns {
    type V = Seq<ColumnInfo>;

    /// The columns not handed out yet.
    closed spec fn view(&self) -> Seq<ColumnInfo> {
        self.columns@.skip(self.next as int)
    }
}

impl IterDataColumns {
    #[verifier::type_invariant]
    spec fn inv(self) -> bool {
        self.next <= self.columns@.len()
    }

    pub fn from(columns: Vec<ColumnInfo>) -> (r: IterDataColumns)
        ensures
            r@ == columns@,
    {
        let r = IterDataColumns { columns, next: 0 };
        assert(r@ =~= r.columns@);
        r
    }

    /// The next column, if any is left.
    pub fn next(&mut self) -> (r: Option<ColumnInfo>)
        ensures
            old(self)@.len() == 0 ==> r is None && final(self)@ == old(self)@,
            old(self)@.len() > 0 ==> r == Some(old(self)@[0]) && final(self)@ == old(
                self,
            )@.drop_first(),
    {
        proof {
            use_type_invariant(&*self);
        }
        if self.next < self.columns.len() {
            let c = self.columns[self.next];
            self.next = self.next + 1;
            assert(self@ =~= old(self)@.drop_first());
            Some(c)
        } else {
            None
        }
    }
}

/// A table of log lines: a key column, then data columns.
pub trait LogData {
    /// Number of rows.
    fn len(&self) -> usize;

    fn is_empty(&self) -> bool;

    /// The key column.
    fn index_info(&self) -> &ColumnInfo;

    /// Number of data columns.
    fn data_columns(&self) -> usize;

    /// Data column `idx`, if there is one.
    fn data_infos(&self, idx: usize) -> Option<&ColumnInfo>;

    /// The data columns, one at a time.
    fn iter_data_columns(&self) -> IterDataColumns;

    /// The widths of the data columns as far as they fall in the window.
    fn data_widths(&self, viewport: &ViewPort) -> Vec<usize>;
}

} // verus!
