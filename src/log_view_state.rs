//! The scroll position of a log view, and how keys move it.

use vstd::prelude::*;
use crate::csv_data::{CsvData, data_widths_of, start_in, widths_from};
use crate::log_data::LogData;
use crate::viewport::ViewPort;

verus! {

/// How far a log view is scrolled down (in rows) and right (in columns).
#[derive(Clone, Copy, Debug, PartialEq, Eq, Structural)]
pub struct LogViewState {
    pub vscroll_offset: usize,
    pub hscroll_offset: usize,
}

impl LogViewState {
    pub fn vscroll_offset(&self) -> (r: &usize)
        ensures
            *r == self.vscroll_offset,
    {
        &self.vscroll_offset
    }

    pub fn hscroll_offset(&self) -> (r: &usize)
        ensures
            *r == self.hscroll_offset,
    {
        &self.hscroll_offset
    }

    pub fn set_vscroll_offset(&mut self, val: usize)
        ensures
            final(self).vscroll_offset == val,
            final(self).hscroll_offset == old(self).hscroll_offset,
    {
        self.vscroll_offset = val;
    }

    pub fn set_hscroll_offset(&mut self, val: usize)
        ensures
            final(self).hscroll_offset == val,
            final(self).vscroll_offset == old(self).vscroll_offset,
    {
        self.hscroll_offset = val;
    }

    /// The window onto a screen area of `width` by `height` at the current
    /// scroll position.
    pub fn viewport(&self, width: u16, height: u16) -> (r: ViewPort)
        ensures
            r == (ViewPort {
                hoffset: self.hscroll_offset,
                voffset: self.vscroll_offset,
                hsize: width as usize,
                vsize: height as usize,
            }),
    {
        ViewPort::from_area(self.hscroll_offset, self.vscroll_offset, width, height)
    }
}

/// Whether some width is above zero.
pub open spec fn any_width(ws: Seq<int>) -> bool {
    exists|k: int| 0 <= k < ws.len() && ws[k] > 0
}

impl LogViewState {
    /// Scrolled to the top left.
    pub fn new() -> (r: LogViewState)
        ensures
            r.vscroll_offset == 0,
            r.hscroll_offset == 0,
    {
        LogViewState { vscroll_offset: 0, hscroll_offset: 0 }
    }

    /// Scrolls down by `steps` rows, but not past the last of `len` rows;
    /// with no rows nothing moves.
    pub fn forward(&mut self, steps: usize, len: usize)
        ensures
            final(self).hscroll_offset == old(self).hscroll_offset,
            final(self).vscroll_offset == if len == 0 {
                old(self).vscroll_offset as int
            } else if old(self).vscroll_offset + steps <= len - 1 {
                old(self).vscroll_offset + steps
            } else {
                len - 1
            },
    {
        if len != 0 {
            let last = len - 1;
            if self.vscroll_offset <= last && steps <= last - self.vscroll_offset {
                self.vscroll_offset = self.vscroll_offset + steps;
            } else {
                self.vscroll_offset = last;
            }
        }
    }

    /// Scrolls up by `steps` rows, but not above the first.
    pub fn backward(&mut self, steps: usize)
        ensures
            final(self).hscroll_offset == old(self).hscroll_offset,
            final(self).vscroll_offset == if old(self).vscroll_offset >= steps {
                old(self).vscroll_offset - steps
            } else {
                0
            },
    {
        if self.vscroll_offset >= steps {
            self.vscroll_offset = self.vscroll_offset - steps;
        } else {
            self.vscroll_offset = 0;
        }
    }

    /// Scrolls to the first row.
    pub fn begin(&mut self)
        ensures
            final(self).hscroll_offset == old(self).hscroll_offset,
            final(self).vscroll_offset == 0,
    {
        self.vscroll_offset = 0;
    }

    /// Scrolls to the last of `len` rows; with no rows nothing moves.
    pub fn end(&mut self, len: usize)
        ensures
            final(self).hscroll_offset == old(self).hscroll_offset,
            final(self).vscroll_offset == if len == 0 {
                old(self).vscroll_offset as int
            } else {
                len - 1
            },
    {
        if len != 0 {
            self.vscroll_offset = len - 1;
        }
    }

    /// Scrolls right by `steps` columns where some data column would still
    /// show there; otherwise nothing moves.
    pub fn right(&mut self, steps: usize, data: &CsvData)
        requires
            old(self).hscroll_offset + steps <= usize::MAX,
        ensures
            final(self).vscroll_offset == old(self).vscroll_offset,
            final(self).hscroll_offset == if any_width(
                widths_from(
                    data_widths_of(data@.columns),
                    start_in(
                        data_widths_of(data@.columns),
                        old(self).hscroll_offset + steps,
                    ),
                ),
            ) {
                old(self).hscroll_offset + steps
            } else {
                old(self).hscroll_offset as int
            },
    {
        let target = self.hscroll_offset + steps;
        let viewport = ViewPort::new(target, 0, 44, 55);
        let widths = data.data_widths(&viewport);
        let ghost ws = widths@.map_values(|w: usize| w as int);
        let mut any = false;
        let mut k: usize = 0;
        while k < widths.len()
            invariant
                0 <= k <= widths@.len(),
                ws == widths@.map_values(|w: usize| w as int),
                any == exists|j: int| 0 <= j < k && ws[j] > 0,
            decreases widths@.len() - k,
        {
            if widths[k] > 0 {
                any = true;
            }
            assert(ws[k as int] == widths@[k as int] as int);
            k = k + 1;
        }
        if any {
            self.hscroll_offset = target;
        }
    }

    /// Scrolls left by `steps` columns, but not past the first.
    pub fn left(&mut self, steps: usize)
        ensures
            final(self).vscroll_offset == old(self).vscroll_offset,
            final(self).hscroll_offset == if old(self).hscroll_offset >= steps {
                old(self).hscroll_offset - steps
            } else {
                0
            },
    {
        if self.hscroll_offset >= steps {
            self.hscroll_offset = self.hscroll_offset - steps;
        } else {
            self.hscroll_offset = 0;
        }
    }
}

impl Default for LogViewState {
    fn default() -> (r: LogViewState)
        ensures
            r.vscroll_offset == 0,
            r.hscroll_offset == 0,
    {
        LogViewState::new()
    }
}

} // verus!
