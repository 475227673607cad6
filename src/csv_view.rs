//! The scroll position of a plain CSV table view.

use vstd::prelude::*;

verus! {

/// How far a CSV table is scrolled down (in rows) and right (in columns).
#[derive(Clone, Copy, Debug, PartialEq, Eq, Structural)]
pub struct CsvViewState {
    pub vscroll_offset: usize,
    pub hscroll_offset: usize,
}

impl CsvViewState {
    /// Scrolled to the top left.
    pub fn new() -> (r: CsvViewState)
        ensures
            r.vscroll_offset == 0,
            r.hscroll_offset == 0,
    {
        CsvViewState { vscroll_offset: 0, hscroll_offset: 0 }
    }

    pub fn vscroll_offset(&self) -> (r: &usize)
        ensures
            *r == self.vscroll_offset,
    {
        &self.vscroll_offset
    }

    pub fn hscroll_offset(&self) -> (r: &usize)
        ensures
            *r == self.hscroll_offset,
    {
        &self.hscroll_offset
    }

    pub fn set_vscroll_offset(&mut self, val: usize)
        ensures
            final(self).vscroll_offset == val,
            final(self).hscroll_offset == old(self).hscroll_offset,
    {
        self.vscroll_offset = val;
    }

    pub fn set_hscroll_offset(&mut self, val: usize)
        ensures
            final(self).hscroll_offset == val,
            final(self).vscroll_offset == old(self).vscroll_offset,
    {
        self.hscroll_offset = val;
    }
}

impl Default for CsvViewState {
    fn default() -> (r: CsvViewState)
        ensures
            r.vscroll_offset == 0,
            r.hscroll_offset == 0,
    {
        CsvViewState::new()
    }
}

} // verus!
