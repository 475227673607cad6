//! The window of a table that is on screen: which columns (by character
//! offset) and which rows.

use vstd::prelude::*;

verus! {

/// A horizontal offset and width, and a vertical offset and height.
#[derive(Clone, Copy, Debug, PartialEq, Eq, Structural)]
pub struct ViewPort {
    pub hoffset: usize,
    pub voffset: usize,
    pub hsize: usize,
    pub vsize: usize,
}

impl ViewPort {
    pub fn new(hoffset: usize, voffset: usize, hsize: usize, vsize: usize) -> (r: ViewPort)
        ensures
            r == (ViewPort { hoffset, voffset, hsize, vsize }),
    {
        ViewPort { hoffset, voffset, hsize, vsize }
    }

    /// A window of `width` columns and `height` rows of a screen area.
    pub fn from_area(hoffset: usize, voffset: usize, width: u16, height: u16) -> (r: ViewPort)
        ensures
            r == (ViewPort { hoffset, voffset, hsize: width as usize, vsize: height as usize }),
    {
        ViewPort { hoffset, voffset, hsize: width as usize, vsize: height as usize }
    }

    pub fn hoffset(&self) -> (r: &usize)
        ensures
            *r == self.hoffset,
    {
        &self.hoffset
    }

    pub fn voffset(&self) -> (r: &usize)
        ensures
            *r == self.voffset,
    {
        &self.voffset
    }

    pub fn hsize(&self) -> (r: &usize)
        ensures
            *r == self.hsize,
    {
        &self.hsize
    }

    pub fn vsize(&self) -> (r: &usize)
        ensures
            *r == self.vsize,
    {
        &self.vsize
    }

    /// The first column on screen.
    pub fn hbegin(&self) -> (r: usize)
        ensures
            r == self.hoffset,
    {
        self.hoffset
    }

    /// The column just past the last one on screen.
    pub fn hend(&self) -> (r: usize)
        requires
            self.hoffset + self.hsize <= usize::MAX,
        ensures
            r == self.hoffset + self.hsize,
    {
        self.hoffset + self.hsize
    }

    /// The first row on screen.
    pub fn vbegin(&self) -> (r: usize)
        ensures
            r == self.voffset,
    {
        self.voffset
    }

    /// The row just past the last one on screen.
    pub fn vend(&self) -> (r: usize)
        requires
            self.voffset + self.vsize <= usize::MAX,
        ensures
            r == self.voffset + self.vsize,
    {
        self.voffset + self.vsize
    }
}

} // verus!
