//! A view of log data: the table it shows.

use vstd::prelude::*;
use crate::log_data::LogData;

verus! {

/// Shows a table of log data: the key column on the left, the data columns
/// beside it.
pub struct LogView<'d, D: LogData> {
    data: &'d D,
}

impl<'d, D: LogData> LogView<'d, D> {
    pub fn from(data: &'d D) -> (r: LogView<'d, D>)
        ensures
            *r.spec_data() == *data,
    {
        LogView { data }
    }

    /// The data shown.
    pub fn data(&self) -> (r: &'d D)
        ensures
            *r == *self.spec_data(),
    {
        self.data
    }

    pub closed spec fn spec_data(&self) -> &'d D {
        self.data
    }
}

} // verus!
