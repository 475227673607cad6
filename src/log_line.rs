//! One line of a log: a key and the contents of its data columns.

use vstd::prelude::*;

verus! {

/// A record could not be read as a log line.
#[derive(Clone, Copy, Debug, PartialEq, Eq, Structural)]
pub enum LogLineError {
    /// The record has no field at all, so no key column.
    MissingKeyColumn,
}

/// The text of a log line.
pub struct LogLineView {
    pub key: Seq<char>,
    pub contents: Seq<Seq<char>>,
}

/// A key and the contents of the data columns of one line.
#[derive(Debug)]
pub struct LogLine {
    key: String,
    contents: Vec<String>,
}

impl View for LogLine {
    type V = LogLineView;

    closed spec fn view(&self) -> LogLineView {
        LogLineView { key: self.key@, contents: self.contents@.map_values(|s: String| s@) }
    }
}

impl LogLine {
    /// A line with a key and a single data column.
    pub fn new(key: String, contents: String) -> (r: Result<LogLine, LogLineError>)
        ensures
            r matches Ok(l) && l@.key == key@ && l@.contents == seq![contents@],
    {
        let ghost c = contents@;
        let r = LogLine { key, contents: vec![contents] };
        assert(r@.contents =~= seq![c]);
        Ok(r)
    }

    /// A line from the fields of a record: the first is the key, the others
    /// are the data columns.
    pub fn from_record(fields: Vec<String>) -> (r: Result<LogLine, LogLineError>)
        ensures
            fields@.len() == 0 ==> r == Err::<LogLine, LogLineError>(LogLineError::MissingKeyColumn),
            fields@.len() > 0 ==> (r matches Ok(l) && l@.key == fields@[0]@ && l@.contents
                == fields@.drop_first().map_values(|s: String| s@)),
    {
        let mut contents = fields;
        if contents.len() == 0 {
            return Err(LogLineError::MissingKeyColumn);
        }
        let ghost before = contents@;
        let key = contents.remove(0);
        let r = LogLine { key, contents };
        assert(r@.contents =~= before.drop_first().map_values(|s: String| s@));
        Ok(r)
    }

    pub fn key_value(&self) -> (r: &str)
        ensures
            r@ == self@.key,
    {
        self.key.as_str()
    }

    /// The contents of data column `index`, if the line has one.
    pub fn contents(&self, index: usize) -> (r: Option<&str>)
        ensures
            index < self@.contents.len() ==> (r matches Some(s) && s@ == self@.contents[index as int]),
            index >= self@.contents.len() ==> r is None,
    {
        if index < self.contents.len() {
            Some(self.contents[index].as_str())
        } else {
            None
        }
    }

    /// The contents of all data columns, in order.
    pub fn iter_contents(&self) -> (r: &[String])
        ensures
            r@.map_values(|s: String| s@) == self@.contents,
    {
        self.contents.as_slice()
    }
}

} // verus!
