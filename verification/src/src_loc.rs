//! Positions in source text.
use vstd::prelude::*;
use crate::text::{decimal, push_decimal};

verus! {

/// A place in a source: the name of the source, a line and a column.
#[derive(Debug)]
pub struct SrcLoc {
    pub filename: String,
    pub line_num: u32,
    pub col_num: u32,
}

/// The mathematical value of a [`SrcLoc`].
pub struct SrcLocV {
    pub filename: Seq<char>,
    pub line_num: u32,
    pub col_num: u32,
}

impl View for SrcLoc {
    type V = SrcLocV;

    open spec fn view(&self) -> SrcLocV {
        SrcLocV { filename: self.filename@, line_num: self.line_num, col_num: self.col_num }
    }
}

impl Clone for SrcLoc {
    fn clone(&self) -> (r: Self)
        ensures
            r == *self,
    {
        SrcLoc { filename: self.filename.clone(), line_num: self.line_num, col_num: self.col_num }
    }
}

impl SrcLocV {
    /// The text `name:line:column`.
    pub open spec fn text(self) -> Seq<char> {
        self.filename + seq![':'] + decimal(self.line_num as nat) + seq![':'] + decimal(
            self.col_num as nat,
        )
    }
}

impl SrcLoc {
    /// The place `line_num:col_num` of the source called `filename`.
    pub fn new(filename: &str, line_num: u32, col_num: u32) -> (r: SrcLoc)
        ensures
            r@ == (SrcLocV { filename: filename@, line_num, col_num }),
    {
        SrcLoc { filename: String::from_str(filename), line_num, col_num }
    }

    /// Another place in the same source.
    pub fn new_at(&self, line_num: u32, col_num: u32) -> (r: SrcLoc)
        ensures
            r@ == (SrcLocV { filename: self.filename@, line_num, col_num }),
            r.filename == self.filename,
    {
        SrcLoc { filename: self.filename.clone(), line_num, col_num }
    }

    /// The place written as `name:line:column`.
    pub fn to_string(&self) -> (s: String)
        ensures
            s@ == self@.text(),
    {
        let mut s = self.filename.clone();
        s.push(':');
        push_decimal(&mut s, self.line_num as u64);
        s.push(':');
        push_decimal(&mut s, self.col_num as u64);
        assert(s@ =~= self@.text());
        s
    }
}

} // verus!
