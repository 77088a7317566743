//! Failures before a script runs: while it is read, parsed, resolved or
//! compiled.
use vstd::prelude::*;
pub use crate::readers::errors::ReadError;
use crate::src_loc::{SrcLoc, SrcLocV};

verus! {

/// What went wrong.
#[derive(Debug)]
pub enum ParseErrorData {
    Message(String),
    ReadError(ReadError),
}

/// A failure at a place in a source.
#[derive(Debug)]
pub struct ParseError {
    pub data: ParseErrorData,
    pub loc: SrcLoc,
}

/// The mathematical value of a [`ParseError`]: the place, the text of the
/// message, whether reading the source is what failed, and of what kind
/// that failure was.
pub struct ParseErrorV {
    pub loc: SrcLocV,
    pub msg: Seq<char>,
    pub from_read: bool,
    /// Whether the system reported the failure to read.
    pub io: bool,
}

impl View for ParseError {
    type V = ParseErrorV;

    open spec fn view(&self) -> ParseErrorV {
        match self.data {
            ParseErrorData::Message(msg) => ParseErrorV {
                loc: self.loc@,
                msg: msg@,
                from_read: false,
                io: false,
            },
            ParseErrorData::ReadError(err) => ParseErrorV {
                loc: self.loc@,
                msg: err@.text,
                from_read: true,
                io: err@.io,
            },
        }
    }
}

impl ParseErrorV {
    /// The error with the message `msg` at `loc`.
    pub open spec fn at(loc: SrcLocV, msg: Seq<char>) -> ParseErrorV {
        ParseErrorV { loc, msg, from_read: false, io: false }
    }

    /// The text `place: message`.
    pub open spec fn text(self) -> Seq<char> {
        self.loc.text() + ": "@ + self.msg
    }
}

/// A result with its error taken by its view.
pub open spec fn parse_view<T>(r: Result<T, ParseError>) -> Result<T, ParseErrorV> {
    match r {
        Ok(v) => Ok(v),
        Err(e) => Err(e@),
    }
}

impl ParseError {
    /// The error with the message `msg` at `loc`.
    pub fn new(loc: SrcLoc, msg: &str) -> (r: ParseError)
        ensures
            r@ == ParseErrorV::at(loc@, msg@),
            r.loc == loc,
    {
        ParseError { data: ParseErrorData::Message(String::from_str(msg)), loc }
    }

    /// The error that reports that reading a source failed.
    pub fn from_read(loc: SrcLoc, err: ReadError) -> (r: ParseError)
        ensures
            r@ == (ParseErrorV { loc: loc@, msg: err@.text, from_read: true, io: err@.io }),
    {
        ParseError { data: ParseErrorData::ReadError(err), loc }
    }

    /// The error written as `place: message`.
    pub fn to_string(&self) -> (s: String)
        ensures
            s@ == self@.text(),
    {
        let mut s = self.loc.to_string();
        s.append(": ");
        match &self.data {
            ParseErrorData::Message(msg) => {
                s.append(msg.as_str());
            },
            ParseErrorData::ReadError(err) => {
                let t = err.to_string();
                s.append(t.as_str());
            },
        }
        s
    }
}

} // verus!
