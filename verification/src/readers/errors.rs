//! Failures while a source is read.
use vstd::prelude::*;

verus! {

/// Why a source could not be read.
#[derive(Debug)]
pub enum ReadError {
    /// The source cannot be had, for the reason given.
    GenericError(String),
    /// The system reported the failure described here.
    IOError(String),
}

/// A failure to read a source, as specifications speak of it: its text,
/// and whether the system reported it.
pub struct ReadErrorV {
    pub text: Seq<char>,
    pub io: bool,
}

impl View for ReadError {
    type V = ReadErrorV;

    open spec fn view(&self) -> ReadErrorV {
        match *self {
            ReadError::GenericError(msg) => ReadErrorV { text: msg@, io: false },
            ReadError::IOError(msg) => ReadErrorV { text: msg@, io: true },
        }
    }
}

impl ReadError {
    /// The text of the failure.
    pub open spec fn text(self) -> Seq<char> {
        match self {
            ReadError::GenericError(msg) => msg@,
            ReadError::IOError(msg) => msg@,
        }
    }

    /// The text of the failure.
    pub fn to_string(&self) -> (s: String)
        ensures
            s@ == self.text(),
    {
        match self {
            ReadError::GenericError(msg) => msg.clone(),
            ReadError::IOError(msg) => msg.clone(),
        }
    }
}

} // verus!
