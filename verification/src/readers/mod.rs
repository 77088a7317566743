//! Sources of script text.
use vstd::prelude::*;

pub mod errors;
pub mod string;

pub use self::errors::{ReadError, ReadErrorV};
pub use self::string::{StringInput, StringInputOpener};

verus! {

/// What opening a source gave, as specifications speak of it: its
/// characters, or the error.
pub type Opened = Result<Seq<char>, ReadErrorV>;

/// What opening sources one after the other gave.
pub type Openings = Seq<Opened>;

/// What `open` returned, as specifications speak of it.
pub open spec fn opened_view(r: Result<Vec<char>, ReadError>) -> Opened {
    match r {
        Ok(chars) => Ok(chars@),
        Err(e) => Err(e@),
    }
}

/// A way to open the sources of scripts by their names.
///
/// What opening a source gives is for the opener to say, and may depend
/// on more than the opener and the name. `allows` says which outcomes the
/// opener, as it is, allows for the sources that are opened from now on,
/// one after the other. The contract of `open` claims no more than that
/// the outcome is allowed: whatever the opener allows after the call is
/// allowed before it, after the outcome of the call. An opener that knows
/// nothing beforehand allows everything.
pub trait InputSource {
    /// Whether opening sources from now on can give `rs`, one after the
    /// other. This is a function of specifications: it is never run, and
    /// an implementation outside of verified code gives it a body that is
    /// never reached.
    spec fn allows(&self, rs: Openings) -> bool;

    /// Opens `source` and returns its characters.
    fn open(&mut self, source: &str) -> (r: Result<Vec<char>, ReadError>)
        ensures
            final(self).allows(Seq::empty()),
            forall|rest: Openings| #[trigger]
                final(self).allows(rest) ==> old(self).allows(seq![opened_view(r)] + rest),
    ;
}

} // verus!
