//! What the scope resolver knows about the place it is at.
use vstd::prelude::*;
use crate::parser::errors::{ParseError, ParseErrorV, parse_view};
use crate::parser::ParseResult;
use crate::src_loc::{SrcLoc, SrcLocV};

verus! {

/// What holds of one nesting level.
#[derive(Clone, Copy)]
pub struct InternalState {
    pub allow_break: bool,
}

impl InternalState {
    /// A level at which `break` is not allowed.
    pub fn new() -> (r: InternalState)
        ensures
            !r.allow_break,
    {
        InternalState { allow_break: false }
    }
}

/// A stack of nesting levels. Each holds whether `break` is allowed there:
/// it is inside the body of a `while`, and not in a function that is
/// itself inside that body. The innermost level is on top.
pub struct State {
    states: Vec<InternalState>,
}

impl View for State {
    type V = Seq<bool>;

    closed spec fn view(&self) -> Seq<bool> {
        Seq::new(self.states@.len(), |i: int| self.states@[i].allow_break)
    }
}

/// The error of an operation that needs a level on a stack that has none.
pub open spec fn no_state(loc: SrcLocV) -> ParseErrorV {
    ParseErrorV::at(loc, "invalid anaylsis state"@)
}

impl State {
    /// A stack of one level, at which `break` is not allowed.
    pub fn new() -> (r: State)
        ensures
            r@ == seq![false],
    {
        let mut states: Vec<InternalState> = Vec::new();
        states.push(InternalState::new());
        let r = State { states };
        assert(r@ =~= seq![false]);
        r
    }

    /// Enters a level at which `break` is not allowed.
    pub fn save_state(&mut self)
        ensures
            final(self)@ == old(self)@.push(false),
    {
        self.states.push(InternalState::new());
        assert(self@ =~= old(self)@.push(false));
    }

    /// Leaves the innermost level. Fails where there is none.
    pub fn restore_state(&mut self, loc: &SrcLoc) -> (r: ParseResult<()>)
        ensures
            old(self)@.len() > 0 ==> r is Ok && final(self)@ == old(self)@.drop_last(),
            old(self)@.len() == 0 ==> final(self)@ == old(self)@ && parse_view(r) == Err::<
                (),
                ParseErrorV,
            >(no_state(loc@)),
    {
        match self.states.pop() {
            Some(_) => {
                assert(self@ =~= old(self)@.drop_last());
                Ok(())
            },
            None => {
                assert(self@ =~= old(self)@);
                Err(ParseError::new(loc.clone(), "invalid anaylsis state"))
            },
        }
    }

    /// Whether `break` is allowed at the innermost level. Fails where
    /// there is no level.
    pub fn allow_break(&self, loc: &SrcLoc) -> (r: ParseResult<bool>)
        ensures
            parse_view(r) == if self@.len() > 0 {
                Ok::<bool, ParseErrorV>(self@.last())
            } else {
                Err::<bool, ParseErrorV>(no_state(loc@))
            },
    {
        if self.states.len() > 0 {
            Ok(self.states[self.states.len() - 1].allow_break)
        } else {
            Err(ParseError::new(loc.clone(), "invalid anaylsis state"))
        }
    }

    /// Sets whether `break` is allowed at the innermost level. Fails where
    /// there is no level.
    pub fn set_allow_break(&mut self, allow_break: bool, loc: &SrcLoc) -> (r: ParseResult<()>)
        ensures
            old(self)@.len() > 0 ==> r is Ok && final(self)@ == old(self)@.drop_last().push(
                allow_break,
            ),
            old(self)@.len() == 0 ==> final(self)@ == old(self)@ && parse_view(r) == Err::<
                (),
                ParseErrorV,
            >(no_state(loc@)),
    {
        let n = self.states.len();
        if n > 0 {
            self.states[n - 1].allow_break = allow_break;
            assert(self@ =~= old(self)@.drop_last().push(allow_break));
            Ok(())
        } else {
            Err(ParseError::new(loc.clone(), "invalid anaylsis state"))
        }
    }
}

} // verus!
