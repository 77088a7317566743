//! Script text that is held in memory.
use vstd::prelude::*;
use crate::readers::errors::ReadError;
use crate::readers::{InputSource, Opened, Openings, ReadErrorV, opened_view};

verus! {

/// The characters of a string, handed out one at a time.
pub struct StringInput {
    chars: Vec<char>,
    cur: usize,
}

impl StringInput {
    /// The characters that were not handed out yet.
    pub closed spec fn rest(&self) -> Seq<char> {
        if self.cur <= self.chars@.len() {
            self.chars@.subrange(self.cur as int, self.chars@.len() as int)
        } else {
            Seq::empty()
        }
    }

    pub fn new(chars: Vec<char>) -> (r: StringInput)
        ensures
            r.rest() == chars@,
    {
        let r = StringInput { chars, cur: 0 };
        assert(r.rest() =~= chars@);
        r
    }

    /// Hands out the next character, or `None` at the end.
    pub fn next(&mut self) -> (r: Option<char>)
        ensures
            old(self).rest().len() == 0 ==> r is None && final(self).rest() == old(self).rest(),
            old(self).rest().len() > 0 ==> r == Some(old(self).rest()[0]) && final(self).rest()
                == old(self).rest().subrange(1, old(self).rest().len() as int),
    {
        if self.cur < self.chars.len() {
            let c = self.chars[self.cur];
            self.cur += 1;
            assert(self.rest() =~= old(self).rest().subrange(1, old(self).rest().len() as int));
            Some(c)
        } else {
            assert(self.rest() =~= old(self).rest());
            None
        }
    }

    /// All characters that were not handed out yet.
    pub fn into_chars(self) -> (r: Vec<char>)
        ensures
            r@ == self.rest(),
    {
        let mut out: Vec<char> = Vec::new();
        let mut i: usize = self.cur;
        if i > self.chars.len() {
            return out;
        }
        while i < self.chars.len()
            invariant
                self.cur <= i <= self.chars.len(),
                out@ == self.chars@.subrange(self.cur as int, i as int),
            decreases self.chars.len() - i,
        {
            out.push(self.chars[i]);
            assert(out@ =~= self.chars@.subrange(self.cur as int, i + 1));
            i += 1;
        }
        out
    }
}

/// A source that is one string. It can be opened once; a script that is
/// read from a string cannot include anything.
pub struct StringInputOpener {
    source: Option<StringInput>,
}

impl StringInputOpener {
    /// The text that the next `open` gives, if it gives one.
    pub closed spec fn text(&self) -> Option<Seq<char>> {
        match self.source {
            Some(s) => Some(s.rest()),
            None => None,
        }
    }

    /// The source that holds `chars`.
    pub fn for_chars(chars: Vec<char>) -> (r: StringInputOpener)
        ensures
            r.text() == Some(chars@),
    {
        StringInputOpener { source: Some(StringInput::new(chars)) }
    }

    /// The source that holds the characters of `string`.
    pub fn for_string(string: &str) -> (r: StringInputOpener)
        ensures
            r.text() == Some(string@),
    {
        StringInputOpener::for_chars(chars_of(string))
    }
}

/// The characters of a string.
pub fn chars_of(s: &str) -> (r: Vec<char>)
    ensures
        r@ == s@,
{
    let n = s.unicode_len();
    let mut out: Vec<char> = Vec::new();
    let mut i: usize = 0;
    while i < n
        invariant
            i <= n,
            n == s@.len(),
            out@ == s@.subrange(0, i as int),
        decreases n - i,
    {
        out.push(s.get_char(i));
        assert(out@ =~= s@.subrange(0, i + 1));
        i += 1;
    }
    assert(out@ =~= s@);
    out
}

/// The error of an opener of a string that is asked for a second source.
pub open spec fn no_include() -> Seq<char> {
    "can't use 'include' from string source"@
}

/// What an opener of a string answers when it is asked for a second
/// source.
pub open spec fn refusal() -> Opened {
    Err(ReadErrorV { text: no_include(), io: false })
}

/// What an opener of the string `text` gives for `n` sources that are
/// opened one after the other: the string for the first, a refusal for
/// every other.
pub open spec fn string_sources(text: Seq<char>, n: nat) -> Openings {
    Seq::new(
        n,
        |i: int|
            if i == 0 {
                Ok::<Seq<char>, ReadErrorV>(text)
            } else {
                refusal()
            },
    )
}

impl InputSource for StringInputOpener {
    /// The first source that is opened is the string, whatever its name.
    /// Every other is refused.
    open spec fn allows(&self, rs: Openings) -> bool {
        match self.text() {
            Some(t) => rs == string_sources(t, rs.len()),
            None => forall|i: int| 0 <= i < rs.len() ==> #[trigger] rs[i] == refusal(),
        }
    }

    fn open(&mut self, _source: &str) -> (r: Result<Vec<char>, ReadError>)
        ensures
            final(self).text() is None,
    {
        let ghost before = self.text();
        let r = match self.source.take() {
            Some(s) => Ok(s.into_chars()),
            None => Err(
                ReadError::GenericError(String::from_str("can't use 'include' from string source")),
            ),
        };
        proof {
            assert forall|rest: Openings| #[trigger] self.allows(rest) implies old(self).allows(
                seq![opened_view(r)] + rest,
            ) by {
                let all = seq![opened_view(r)] + rest;
                match before {
                    Some(t) => {
                        assert forall|i: int| 0 <= i < all.len() implies all[i] == string_sources(
                            t,
                            all.len(),
                        )[i] by {
                            if i > 0 {
                                assert(all[i] == rest[i - 1]);
                            }
                        }
                        assert(all =~= string_sources(t, all.len()));
                    },
                    None => {
                        assert forall|i: int| 0 <= i < all.len() implies #[trigger] all[i]
                            == refusal() by {
                            if i > 0 {
                                assert(all[i] == rest[i - 1]);
                            }
                        }
                    },
                }
            }
        }
        r
    }
}

} // verus!
