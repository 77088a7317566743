//! Reading a source character by character, and knowing where one is.
use vstd::prelude::*;

verus! {

/// A place in a text: line, column, and the column at which the line
/// before ended.
pub struct Place {
    pub line_num: u32,
    pub col_num: u32,
    pub col_num_before_newline: u32,
}

/// The place after `ch` was read at `p`: a newline starts a line, any
/// other character moves one column on. Counters stop at their maximum.
pub open spec fn advanced(p: Place, ch: char) -> Place {
    if ch == '\n' {
        Place {
            line_num: if p.line_num < u32::MAX {
                (p.line_num + 1) as u32
            } else {
                p.line_num
            },
            col_num: 1,
            col_num_before_newline: p.col_num,
        }
    } else {
        Place {
            col_num: if p.col_num < u32::MAX {
                (p.col_num + 1) as u32
            } else {
                p.col_num
            },
            ..p
        }
    }
}

/// The place after `ch` was put back at `p`: a newline goes back to the
/// end of the line before, any other character one column back. Counters
/// stop at zero.
pub open spec fn retreated(p: Place, ch: char) -> Place {
    if ch == '\n' {
        Place {
            line_num: if p.line_num > 0 {
                (p.line_num - 1) as u32
            } else {
                p.line_num
            },
            col_num: p.col_num_before_newline,
            ..p
        }
    } else {
        Place {
            col_num: if p.col_num > 0 {
                (p.col_num - 1) as u32
            } else {
                p.col_num
            },
            ..p
        }
    }
}

/// A text that is read one character at a time, with the characters that
/// were put back read first.
pub struct CharReader {
    chars: Vec<char>,
    pos: usize,
    line_num: u32,
    col_num: u32,
    col_num_before_newline: u32,
    saved: Vec<char>,
}

impl CharReader {
    /// The characters that are still to be read, the next one first.
    pub closed spec fn rest(&self) -> Seq<char> {
        self.saved@.reverse() + self.chars@.subrange(
            if self.pos <= self.chars@.len() {
                self.pos as int
            } else {
                self.chars@.len() as int
            },
            self.chars@.len() as int,
        )
    }

    /// Where the reader is.
    pub closed spec fn place(&self) -> Place {
        Place {
            line_num: self.line_num,
            col_num: self.col_num,
            col_num_before_newline: self.col_num_before_newline,
        }
    }

    /// A reader at line 1, column 1 of `chars`.
    pub fn new(chars: Vec<char>) -> (r: CharReader)
        ensures
            r.rest() == chars@,
            r.place() == (Place { line_num: 1, col_num: 1, col_num_before_newline: 0 }),
    {
        let r = CharReader {
            chars,
            line_num: 1,
            col_num: 1,
            col_num_before_newline: 0,
            pos: 0,
            saved: Vec::new(),
        };
        assert(r.rest() =~= chars@);
        r
    }

    /// Puts `ch` back: it is the next character read.
    pub fn ungetc(&mut self, ch: char)
        ensures
            final(self).rest() == seq![ch] + old(self).rest(),
            final(self).place() == retreated(old(self).place(), ch),
    {
        self.retreat_loc(ch);
        self.saved.push(ch);
        assert(self.saved@.reverse() =~= seq![ch] + old(self).saved@.reverse());
        assert(self.rest() =~= seq![ch] + old(self).rest());
    }

    pub fn line_num(&self) -> (r: u32)
        ensures
            r == self.place().line_num,
    {
        self.line_num
    }

    pub fn col_num(&self) -> (r: u32)
        ensures
            r == self.place().col_num,
    {
        self.col_num
    }

    fn advance_loc(&mut self, ch: char)
        ensures
            final(self).place() == advanced(old(self).place(), ch),
            final(self).chars == old(self).chars,
            final(self).pos == old(self).pos,
            final(self).saved == old(self).saved,
    {
        if ch == '\n' {
            self.col_num_before_newline = self.col_num;
            if self.line_num < u32::MAX {
                self.line_num += 1;
            }
            self.col_num = 1;
        } else {
            if self.col_num < u32::MAX {
                self.col_num += 1;
            }
        }
    }

    fn retreat_loc(&mut self, ch: char)
        ensures
            final(self).place() == retreated(old(self).place(), ch),
            final(self).chars == old(self).chars,
            final(self).pos == old(self).pos,
            final(self).saved == old(self).saved,
    {
        if ch == '\n' {
            if self.line_num > 0 {
                self.line_num -= 1;
            }
            self.col_num = self.col_num_before_newline;
        } else {
            if self.col_num > 0 {
                self.col_num -= 1;
            }
        }
    }

    /// Reads the next character, or returns `None` at the end of the text.
    pub fn next(&mut self) -> (r: Option<char>)
        ensures
            old(self).rest().len() == 0 ==> r is None && final(self).rest() == old(self).rest()
                && final(self).place() == old(self).place(),
            old(self).rest().len() > 0 ==> r == Some(old(self).rest()[0]) && final(self).rest()
                == old(self).rest().subrange(1, old(self).rest().len() as int)
                && final(self).place() == advanced(old(self).place(), old(self).rest()[0]),
    {
        if let Some(ch) = self.saved.pop() {
            self.advance_loc(ch);
            assert(old(self).saved@.reverse() =~= seq![ch] + self.saved@.reverse());
            assert(self.rest() =~= old(self).rest().subrange(1, old(self).rest().len() as int));
            return Some(ch);
        }
        assert(self.saved@.reverse() =~= Seq::<char>::empty());
        if self.pos < self.chars.len() {
            let ch = self.chars[self.pos];
            self.pos += 1;
            self.advance_loc(ch);
            assert(self.rest() =~= old(self).rest().subrange(1, old(self).rest().len() as int));
            Some(ch)
        } else {
            assert(self.rest() =~= old(self).rest());
            None
        }
    }

    /// The number of characters that are still to be read.
    pub fn remaining(&self) -> (r: usize)
        ensures
            self.rest().len() <= usize::MAX ==> r == self.rest().len(),
            self.rest().len() > usize::MAX ==> r == usize::MAX,
    {
        let unread = if self.pos <= self.chars.len() {
            self.chars.len() - self.pos
        } else {
            0
        };
        if self.saved.len() <= usize::MAX - unread {
            self.saved.len() + unread
        } else {
            usize::MAX
        }
    }
}

} // verus!
