//! What the tokens of a text are.
//!
//! A text is read from a cursor: the characters that are still to be read
//! and the place of the first of them. The functions of this module say
//! where the cursor stands after each kind of token, what the token holds,
//! and what tokens a whole text is made of.
use vstd::prelude::*;
use crate::native::NativeHost;
use crate::parser::char_reader::{Place, advanced, retreated};
use crate::parser::errors::ParseErrorV;
use crate::parser::ops::OpTable;
use crate::parser::token::{TokenV, keyword_of};
use crate::src_loc::SrcLocV;

verus! {

/// The characters that are still to be read, and where the reader is.
pub struct Cursor {
    pub rest: Seq<char>,
    pub place: Place,
}

impl Cursor {
    /// The cursor after one character was read; at the end of the text,
    /// the cursor itself.
    pub open spec fn read(self) -> Cursor {
        if self.rest.len() == 0 {
            self
        } else {
            Cursor {
                rest: self.rest.subrange(1, self.rest.len() as int),
                place: advanced(self.place, self.rest[0]),
            }
        }
    }

    /// The cursor after `ch` was put back.
    pub open spec fn unread(self, ch: char) -> Cursor {
        Cursor { rest: seq![ch] + self.rest, place: retreated(self.place, ch) }
    }

    /// The place of the cursor in the source `file`.
    pub open spec fn loc(self, file: Seq<char>) -> SrcLocV {
        SrcLocV { filename: file, line_num: self.place.line_num, col_num: self.place.col_num }
    }
}

/// Whether `c` is a decimal digit.
pub open spec fn is_digit(c: char) -> bool {
    '0' <= c <= '9'
}

/// Whether `c` can start a word: a letter or an underscore.
pub open spec fn is_ident_start(c: char) -> bool {
    ('a' <= c <= 'z') || ('A' <= c <= 'Z') || c == '_'
}

/// Whether `c` is punctuation: a bracket, a colon, a comma or a semicolon.
pub open spec fn is_punct(c: char) -> bool {
    c == '(' || c == ')' || c == '{' || c == '}' || c == '[' || c == ']' || c == ':' || c == ','
        || c == ';'
}

/// Whether `c` is a blank.
pub open spec fn is_space(c: char) -> bool {
    c == ' ' || c == '\t' || c == '\r' || c == '\n'
}

/// A word goes on over letters, digits and underscores. The character that
/// ends it is read and put back.
pub open spec fn word_end(c: Cursor, text: Seq<char>) -> (Cursor, Seq<char>)
    decreases c.rest.len(),
{
    if c.rest.len() == 0 {
        (c, text)
    } else if is_ident_start(c.rest[0]) || is_digit(c.rest[0]) {
        word_end(c.read(), text.push(c.rest[0]))
    } else {
        (c.read().unread(c.rest[0]), text)
    }
}

/// A number goes on over digits and over one point. The character that
/// ends it is read and put back.
pub open spec fn number_end(c: Cursor, text: Seq<char>, got_point: bool) -> (Cursor, Seq<char>)
    decreases c.rest.len(),
{
    if c.rest.len() == 0 {
        (c, text)
    } else if is_digit(c.rest[0]) {
        number_end(c.read(), text.push(c.rest[0]), got_point)
    } else if c.rest[0] == '.' && !got_point {
        number_end(c.read(), text.push(c.rest[0]), true)
    } else {
        (c.read().unread(c.rest[0]), text)
    }
}

/// The character that an escape stands for: `\\`, `\t`, `\r` and `\n` are
/// the escapes.
pub open spec fn escaped(e: char) -> Option<char> {
    if e == '\\' {
        Some('\\')
    } else if e == 't' {
        Some('\t')
    } else if e == 'r' {
        Some('\r')
    } else if e == 'n' {
        Some('\n')
    } else {
        None
    }
}

/// A string goes on to the closing quote, which is read. It also ends at
/// the end of the text, and after a backslash that starts no escape; the
/// character after such a backslash is read and put back.
pub open spec fn string_end(c: Cursor, text: Seq<char>) -> (Cursor, Seq<char>)
    decreases c.rest.len(),
{
    if c.rest.len() == 0 {
        (c, text)
    } else if c.rest[0] == '\\' {
        let c1 = c.read();
        if c1.rest.len() == 0 {
            (c1, text)
        } else {
            match escaped(c1.rest[0]) {
                Some(ch) => string_end(c1.read(), text.push(ch)),
                None => (c1.read().unread(c1.rest[0]), text),
            }
        }
    } else if c.rest[0] == '"' {
        (c.read(), text)
    } else {
        string_end(c.read(), text.push(c.rest[0]))
    }
}

/// An operator goes on as long as it is, with the next character, the name
/// of an operator of `ops`. The character that ends it is read and put
/// back.
pub open spec fn operator_end(ops: OpTable, c: Cursor, text: Seq<char>) -> (Cursor, Seq<char>)
    decreases c.rest.len(),
{
    if c.rest.len() == 0 {
        (c, text)
    } else {
        let longer = text.push(c.rest[0]);
        if ops.binary_of(longer) is Some || ops.prefix_of(longer) is Some {
            operator_end(ops, c.read(), longer)
        } else {
            (c.read().unread(c.rest[0]), text)
        }
    }
}

/// A comment goes on to the end of the line, which is read, or to the end
/// of the text.
pub open spec fn comment_end(c: Cursor) -> Cursor
    decreases c.rest.len(),
{
    if c.rest.len() == 0 {
        c
    } else if c.rest[0] == '\n' {
        c.read()
    } else {
        comment_end(c.read())
    }
}

/// After a comment no more characters are left than before it.
pub proof fn lemma_comment_end(c: Cursor)
    ensures
        comment_end(c).rest.len() <= c.rest.len(),
    decreases c.rest.len(),
{
    if c.rest.len() > 0 && c.rest[0] != '\n' {
        lemma_comment_end(c.read());
    }
}

/// After a word no more characters are left than before it.
pub proof fn lemma_word_end(c: Cursor, text: Seq<char>)
    ensures
        word_end(c, text).0.rest.len() <= c.rest.len(),
    decreases c.rest.len(),
{
    if c.rest.len() > 0 && (is_ident_start(c.rest[0]) || is_digit(c.rest[0])) {
        lemma_word_end(c.read(), text.push(c.rest[0]));
    }
}

/// After a number no more characters are left than before it.
pub proof fn lemma_number_end(c: Cursor, text: Seq<char>, got_point: bool)
    ensures
        number_end(c, text, got_point).0.rest.len() <= c.rest.len(),
    decreases c.rest.len(),
{
    if c.rest.len() > 0 {
        if is_digit(c.rest[0]) {
            lemma_number_end(c.read(), text.push(c.rest[0]), got_point);
        } else if c.rest[0] == '.' && !got_point {
            lemma_number_end(c.read(), text.push(c.rest[0]), true);
        }
    }
}

/// After a string no more characters are left than before it.
pub proof fn lemma_string_end(c: Cursor, text: Seq<char>)
    ensures
        string_end(c, text).0.rest.len() <= c.rest.len(),
    decreases c.rest.len(),
{
    if c.rest.len() > 0 {
        if c.rest[0] == '\\' {
            let c1 = c.read();
            if c1.rest.len() > 0 {
                match escaped(c1.rest[0]) {
                    Some(ch) => {
                        lemma_string_end(c1.read(), text.push(ch));
                    },
                    None => {},
                }
            }
        } else if c.rest[0] != '"' {
            lemma_string_end(c.read(), text.push(c.rest[0]));
        }
    }
}

/// After an operator no more characters are left than before it.
pub proof fn lemma_operator_end(ops: OpTable, c: Cursor, text: Seq<char>)
    ensures
        operator_end(ops, c, text).0.rest.len() <= c.rest.len(),
    decreases c.rest.len(),
{
    if c.rest.len() > 0 {
        let longer = text.push(c.rest[0]);
        if ops.binary_of(longer) is Some || ops.prefix_of(longer) is Some {
            lemma_operator_end(ops, c.read(), longer);
        }
    }
}

/// A token, or the error that stands in its place.
pub type ScannedV = Result<TokenV, ParseErrorV>;

/// The word `text` at `loc`: a keyword, or else an identifier.
pub open spec fn word_token(text: Seq<char>, loc: SrcLocV) -> TokenV {
    match keyword_of(text) {
        Some(k) => TokenV::Keyword(k, loc),
        None => TokenV::Ident(text, loc),
    }
}

/// The number that is written `text` at `loc`, where `num` is what the
/// host reads `text` for.
pub open spec fn number_token(text: Seq<char>, loc: SrcLocV, num: Option<u64>) -> ScannedV {
    match num {
        Some(n) => Ok(TokenV::Number(n, loc)),
        None => Err(ParseErrorV::at(loc, "invalid number: '"@ + text + "'"@)),
    }
}

/// The next token of the text at `c` and the cursor after it, or `None`
/// at the end of the text.
///
/// A `#` starts a comment. Blanks separate tokens. A digit starts a
/// number, a letter or an underscore a word, a double quote a string. Any
/// other character that is no punctuation starts an operator. The place of
/// a token is the place of its first character.
pub open spec fn scan<H: NativeHost>(host: H, ops: OpTable, file: Seq<char>, c: Cursor) -> (
    Cursor,
    Option<ScannedV>,
)
    decreases c.rest.len(),
    via scan_decreases::<H>
{
    if c.rest.len() == 0 {
        (c, None)
    } else {
        let loc = c.loc(file);
        let ch = c.rest[0];
        let c1 = c.read();
        if ch == '#' {
            scan(host, ops, file, comment_end(c1))
        } else if is_space(ch) {
            scan(host, ops, file, c1)
        } else if is_punct(ch) {
            (c1, Some(Ok(TokenV::Punct(ch, loc))))
        } else if is_digit(ch) {
            let (c2, text) = number_end(c1, seq![ch], false);
            (c2, Some(number_token(text, loc, host.numeral(text))))
        } else if is_ident_start(ch) {
            let (c2, text) = word_end(c1, seq![ch]);
            (c2, Some(Ok(word_token(text, loc))))
        } else if ch == '"' {
            let (c2, text) = string_end(c1, Seq::empty());
            (c2, Some(Ok(TokenV::String(text, loc))))
        } else {
            let (c2, text) = operator_end(ops, c1, seq![ch]);
            (c2, Some(Ok(TokenV::Operator(text, loc))))
        }
    }
}

#[via_fn]
proof fn scan_decreases<H: NativeHost>(host: H, ops: OpTable, file: Seq<char>, c: Cursor) {
    if c.rest.len() > 0 {
        lemma_comment_end(c.read());
    }
}

/// A token takes at least one character.
pub proof fn lemma_scan_reads<H: NativeHost>(host: H, ops: OpTable, file: Seq<char>, c: Cursor)
    ensures
        scan(host, ops, file, c).0.rest.len() <= c.rest.len(),
        scan(host, ops, file, c).1 is Some ==> scan(host, ops, file, c).0.rest.len() < c.rest.len(),
    decreases c.rest.len(),
{
    if c.rest.len() > 0 {
        let ch = c.rest[0];
        let c1 = c.read();
        if ch == '#' {
            lemma_comment_end(c1);
            lemma_scan_reads(host, ops, file, comment_end(c1));
        } else if is_space(ch) {
            lemma_scan_reads(host, ops, file, c1);
        } else if is_punct(ch) {
        } else if is_digit(ch) {
            lemma_number_end(c1, seq![ch], false);
        } else if is_ident_start(ch) {
            lemma_word_end(c1, seq![ch]);
        } else if ch == '"' {
            lemma_string_end(c1, Seq::empty());
        } else {
            lemma_operator_end(ops, c1, seq![ch]);
        }
    }
}

/// The tokens of the text at `c`, in order. An error ends them and is the
/// last of them.
pub open spec fn lex<H: NativeHost>(host: H, ops: OpTable, file: Seq<char>, c: Cursor) -> Seq<
    ScannedV,
>
    decreases c.rest.len(),
    via lex_decreases::<H>
{
    match scan(host, ops, file, c) {
        (_, None) => Seq::empty(),
        (_, Some(Err(e))) => seq![Err(e)],
        (c1, Some(Ok(t))) => seq![Ok(t)] + lex(host, ops, file, c1),
    }
}

#[via_fn]
proof fn lex_decreases<H: NativeHost>(host: H, ops: OpTable, file: Seq<char>, c: Cursor) {
    lemma_scan_reads(host, ops, file, c);
}

/// Where the reader stands when the text at `c` was made into tokens.
pub open spec fn lex_end<H: NativeHost>(host: H, ops: OpTable, file: Seq<char>, c: Cursor) -> Cursor
    decreases c.rest.len(),
    via lex_end_decreases::<H>
{
    match scan(host, ops, file, c) {
        (c1, Some(Ok(t))) => lex_end(host, ops, file, c1),
        (c1, _) => c1,
    }
}

#[via_fn]
proof fn lex_end_decreases<H: NativeHost>(host: H, ops: OpTable, file: Seq<char>, c: Cursor) {
    lemma_scan_reads(host, ops, file, c);
}

} // verus!
