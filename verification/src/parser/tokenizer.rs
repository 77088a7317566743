//! From characters to tokens.
use vstd::prelude::*;
use crate::native::NativeHost;
use crate::parser::char_reader::{CharReader, Place};
use crate::parser::lexing;
use crate::parser::lexing::{
    Cursor, ScannedV, comment_end, escaped, lemma_comment_end, lemma_scan_reads, lex, lex_end,
    number_end, number_token, operator_end, scan, string_end, word_end, word_token,
};
use crate::parser::errors::ParseError;
use crate::parser::errors::ParseErrorV;
use crate::parser::ops::{Assoc, OpTable, Operator, added_op};
use crate::parser::token::{Keyword, Token, TokenV};
use crate::parser::ParseResult;
use crate::src_loc::{SrcLoc, SrcLocV};
use crate::text::join3;

verus! {

/// One source while it is read: its characters and its name.
pub struct TokenizerInput {
    pub reader: CharReader,
    pub loc: SrcLoc,
}

impl TokenizerInput {
    /// What is still to be read, and where the reader is.
    pub open spec fn cursor(&self) -> Cursor {
        Cursor { rest: self.reader.rest(), place: self.reader.place() }
    }

    /// The source `chars`, whose places are given in the source that `loc`
    /// names.
    pub fn new(chars: Vec<char>, loc: SrcLoc) -> (r: TokenizerInput)
        ensures
            r.cursor() == (Cursor {
                rest: chars@,
                place: Place { line_num: 1, col_num: 1, col_num_before_newline: 0 },
            }),
            r.loc == loc,
    {
        TokenizerInput { reader: CharReader::new(chars), loc }
    }

    fn line_num(&self) -> (r: u32)
        ensures
            r == self.reader.place().line_num,
    {
        self.reader.line_num()
    }

    fn col_num(&self) -> (r: u32)
        ensures
            r == self.reader.place().col_num,
    {
        self.reader.col_num()
    }

    fn getc(&mut self) -> (r: Option<char>)
        ensures
            final(self).loc == old(self).loc,
            final(self).cursor() == old(self).cursor().read(),
            r == if old(self).cursor().rest.len() == 0 {
                None
            } else {
                Some(old(self).cursor().rest[0])
            },
    {
        self.reader.next()
    }

    fn ungetc(&mut self, ch: char)
        ensures
            final(self).loc == old(self).loc,
            final(self).cursor() == old(self).cursor().unread(ch),
    {
        self.reader.ungetc(ch);
    }

    /// The place that the reader is at.
    pub fn src_loc(&self) -> (r: SrcLoc)
        ensures
            r.filename == self.loc.filename,
            r@ == self.cursor().loc(self.loc.filename@),
    {
        self.loc.new_at(self.line_num(), self.col_num())
    }
}

/// What the tokenizer made of a stretch of a source: a token, or the error
/// that ended the reading of the source.
pub enum Scanned {
    Token(Token),
    Error(ParseError),
}

impl View for Scanned {
    type V = ScannedV;

    open spec fn view(&self) -> ScannedV {
        match *self {
            Scanned::Token(t) => Ok(t@),
            Scanned::Error(e) => Err(e@),
        }
    }
}

/// What `scan_token` returned, as specifications speak of it.
pub open spec fn scanned_view(r: Option<ParseResult<Token>>) -> Option<ScannedV> {
    match r {
        None => None,
        Some(Ok(t)) => Some(Ok(t@)),
        Some(Err(e)) => Some(Err(e@)),
    }
}

fn is_digit(c: char) -> (r: bool)
    ensures
        r == lexing::is_digit(c),
{
    '0' <= c && c <= '9'
}

fn is_ident_start(c: char) -> (r: bool)
    ensures
        r == lexing::is_ident_start(c),
{
    ('a' <= c && c <= 'z') || ('A' <= c && c <= 'Z') || c == '_'
}

fn is_punct(c: char) -> (r: bool)
    ensures
        r == lexing::is_punct(c),
{
    c == '(' || c == ')' || c == '{' || c == '}' || c == '[' || c == ']' || c == ':' || c == ','
        || c == ';'
}

fn is_space(c: char) -> (r: bool)
    ensures
        r == lexing::is_space(c),
{
    c == ' ' || c == '\t' || c == '\r' || c == '\n'
}

fn escape_of(e: char) -> (r: Option<char>)
    ensures
        r == escaped(e),
{
    if e == '\\' {
        Some('\\')
    } else if e == 't' {
        Some('\t')
    } else if e == 'r' {
        Some('\r')
    } else if e == 'n' {
        Some('\n')
    } else {
        None
    }
}

fn scan_number<H: NativeHost>(input: &mut TokenizerInput, first: char, loc: SrcLoc, host: &H) -> (r:
    ParseResult<Token>)
    ensures
        final(input).loc == old(input).loc,
        final(input).cursor() == number_end(old(input).cursor(), seq![first], false).0,
        scanned_view(Some(r)) == Some(
            number_token(
                number_end(old(input).cursor(), seq![first], false).1,
                loc@,
                host.numeral(number_end(old(input).cursor(), seq![first], false).1),
            ),
        ),
{
    let mut buf = String::new();
    buf.push(first);
    assert(buf@ =~= seq![first]);
    let mut got_point = false;
    loop
        invariant_except_break
            input.loc == old(input).loc,
            number_end(input.cursor(), buf@, got_point) == number_end(
                old(input).cursor(),
                seq![first],
                false,
            ),
        ensures
            input.loc == old(input).loc,
            (input.cursor(), buf@) == number_end(old(input).cursor(), seq![first], false),
        decreases input.cursor().rest.len(),
    {
        match input.getc() {
            Some(c) => {
                if is_digit(c) {
                    buf.push(c);
                } else if c == '.' && !got_point {
                    got_point = true;
                    buf.push(c);
                } else {
                    input.ungetc(c);
                    break ;
                }
            },
            None => {
                break ;
            },
        }
    }
    match host.number(buf.as_str()) {
        Some(num) => Ok(Token::Number(num, loc)),
        None => {
            let msg = join3("invalid number: '", buf.as_str(), "'");
            Err(ParseError::new(loc, msg.as_str()))
        },
    }
}

fn scan_word(input: &mut TokenizerInput, first: char, loc: SrcLoc) -> (r: Token)
    ensures
        final(input).loc == old(input).loc,
        final(input).cursor() == word_end(old(input).cursor(), seq![first]).0,
        r@ == word_token(word_end(old(input).cursor(), seq![first]).1, loc@),
{
    let mut buf = String::new();
    buf.push(first);
    assert(buf@ =~= seq![first]);
    loop
        invariant_except_break
            input.loc == old(input).loc,
            word_end(input.cursor(), buf@) == word_end(old(input).cursor(), seq![first]),
        ensures
            input.loc == old(input).loc,
            (input.cursor(), buf@) == word_end(old(input).cursor(), seq![first]),
        decreases input.cursor().rest.len(),
    {
        match input.getc() {
            Some(c) => {
                if is_ident_start(c) || is_digit(c) {
                    buf.push(c);
                } else {
                    input.ungetc(c);
                    break ;
                }
            },
            None => {
                break ;
            },
        }
    }
    match Keyword::from_ident(buf.as_str()) {
        Some(keyword) => Token::Keyword(keyword, loc),
        None => Token::Ident(buf, loc),
    }
}

fn scan_string(input: &mut TokenizerInput, loc: SrcLoc) -> (r: Token)
    ensures
        final(input).loc == old(input).loc,
        final(input).cursor() == string_end(old(input).cursor(), Seq::empty()).0,
        r@ == TokenV::String(string_end(old(input).cursor(), Seq::empty()).1, loc@),
{
    let mut buf = String::new();
    assert(buf@ =~= Seq::<char>::empty());
    loop
        invariant_except_break
            input.loc == old(input).loc,
            string_end(input.cursor(), buf@) == string_end(old(input).cursor(), Seq::empty()),
        ensures
            input.loc == old(input).loc,
            (input.cursor(), buf@) == string_end(old(input).cursor(), Seq::empty()),
        decreases input.cursor().rest.len(),
    {
        match input.getc() {
            Some(c) => {
                if c == '\\' {
                    match input.getc() {
                        Some(e) => {
                            match escape_of(e) {
                                Some(ch) => {
                                    buf.push(ch);
                                },
                                None => {
                                    input.ungetc(e);
                                    break ;
                                },
                            }
                        },
                        None => {
                            break ;
                        },
                    }
                } else if c == '"' {
                    break ;
                } else {
                    buf.push(c);
                }
            },
            None => {
                break ;
            },
        }
    }
    Token::String(buf, loc)
}

fn scan_operator(input: &mut TokenizerInput, first: char, loc: SrcLoc, ops: &OpTable) -> (r: Token)
    ensures
        final(input).loc == old(input).loc,
        final(input).cursor() == operator_end(*ops, old(input).cursor(), seq![first]).0,
        r@ == TokenV::Operator(operator_end(*ops, old(input).cursor(), seq![first]).1, loc@),
{
    let mut buf = String::new();
    buf.push(first);
    assert(buf@ =~= seq![first]);
    loop
        invariant_except_break
            input.loc == old(input).loc,
            operator_end(*ops, input.cursor(), buf@) == operator_end(
                *ops,
                old(input).cursor(),
                seq![first],
            ),
        ensures
            input.loc == old(input).loc,
            (input.cursor(), buf@) == operator_end(*ops, old(input).cursor(), seq![first]),
        decreases input.cursor().rest.len(),
    {
        match input.getc() {
            Some(c) => {
                let mut longer = buf.clone();
                longer.push(c);
                if ops.is_operator(longer.as_str()) {
                    buf = longer;
                } else {
                    input.ungetc(c);
                    break ;
                }
            },
            None => {
                break ;
            },
        }
    }
    Token::Operator(buf, loc)
}

fn skip_comment(input: &mut TokenizerInput)
    ensures
        final(input).loc == old(input).loc,
        final(input).cursor() == comment_end(old(input).cursor()),
{
    loop
        invariant_except_break
            input.loc == old(input).loc,
            comment_end(input.cursor()) == comment_end(old(input).cursor()),
        ensures
            input.loc == old(input).loc,
            input.cursor() == comment_end(old(input).cursor()),
        decreases input.cursor().rest.len(),
    {
        match input.getc() {
            Some(c) => {
                if c == '\n' {
                    break ;
                }
            },
            None => {
                break ;
            },
        }
    }
}

/// Reads the next token of `input`, or returns `None` at its end.
///
/// A `#` starts a comment that runs to the end of the line. Blanks
/// separate tokens. A digit starts a number, a letter or an underscore a
/// word, a double quote a string. Any other character that is no
/// punctuation starts an operator, which is the longest run of characters
/// each of whose prefixes of two or more characters is an operator of the
/// table.
pub fn scan_token<H: NativeHost>(input: &mut TokenizerInput, ops: &OpTable, host: &H) -> (r:
    Option<ParseResult<Token>>)
    ensures
        final(input).loc == old(input).loc,
        (final(input).cursor(), scanned_view(r)) == scan(
            *host,
            *ops,
            old(input).loc.filename@,
            old(input).cursor(),
        ),
{
    loop
        invariant
            input.loc == old(input).loc,
            scan(*host, *ops, input.loc.filename@, input.cursor()) == scan(
                *host,
                *ops,
                old(input).loc.filename@,
                old(input).cursor(),
            ),
        decreases input.cursor().rest.len(),
    {
        let ghost before = input.cursor();
        let loc = input.src_loc();
        let ch = match input.getc() {
            None => {
                return None;
            },
            Some(c) => c,
        };
        if ch == '#' {
            skip_comment(input);
            proof {
                lemma_comment_end(before.read());
            }
        } else if is_space(ch) {
        } else if is_punct(ch) {
            return Some(Ok(Token::Punct(ch, loc)));
        } else if is_digit(ch) {
            return Some(scan_number(input, ch, loc, host));
        } else if is_ident_start(ch) {
            return Some(Ok(scan_word(input, ch, loc)));
        } else if ch == '"' {
            return Some(Ok(scan_string(input, loc)));
        } else {
            return Some(Ok(scan_operator(input, ch, loc, ops)));
        }
    }
}

/// The tokens and errors of `s`, as specifications speak of them.
pub open spec fn views(s: Seq<Scanned>) -> Seq<ScannedV> {
    s.map_values(|x: Scanned| x@)
}

/// What `next` returns of the waiting tokens `s`.
pub open spec fn taken(s: Seq<Scanned>) -> Option<ParseResult<Token>> {
    if s.len() == 0 {
        None
    } else {
        match s[0] {
            Scanned::Token(t) => Some(Ok(t)),
            Scanned::Error(e) => Some(Err(e)),
        }
    }
}

/// The cursor at the start of the text `chars`: line 1, column 1.
pub open spec fn start_of(chars: Seq<char>) -> Cursor {
    Cursor { rest: chars, place: Place { line_num: 1, col_num: 1, col_num_before_newline: 0 } }
}

/// The tokens that are waiting to be parsed.
///
/// A source is turned into tokens when it is added. An error ends the
/// tokens of its source and waits among them: it is reported when the
/// parser comes to it, not before.
pub struct Tokenizer {
    ops: OpTable,
    /// What waits, the next token last.
    pending: Vec<Scanned>,
    /// Where the outermost source ends.
    end_loc: Option<SrcLoc>,
    no_loc: SrcLoc,
}

impl Tokenizer {
    /// The tokens and errors that wait, the next one first.
    pub closed spec fn waiting(&self) -> Seq<Scanned> {
        self.pending@.reverse()
    }

    /// The number of tokens and errors that wait.
    pub open spec fn remaining(&self) -> nat {
        self.waiting().len()
    }

    /// The operators.
    pub closed spec fn op_table(&self) -> OpTable {
        self.ops
    }

    /// Whether a source was added.
    pub closed spec fn started(&self) -> bool {
        self.end_loc is Some
    }

    /// Where the outermost source ends; a place in no file before a source
    /// was added.
    pub closed spec fn end_loc(&self) -> SrcLoc {
        match self.end_loc {
            Some(l) => l,
            None => self.no_loc,
        }
    }

    /// A tokenizer without sources and without operators.
    pub fn new() -> (r: Tokenizer)
        ensures
            r.waiting() == Seq::<Scanned>::empty(),
            !r.started(),
            r.end_loc()@ == (SrcLocV { filename: "(no file)"@, line_num: 0, col_num: 0 }),
            r.op_table().prefix_ops() == Seq::<Operator>::empty(),
            r.op_table().binary_ops() == Seq::<Operator>::empty(),
    {
        let r = Tokenizer {
            ops: OpTable::new(),
            pending: Vec::new(),
            end_loc: None,
            no_loc: SrcLoc::new("(no file)", 0, 0),
        };
        assert(r.pending@.reverse() =~= Seq::<Scanned>::empty());
        r
    }

    /// Forgets all sources; the operators stay.
    pub fn reset(&mut self)
        ensures
            final(self).waiting() == Seq::<Scanned>::empty(),
            !final(self).started(),
            final(self).end_loc()@ == (SrcLocV { filename: "(no file)"@, line_num: 0, col_num: 0 }),
            final(self).op_table() == old(self).op_table(),
    {
        self.pending.clear();
        self.end_loc = None;
        self.no_loc = SrcLoc::new("(no file)", 0, 0);
        assert(self.pending@.reverse() =~= Seq::<Scanned>::empty());
    }

    /// The operators.
    pub fn ops(&self) -> (r: &OpTable)
        ensures
            *r == self.op_table(),
    {
        &self.ops
    }

    /// Adds an operator.
    pub fn add_op(&mut self, name: &str, prec: i32, assoc: Assoc)
        ensures
            final(self).waiting() == old(self).waiting(),
            final(self).started() == old(self).started(),
            final(self).end_loc() == old(self).end_loc(),
            added_op(old(self).op_table(), final(self).op_table(), name@, prec, assoc),
    {
        self.ops.add(name, prec, assoc);
    }

    /// Where the outermost source ends, which is where the tokens end; a
    /// place in no file before a source was added.
    pub fn src_loc(&self) -> (r: SrcLoc)
        ensures
            r == self.end_loc(),
    {
        match &self.end_loc {
            Some(l) => l.clone(),
            None => self.no_loc.clone(),
        }
    }

    /// Adds a source: its tokens are the next to be parsed, before those
    /// that were waiting. The first source that is added is the outermost.
    pub fn add_input<H: NativeHost>(&mut self, chars: Vec<char>, loc: SrcLoc, host: &H) -> (r:
        ParseResult<()>)
        ensures
            r is Ok,
            views(final(self).waiting()) == lex(
                *host,
                old(self).op_table(),
                loc.filename@,
                start_of(chars@),
            ) + views(old(self).waiting()),
            final(self).op_table() == old(self).op_table(),
            final(self).started(),
            old(self).started() ==> final(self).end_loc() == old(self).end_loc(),
            !old(self).started() ==> final(self).end_loc()@ == lex_end(
                *host,
                old(self).op_table(),
                loc.filename@,
                start_of(chars@),
            ).loc(loc.filename@),
    {
        let ghost file = loc.filename@;
        let ghost start = start_of(chars@);
        let mut input = TokenizerInput::new(chars, loc);
        let mut scanned: Vec<Scanned> = Vec::new();
        assert(views(scanned@) =~= Seq::<ScannedV>::empty());
        loop
            invariant_except_break
                input.loc.filename@ == file,
                *self == *old(self),
                views(scanned@) + lex(*host, self.ops, file, input.cursor()) == lex(
                    *host,
                    self.ops,
                    file,
                    start,
                ),
                lex_end(*host, self.ops, file, input.cursor()) == lex_end(
                    *host,
                    self.ops,
                    file,
                    start,
                ),
            ensures
                input.loc.filename@ == file,
                *self == *old(self),
                views(scanned@) == lex(*host, self.ops, file, start),
                input.cursor() == lex_end(*host, self.ops, file, start),
            decreases input.cursor().rest.len(),
        {
            let ghost before = input.cursor();
            let ghost sofar = views(scanned@);
            proof {
                lemma_scan_reads(*host, self.ops, file, before);
            }
            match scan_token(&mut input, &self.ops, host) {
                None => {
                    assert(sofar + Seq::<ScannedV>::empty() =~= sofar);
                    break ;
                },
                Some(Ok(tok)) => {
                    scanned.push(Scanned::Token(tok));
                    assert(views(scanned@) =~= sofar.push(Ok(tok@)));
                    assert(sofar.push(Ok(tok@)) + lex(*host, self.ops, file, input.cursor())
                        =~= sofar + (seq![Ok::<TokenV, ParseErrorV>(tok@)] + lex(
                        *host,
                        self.ops,
                        file,
                        input.cursor(),
                    )));
                },
                Some(Err(e)) => {
                    scanned.push(Scanned::Error(e));
                    assert(views(scanned@) =~= sofar.push(Err(e@)));
                    assert(sofar.push(Err(e@)) =~= sofar + seq![Err::<TokenV, ParseErrorV>(e@)]);
                    break ;
                },
            }
        }
        if self.end_loc.is_none() {
            self.end_loc = Some(input.src_loc());
        }
        let ghost all = scanned@;
        assert(all.skip(all.len() as int) + old(self).pending@.reverse() =~= old(
            self,
        ).pending@.reverse());
        while scanned.len() > 0
            invariant
                scanned@ == all.take(scanned@.len() as int),
                scanned@.len() <= all.len(),
                self.pending@.reverse() == all.skip(scanned@.len() as int) + old(
                    self,
                ).pending@.reverse(),
                self.ops == old(self).ops,
                self.no_loc == old(self).no_loc,
                self.end_loc is Some,
                old(self).end_loc is Some ==> self.end_loc == old(self).end_loc,
                old(self).end_loc is None ==> self.end_loc->Some_0@ == lex_end(
                    *host,
                    self.ops,
                    file,
                    start,
                ).loc(file),
            decreases scanned.len(),
        {
            let ghost n = scanned@.len() as int;
            let ghost before = self.pending@;
            match scanned.pop() {
                Some(item) => {
                    self.pending.push(item);
                    assert(item == all[n - 1]);
                    assert(self.pending@.reverse() =~= seq![item] + before.reverse());
                    assert(seq![item] + (all.skip(n) + old(self).pending@.reverse()) =~= all.skip(
                        n - 1,
                    ) + old(self).pending@.reverse());
                    assert(scanned@ =~= all.take(n - 1));
                },
                None => {},
            }
        }
        assert(all.skip(0) =~= all);
        assert(views(all + old(self).pending@.reverse()) =~= views(all) + views(
            old(self).pending@.reverse(),
        ));
        Ok(())
    }

    /// Puts a token back: it is the next token.
    pub fn unget_token(&mut self, tok: Token)
        ensures
            final(self).waiting() == seq![Scanned::Token(tok)] + old(self).waiting(),
            final(self).op_table() == old(self).op_table(),
            final(self).started() == old(self).started(),
            final(self).end_loc() == old(self).end_loc(),
    {
        self.pending.push(Scanned::Token(tok));
        assert(self.pending@.reverse() =~= seq![Scanned::Token(tok)] + old(self).pending@.reverse());
    }

    /// The next token, or the error that waits in its place; `None` when
    /// nothing waits.
    pub fn next(&mut self) -> (r: Option<ParseResult<Token>>)
        ensures
            r == taken(old(self).waiting()),
            final(self).waiting() == if old(self).waiting().len() == 0 {
                old(self).waiting()
            } else {
                old(self).waiting().skip(1)
            },
            final(self).op_table() == old(self).op_table(),
            final(self).started() == old(self).started(),
            final(self).end_loc() == old(self).end_loc(),
    {
        let ghost before = self.pending@;
        match self.pending.pop() {
            Some(Scanned::Token(tok)) => {
                assert(self.pending@.reverse() =~= before.reverse().skip(1));
                Some(Ok(tok))
            },
            Some(Scanned::Error(e)) => {
                assert(self.pending@.reverse() =~= before.reverse().skip(1));
                Some(Err(e))
            },
            None => None,
        }
    }
}

} // verus!
