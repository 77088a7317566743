//! From source text to syntax trees.
//!
//! A script is a run of function definitions and `include` directives.
//! Expressions are parsed by operator precedence: operands and operators
//! wait on two stacks, and an operator is applied to its operands as soon
//! as an operator comes that binds less tightly.
use std::rc::Rc;
use vstd::prelude::*;

pub mod errors;
pub mod ops;
pub mod token;
pub mod char_reader;
pub mod lexing;
pub mod grammar;
pub mod progress;
pub mod precedence;
pub mod tokenizer;

pub use self::errors::ParseError;

use crate::ast;
use crate::native::NativeHost;
use crate::readers::InputSource;
use crate::src_loc::SrcLoc;
use crate::text::join2;
use crate::ast::tree::{
    entries_view, expr_view, exprs_view, func_view, block_view, stmt_view, stmts_view, texts,
};
use crate::parser::errors::ParseErrorV;
use crate::src_loc::SrcLocV;
use crate::ast::tree::{BlockV, ExprV, FuncV, NamedFuncV, StmtV, named_view, named_views};
use self::grammar::{
    Parsed, Syntax, Toks, Waiting, arg_list, block, block_items, expr, expr_loop, expr_stmt,
    found_end, func_def, if_stmt, map_items, more_args, more_params, named_func, param_list, quote,
    reduce, return_stmt, statement, token_place, var_decl, vec_items, waiting_op, while_stmt,
};
use crate::readers::{Opened, Openings};
use self::grammar::{last_slash, path_of, program, script, split, unread};
use self::lexing::{lex, lex_end};
use self::tokenizer::start_of;
use self::lexing::ScannedV;
use self::ops::{Assoc, Operator, added_op};
use self::token::{Keyword, Token, TokenV};
use self::tokenizer::{Scanned, Tokenizer, scanned_view, views};

verus! {

pub type ParseResult<T> = Result<T, ParseError>;

/// The parser: the tokens that wait, the way to open sources, and how
/// tightly a call and an index bind.
pub struct Parser<S: InputSource> {
    tokens: Tokenizer,
    base_dir: Option<String>,
    opener: S,
    fn_call_prec: i32,
    el_index_prec: i32,
    sources_left: usize,
}

/// The number of sources that one `parse` opens at most.
pub const MAX_SOURCES: usize = 1024;

fn char_text(c: char) -> (s: String)
    ensures
        s@ == seq![c],
{
    let mut s = String::new();
    s.push(c);
    assert(s@ =~= seq![c]);
    s
}

fn token_text(tok: &Token) -> (s: String)
    ensures
        s@ == grammar::token_text(tok@),
{
    match tok {
        Token::Keyword(k, _) => String::from_str(k.to_ident()),
        Token::Punct(p, _) => char_text(*p),
        Token::Number(_, _) => String::from_str("number"),
        Token::String(s, _) => s.clone(),
        Token::Ident(s, _) => s.clone(),
        Token::Operator(s, _) => s.clone(),
    }
}

fn quote_char(c: char) -> (s: String)
    ensures
        s@ == quote(c),
{
    let mut s = String::new();
    s.push('\'');
    s.push(c);
    s.push('\'');
    assert(s@ =~= quote(c));
    s
}

fn found(loc: SrcLoc, any: &str, expected: &str) -> (r: ParseError)
    ensures
        r@ == grammar::found(loc@, any@, expected@),
{
    let mut msg = String::from_str("expected ");
    msg.append(expected);
    msg.append(", found '");
    msg.append(any);
    msg.append("'");
    ParseError::new(loc, msg.as_str())
}

fn unexpected_tok(tok: Token, expected: &str) -> (r: ParseError)
    ensures
        r@ == grammar::found(token_place(tok@), grammar::token_text(tok@), expected@),
{
    let text = token_text(&tok);
    found(tok.peek_loc().clone(), text.as_str(), expected)
}

fn contains(stop: &[char], ch: char) -> (r: bool)
    ensures
        r == stop@.contains(ch),
{
    let mut i: usize = 0;
    while i < stop.len()
        invariant
            i <= stop.len(),
            forall|k: int| 0 <= k < i ==> stop@[k] != ch,
        decreases stop.len() - i,
    {
        if stop[i] == ch {
            return true;
        }
        i += 1;
    }
    false
}

fn push_opn(opns: &mut Vec<ast::Expression>, e: ast::Expression)
    ensures
        exprs_view(final(opns)@) == exprs_view(old(opns)@).push(expr_view(e)),
        final(opns)@.len() == old(opns)@.len() + 1,
{
    opns.push(e);
    assert(exprs_view(opns@) =~= exprs_view(old(opns)@).push(expr_view(e)));
}

fn pop_opn(opns: &mut Vec<ast::Expression>) -> (r: Option<ast::Expression>)
    ensures
        old(opns)@.len() == 0 ==> r is None && final(opns)@ == old(opns)@,
        old(opns)@.len() > 0 ==> r is Some && expr_view(r->Some_0) == exprs_view(old(opns)@).last()
            && exprs_view(final(opns)@) == exprs_view(old(opns)@).drop_last() && final(opns)@.len()
            + 1 == old(opns)@.len(),
{
    let r = opns.pop();
    assert(old(opns)@.len() > 0 ==> exprs_view(opns@) =~= exprs_view(old(opns)@).drop_last());
    r
}

/// The operators that wait on the stack `s`, as specifications speak of
/// them.
pub open spec fn waiting_ops(s: Seq<(Operator, SrcLoc)>) -> Seq<Waiting> {
    s.map_values(|p: (Operator, SrcLoc)| waiting_op(p.0, p.1@))
}

fn push_opr(oprs: &mut Vec<(Operator, SrcLoc)>, o: Operator, loc: SrcLoc)
    ensures
        waiting_ops(final(oprs)@) == waiting_ops(old(oprs)@).push(waiting_op(o, loc@)),
        final(oprs)@.len() == old(oprs)@.len() + 1,
{
    oprs.push((o, loc));
    assert(waiting_ops(oprs@) =~= waiting_ops(old(oprs)@).push(waiting_op(o, loc@)));
}

fn pop_opr(oprs: &mut Vec<(Operator, SrcLoc)>) -> (r: Option<(Operator, SrcLoc)>)
    ensures
        old(oprs)@.len() == 0 ==> r is None && final(oprs)@ == old(oprs)@,
        old(oprs)@.len() > 0 ==> r is Some && waiting_op(r->Some_0.0, r->Some_0.1@) == waiting_ops(
            old(oprs)@,
        ).last() && waiting_ops(final(oprs)@) == waiting_ops(old(oprs)@).drop_last()
            && final(oprs)@.len() + 1 == old(oprs)@.len(),
{
    let r = oprs.pop();
    assert(old(oprs)@.len() > 0 ==> waiting_ops(oprs@) =~= waiting_ops(old(oprs)@).drop_last());
    r
}

fn push_stmt(stmts: &mut Vec<ast::Statement>, s: ast::Statement)
    ensures
        stmts_view(final(stmts)@) == stmts_view(old(stmts)@).push(stmt_view(s)),
{
    stmts.push(s);
    assert(stmts_view(stmts@) =~= stmts_view(old(stmts)@).push(stmt_view(s)));
}

fn push_entry(entries: &mut Vec<(String, ast::Expression)>, key: String, val: ast::Expression)
    ensures
        entries_view(final(entries)@) == entries_view(old(entries)@).push((key@, expr_view(val))),
{
    entries.push((key, val));
    assert(entries_view(entries@) =~= entries_view(old(entries)@).push((key@, expr_view(val))));
}

fn push_name(names: &mut Vec<String>, name: String)
    ensures
        texts(final(names)@) == texts(old(names)@).push(name@),
{
    names.push(name);
    assert(texts(names@) =~= texts(old(names)@).push(name@));
}

/// The directory part and the file part of a path: what stands before and
/// after the last `/`. A path without `/` has no directory part.
pub fn split_path(path: &str) -> (r: (Option<String>, String))
    ensures
        (
            match r.0 {
                Some(d) => Some(d@),
                None => None,
            },
            r.1@,
        ) == split(path@),
{
    let chars = crate::readers::string::chars_of(path);
    let mut cut: usize = chars.len();
    let mut found_slash = false;
    while cut > 0 && !found_slash
        invariant
            cut <= chars.len(),
            chars@ == path@,
            !found_slash ==> last_slash(path@, path@.len()) == last_slash(path@, cut as nat),
            found_slash ==> cut > 0 && last_slash(path@, path@.len()) == Some((cut - 1) as nat),
        decreases cut, (if found_slash { 0int } else { 1int }),
    {
        if chars[cut - 1] == '/' {
            found_slash = true;
        } else {
            cut -= 1;
        }
    }
    let mut file = String::new();
    let mut i: usize = cut;
    assert(file@ =~= path@.subrange(cut as int, i as int));
    while i < chars.len()
        invariant
            cut <= i <= chars.len(),
            chars@ == path@,
            file@ == path@.subrange(cut as int, i as int),
        decreases chars.len() - i,
    {
        file.push(chars[i]);
        assert(file@ =~= path@.subrange(cut as int, i + 1));
        i += 1;
    }
    if found_slash {
        let mut dir = String::new();
        let mut k: usize = 0;
        assert(dir@ =~= path@.subrange(0, k as int));
        while k + 1 < cut
            invariant
                k < cut <= chars.len(),
                chars@ == path@,
                dir@ == path@.subrange(0, k as int),
            decreases cut - k,
        {
            dir.push(chars[k]);
            assert(dir@ =~= path@.subrange(0, k + 1));
            k += 1;
        }
        (Some(dir), file)
    } else {
        assert(file@ =~= path@);
        (None, file)
    }
}

/// What `parse` returned, as specifications speak of it.
pub open spec fn listed(r: ParseResult<Vec<ast::NamedFuncDef>>) -> Result<
    Seq<NamedFuncV>,
    ParseErrorV,
> {
    match r {
        Ok(fs) => Ok(named_views(fs@)),
        Err(e) => Err(e@),
    }
}

fn push_func(funcs: &mut Vec<ast::NamedFuncDef>, f: ast::NamedFuncDef)
    ensures
        named_views(final(funcs)@) == named_views(old(funcs)@).push(named_view(f)),
{
    funcs.push(f);
    assert(named_views(funcs@) =~= named_views(old(funcs)@).push(named_view(f)));
}

/// How the parsing of an expression goes on after a token: with an
/// operand or an operator expected next, or not at all, the expression
/// being complete.
pub enum Step {
    More(bool),
    Done(ast::Expression),
}

/// Whether the step `r`, which left the tokens `toks`, the operands `opns`
/// and the operators `oprs`, leads to `want`.
pub open spec fn step_is(
    r: ParseResult<Step>,
    sx: Syntax,
    consume_stop: bool,
    stop: Seq<char>,
    toks: Toks,
    opns: Seq<ExprV>,
    oprs: Seq<Waiting>,
    want: Parsed<ExprV>,
) -> bool {
    match r {
        Ok(Step::More(expect_opn)) => want == expr_loop(
            sx,
            toks,
            consume_stop,
            stop,
            opns,
            oprs,
            expect_opn,
        ),
        Ok(Step::Done(e)) => want == Ok::<(ExprV, Toks), ParseErrorV>((expr_view(e), toks)),
        Err(e) => want == Err::<(ExprV, Toks), ParseErrorV>(e@),
    }
}

/// The next of `toks`, or `None` at their end.
pub open spec fn first(toks: Toks) -> Option<ScannedV> {
    if toks.len() == 0 {
        None
    } else {
        Some(toks[0])
    }
}

impl<S: InputSource> Parser<S> {
    /// The tokens that wait, the next one first.
    pub closed spec fn toks(&self) -> Toks {
        views(self.tokens.waiting())
    }

    /// The operators, how tightly a call and an index bind, and where the
    /// outermost source ends.
    pub closed spec fn syntax(&self) -> Syntax {
        Syntax {
            ops: self.tokens.op_table(),
            call_prec: self.fn_call_prec,
            index_prec: self.el_index_prec,
            end: self.tokens.end_loc()@,
        }
    }

    /// The number of tokens that wait.
    pub open spec fn left(&self) -> nat {
        self.toks().len()
    }

    /// The number of sources that can still be opened.
    pub closed spec fn sources(&self) -> nat {
        self.sources_left as nat
    }

    /// The directory of the script that is parsed.
    pub closed spec fn base(&self) -> Option<Seq<char>> {
        match self.base_dir {
            Some(d) => Some(d@),
            None => None,
        }
    }

    /// The opener of the sources.
    pub closed spec fn opener(&self) -> S {
        self.opener
    }

    /// Whether a source was added since the parser was made or `parse`
    /// was called.
    pub closed spec fn started(&self) -> bool {
        self.tokens.started()
    }

    /// Whether the parser differs from `before` in nothing but the tokens
    /// that wait.
    spec fn set_as(&self, before: &Self) -> bool {
        &&& self.tokens.op_table() == before.tokens.op_table()
        &&& self.tokens.end_loc() == before.tokens.end_loc()
        &&& self.tokens.started() == before.tokens.started()
        &&& self.fn_call_prec == before.fn_call_prec
        &&& self.el_index_prec == before.el_index_prec
        &&& self.sources_left == before.sources_left
        &&& self.base_dir == before.base_dir
        &&& self.opener == before.opener
    }

    /// A parser that opens its sources with `opener` and knows no
    /// operators.
    pub fn new(opener: S) -> (r: Parser<S>)
        ensures
            r.toks() == Seq::<ScannedV>::empty(),
            r.syntax().call_prec == 0,
            r.syntax().index_prec == 0,
            r.syntax().ops.prefix_ops() == Seq::<Operator>::empty(),
            r.syntax().ops.binary_ops() == Seq::<Operator>::empty(),
            r.opener() == opener,
    {
        let r = Parser {
            tokens: Tokenizer::new(),
            opener,
            base_dir: None,
            fn_call_prec: 0,
            el_index_prec: 0,
            sources_left: MAX_SOURCES,
        };
        assert(r.toks() =~= Seq::<ScannedV>::empty());
        r
    }

    /// Sets how tightly the parentheses of a call bind.
    pub fn set_function_call_prec(&mut self, prec: i32)
        ensures
            final(self).toks() == old(self).toks(),
            final(self).syntax() == (Syntax { call_prec: prec, ..old(self).syntax() }),
            final(self).opener() == old(self).opener(),
    {
        self.fn_call_prec = prec;
    }

    /// Sets how tightly the brackets of an index bind.
    pub fn set_element_index_prec(&mut self, prec: i32)
        ensures
            final(self).toks() == old(self).toks(),
            final(self).syntax() == (Syntax { index_prec: prec, ..old(self).syntax() }),
            final(self).opener() == old(self).opener(),
    {
        self.el_index_prec = prec;
    }

    /// Adds an operator.
    pub fn add_op(&mut self, name: &str, prec: i32, assoc: Assoc)
        ensures
            final(self).toks() == old(self).toks(),
            final(self).syntax().call_prec == old(self).syntax().call_prec,
            final(self).syntax().index_prec == old(self).syntax().index_prec,
            final(self).syntax().end == old(self).syntax().end,
            added_op(old(self).syntax().ops, final(self).syntax().ops, name@, prec, assoc),
            final(self).opener() == old(self).opener(),
    {
        self.tokens.add_op(name, prec, assoc);
    }

    fn src_loc(&self) -> (r: SrcLoc)
        ensures
            r@ == self.syntax().end,
    {
        self.tokens.src_loc()
    }

    fn get_token(&mut self) -> (r: Option<ParseResult<Token>>)
        ensures
            final(self).set_as(old(self)),
            final(self).syntax() == old(self).syntax(),
            final(self).sources() == old(self).sources(),
            scanned_view(r) == first(old(self).toks()),
            final(self).toks() == if old(self).toks().len() == 0 {
                old(self).toks()
            } else {
                old(self).toks().skip(1)
            },
    {
        let r = self.tokens.next();
        assert(old(self).tokens.waiting().len() > 0 ==> views(old(self).tokens.waiting().skip(1))
            =~= views(old(self).tokens.waiting()).skip(1));
        r
    }

    /// Puts back the token that was taken from `before`.
    fn unget_token(&mut self, tok: Token, Ghost(before): Ghost<Toks>)
        requires
            before.len() > 0,
            before[0] == Ok::<TokenV, ParseErrorV>(tok@),
            before.skip(1) == old(self).toks(),
        ensures
            final(self).set_as(old(self)),
            final(self).syntax() == old(self).syntax(),
            final(self).sources() == old(self).sources(),
            final(self).toks() == before,
    {
        self.tokens.unget_token(tok);
        let ghost w = old(self).tokens.waiting();
        let ghost now = views(seq![Scanned::Token(tok)] + w);
        assert(before.skip(1) == views(w));
        assert(before.skip(1).len() == before.len() - 1);
        assert(views(w).len() == w.len());
        assert((seq![Scanned::Token(tok)] + w).len() == w.len() + 1);
        assert(now.len() == before.len());
        assert forall|i: int| 0 <= i < now.len() implies now[i] == before[i] by {
            if i > 0 {
                assert(before.skip(1)[i - 1] == before[i]);
                assert(views(w)[i - 1] == w[i - 1]@);
            }
        }
        assert(now =~= before);
    }

    fn unexpected_eof(&self, expected: &str) -> (r: ParseError)
        ensures
            r@ == found_end(self.syntax().end, expected@),
    {
        let mut msg = String::from_str("expected ");
        msg.append(expected);
        msg.append(", found end of file");
        ParseError::new(self.src_loc(), msg.as_str())
    }

    fn expect_punct(&mut self, punct: char) -> (r: ParseResult<SrcLoc>)
        ensures
            final(self).set_as(old(self)),
            final(self).left() <= old(self).left(),
            r is Ok ==> final(self).left() < old(self).left(),
            match r {
                Ok(loc) => grammar::expect_punct(old(self).syntax(), old(self).toks(), punct) == Ok::<
                    (SrcLocV, Toks),
                    ParseErrorV,
                >((loc@, final(self).toks())),
                Err(e) => grammar::expect_punct(old(self).syntax(), old(self).toks(), punct)
                    == Err::<(SrcLocV, Toks), ParseErrorV>(e@),
            },
    {
        let wanted = quote_char(punct);
        match self.get_token() {
            Some(Ok(Token::Punct(p, loc))) => {
                if p == punct {
                    Ok(loc)
                } else {
                    Err(unexpected_tok(Token::Punct(p, loc), wanted.as_str()))
                }
            },
            Some(Ok(tok)) => Err(unexpected_tok(tok, wanted.as_str())),
            Some(Err(e)) => Err(e),
            None => Err(self.unexpected_eof(wanted.as_str())),
        }
    }

    // ([param [, ...]])
    fn parse_param_list(&mut self) -> (r: ParseResult<Vec<String>>)
        ensures
            final(self).set_as(old(self)),
            final(self).left() <= old(self).left(),
            r is Ok ==> final(self).left() < old(self).left(),
            match r {
                Ok(names) => param_list(old(self).syntax(), old(self).toks()) == Ok::<
                    (Seq<Seq<char>>, Toks),
                    ParseErrorV,
                >((texts(names@), final(self).toks())),
                Err(e) => param_list(old(self).syntax(), old(self).toks()) == Err::<
                    (Seq<Seq<char>>, Toks),
                    ParseErrorV,
                >(e@),
            },
    {
        let ghost sx = self.syntax();
        match self.expect_punct('(') {
            Ok(_) => {},
            Err(e) => {
                return Err(e);
            },
        }
        let mut names: Vec<String> = Vec::new();
        assert(texts(names@) =~= Seq::<Seq<char>>::empty());
        // read name or ')'
        match self.get_token() {
            Some(Ok(Token::Punct(p, loc))) => {
                if p == ')' {
                    return Ok(names);
                }
                return Err(unexpected_tok(Token::Punct(p, loc), "')' or parameter name"));
            },
            Some(Ok(Token::Ident(name, _))) => {
                push_name(&mut names, name);
                assert(texts(names@) =~= seq![name@]);
            },
            Some(Ok(tok)) => {
                return Err(unexpected_tok(tok, "')' or parameter name"));
            },
            Some(Err(e)) => {
                return Err(e);
            },
            None => {
                return Err(self.unexpected_eof("')' or parameter name"));
            },
        }
        loop
            invariant
                self.set_as(old(self)),
                self.syntax() == sx,
                sx == old(self).syntax(),
                self.left() < old(self).left(),
                more_params(sx, self.toks(), texts(names@)) == param_list(sx, old(self).toks()),
            decreases self.left(),
        {
            // read ',' or ')'
            match self.get_token() {
                Some(Ok(Token::Punct(p, loc))) => {
                    if p == ')' {
                        return Ok(names);
                    }
                    if p != ',' {
                        return Err(unexpected_tok(Token::Punct(p, loc), "',' or ')'"));
                    }
                },
                Some(Ok(tok)) => {
                    return Err(unexpected_tok(tok, "',' or ')'"));
                },
                Some(Err(e)) => {
                    return Err(e);
                },
                None => {
                    return Err(self.unexpected_eof("',' or ')'"));
                },
            }
            // get next name
            match self.get_token() {
                Some(Ok(Token::Ident(name, _))) => {
                    push_name(&mut names, name);
                },
                Some(Ok(tok)) => {
                    return Err(unexpected_tok(tok, "parameter name"));
                },
                Some(Err(e)) => {
                    return Err(e);
                },
                None => {
                    return Err(self.unexpected_eof("parameter name"));
                },
            }
        }
    }

    // ([expr [, ...]])
    fn parse_arg_list(&mut self) -> (r: ParseResult<Vec<ast::Expression>>)
        ensures
            final(self).set_as(old(self)),
            final(self).left() <= old(self).left(),
            r is Ok ==> final(self).left() < old(self).left(),
            match r {
                Ok(args) => arg_list(old(self).syntax(), old(self).toks()) == Ok::<
                    (Seq<ExprV>, Toks),
                    ParseErrorV,
                >((exprs_view(args@), final(self).toks())),
                Err(e) => arg_list(old(self).syntax(), old(self).toks()) == Err::<
                    (Seq<ExprV>, Toks),
                    ParseErrorV,
                >(e@),
            },
        decreases old(self).left(), 3nat,
    {
        let ghost sx = self.syntax();
        let ghost toks = self.toks();
        let mut exprs: Vec<ast::Expression> = Vec::new();
        assert(exprs_view(exprs@) =~= Seq::<ExprV>::empty());
        // check if next is ')'
        match self.get_token() {
            Some(Ok(Token::Punct(p, loc))) => {
                if p == ')' {
                    return Ok(exprs);
                }
                self.unget_token(Token::Punct(p, loc), Ghost(toks));
            },
            Some(Ok(tok)) => {
                self.unget_token(tok, Ghost(toks));
            },
            Some(Err(e)) => {
                return Err(e);
            },
            None => {
                return Err(self.unexpected_eof("')' or expression"));
            },
        }
        let stop: [char; 2] = [',', ')'];
        assert(stop@ =~= seq![',', ')']);
        loop
            invariant
                self.set_as(old(self)),
                self.syntax() == sx,
                sx == old(self).syntax(),
                stop@ == seq![',', ')'],
                self.left() <= old(self).left(),
                more_args(sx, self.toks(), exprs_view(exprs@)) == arg_list(sx, old(self).toks()),
            decreases self.left(),
        {
            // get next expr
            match self.parse_expr(false, stop.as_slice()) {
                Ok(e) => {
                    push_opn(&mut exprs, e);
                },
                Err(e) => {
                    return Err(e);
                },
            }
            // read ',' or ')'
            match self.get_token() {
                Some(Ok(Token::Punct(p, loc))) => {
                    if p == ')' {
                        return Ok(exprs);
                    }
                    if p != ',' {
                        return Err(unexpected_tok(Token::Punct(p, loc), "',' or ')'"));
                    }
                },
                Some(Ok(tok)) => {
                    return Err(unexpected_tok(tok, "',' or ')'"));
                },
                Some(Err(e)) => {
                    return Err(e);
                },
                None => {
                    return Err(self.unexpected_eof("',' or ')'"));
                },
            }
        }
    }

    // var ident[ = expr];
    fn parse_var_decl(&mut self) -> (r: ParseResult<ast::VarDecl>)
        ensures
            final(self).set_as(old(self)),
            final(self).left() <= old(self).left(),
            r is Ok ==> final(self).left() < old(self).left(),
            match r {
                Ok(d) => var_decl(old(self).syntax(), old(self).toks()) == Ok::<
                    (StmtV, Toks),
                    ParseErrorV,
                >((stmt_view(ast::Statement::VarDecl(d)), final(self).toks())),
                Err(e) => var_decl(old(self).syntax(), old(self).toks()) == Err::<
                    (StmtV, Toks),
                    ParseErrorV,
                >(e@),
            },
        decreases old(self).left(), 2nat,
    {
        let (ident, loc) = match self.get_token() {
            Some(Ok(Token::Ident(ident, loc))) => (ident, loc),
            Some(Ok(tok)) => {
                return Err(unexpected_tok(tok, "identifier"));
            },
            Some(Err(e)) => {
                return Err(e);
            },
            None => {
                return Err(self.unexpected_eof("identifier"));
            },
        };
        // check for '='
        let expr = match self.get_token() {
            Some(Ok(Token::Operator(op, oloc))) => {
                if crate::ast::expressions::is_text(&op, "=") {
                    let stop: [char; 1] = [';'];
                    assert(stop@ =~= seq![';']);
                    match self.parse_expr(true, stop.as_slice()) {
                        Ok(e) => Some(Box::new(e)),
                        Err(e) => {
                            return Err(e);
                        },
                    }
                } else {
                    return Err(unexpected_tok(Token::Operator(op, oloc), "'=' or ';'"));
                }
            },
            Some(Ok(Token::Punct(p, ploc))) => {
                if p == ';' {
                    None
                } else {
                    return Err(unexpected_tok(Token::Punct(p, ploc), "'=' or ';'"));
                }
            },
            Some(Ok(tok)) => {
                return Err(unexpected_tok(tok, "'=' or ';'"));
            },
            Some(Err(e)) => {
                return Err(e);
            },
            None => {
                return Err(self.unexpected_eof("'=' or ';'"));
            },
        };
        Ok(ast::VarDecl::new(loc, ident, expr))
    }

    // [ expr, ... ]
    fn parse_vec_literal(&mut self, loc: SrcLoc) -> (r: ParseResult<ast::VecLiteral>)
        ensures
            final(self).set_as(old(self)),
            final(self).left() <= old(self).left(),
            match r {
                Ok(v) => vec_items(old(self).syntax(), old(self).toks(), loc@, Seq::empty())
                    == Ok::<(ExprV, Toks), ParseErrorV>(
                    (expr_view(ast::Expression::Vec(v)), final(self).toks()),
                ),
                Err(e) => vec_items(old(self).syntax(), old(self).toks(), loc@, Seq::empty())
                    == Err::<(ExprV, Toks), ParseErrorV>(e@),
            },
        decreases old(self).left(), 2nat,
    {
        let ghost sx = self.syntax();
        let mut vec: Vec<ast::Expression> = Vec::new();
        assert(exprs_view(vec@) =~= Seq::<ExprV>::empty());
        let stop: [char; 2] = [']', ','];
        assert(stop@ =~= seq![']', ',']);
        loop
            invariant_except_break
                self.set_as(old(self)),
                self.syntax() == sx,
                sx == old(self).syntax(),
                stop@ == seq![']', ','],
                self.left() <= old(self).left(),
                vec_items(sx, self.toks(), loc@, exprs_view(vec@)) == vec_items(
                    sx,
                    old(self).toks(),
                    loc@,
                    Seq::empty(),
                ),
            ensures
                self.set_as(old(self)),
                self.left() <= old(self).left(),
                vec_items(sx, old(self).toks(), loc@, Seq::empty()) == Ok::<
                    (ExprV, Toks),
                    ParseErrorV,
                >((ExprV::Vec(exprs_view(vec@), loc@), self.toks())),
                sx == old(self).syntax(),
            decreases self.left(),
        {
            let ghost toks = self.toks();
            // read value or ']'
            match self.get_token() {
                Some(Ok(Token::Punct(p, ploc))) => {
                    if p == ']' {
                        break ;
                    }
                    self.unget_token(Token::Punct(p, ploc), Ghost(toks));
                    match self.parse_expr(false, stop.as_slice()) {
                        Ok(e) => {
                            push_opn(&mut vec, e);
                        },
                        Err(e) => {
                            return Err(e);
                        },
                    }
                },
                Some(Ok(tok)) => {
                    self.unget_token(tok, Ghost(toks));
                    match self.parse_expr(false, stop.as_slice()) {
                        Ok(e) => {
                            push_opn(&mut vec, e);
                        },
                        Err(e) => {
                            return Err(e);
                        },
                    }
                },
                Some(Err(e)) => {
                    return Err(e);
                },
                None => {
                    return Err(self.unexpected_eof("']' or expression"));
                },
            }
            // read ']' or ','
            match self.get_token() {
                Some(Ok(Token::Punct(p, ploc))) => {
                    if p == ']' {
                        break ;
                    }
                    if p != ',' {
                        return Err(unexpected_tok(Token::Punct(p, ploc), "',' or ']'"));
                    }
                },
                Some(Ok(tok)) => {
                    return Err(unexpected_tok(tok, "',' or ']'"));
                },
                Some(Err(e)) => {
                    return Err(e);
                },
                None => {
                    return Err(self.unexpected_eof("',' or ']'"));
                },
            }
        }
        Ok(ast::VecLiteral::new(loc, vec))
    }

    // { ident|string : expr, ... }
    fn parse_map_literal(&mut self, loc: SrcLoc) -> (r: ParseResult<ast::MapLiteral>)
        ensures
            final(self).set_as(old(self)),
            final(self).left() <= old(self).left(),
            match r {
                Ok(m) => map_items(old(self).syntax(), old(self).toks(), loc@, Seq::empty())
                    == Ok::<(ExprV, Toks), ParseErrorV>(
                    (expr_view(ast::Expression::Dict(m)), final(self).toks()),
                ),
                Err(e) => map_items(old(self).syntax(), old(self).toks(), loc@, Seq::empty())
                    == Err::<(ExprV, Toks), ParseErrorV>(e@),
            },
        decreases old(self).left(), 2nat,
    {
        let ghost sx = self.syntax();
        let mut entries: Vec<(String, ast::Expression)> = Vec::new();
        assert(entries_view(entries@) =~= Seq::<(Seq<char>, ExprV)>::empty());
        let stop: [char; 2] = [',', '}'];
        assert(stop@ =~= seq![',', '}']);
        loop
            invariant_except_break
                self.set_as(old(self)),
                self.syntax() == sx,
                sx == old(self).syntax(),
                stop@ == seq![',', '}'],
                self.left() <= old(self).left(),
                map_items(sx, self.toks(), loc@, entries_view(entries@)) == map_items(
                    sx,
                    old(self).toks(),
                    loc@,
                    Seq::empty(),
                ),
            ensures
                self.set_as(old(self)),
                self.left() <= old(self).left(),
                map_items(sx, old(self).toks(), loc@, Seq::empty()) == Ok::<
                    (ExprV, Toks),
                    ParseErrorV,
                >((ExprV::Dict(entries_view(entries@), loc@), self.toks())),
                sx == old(self).syntax(),
            decreases self.left(),
        {
            // read key: ident or string
            let key = match self.get_token() {
                Some(Ok(Token::Ident(id, _))) => id,
                Some(Ok(Token::String(s, _))) => s,
                Some(Ok(Token::Punct(p, ploc))) => {
                    if p == '}' {
                        break ;
                    }
                    return Err(unexpected_tok(Token::Punct(p, ploc), "identifier or string"));
                },
                Some(Ok(tok)) => {
                    return Err(unexpected_tok(tok, "identifier or string"));
                },
                Some(Err(e)) => {
                    return Err(e);
                },
                None => {
                    return Err(self.unexpected_eof("identifier or string"));
                },
            };
            match self.expect_punct(':') {
                Ok(_) => {},
                Err(e) => {
                    return Err(e);
                },
            }
            // read value: expression
            let val = match self.parse_expr(false, stop.as_slice()) {
                Ok(e) => e,
                Err(e) => {
                    return Err(e);
                },
            };
            // store entry
            push_entry(&mut entries, key, val);
            // read '}' or ','
            match self.get_token() {
                Some(Ok(Token::Punct(p, ploc))) => {
                    if p == '}' {
                        break ;
                    }
                    if p != ',' {
                        return Err(unexpected_tok(Token::Punct(p, ploc), "',' or '}'"));
                    }
                },
                Some(Ok(tok)) => {
                    return Err(unexpected_tok(tok, "',' or '}'"));
                },
                Some(Err(e)) => {
                    return Err(e);
                },
                None => {
                    return Err(self.unexpected_eof("',' or '}'"));
                },
            }
        }
        Ok(ast::MapLiteral::new(loc, entries))
    }

    /// Applies the operators on top of the operator stack that bind at
    /// least as tightly as `prec`, each to the operands on top of the
    /// operand stack. A right-associative operator gives way to an equal
    /// one that follows it.
    fn resolve_stack(
        opns: &mut Vec<ast::Expression>,
        oprs: &mut Vec<(Operator, SrcLoc)>,
        prec: i32,
    ) -> (r: ParseResult<()>)
        ensures
            match r {
                Ok(()) => reduce(exprs_view(old(opns)@), waiting_ops(old(oprs)@), prec) == Ok::<
                    (Seq<ExprV>, Seq<Waiting>),
                    ParseErrorV,
                >((exprs_view(final(opns)@), waiting_ops(final(oprs)@))),
                Err(e) => reduce(exprs_view(old(opns)@), waiting_ops(old(oprs)@), prec) == Err::<
                    (Seq<ExprV>, Seq<Waiting>),
                    ParseErrorV,
                >(e@),
            },
    {
        loop
            invariant
                reduce(exprs_view(opns@), waiting_ops(oprs@), prec) == reduce(
                    exprs_view(old(opns)@),
                    waiting_ops(old(oprs)@),
                    prec,
                ),
            decreases oprs@.len(),
        {
            let n = oprs.len();
            if n == 0 {
                return Ok(());
            }
            let assoc = oprs[n - 1].0.assoc;
            let opr_prec: i64 = match assoc {
                Assoc::Prefix => oprs[n - 1].0.prec as i64,
                Assoc::Left => oprs[n - 1].0.prec as i64,
                Assoc::Right => oprs[n - 1].0.prec as i64 - 1,
            };
            assert(waiting_ops(oprs@).last() == waiting_op(oprs@[n - 1].0, oprs@[n - 1].1@));
            if opr_prec < prec as i64 {
                return Ok(());
            }
            let ghost before = exprs_view(opns@);
            let (opr, loc) = match pop_opr(oprs) {
                Some(top) => top,
                None => {
                    return Ok(());
                },
            };
            let opn = match assoc {
                Assoc::Left | Assoc::Right => {
                    let right = match pop_opn(opns) {
                        Some(o) => o,
                        None => {
                            return Err(ParseError::new(loc, "syntax error"));
                        },
                    };
                    let left = match pop_opn(opns) {
                        Some(o) => o,
                        None => {
                            return Err(ParseError::new(loc, "syntax error"));
                        },
                    };
                    assert(expr_view(left) == before[before.len() - 2]);
                    ast::Expression::BinaryOp(
                        ast::BinaryOp::new(loc, opr.name, Box::new(left), Box::new(right)),
                    )
                },
                Assoc::Prefix => {
                    let opn = match pop_opn(opns) {
                        Some(o) => o,
                        None => {
                            return Err(ParseError::new(loc, "syntax error"));
                        },
                    };
                    ast::Expression::PrefixOp(ast::PrefixOp::new(loc, opr.name, Box::new(opn)))
                },
            };
            push_opn(opns, opn);
        }
    }

    /// Goes on with an expression after the punctuation `ch` at `loc`,
    /// which was the first of `toks`.
    fn expr_punct(
        &mut self,
        ch: char,
        loc: SrcLoc,
        consume_stop: bool,
        stop: &[char],
        opns: &mut Vec<ast::Expression>,
        oprs: &mut Vec<(Operator, SrcLoc)>,
        expect_opn: bool,
        Ghost(toks): Ghost<Toks>,
    ) -> (r: ParseResult<Step>)
        requires
            toks.len() > 0,
            toks[0] == Ok::<TokenV, ParseErrorV>(TokenV::Punct(ch, loc@)),
            toks.skip(1) == old(self).toks(),
        ensures
            final(self).set_as(old(self)),
            final(self).left() <= toks.len(),
            r matches Ok(Step::More(_)) ==> final(self).left() < toks.len(),
            r matches Ok(Step::Done(_)) ==> old(opns)@.len() > 0,
            step_is(
                r,
                old(self).syntax(),
                consume_stop,
                stop@,
                final(self).toks(),
                exprs_view(final(opns)@),
                waiting_ops(final(oprs)@),
                expr_loop(
                    old(self).syntax(),
                    toks,
                    consume_stop,
                    stop@,
                    exprs_view(old(opns)@),
                    waiting_ops(old(oprs)@),
                    expect_opn,
                ),
            ),
        decreases old(self).left(), 5nat,
    {
        if ch == '(' {
            if expect_opn {
                let inner: [char; 1] = [')'];
                assert(inner@ =~= seq![')']);
                match self.parse_expr(true, inner.as_slice()) {
                    Ok(e) => {
                        push_opn(opns, e);
                    },
                    Err(e) => {
                        return Err(e);
                    },
                }
                Ok(Step::More(false))
            } else {
                let prec = self.fn_call_prec;
                match Self::resolve_stack(opns, oprs, prec) {
                    Ok(()) => {},
                    Err(e) => {
                        return Err(e);
                    },
                }
                match pop_opn(opns) {
                    Some(func) => {
                        let args = match self.parse_arg_list() {
                            Ok(a) => a,
                            Err(e) => {
                                return Err(e);
                            },
                        };
                        push_opn(
                            opns,
                            ast::Expression::FuncCall(ast::FuncCall::new(Box::new(func), args)),
                        );
                        Ok(Step::More(false))
                    },
                    None => Err(ParseError::new(loc, "syntax error (no function on stack!)")),
                }
            }
        } else if ch == '[' {
            if expect_opn {
                match self.parse_vec_literal(loc) {
                    Ok(v) => {
                        push_opn(opns, ast::Expression::Vec(v));
                    },
                    Err(e) => {
                        return Err(e);
                    },
                }
                Ok(Step::More(false))
            } else {
                let prec = self.el_index_prec;
                match Self::resolve_stack(opns, oprs, prec) {
                    Ok(()) => {},
                    Err(e) => {
                        return Err(e);
                    },
                }
                match pop_opn(opns) {
                    Some(container) => {
                        let inner: [char; 1] = [']'];
                        assert(inner@ =~= seq![']']);
                        let index = match self.parse_expr(true, inner.as_slice()) {
                            Ok(i) => i,
                            Err(e) => {
                                return Err(e);
                            },
                        };
                        push_opn(
                            opns,
                            ast::Expression::Element(
                                ast::Element::new(loc, Box::new(container), Box::new(index)),
                            ),
                        );
                        Ok(Step::More(false))
                    },
                    None => Err(ParseError::new(loc, "syntax error (no container on stack!)")),
                }
            }
        } else if ch == '{' {
            if expect_opn {
                match self.parse_map_literal(loc) {
                    Ok(m) => {
                        push_opn(opns, ast::Expression::Dict(m));
                    },
                    Err(e) => {
                        return Err(e);
                    },
                }
                Ok(Step::More(false))
            } else {
                Err(unexpected_tok(Token::Punct(ch, loc), "operator"))
            }
        } else if contains(stop, ch) {
            match Self::resolve_stack(opns, oprs, i32::MIN) {
                Ok(()) => {},
                Err(e) => {
                    return Err(e);
                },
            }
            if opns.len() == 0 {
                Err(ParseError::new(loc, "expected expression"))
            } else if opns.len() == 1 {
                if !consume_stop {
                    self.unget_token(Token::Punct(ch, loc), Ghost(toks));
                }
                match pop_opn(opns) {
                    Some(e) => Ok(Step::Done(e)),
                    None => Err(self.unexpected_eof("expression")),
                }
            } else {
                Err(ParseError::new(loc, "syntax error (stack not empty!)"))
            }
        } else {
            Err(unexpected_tok(Token::Punct(ch, loc), "expression"))
        }
    }

    /// Parses an expression that ends before one of the characters of
    /// `stop`, and reads that character too where `consume_stop` is set.
    fn parse_expr(&mut self, consume_stop: bool, stop: &[char]) -> (r: ParseResult<ast::Expression>)
        ensures
            final(self).set_as(old(self)),
            final(self).left() <= old(self).left(),
            r is Ok ==> final(self).left() < old(self).left(),
            match r {
                Ok(e) => expr(old(self).syntax(), old(self).toks(), consume_stop, stop@) == Ok::<
                    (ExprV, Toks),
                    ParseErrorV,
                >((expr_view(e), final(self).toks())),
                Err(e) => expr(old(self).syntax(), old(self).toks(), consume_stop, stop@) == Err::<
                    (ExprV, Toks),
                    ParseErrorV,
                >(e@),
            },
        decreases old(self).left(), 1nat,
    {
        let ghost sx = self.syntax();
        let mut opns: Vec<ast::Expression> = Vec::new();
        let mut oprs: Vec<(Operator, SrcLoc)> = Vec::new();
        let mut expect_opn = true;
        assert(exprs_view(opns@) =~= Seq::<ExprV>::empty());
        assert(waiting_ops(oprs@) =~= Seq::<Waiting>::empty());
        loop
            invariant
                self.set_as(old(self)),
                self.syntax() == sx,
                sx == old(self).syntax(),
                self.left() <= old(self).left(),
                opns@.len() > 0 ==> self.left() < old(self).left(),
                expr_loop(
                    sx,
                    self.toks(),
                    consume_stop,
                    stop@,
                    exprs_view(opns@),
                    waiting_ops(oprs@),
                    expect_opn,
                ) == expr(sx, old(self).toks(), consume_stop, stop@),
            decreases self.left(),
        {
            let ghost toks = self.toks();
            match self.get_token() {
                Some(Ok(Token::Punct(ch, loc))) => {
                    match self.expr_punct(
                        ch,
                        loc,
                        consume_stop,
                        stop,
                        &mut opns,
                        &mut oprs,
                        expect_opn,
                        Ghost(toks),
                    ) {
                        Ok(Step::Done(e)) => {
                            return Ok(e);
                        },
                        Ok(Step::More(x)) => {
                            expect_opn = x;
                        },
                        Err(e) => {
                            return Err(e);
                        },
                    }
                },
                Some(Ok(Token::Operator(op, loc))) => {
                    if expect_opn {
                        match self.tokens.ops().get_prefix(op.as_str()) {
                            Some(o) => {
                                push_opr(&mut oprs, o, loc);
                            },
                            None => {
                                return Err(unexpected_tok(Token::Operator(op, loc), "expression"));
                            },
                        }
                    } else {
                        match self.tokens.ops().get_binary(op.as_str()) {
                            Some(o) => {
                                match Self::resolve_stack(&mut opns, &mut oprs, o.prec) {
                                    Ok(()) => {},
                                    Err(e) => {
                                        return Err(e);
                                    },
                                }
                                push_opr(&mut oprs, o, loc);
                            },
                            None => {
                                return Err(
                                    unexpected_tok(Token::Operator(op, loc), "'(' or operator"),
                                );
                            },
                        }
                        expect_opn = true;
                    }
                },
                Some(Ok(Token::Ident(name, loc))) => {
                    if expect_opn {
                        push_opn(&mut opns, ast::Expression::Ident(name, loc));
                        expect_opn = false;
                    } else {
                        return Err(unexpected_tok(Token::Ident(name, loc), "'(' or operator"));
                    }
                },
                Some(Ok(Token::String(str, loc))) => {
                    if expect_opn {
                        push_opn(&mut opns, ast::Expression::String(str, loc));
                        expect_opn = false;
                    } else {
                        return Err(unexpected_tok(Token::String(str, loc), "'(' or operator"));
                    }
                },
                Some(Ok(Token::Number(n, loc))) => {
                    if expect_opn {
                        push_opn(&mut opns, ast::Expression::Number(n, loc));
                        expect_opn = false;
                    } else {
                        return Err(unexpected_tok(Token::Number(n, loc), "'(' or operator"));
                    }
                },
                Some(Ok(Token::Keyword(k, loc))) => {
                    if k == Keyword::Function {
                        if expect_opn {
                            match self.parse_func_def(loc) {
                                Ok(f) => {
                                    push_opn(&mut opns, ast::Expression::FuncDef(f));
                                },
                                Err(e) => {
                                    return Err(e);
                                },
                            }
                            expect_opn = false;
                        } else {
                            return Err(
                                unexpected_tok(Token::Keyword(k, loc), "'(' or operator"),
                            );
                        }
                    } else {
                        return Err(unexpected_tok(Token::Keyword(k, loc), "expression"));
                    }
                },
                Some(Err(e)) => {
                    return Err(e);
                },
                None => {
                    return Err(self.unexpected_eof("expression"));
                },
            }
        }
    }

    // if (expr) true_stmt; [ else false_stmt; ]
    fn parse_if(&mut self) -> (r: ParseResult<ast::IfStatement>)
        ensures
            final(self).set_as(old(self)),
            final(self).left() <= old(self).left(),
            r is Ok ==> final(self).left() < old(self).left(),
            match r {
                Ok(i) => if_stmt(old(self).syntax(), old(self).toks()) == Ok::<
                    (StmtV, Toks),
                    ParseErrorV,
                >((stmt_view(ast::Statement::If(i)), final(self).toks())),
                Err(e) => if_stmt(old(self).syntax(), old(self).toks()) == Err::<
                    (StmtV, Toks),
                    ParseErrorV,
                >(e@),
            },
        decreases old(self).left(), 2nat,
    {
        let if_loc = match self.expect_punct('(') {
            Ok(l) => l,
            Err(e) => {
                return Err(e);
            },
        };
        let stop: [char; 1] = [')'];
        assert(stop@ =~= seq![')']);
        let test = match self.parse_expr(true, stop.as_slice()) {
            Ok(e) => Box::new(e),
            Err(e) => {
                return Err(e);
            },
        };
        let true_stmt = match self.parse_statement() {
            Ok(s) => Box::new(s),
            Err(e) => {
                return Err(e);
            },
        };
        let ghost toks = self.toks();
        let false_stmt = match self.get_token() {
            Some(Ok(Token::Keyword(k, kloc))) => {
                if k == Keyword::Else {
                    match self.parse_statement() {
                        Ok(s) => Some(Box::new(s)),
                        Err(e) => {
                            return Err(e);
                        },
                    }
                } else {
                    self.unget_token(Token::Keyword(k, kloc), Ghost(toks));
                    None
                }
            },
            Some(Ok(tok)) => {
                self.unget_token(tok, Ghost(toks));
                None
            },
            Some(Err(e)) => {
                return Err(e);
            },
            None => None,
        };
        Ok(ast::IfStatement::new(if_loc, test, true_stmt, false_stmt))
    }

    // while (expr) stmt;
    fn parse_while(&mut self) -> (r: ParseResult<ast::WhileStatement>)
        ensures
            final(self).set_as(old(self)),
            final(self).left() <= old(self).left(),
            r is Ok ==> final(self).left() < old(self).left(),
            match r {
                Ok(w) => while_stmt(old(self).syntax(), old(self).toks()) == Ok::<
                    (StmtV, Toks),
                    ParseErrorV,
                >((stmt_view(ast::Statement::While(w)), final(self).toks())),
                Err(e) => while_stmt(old(self).syntax(), old(self).toks()) == Err::<
                    (StmtV, Toks),
                    ParseErrorV,
                >(e@),
            },
        decreases old(self).left(), 2nat,
    {
        let while_loc = match self.expect_punct('(') {
            Ok(l) => l,
            Err(e) => {
                return Err(e);
            },
        };
        let stop: [char; 1] = [')'];
        assert(stop@ =~= seq![')']);
        let test = match self.parse_expr(true, stop.as_slice()) {
            Ok(e) => Box::new(e),
            Err(e) => {
                return Err(e);
            },
        };
        let stmt = match self.parse_statement() {
            Ok(s) => Box::new(s),
            Err(e) => {
                return Err(e);
            },
        };
        Ok(ast::WhileStatement::new(while_loc, test, stmt))
    }

    // return [expr];
    fn parse_return(&mut self, loc: SrcLoc) -> (r: ParseResult<ast::ReturnStatement>)
        ensures
            final(self).set_as(old(self)),
            final(self).left() <= old(self).left(),
            match r {
                Ok(x) => return_stmt(old(self).syntax(), old(self).toks(), loc@) == Ok::<
                    (StmtV, Toks),
                    ParseErrorV,
                >((stmt_view(ast::Statement::Return(x)), final(self).toks())),
                Err(e) => return_stmt(old(self).syntax(), old(self).toks(), loc@) == Err::<
                    (StmtV, Toks),
                    ParseErrorV,
                >(e@),
            },
        decreases old(self).left(), 2nat,
    {
        let stop: [char; 1] = [';'];
        assert(stop@ =~= seq![';']);
        let ghost toks = self.toks();
        let expr = match self.get_token() {
            Some(Ok(Token::Punct(p, ploc))) => {
                if p == ';' {
                    None
                } else {
                    self.unget_token(Token::Punct(p, ploc), Ghost(toks));
                    match self.parse_expr(true, stop.as_slice()) {
                        Ok(e) => Some(Box::new(e)),
                        Err(e) => {
                            return Err(e);
                        },
                    }
                }
            },
            Some(Ok(tok)) => {
                self.unget_token(tok, Ghost(toks));
                match self.parse_expr(true, stop.as_slice()) {
                    Ok(e) => Some(Box::new(e)),
                    Err(e) => {
                        return Err(e);
                    },
                }
            },
            Some(Err(e)) => {
                return Err(e);
            },
            None => None,
        };
        Ok(ast::ReturnStatement::new(loc, expr))
    }

    // expr;
    fn parse_expr_stmt(&mut self) -> (r: ParseResult<ast::Statement>)
        ensures
            final(self).set_as(old(self)),
            final(self).left() <= old(self).left(),
            r is Ok ==> final(self).left() < old(self).left(),
            match r {
                Ok(s) => expr_stmt(old(self).syntax(), old(self).toks()) == Ok::<
                    (StmtV, Toks),
                    ParseErrorV,
                >((stmt_view(s), final(self).toks())),
                Err(e) => expr_stmt(old(self).syntax(), old(self).toks()) == Err::<
                    (StmtV, Toks),
                    ParseErrorV,
                >(e@),
            },
        decreases old(self).left(), 2nat,
    {
        let stop: [char; 1] = [';'];
        assert(stop@ =~= seq![';']);
        match self.parse_expr(true, stop.as_slice()) {
            Ok(e) => Ok(ast::Statement::Expression(e)),
            Err(e) => Err(e),
        }
    }

    // any statement
    fn parse_statement(&mut self) -> (r: ParseResult<ast::Statement>)
        ensures
            final(self).set_as(old(self)),
            final(self).left() <= old(self).left(),
            r is Ok ==> final(self).left() < old(self).left(),
            match r {
                Ok(s) => statement(old(self).syntax(), old(self).toks()) == Ok::<
                    (StmtV, Toks),
                    ParseErrorV,
                >((stmt_view(s), final(self).toks())),
                Err(e) => statement(old(self).syntax(), old(self).toks()) == Err::<
                    (StmtV, Toks),
                    ParseErrorV,
                >(e@),
            },
        decreases old(self).left(), 3nat,
    {
        let ghost toks = self.toks();
        match self.get_token() {
            Some(Ok(Token::Punct(p, loc))) => {
                if p == ';' {
                    Ok(ast::Statement::Empty)
                } else if p == '{' {
                    self.unget_token(Token::Punct(p, loc), Ghost(toks));
                    match self.parse_block() {
                        Ok(b) => Ok(ast::Statement::Block(b)),
                        Err(e) => Err(e),
                    }
                } else {
                    self.unget_token(Token::Punct(p, loc), Ghost(toks));
                    self.parse_expr_stmt()
                }
            },
            Some(Ok(Token::Keyword(k, loc))) => {
                match k {
                    Keyword::Var => match self.parse_var_decl() {
                        Ok(d) => Ok(ast::Statement::VarDecl(d)),
                        Err(e) => Err(e),
                    },
                    Keyword::If => match self.parse_if() {
                        Ok(i) => Ok(ast::Statement::If(i)),
                        Err(e) => Err(e),
                    },
                    Keyword::While => match self.parse_while() {
                        Ok(w) => Ok(ast::Statement::While(w)),
                        Err(e) => Err(e),
                    },
                    Keyword::Break => match self.expect_punct(';') {
                        Ok(_) => Ok(ast::Statement::Break(loc)),
                        Err(e) => Err(e),
                    },
                    Keyword::Return => match self.parse_return(loc) {
                        Ok(r) => Ok(ast::Statement::Return(r)),
                        Err(e) => Err(e),
                    },
                    _ => {
                        self.unget_token(Token::Keyword(k, loc), Ghost(toks));
                        self.parse_expr_stmt()
                    },
                }
            },
            Some(Ok(tok)) => {
                self.unget_token(tok, Ghost(toks));
                self.parse_expr_stmt()
            },
            Some(Err(e)) => Err(e),
            None => Err(self.unexpected_eof("statement")),
        }
    }

    // { ... }
    fn parse_block(&mut self) -> (r: ParseResult<ast::Block>)
        ensures
            final(self).set_as(old(self)),
            final(self).left() <= old(self).left(),
            r is Ok ==> final(self).left() < old(self).left(),
            match r {
                Ok(b) => block(old(self).syntax(), old(self).toks()) == Ok::<
                    (BlockV, Toks),
                    ParseErrorV,
                >((block_view(b), final(self).toks())),
                Err(e) => block(old(self).syntax(), old(self).toks()) == Err::<
                    (BlockV, Toks),
                    ParseErrorV,
                >(e@),
            },
        decreases old(self).left(), 0nat,
    {
        let ghost sx = self.syntax();
        let block_loc = match self.expect_punct('{') {
            Ok(l) => l,
            Err(e) => {
                return Err(e);
            },
        };
        let mut stmts: Vec<ast::Statement> = Vec::new();
        assert(stmts_view(stmts@) =~= Seq::<StmtV>::empty());
        loop
            invariant_except_break
                self.set_as(old(self)),
                self.syntax() == sx,
                sx == old(self).syntax(),
                self.left() < old(self).left(),
                block_items(sx, self.toks(), block_loc@, stmts_view(stmts@)) == block(
                    sx,
                    old(self).toks(),
                ),
            ensures
                self.set_as(old(self)),
                self.left() < old(self).left(),
                sx == old(self).syntax(),
                block(sx, old(self).toks()) == Ok::<(BlockV, Toks), ParseErrorV>(
                    (BlockV { stmts: stmts_view(stmts@), loc: block_loc@ }, self.toks()),
                ),
            decreases self.left(),
        {
            let ghost toks = self.toks();
            match self.get_token() {
                Some(Ok(Token::Punct(p, loc))) => {
                    if p == '}' {
                        break ;
                    }
                    self.unget_token(Token::Punct(p, loc), Ghost(toks));
                    match self.parse_statement() {
                        Ok(s) => {
                            push_stmt(&mut stmts, s);
                        },
                        Err(e) => {
                            return Err(e);
                        },
                    }
                },
                Some(Ok(tok)) => {
                    self.unget_token(tok, Ghost(toks));
                    match self.parse_statement() {
                        Ok(s) => {
                            push_stmt(&mut stmts, s);
                        },
                        Err(e) => {
                            return Err(e);
                        },
                    }
                },
                Some(Err(e)) => {
                    return Err(e);
                },
                None => {
                    return Err(self.unexpected_eof("statement"));
                },
            }
        }
        Ok(ast::Block::new(block_loc, stmts))
    }

    // function (...) { ... }
    fn parse_func_def(&mut self, loc: SrcLoc) -> (r: ParseResult<Rc<ast::FuncDef>>)
        ensures
            final(self).set_as(old(self)),
            final(self).left() <= old(self).left(),
            r is Ok ==> final(self).left() < old(self).left(),
            match r {
                Ok(f) => func_def(old(self).syntax(), old(self).toks(), loc@) == Ok::<
                    (FuncV, Toks),
                    ParseErrorV,
                >((func_view(*f), final(self).toks())),
                Err(e) => func_def(old(self).syntax(), old(self).toks(), loc@) == Err::<
                    (FuncV, Toks),
                    ParseErrorV,
                >(e@),
            },
        decreases old(self).left(), 1nat,
    {
        let params = match self.parse_param_list() {
            Ok(p) => p,
            Err(e) => {
                return Err(e);
            },
        };
        let block = match self.parse_block() {
            Ok(b) => b,
            Err(e) => {
                return Err(e);
            },
        };
        Ok(Rc::new(ast::FuncDef::new(loc, params, Box::new(block))))
    }

    // function name(...) { ... }
    fn parse_named_func_def(&mut self) -> (r: Result<ast::NamedFuncDef, ParseError>)
        ensures
            final(self).set_as(old(self)),
            final(self).left() <= old(self).left(),
            r is Ok ==> final(self).left() < old(self).left(),
            match r {
                Ok(f) => named_func(old(self).syntax(), old(self).toks()) == Ok::<
                    (NamedFuncV, Toks),
                    ParseErrorV,
                >((named_view(f), final(self).toks())),
                Err(e) => named_func(old(self).syntax(), old(self).toks()) == Err::<
                    (NamedFuncV, Toks),
                    ParseErrorV,
                >(e@),
            },
    {
        let (name, loc) = match self.get_token() {
            Some(Ok(Token::Ident(name, loc))) => (name, loc),
            Some(Ok(tok)) => {
                return Err(unexpected_tok(tok, "function name"));
            },
            Some(Err(e)) => {
                return Err(e);
            },
            None => {
                return Err(self.unexpected_eof("function name"));
            },
        };
        let def = match self.parse_func_def(loc) {
            Ok(d) => d,
            Err(e) => {
                return Err(e);
            },
        };
        Ok(ast::NamedFuncDef::new(name, def))
    }

    /// Parses the rest of a script: definitions of functions, and
    /// directives to include sources, which are opened. Returns the
    /// functions, and what opening the sources gave.
    #[verifier::rlimit(100)]
    fn parse_script<H: NativeHost>(&mut self, host: &H) -> (r: (
        ParseResult<Vec<ast::NamedFuncDef>>,
        Ghost<Seq<Opened>>,
    ))
        requires
            old(self).started(),
        ensures
            forall|rest: Openings| #[trigger]
                script(
                    *host,
                    old(self).syntax(),
                    old(self).base(),
                    old(self).toks(),
                    Seq::empty(),
                    old(self).sources(),
                    r.1@ + rest,
                ) == listed(r.0),
            r.1@.len() <= old(self).sources(),
            r.1@.len() == 0 ==> final(self).opener() == old(self).opener(),
            r.1@.len() > 0 ==> final(self).opener().allows(Seq::empty()),
            forall|rest: Openings| #[trigger]
                final(self).opener().allows(rest) ==> old(self).opener().allows(r.1@ + rest),
            final(self).syntax().ops == old(self).syntax().ops,
            final(self).syntax().call_prec == old(self).syntax().call_prec,
            final(self).syntax().index_prec == old(self).syntax().index_prec,
    {
        let ghost sx = self.syntax();
        let ghost base = self.base();
        let ghost toks0 = self.toks();
        let ghost src0 = self.sources();
        let ghost none = Seq::<NamedFuncV>::empty();
        let ghost mut used: Openings = Seq::empty();
        let mut funcs: Vec<ast::NamedFuncDef> = Vec::new();
        assert(named_views(funcs@) =~= none);
        assert forall|rest: Openings| used + rest == rest by {
            assert(used + rest =~= rest);
        }
        loop
            invariant
                self.started(),
                self.syntax() == sx,
                self.base() == base,
                sx == old(self).syntax(),
                base == old(self).base(),
                toks0 == old(self).toks(),
                src0 == old(self).sources(),
                none == Seq::<NamedFuncV>::empty(),
                used.len() + self.sources() == src0,
                used.len() == 0 ==> self.opener() == old(self).opener(),
                used.len() > 0 ==> self.opener().allows(Seq::empty()),
                forall|rest: Openings| #[trigger]
                    self.opener().allows(rest) ==> old(self).opener().allows(used + rest),
                forall|rest: Openings| #[trigger]
                    script(
                        *host,
                        sx,
                        base,
                        self.toks(),
                        named_views(funcs@),
                        self.sources(),
                        rest,
                    ) == script(*host, sx, base, toks0, none, src0, used + rest),
            decreases self.sources(), self.left(),
        {
            let ghost toks = self.toks();
            let ghost fs = named_views(funcs@);
            let ghost src = self.sources();
            let ghost opener = self.opener();
            // What the step returns, where it ends the script.
            let ended: Option<Option<ParseError>> = match self.get_token() {
                None => Some(None),
                Some(Err(e)) => Some(Some(e)),
                Some(Ok(Token::Keyword(k, loc))) => {
                    if k == Keyword::Include {
                        match self.get_token() {
                            Some(Ok(Token::String(name, at))) => {
                                let (res, Ghost(got)) = self.add_input(
                                    name.as_str(),
                                    Some(at),
                                    host,
                                );
                                match res {
                                    Ok(()) => {
                                        proof {
                                            let x = got->Some_0;
                                            let before = used;
                                            used = used.push(x);
                                            assert forall|rest: Openings| #[trigger]
                                                self.opener().allows(rest) implies old(self).opener().allows(used + rest) by {
                                                assert(opener.allows(seq![x] + rest));
                                                assert(before + (seq![x] + rest) =~= used + rest);
                                            }
                                            assert forall|rest: Openings| #[trigger]
                                                script(
                                                    *host,
                                                    sx,
                                                    base,
                                                    self.toks(),
                                                    named_views(funcs@),
                                                    self.sources(),
                                                    rest,
                                                ) == script(
                                                    *host,
                                                    sx,
                                                    base,
                                                    toks0,
                                                    none,
                                                    src0,
                                                    used + rest,
                                                ) by {
                                                let more = seq![x] + rest;
                                                assert(more.skip(1) =~= rest);
                                                assert(before + more =~= used + rest);
                                                assert(script(*host, sx, base, toks, fs, src, more)
                                                    == script(
                                                    *host,
                                                    sx,
                                                    base,
                                                    toks0,
                                                    none,
                                                    src0,
                                                    before + more,
                                                ));
                                            }
                                        }
                                        None
                                    },
                                    Err(e) => {
                                        proof {
                                            if got is None {
                                                assert forall|rest: Openings| #[trigger]
                                                    script(
                                                        *host,
                                                        sx,
                                                        base,
                                                        toks0,
                                                        none,
                                                        src0,
                                                        used + rest,
                                                    ) == Err::<Seq<NamedFuncV>, ParseErrorV>(
                                                    e@,
                                                ) by {
                                                    assert(script(
                                                        *host,
                                                        sx,
                                                        base,
                                                        toks,
                                                        fs,
                                                        src,
                                                        rest,
                                                    ) == script(
                                                        *host,
                                                        sx,
                                                        base,
                                                        toks0,
                                                        none,
                                                        src0,
                                                        used + rest,
                                                    ));
                                                }
                                            }
                                            if got is Some {
                                                let x = got->Some_0;
                                                let before = used;
                                                used = used.push(x);
                                                assert forall|rest: Openings| #[trigger]
                                                    self.opener().allows(rest) implies old(self).opener().allows(used + rest) by {
                                                    assert(opener.allows(seq![x] + rest));
                                                    assert(before + (seq![x] + rest) =~= used
                                                        + rest);
                                                }
                                                assert forall|rest: Openings| #[trigger]
                                                    script(
                                                        *host,
                                                        sx,
                                                        base,
                                                        toks0,
                                                        none,
                                                        src0,
                                                        used + rest,
                                                    ) == Err::<Seq<NamedFuncV>, ParseErrorV>(
                                                    e@,
                                                ) by {
                                                    let more = seq![x] + rest;
                                                    assert(before + more =~= used + rest);
                                                    assert(script(
                                                        *host,
                                                        sx,
                                                        base,
                                                        toks,
                                                        fs,
                                                        src,
                                                        more,
                                                    ) == script(
                                                        *host,
                                                        sx,
                                                        base,
                                                        toks0,
                                                        none,
                                                        src0,
                                                        before + more,
                                                    ));
                                                }
                                            }
                                        }
                                        return (Err(e), Ghost(used));
                                    },
                                }
                            },
                            Some(Ok(tok)) => Some(Some(unexpected_tok(tok, "string"))),
                            Some(Err(e)) => Some(Some(e)),
                            None => Some(Some(self.unexpected_eof("string"))),
                        }
                    } else if k == Keyword::Function {
                        match self.parse_named_func_def() {
                            Ok(f) => {
                                push_func(&mut funcs, f);
                                assert forall|rest: Openings| #[trigger]
                                    script(
                                        *host,
                                        sx,
                                        base,
                                        self.toks(),
                                        named_views(funcs@),
                                        self.sources(),
                                        rest,
                                    ) == script(*host, sx, base, toks0, none, src0, used + rest) by {
                                    assert(script(*host, sx, base, toks, fs, src, rest) == script(
                                        *host,
                                        sx,
                                        base,
                                        toks0,
                                        none,
                                        src0,
                                        used + rest,
                                    ));
                                }
                                None
                            },
                            Err(e) => Some(Some(e)),
                        }
                    } else {
                        Some(
                            Some(unexpected_tok(Token::Keyword(k, loc), "'include' or 'function'")),
                        )
                    }
                },
                Some(Ok(tok)) => Some(Some(unexpected_tok(tok, "'include' or 'function'"))),
            };
            match ended {
                Some(end) => {
                    let res = match end {
                        None => Ok(funcs),
                        Some(e) => Err(e),
                    };
                    proof {
                        assert forall|rest: Openings| #[trigger]
                            script(*host, sx, base, toks0, none, src0, used + rest) == listed(
                                res,
                            ) by {
                            assert(script(*host, sx, base, toks, fs, src, rest) == script(
                                *host,
                                sx,
                                base,
                                toks0,
                                none,
                                src0,
                                used + rest,
                            ));
                        }
                    }
                    return (res, Ghost(used));
                },
                None => {},
            }
        }
    }

    /// Opens the source `filename`, taken from the directory of the script
    /// that is parsed, and makes its tokens the next to be parsed. An
    /// error is reported at `loc`, or else at the start of the source.
    /// Returns what opening the source gave, if it came to that.
    fn add_input<H: NativeHost>(&mut self, filename: &str, loc: Option<SrcLoc>, host: &H) -> (r: (
        ParseResult<()>,
        Ghost<Option<Opened>>,
    ))
        ensures
            final(self).base() == old(self).base(),
            final(self).syntax().ops == old(self).syntax().ops,
            final(self).syntax().call_prec == old(self).syntax().call_prec,
            final(self).syntax().index_prec == old(self).syntax().index_prec,
            old(self).started() ==> final(self).started(),
            ({
                let path = path_of(old(self).base(), filename@);
                let top = SrcLocV { filename: path, line_num: 0, col_num: 0 };
                let at = match loc {
                    Some(l) => l@,
                    None => top,
                };
                if old(self).sources() == 0 {
                    &&& r.1@ is None
                    &&& final(self).opener() == old(self).opener()
                    &&& r.0 is Err
                    &&& r.0->Err_0@ == ParseErrorV::at(at, "too many sources"@)
                } else {
                    &&& r.1@ is Some
                    &&& final(self).opener().allows(Seq::empty())
                    &&& forall|rest: Openings| #[trigger]
                        final(self).opener().allows(rest) ==> old(self).opener().allows(
                            seq![r.1@->Some_0] + rest,
                        )
                    &&& match r.1@->Some_0 {
                        Err(x) => r.0 is Err && r.0->Err_0@ == unread(at, x) && final(self).sources() == old(self).sources(),
                        Ok(chars) => {
                            &&& r.0 is Ok
                            &&& final(self).toks() == lex(
                                *host,
                                old(self).syntax().ops,
                                path,
                                start_of(chars),
                            ) + old(self).toks()
                            &&& final(self).sources() == old(self).sources() - 1
                            &&& final(self).started()
                            &&& final(self).syntax().end == if old(self).started() {
                                old(self).syntax().end
                            } else {
                                lex_end(*host, old(self).syntax().ops, path, start_of(chars)).loc(
                                    path,
                                )
                            }
                        },
                    }
                }
            }),
    {
        let path = match &self.base_dir {
            Some(dir) => {
                let mut p = dir.clone();
                p.append("/");
                p.append(filename);
                p
            },
            None => String::from_str(filename),
        };
        let file_loc = SrcLoc::new(path.as_str(), 0, 0);
        if self.sources_left == 0 {
            let at = match loc {
                Some(l) => l,
                None => file_loc,
            };
            return (Err(ParseError::new(at, "too many sources")), Ghost(None));
        }
        let chars = match self.opener.open(path.as_str()) {
            Ok(c) => c,
            Err(e) => {
                let ghost got: Opened = Err(e@);
                return match loc {
                    Some(l) => (Err(ParseError::from_read(l, e)), Ghost(Some(got))),
                    None => (Err(ParseError::from_read(file_loc, e)), Ghost(Some(got))),
                };
            },
        };
        let ghost got: Opened = Ok(chars@);
        self.sources_left = self.sources_left - 1;
        (self.tokens.add_input(chars, file_loc, host), Ghost(Some(got)))
    }

    /// Parses the script in the source `filename` and everything that it
    /// includes, and returns its functions in the order in which they are
    /// defined.
    ///
    /// The sources are opened by the opener of the parser, and what the
    /// opener gives is not for the parser to say: the functions are those
    /// of the program for what opening the sources gave, which is
    /// something that the opener allows.
    pub fn parse<H: NativeHost>(&mut self, filename: &str, host: &H) -> (r: ParseResult<
        Vec<ast::NamedFuncDef>,
    >)
        ensures
            exists|opened: Openings| #[trigger]
                parsed_from(
                    *host,
                    old(self).syntax(),
                    filename@,
                    old(self).opener(),
                    opened,
                    listed(r),
                ),
            final(self).syntax().ops == old(self).syntax().ops,
            final(self).syntax().call_prec == old(self).syntax().call_prec,
            final(self).syntax().index_prec == old(self).syntax().index_prec,
    {
        let ghost sx = self.syntax();
        let ghost opener = self.opener();
        let ghost max = MAX_SOURCES as nat;
        self.tokens.reset();
        self.sources_left = MAX_SOURCES;
        let (dir, file) = split_path(filename);
        self.base_dir = dir;
        assert(self.toks() =~= Seq::<ScannedV>::empty());
        if file.as_str().unicode_len() == 0 {
            let msg = join2(filename, " doesn't specify a file");
            let r = Err(ParseError::new(self.src_loc(), msg.as_str()));
            assert(parsed_from(*host, sx, filename@, opener, Seq::empty(), listed(r)));
            return r;
        }
        let ghost path = path_of(self.base(), file@);
        let (res, Ghost(got)) = self.add_input(file.as_str(), None, host);
        let ghost x = got->Some_0;
        let ghost first = seq![x];
        assert(first + Seq::<Opened>::empty() =~= first);
        match res {
            Ok(()) => {},
            Err(e) => {
                let r = Err(e);
                proof {
                    assert forall|rest: Openings| #[trigger]
                        program(*host, sx, filename@, max, first + rest) == listed(r) by {
                        assert((first + rest)[0] == x);
                    }
                    assert(parsed_from(*host, sx, filename@, opener, first, listed(r)));
                }
                return r;
            },
        }
        let ghost chars = x->Ok_0;
        let ghost tokens = lex(*host, sx.ops, path, start_of(chars));
        let ghost after_first = self.opener();
        assert(tokens + Seq::<ScannedV>::empty() =~= tokens);
        let (r, Ghost(used)) = self.parse_script(host);
        proof {
            let opened = first + used;
            assert(used + Seq::<Opened>::empty() =~= used);
            assert forall|rest: Openings| #[trigger]
                program(*host, sx, filename@, max, opened + rest) == listed(r) by {
                assert((opened + rest)[0] == x);
                assert((opened + rest).skip(1) =~= used + rest);
            }
            assert(opener.allows(opened)) by {
                if used.len() == 0 {
                    assert(opened =~= first);
                } else {
                    assert(after_first.allows(used + Seq::<Opened>::empty()));
                    assert(first + (used + Seq::<Opened>::empty()) =~= opened);
                }
            }
            assert(parsed_from(*host, sx, filename@, opener, opened, listed(r)));
        }
        r
    }
}

/// Whether a parsing of the script in `filename`, with the syntax `sx`
/// and an opener that was `opener`, returns `want` where opening the
/// sources gave `opened`: `want` is what the program is for `opened`,
/// whatever further sources would give, and `opened` is something that
/// the opener allows. At least one source is opened where `filename`
/// names a file, and no more sources than `MAX_SOURCES`.
pub open spec fn parsed_from<S: InputSource, H: NativeHost>(
    host: H,
    sx: Syntax,
    filename: Seq<char>,
    opener: S,
    opened: Openings,
    want: Result<Seq<NamedFuncV>, ParseErrorV>,
) -> bool {
    &&& forall|rest: Openings| #[trigger]
        program(host, sx, filename, MAX_SOURCES as nat, opened + rest) == want
    &&& opened.len() <= MAX_SOURCES
    &&& split(filename).1.len() > 0 ==> opened.len() > 0
    &&& opened.len() > 0 ==> opener.allows(opened)
}

} // verus!
