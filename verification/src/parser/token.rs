//! Tokens.
use vstd::prelude::*;
use crate::src_loc::{SrcLoc, SrcLocV};

verus! {

#[derive(Debug)]
pub enum Token {
    Keyword(Keyword, SrcLoc),
    Punct(char, SrcLoc),
    /// A number, as the bit pattern of an IEEE-754 binary64 value.
    Number(u64, SrcLoc),
    String(String, SrcLoc),
    Ident(String, SrcLoc),
    Operator(String, SrcLoc),
}

impl Clone for Token {
    fn clone(&self) -> (r: Self)
        ensures
            r == *self,
    {
        match self {
            Token::Keyword(k, loc) => Token::Keyword(*k, loc.clone()),
            Token::Punct(p, loc) => Token::Punct(*p, loc.clone()),
            Token::Number(n, loc) => Token::Number(*n, loc.clone()),
            Token::String(s, loc) => Token::String(s.clone(), loc.clone()),
            Token::Ident(s, loc) => Token::Ident(s.clone(), loc.clone()),
            Token::Operator(s, loc) => Token::Operator(s.clone(), loc.clone()),
        }
    }
}

/// Where a token stands.
/// A token as specifications speak of it: its text and its place.
pub enum TokenV {
    Keyword(Keyword, SrcLocV),
    Punct(char, SrcLocV),
    Number(u64, SrcLocV),
    String(Seq<char>, SrcLocV),
    Ident(Seq<char>, SrcLocV),
    Operator(Seq<char>, SrcLocV),
}

impl View for Token {
    type V = TokenV;

    open spec fn view(&self) -> TokenV {
        match *self {
            Token::Keyword(k, loc) => TokenV::Keyword(k, loc@),
            Token::Punct(p, loc) => TokenV::Punct(p, loc@),
            Token::Number(n, loc) => TokenV::Number(n, loc@),
            Token::String(s, loc) => TokenV::String(s@, loc@),
            Token::Ident(s, loc) => TokenV::Ident(s@, loc@),
            Token::Operator(s, loc) => TokenV::Operator(s@, loc@),
        }
    }
}

pub open spec fn token_loc(t: Token) -> SrcLoc {
    match t {
        Token::Keyword(_, s) => s,
        Token::Punct(_, s) => s,
        Token::Number(_, s) => s,
        Token::String(_, s) => s,
        Token::Ident(_, s) => s,
        Token::Operator(_, s) => s,
    }
}

impl Token {
    /// Where the token stands.
    pub fn _get_loc(self) -> (r: SrcLoc)
        ensures
            r == token_loc(self),
    {
        match self {
            Token::Keyword(_, s) => s,
            Token::Punct(_, s) => s,
            Token::Number(_, s) => s,
            Token::String(_, s) => s,
            Token::Ident(_, s) => s,
            Token::Operator(_, s) => s,
        }
    }

    /// Where the token stands.
    pub fn peek_loc(&self) -> (r: &SrcLoc)
        ensures
            *r == token_loc(*self),
    {
        match self {
            Token::Keyword(_, s) => s,
            Token::Punct(_, s) => s,
            Token::Number(_, s) => s,
            Token::String(_, s) => s,
            Token::Ident(_, s) => s,
            Token::Operator(_, s) => s,
        }
    }
}

#[derive(Clone, Copy, Debug, PartialEq, Eq, Structural)]
pub enum Keyword {
    Include,
    Function,
    Var,
    If,
    Else,
    While,
    Break,
    Return,
}

/// The word that a keyword is written as.
pub open spec fn keyword_text(k: Keyword) -> Seq<char> {
    match k {
        Keyword::Include => "include"@,
        Keyword::Function => "function"@,
        Keyword::Var => "var"@,
        Keyword::If => "if"@,
        Keyword::Else => "else"@,
        Keyword::While => "while"@,
        Keyword::Break => "break"@,
        Keyword::Return => "return"@,
    }
}

/// The keyword that a word is, if it is one.
pub open spec fn keyword_of(s: Seq<char>) -> Option<Keyword> {
    if s == "include"@ {
        Some(Keyword::Include)
    } else if s == "function"@ {
        Some(Keyword::Function)
    } else if s == "var"@ {
        Some(Keyword::Var)
    } else if s == "if"@ {
        Some(Keyword::If)
    } else if s == "else"@ {
        Some(Keyword::Else)
    } else if s == "while"@ {
        Some(Keyword::While)
    } else if s == "break"@ {
        Some(Keyword::Break)
    } else if s == "return"@ {
        Some(Keyword::Return)
    } else {
        None
    }
}

fn same_text(s: &str, lit: &str) -> (r: bool)
    ensures
        r == (s@ == lit@),
{
    let a = String::from_str(s);
    let b = String::from_str(lit);
    a == b
}

impl Keyword {
    /// The word that the keyword is written as.
    pub fn to_ident(&self) -> (r: &'static str)
        ensures
            r@ == keyword_text(*self),
    {
        match self {
            Keyword::Include => "include",
            Keyword::Function => "function",
            Keyword::Var => "var",
            Keyword::If => "if",
            Keyword::Else => "else",
            Keyword::While => "while",
            Keyword::Break => "break",
            Keyword::Return => "return",
        }
    }

    /// The keyword that `s` is, or `None` where `s` is no keyword.
    pub fn from_ident(s: &str) -> (r: Option<Keyword>)
        ensures
            r == keyword_of(s@),
    {
        if same_text(s, "include") {
            Some(Keyword::Include)
        } else if same_text(s, "function") {
            Some(Keyword::Function)
        } else if same_text(s, "var") {
            Some(Keyword::Var)
        } else if same_text(s, "if") {
            Some(Keyword::If)
        } else if same_text(s, "else") {
            Some(Keyword::Else)
        } else if same_text(s, "while") {
            Some(Keyword::While)
        } else if same_text(s, "break") {
            Some(Keyword::Break)
        } else if same_text(s, "return") {
            Some(Keyword::Return)
        } else {
            None
        }
    }
}

/// Every keyword is found again from the word it is written as.
pub proof fn lemma_keyword_round_trip(k: Keyword)
    ensures
        keyword_of(keyword_text(k)) == Some(k),
{
    reveal_strlit("include");
    reveal_strlit("function");
    reveal_strlit("var");
    reveal_strlit("if");
    reveal_strlit("else");
    reveal_strlit("while");
    reveal_strlit("break");
    reveal_strlit("return");
    assert("include"@.len() == 7);
    assert("function"@.len() == 8);
    assert("var"@.len() == 3);
    assert("if"@.len() == 2);
    assert("else"@.len() == 4);
    assert("while"@.len() == 5);
    assert("break"@.len() == 5);
    assert("return"@.len() == 6);
    assert("while"@[0] == 'w');
    assert("break"@[0] == 'b');
}

} // verus!
