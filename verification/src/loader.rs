//! Loading scripts: a parser with the operators of the language.
use vstd::prelude::*;
use crate::ast;
use crate::native::NativeHost;
use crate::ast::tree::{NamedFuncV, named_views};
use crate::parser::errors::{ParseError, ParseErrorV};
use crate::parser::grammar::{Syntax, last_slash, program, split};
use crate::parser::ops::{Assoc, Operator, op_views};
use crate::parser::{MAX_SOURCES, Parser, listed, parsed_from};
use crate::readers::string::{refusal, string_sources};
use crate::readers::{InputSource, Opened, Openings, StringInputOpener};

verus! {

/// The prefix operators of the language: name, precedence and
/// associativity.
pub open spec fn prefix_operators() -> Seq<(Seq<char>, i32, Assoc)> {
    seq![("-"@, 80i32, Assoc::Prefix), ("!"@, 80i32, Assoc::Prefix)]
}

/// The binary operators of the language: name, precedence and
/// associativity.
pub open spec fn binary_operators() -> Seq<(Seq<char>, i32, Assoc)> {
    seq![
        ("="@, 10i32, Assoc::Right),
        ("||"@, 20i32, Assoc::Left),
        ("&&"@, 30i32, Assoc::Left),
        ("=="@, 40i32, Assoc::Left),
        ("!="@, 40i32, Assoc::Left),
        ("<"@, 50i32, Assoc::Left),
        (">"@, 50i32, Assoc::Left),
        ("<="@, 50i32, Assoc::Left),
        (">="@, 50i32, Assoc::Left),
        ("+"@, 60i32, Assoc::Left),
        ("-"@, 60i32, Assoc::Left),
        ("*"@, 70i32, Assoc::Left),
        ("/"@, 70i32, Assoc::Left),
        ("%"@, 70i32, Assoc::Left),
        ("^"@, 90i32, Assoc::Right),
        ("."@, 1001i32, Assoc::Left),
    ]
}

/// Whether `sx` is the syntax of the language: its operators, with a call
/// and an index binding more tightly than every operator but `.`.
pub open spec fn is_language(sx: Syntax) -> bool {
    &&& sx.call_prec == 1000
    &&& sx.index_prec == 1000
    &&& op_views(sx.ops.prefix_ops()) == prefix_operators()
    &&& op_views(sx.ops.binary_ops()) == binary_operators()
}

/// Whether a loading with the outcome `want` made `after` of the
/// functions `before` and returned `r`: the functions of the script were
/// added, or the error was returned and nothing added.
pub open spec fn load_is(
    before: Seq<ast::NamedFuncDef>,
    after: Seq<ast::NamedFuncDef>,
    r: Result<(), ParseError>,
    want: Result<Seq<NamedFuncV>, ParseErrorV>,
) -> bool {
    match want {
        Ok(fs) => {
            &&& r is Ok
            &&& before.len() <= after.len()
            &&& after.subrange(0, before.len() as int) == before
            &&& named_views(after.subrange(before.len() as int, after.len() as int)) == fs
        },
        Err(e) => r is Err && r->Err_0@ == e && after == before,
    }
}

/// The name under which a string is loaded names a file.
pub proof fn lemma_string_is_file()
    ensures
        split("(string)"@).1.len() > 0,
{
    reveal_strlit("(string)");
    let s = "(string)"@;
    assert(s.len() == 8);
    reveal_with_fuel(last_slash, 9);
    assert(last_slash(s, 8) is None);
}

/// Collects the functions of the scripts that it loads.
pub struct BleepLoader {
    funcs: Vec<ast::NamedFuncDef>,
}

impl View for BleepLoader {
    type V = Seq<ast::NamedFuncDef>;

    closed spec fn view(&self) -> Seq<ast::NamedFuncDef> {
        self.funcs@
    }
}

impl BleepLoader {
    /// A loader that has loaded nothing.
    pub fn new() -> (r: BleepLoader)
        ensures
            r@ == Seq::<ast::NamedFuncDef>::empty(),
    {
        BleepLoader { funcs: Vec::new() }
    }

    /// Loads a script from the given string.
    ///
    /// Scripts loaded from strings can't contain `include` commands,
    /// because the string is the only available source: the string is
    /// what opening the first source gives, and every other source is
    /// refused.
    pub fn load_string<H: NativeHost>(&mut self, string: &str, host: &H) -> (r: Result<
        (),
        ParseError,
    >)
        ensures
            exists|sx: Syntax|
                {
                    &&& is_language(sx)
                    &&& load_is(
                        old(self)@,
                        final(self)@,
                        r,
                        #[trigger] program(
                            *host,
                            sx,
                            "(string)"@,
                            MAX_SOURCES as nat,
                            string_sources(string@, MAX_SOURCES as nat),
                        ),
                    )
                },
    {
        let ghost name = "(string)"@;
        let ghost max = MAX_SOURCES as nat;
        proof {
            lemma_string_is_file();
        }
        let opener = StringInputOpener::for_string(string);
        let r = self.load_user("(string)", opener, host);
        proof {
            let (sx, opened) = choose|sx: Syntax, opened: Openings|
                {
                    &&& is_language(sx)
                    &&& #[trigger] parsed_from(
                        *host,
                        sx,
                        name,
                        opener,
                        opened,
                        program(*host, sx, name, max, opened),
                    )
                    &&& load_is(old(self)@, self@, r, program(*host, sx, name, max, opened))
                };
            let rest = Seq::new((max - opened.len()) as nat, |i: int| refusal());
            assert(opened + rest =~= string_sources(string@, max));
            assert(program(*host, sx, name, max, opened + rest) == program(
                *host,
                sx,
                name,
                max,
                opened,
            ));
        }
        r
    }

    /// Loads a script from the given source, using the given source
    /// opener.
    ///
    /// The source opener will be used to open the given source and any
    /// other sources included by the script. The functions of the script
    /// are added to the functions that were loaded, unless an error ends
    /// the loading.
    pub fn load_user<S: InputSource, H: NativeHost>(
        &mut self,
        source: &str,
        source_opener: S,
        host: &H,
    ) -> (r: Result<(), ParseError>)
        ensures
            exists|sx: Syntax, opened: Openings|
                {
                    &&& is_language(sx)
                    &&& #[trigger] parsed_from(
                        *host,
                        sx,
                        source@,
                        source_opener,
                        opened,
                        program(*host, sx, source@, MAX_SOURCES as nat, opened),
                    )
                    &&& load_is(
                        old(self)@,
                        final(self)@,
                        r,
                        program(*host, sx, source@, MAX_SOURCES as nat, opened),
                    )
                },
    {
        let ghost max = MAX_SOURCES as nat;
        let mut parser = Parser::new(source_opener);
        self.init_parser(&mut parser);
        let ghost sx = parser.syntax();
        let res = parser.parse(source, host);
        let ghost opened = choose|opened: Openings| #[trigger]
            parsed_from(*host, sx, source@, source_opener, opened, listed(res));
        let ghost want = program(*host, sx, source@, max, opened);
        proof {
            assert(opened + Seq::<Opened>::empty() =~= opened);
            assert(program(*host, sx, source@, max, opened + Seq::<Opened>::empty()) == listed(
                res,
            ));
            assert(parsed_from(*host, sx, source@, source_opener, opened, want));
        }
        let mut parsed = match res {
            Ok(p) => p,
            Err(e) => {
                let r = Err(e);
                assert(load_is(old(self)@, self@, r, want));
                return r;
            },
        };
        let ghost added = parsed@;
        self.funcs.append(&mut parsed);
        assert(self@.subrange(old(self)@.len() as int, self@.len() as int) =~= added);
        assert(self@.subrange(0, old(self)@.len() as int) =~= old(self)@);
        let r = Ok(());
        assert(load_is(old(self)@, self@, r, want));
        r
    }

    /// Gives the parser the operators of the language.
    fn init_parser<S: InputSource>(&self, parser: &mut Parser<S>)
        requires
            old(parser).syntax().ops.prefix_ops() == Seq::<Operator>::empty(),
            old(parser).syntax().ops.binary_ops() == Seq::<Operator>::empty(),
        ensures
            is_language(final(parser).syntax()),
            final(parser).opener() == old(parser).opener(),
    {
        assert(op_views(parser.syntax().ops.prefix_ops()) =~= Seq::empty());
        assert(op_views(parser.syntax().ops.binary_ops()) =~= Seq::empty());
        parser.add_op("=", 10, Assoc::Right);
        parser.add_op("||", 20, Assoc::Left);
        parser.add_op("&&", 30, Assoc::Left);
        parser.add_op("==", 40, Assoc::Left);
        parser.add_op("!=", 40, Assoc::Left);
        parser.add_op("<", 50, Assoc::Left);
        parser.add_op(">", 50, Assoc::Left);
        parser.add_op("<=", 50, Assoc::Left);
        parser.add_op(">=", 50, Assoc::Left);
        parser.add_op("+", 60, Assoc::Left);
        parser.add_op("-", 60, Assoc::Left);
        parser.add_op("*", 70, Assoc::Left);
        parser.add_op("/", 70, Assoc::Left);
        parser.add_op("%", 70, Assoc::Left);
        parser.add_op("-", 80, Assoc::Prefix);
        parser.add_op("!", 80, Assoc::Prefix);
        parser.add_op("^", 90, Assoc::Right);
        parser.add_op(".", 1001, Assoc::Left);
        parser.set_element_index_prec(1000);
        parser.set_function_call_prec(1000);
        assert(op_views(parser.syntax().ops.prefix_ops()) =~= prefix_operators());
        assert(op_views(parser.syntax().ops.binary_ops()) =~= binary_operators());
    }

    /// The functions that were loaded, in the order in which they were
    /// defined.
    pub fn get_functions(self) -> (r: Vec<ast::NamedFuncDef>)
        ensures
            r@ == self@,
    {
        self.funcs
    }
}

} // verus!
