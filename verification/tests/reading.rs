use bleepscript::native::{NativeHost, Outcome, Text, Values};
use bleepscript::errors::RunError;
use bleepscript::loader::BleepLoader;
use bleepscript::ast::{Expression, Statement};
use bleepscript::parser::char_reader::CharReader;
use bleepscript::parser::ops::OpTable;
use bleepscript::parser::split_path;
use bleepscript::parser::token::{Keyword, Token};
use bleepscript::parser::tokenizer::{scan_token, Tokenizer, TokenizerInput};
use bleepscript::readers::{
    InputSource, Openings, ReadError, StringInput, StringInputOpener,
};
use bleepscript::runtime::{Runtime, RuntimeV};
use bleepscript::src_loc::SrcLoc;
use bleepscript::value::Value;

struct Numbers;

impl NativeHost for Numbers {
    fn result(&self, _index: usize, _args: Values, _rt: RuntimeV, _frame: usize) -> Outcome {
        unreachable!()
    }

    fn call(&self, _i: usize, _a: &[Value], _rt: &Runtime, _f: usize) -> Result<Value, RunError> {
        Err(RunError::new_native_str("no such host function"))
    }

    fn numeral(&self, _text: Text) -> Option<u64> {
        unreachable!()
    }

    fn number(&self, text: &str) -> Option<u64> {
        text.parse::<f64>().ok().map(f64::to_bits)
    }
}

fn scan(text: &str) -> Vec<Token> {
    let mut ops = OpTable::new();
    ops.add("=", 10, bleepscript::parser::ops::Assoc::Right);
    ops.add("==", 40, bleepscript::parser::ops::Assoc::Left);
    ops.add("<", 50, bleepscript::parser::ops::Assoc::Left);
    ops.add("<=", 50, bleepscript::parser::ops::Assoc::Left);
    ops.add("+", 60, bleepscript::parser::ops::Assoc::Left);
    let mut input = TokenizerInput::new(text.chars().collect(), SrcLoc::new("t", 0, 0));
    let mut out = Vec::new();
    while let Some(item) = scan_token(&mut input, &ops, &Numbers) {
        out.push(item.expect("a token"));
    }
    out
}

fn kinds(tokens: &[Token]) -> Vec<String> {
    tokens
        .iter()
        .map(|t| match t {
            Token::Keyword(k, _) => format!("kw:{}", k.to_ident()),
            Token::Punct(p, _) => format!("p:{}", p),
            Token::Number(n, _) => format!("n:{}", f64::from_bits(*n)),
            Token::String(s, _) => format!("s:{}", s),
            Token::Ident(s, _) => format!("id:{}", s),
            Token::Operator(s, _) => format!("op:{}", s),
        })
        .collect()
}

#[test]
fn char_reader_tracks_lines_and_columns() {
    let mut r = CharReader::new("ab\nc".chars().collect());
    assert_eq!((r.line_num(), r.col_num()), (1, 1));
    assert_eq!(r.next(), Some('a'));
    assert_eq!(r.next(), Some('b'));
    assert_eq!((r.line_num(), r.col_num()), (1, 3));
    assert_eq!(r.next(), Some('\n'));
    assert_eq!((r.line_num(), r.col_num()), (2, 1));
    r.ungetc('\n');
    assert_eq!((r.line_num(), r.col_num()), (1, 3));
    assert_eq!(r.remaining(), 2);
    assert_eq!(r.next(), Some('\n'));
    assert_eq!(r.next(), Some('c'));
    assert_eq!((r.line_num(), r.col_num()), (2, 2));
    assert_eq!(r.next(), None);
    assert_eq!(r.next(), None);
    assert_eq!((r.line_num(), r.col_num()), (2, 2));
}

#[test]
fn characters_put_back_are_read_first() {
    let mut r = CharReader::new("z".chars().collect());
    r.ungetc('y');
    r.ungetc('x');
    assert_eq!(r.next(), Some('x'));
    assert_eq!(r.next(), Some('y'));
    assert_eq!(r.next(), Some('z'));
    assert_eq!(r.next(), None);
}

#[test]
fn string_input_hands_out_its_characters() {
    let mut input = StringInput::new(vec!['h', 'i']);
    assert_eq!(input.next(), Some('h'));
    assert_eq!(input.into_chars(), vec!['i']);
}

#[test]
fn string_opener_opens_once() {
    let mut opener = StringInputOpener::for_string("abc");
    assert_eq!(opener.open("anything").unwrap(), vec!['a', 'b', 'c']);
    match opener.open("anything") {
        Err(ReadError::GenericError(msg)) => {
            assert_eq!(msg, "can't use 'include' from string source")
        }
        other => panic!("expected an error, got {:?}", other),
    }
}

#[test]
fn tokens_of_each_kind() {
    let tokens = scan("function f(a) { var x = a + 12.5; return \"s\\n\"; } # done");
    assert_eq!(
        kinds(&tokens),
        vec![
            "kw:function", "id:f", "p:(", "id:a", "p:)", "p:{", "kw:var", "id:x", "op:=", "id:a",
            "op:+", "n:12.5", "p:;", "kw:return", "s:s\n", "p:;", "p:}",
        ]
    );
}

#[test]
fn operators_take_the_longest_known_run() {
    assert_eq!(
        kinds(&scan("a<=b==c=<d")),
        vec!["id:a", "op:<=", "id:b", "op:==", "id:c", "op:=", "op:<", "id:d"]
    );
}

#[test]
fn numbers_take_one_point() {
    assert_eq!(kinds(&scan("1.5.2")), vec!["n:1.5", "op:.", "n:2"]);
    assert_eq!(kinds(&scan("7.")), vec!["n:7"]);
}

#[test]
fn tokens_know_their_place() {
    let tokens = scan("ab\n  cd");
    let places: Vec<String> = tokens.iter().map(|t| t.peek_loc().to_string()).collect();
    assert_eq!(places, vec!["t:1:1", "t:2:3"]);
    assert_eq!(tokens[0].clone()._get_loc().to_string(), "t:1:1");
    let _ = Keyword::If;
}

#[test]
fn tokenizer_hands_out_tokens_in_order() {
    let mut t = Tokenizer::new();
    t.add_op("+", 60, bleepscript::parser::ops::Assoc::Left);
    assert!(t.next().is_none());
    assert_eq!(t.src_loc().to_string(), "(no file):0:0");
    t.add_input("a + b".chars().collect(), SrcLoc::new("x", 0, 0), &Numbers)
        .unwrap();
    let first = t.next().unwrap().unwrap();
    assert!(matches!(first, Token::Ident(ref s, _) if s == "a"));
    t.unget_token(first);
    assert!(matches!(t.next(), Some(Ok(Token::Ident(ref s, _))) if s == "a"));
    assert!(matches!(t.next(), Some(Ok(Token::Operator(ref s, _))) if s == "+"));
    t.add_input("(".chars().collect(), SrcLoc::new("y", 0, 0), &Numbers)
        .unwrap();
    assert!(matches!(t.next(), Some(Ok(Token::Punct('(', _)))));
    assert!(matches!(t.next(), Some(Ok(Token::Ident(ref s, _))) if s == "b"));
    assert!(t.next().is_none());
    assert_eq!(t.src_loc().to_string(), "x:1:6");
    t.reset();
    assert!(t.ops().is_binary("+"));
}

#[test]
fn paths_are_split_at_the_last_slash() {
    assert_eq!(split_path("a/b/c.bs"), (Some("a/b".to_string()), "c.bs".to_string()));
    assert_eq!(split_path("c.bs"), (None, "c.bs".to_string()));
    assert_eq!(split_path("/c.bs"), (Some("".to_string()), "c.bs".to_string()));
    assert_eq!(split_path("a/"), (Some("a".to_string()), "".to_string()));
}

struct TwoFiles;

impl InputSource for TwoFiles {
    fn allows(&self, _rs: Openings) -> bool {
        unreachable!()
    }

    fn open(&mut self, source: &str) -> Result<Vec<char>, ReadError> {
        match source {
            "lib/main.bs" => Ok("include \"util.bs\" function main() { return util(); }"
                .chars()
                .collect()),
            "lib/util.bs" => Ok("function util() { return 1; }".chars().collect()),
            "lib/loop.bs" => Ok("include \"loop.bs\"".chars().collect()),
            other => Err(ReadError::IOError(format!("no such file: {}", other))),
        }
    }
}

#[test]
fn included_sources_are_read_from_the_directory_of_the_script() {
    let mut loader = BleepLoader::new();
    loader.load_user("lib/main.bs", TwoFiles, &Numbers).unwrap();
    let funcs = loader.get_functions();
    let names: Vec<&str> = funcs.iter().map(|f| f.name.as_str()).collect();
    assert_eq!(names, vec!["util", "main"]);
    assert_eq!(funcs[0].def.loc.filename, "lib/util.bs");
}

#[test]
fn a_source_that_cannot_be_opened_is_reported() {
    let mut loader = BleepLoader::new();
    let e = loader.load_user("lib/none.bs", TwoFiles, &Numbers).unwrap_err();
    assert_eq!(e.to_string(), "lib/none.bs:0:0: no such file: lib/none.bs");
}

#[test]
fn a_source_that_includes_itself_is_stopped() {
    let mut loader = BleepLoader::new();
    let e = loader.load_user("lib/loop.bs", TwoFiles, &Numbers).unwrap_err();
    assert!(e.to_string().ends_with("too many sources"));
}

#[test]
fn the_parser_builds_the_tree_of_a_function() {
    let mut loader = BleepLoader::new();
    loader
        .load_string("function f(a, b) { var x = a[0]; if (x) f(b, a); else ; }", &Numbers)
        .unwrap();
    let funcs = loader.get_functions();
    assert_eq!(funcs.len(), 1);
    assert_eq!(funcs[0].def.params, vec!["a".to_string(), "b".to_string()]);
    let stmts = &funcs[0].def.block.stmts;
    assert_eq!(stmts.len(), 2);
    match &stmts[0] {
        Statement::VarDecl(d) => {
            assert_eq!(d.var, "x");
            assert!(matches!(d.val.as_deref(), Some(Expression::Element(_))));
        }
        other => panic!("expected a declaration, got {:?}", other),
    }
    match &stmts[1] {
        Statement::If(i) => {
            assert!(matches!(&*i.true_stmt, Statement::Expression(Expression::FuncCall(c)) if c.args.len() == 2));
            assert!(matches!(i.false_stmt.as_deref(), Some(Statement::Empty)));
        }
        other => panic!("expected an if, got {:?}", other),
    }
}

#[test]
fn an_invalid_number_is_a_parse_error() {
    struct NoNumbers;
    impl NativeHost for NoNumbers {
        fn result(&self, _i: usize, _a: Values, _rt: RuntimeV, _f: usize) -> Outcome {
            unreachable!()
        }
        fn call(&self, _i: usize, _a: &[Value], _r: &Runtime, _f: usize) -> Result<Value, RunError> {
            Ok(Value::Null)
        }
        fn numeral(&self, _text: Text) -> Option<u64> {
            unreachable!()
        }
        fn number(&self, _text: &str) -> Option<u64> {
            None
        }
    }
    let mut loader = BleepLoader::new();
    let e = loader
        .load_string("function f() { return 12; }", &NoNumbers)
        .unwrap_err();
    assert_eq!(e.to_string(), "(string):1:23: invalid number: '12'");
}

#[test]
fn escapes_in_strings_are_read() {
    let tokens = scan("\"a\\tb\\nc\\\\d\"");
    assert_eq!(kinds(&tokens), vec!["s:a\tb\nc\\d"]);
}

#[test]
fn a_backslash_that_escapes_nothing_ends_the_string() {
    let tokens = scan("\"ab\\x\" c");
    assert_eq!(kinds(&tokens), vec!["s:ab", "id:x", "s: c"]);
}

#[test]
fn a_comment_runs_to_the_end_of_the_line() {
    let tokens = scan("a # b c\n d");
    assert_eq!(kinds(&tokens), vec!["id:a", "id:d"]);
}

#[test]
fn the_end_of_the_tokens_is_reported_where_the_source_ends() {
    let mut loader = BleepLoader::new();
    let e = loader
        .load_string("function main() { return 1", &Numbers)
        .expect_err("the statement is not closed");
    assert_eq!(
        e.to_string(),
        "(string):1:27: expected expression, found end of file"
    );
}

#[test]
fn operators_nest_by_precedence_in_the_tree() {
    let mut loader = BleepLoader::new();
    loader
        .load_string("function f() { return 1 + 2 * 3; }", &Numbers)
        .unwrap();
    let funcs = loader.get_functions();
    let stmts = &funcs[0].def.block.stmts;
    match &stmts[0] {
        Statement::Return(r) => match r.expr.as_deref() {
            Some(Expression::BinaryOp(sum)) => {
                assert_eq!(sum.op, "+");
                assert!(matches!(&*sum.left, Expression::Number(n, _) if f64::from_bits(*n) == 1.0));
                match &*sum.right {
                    Expression::BinaryOp(product) => {
                        assert_eq!(product.op, "*");
                        assert!(matches!(&*product.left, Expression::Number(n, _) if f64::from_bits(*n) == 2.0));
                        assert!(matches!(&*product.right, Expression::Number(n, _) if f64::from_bits(*n) == 3.0));
                    }
                    other => panic!("expected a product, got {:?}", other),
                }
            }
            other => panic!("expected a sum, got {:?}", other),
        },
        other => panic!("expected a return, got {:?}", other),
    }
}

#[test]
fn a_stack_of_two_operands_is_a_syntax_error() {
    let mut loader = BleepLoader::new();
    let e = loader
        .load_string("function f() { return (1)(2) 3; }", &Numbers)
        .expect_err("two operands follow each other");
    assert_eq!(
        e.to_string(),
        "(string):1:30: expected '(' or operator, found 'number'"
    );
}

#[test]
fn a_script_is_made_of_functions_and_includes() {
    let mut loader = BleepLoader::new();
    let e = loader
        .load_string("var x = 1;", &Numbers)
        .expect_err("a declaration stands outside of a function");
    assert_eq!(
        e.to_string(),
        "(string):1:1: expected 'include' or 'function', found 'var'"
    );
}
