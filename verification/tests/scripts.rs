use bleepscript::errors::RunError;
use bleepscript::native::{
    NativeHost, Outcome, Text, Values, FUNC_DUMP_ENV, FUNC_NUM_ADD, FUNC_NUM_DIV, FUNC_NUM_MOD, FUNC_NUM_MUL,
    FUNC_NUM_POW, FUNC_NUM_SUB, FUNC_PRINTF,
};
use bleepscript::readers::StringInputOpener;
use bleepscript::runtime::{Runtime, RuntimeV};
use bleepscript::value::Value;
use bleepscript::Bleep;

/// A host that does the arithmetic with the floating point numbers of the
/// machine and swallows what scripts print.
struct TestHost;

fn num(v: &Value) -> Option<f64> {
    match v {
        Value::Number(bits) => Some(f64::from_bits(*bits)),
        _ => None,
    }
}

fn binary(args: &[Value], name: &str, op: fn(f64, f64) -> f64) -> Result<Value, RunError> {
    match (args.get(0).and_then(num), args.get(1).and_then(num)) {
        (Some(l), Some(r)) => Ok(Value::Number(op(l, r).to_bits())),
        _ => Err(RunError::new_native_str(&format!("invalid arguments for '{}'", name))),
    }
}

impl NativeHost for TestHost {
    fn result(&self, _index: usize, _args: Values, _rt: RuntimeV, _frame: usize) -> Outcome {
        unreachable!()
    }

    fn call(
        &self,
        index: usize,
        args: &[Value],
        _rt: &Runtime,
        _frame: usize,
    ) -> Result<Value, RunError> {
        if index == FUNC_PRINTF || index == FUNC_DUMP_ENV {
            Ok(Value::Null)
        } else if index == FUNC_NUM_ADD {
            binary(args, "+", |l, r| l + r)
        } else if index == FUNC_NUM_SUB {
            if args.len() == 1 {
                match num(&args[0]) {
                    Some(x) => Ok(Value::Number((-x).to_bits())),
                    None => Err(RunError::new_native_str("invalid argument for '-'")),
                }
            } else {
                binary(args, "-", |l, r| l - r)
            }
        } else if index == FUNC_NUM_MUL {
            binary(args, "*", |l, r| l * r)
        } else if index == FUNC_NUM_DIV {
            binary(args, "/", |l, r| l / r)
        } else if index == FUNC_NUM_POW {
            binary(args, "^", |l, r| l.powf(r))
        } else if index == FUNC_NUM_MOD {
            binary(args, "%", |l, r| l - (l / r).trunc() * r)
        } else {
            Err(RunError::new_native_str("no such host function"))
        }
    }

    fn numeral(&self, _text: Text) -> Option<u64> {

        unreachable!()

    }


    fn number(&self, text: &str) -> Option<u64> {
        text.parse::<f64>().ok().map(f64::to_bits)
    }
}

fn n(x: f64) -> Value {
    Value::Number(x.to_bits())
}

/// Loads `script` for the evaluator and calls `main`.
fn run_ast(script: &str, args: &[Value]) -> Result<Value, RunError> {
    let mut bleep = Bleep::new(TestHost);
    bleep.load_string(script).expect("the script loads");
    bleep.call_function("main", args)
}

/// Compiles `script` for the stack machine and calls `main`.
fn run_bytecode(script: &str, args: &[Value]) -> Result<Value, RunError> {
    let mut bleep = Bleep::new(TestHost);
    bleep
        .compile_user("(string)", StringInputOpener::for_string(script))
        .expect("the script compiles");
    bleep.call_function("main", args)
}

/// Runs `script` on both backends and checks that both give `expected`.
fn both(script: &str, args: &[Value], expected: Value) {
    let ast = run_ast(script, args).expect("the evaluator returns a value");
    let bytecode = run_bytecode(script, args).expect("the machine returns a value");
    assert_eq!(ast, expected);
    assert_eq!(bytecode, expected);
}

fn message(e: &RunError) -> String {
    match e {
        RunError::Panic(_, msg) => msg.clone(),
        RunError::ScriptException(_, Value::String(s)) => s.clone(),
        RunError::NativeException(Value::String(s)) => s.clone(),
        _ => String::new(),
    }
}

#[test]
fn while_counts_to_five() {
    both(
        "function main(){ var x=1; while (x<5) { x=x+1; } return x; }",
        &[],
        n(5.0),
    );
}

#[test]
fn argument_plus_one() {
    both("function main(a){ return a+1; }", &[n(41.0)], n(42.0));
}

#[test]
fn undeclared_name_fails_resolution() {
    let mut bleep = Bleep::new(TestHost);
    let err = bleep
        .load_string("function main(){ return foo; }")
        .expect_err("foo is not declared");
    assert!(err.to_string().contains("name not declared: 'foo'"));
}

#[test]
fn undeclared_name_fails_compilation() {
    let mut bleep = Bleep::new(TestHost);
    let err = bleep
        .compile_user(
            "(string)",
            StringInputOpener::for_string("function main(){ return foo; }"),
        )
        .expect_err("foo is not declared");
    assert!(err.to_string().contains("name not declared: 'foo'"));
}

#[test]
fn vector_index_out_of_range_is_a_script_exception() {
    let r = run_ast("function main(){ var v=[1,2]; return v[5]; }", &[]);
    match r {
        Err(RunError::ScriptException(loc, Value::String(msg))) => {
            assert_eq!(msg, "vector index out of bounds: 5");
            assert_eq!(loc.filename, "(string)");
            assert_eq!(loc.line_num, 1);
        }
        other => panic!("expected a script exception, got {:?}", other),
    }
}

#[test]
fn missing_map_key_is_a_script_exception() {
    let r = run_ast("function main(){ var m={a:1}; return m[\"b\"]; }", &[]);
    match r {
        Err(RunError::ScriptException(_, Value::String(msg))) => {
            assert_eq!(msg, "map doesn't contain key");
        }
        other => panic!("expected a script exception, got {:?}", other),
    }
}

#[test]
fn inner_declaration_shadows_outer() {
    both(
        "function main(){ var x=1; { var x=2; return x; } }",
        &[],
        n(2.0),
    );
}

#[test]
fn outer_variable_survives_inner_block() {
    both(
        "function main(){ var x=1; { var x=2; } return x; }",
        &[],
        n(1.0),
    );
}

#[test]
fn call_with_too_few_arguments_fails() {
    for r in [
        run_ast("function main(a){ return a; }", &[]),
        run_bytecode("function main(a){ return a; }", &[]),
    ] {
        let e = r.expect_err("one argument is missing");
        assert_eq!(
            message(&e),
            "invalid number of arguments passed (expected 1, got 0)"
        );
    }
}

#[test]
fn call_with_too_many_arguments_fails() {
    for r in [
        run_ast("function main(a){ return a; }", &[n(1.0), n(2.0)]),
        run_bytecode("function main(a){ return a; }", &[n(1.0), n(2.0)]),
    ] {
        let e = r.expect_err("one argument is too many");
        assert_eq!(
            message(&e),
            "invalid number of arguments passed (expected 1, got 2)"
        );
    }
}

#[test]
fn inner_call_with_wrong_arity_fails() {
    let script = "function f(a){ return a; } function main(){ return f(); }";
    let e = run_ast(script, &[]).expect_err("f takes one argument");
    assert!(matches!(e, RunError::ScriptException(..)));
    assert_eq!(
        message(&e),
        "invalid number of arguments passed (expected 1, got 0)"
    );
    let e = run_bytecode(script, &[]).expect_err("f takes one argument");
    assert!(matches!(e, RunError::Panic(..)));
    assert_eq!(
        message(&e),
        "invalid number of arguments passed (expected 1, got 0)"
    );
}

#[test]
fn break_outside_of_a_loop_fails_resolution() {
    let mut bleep = Bleep::new(TestHost);
    let err = bleep
        .load_string("function main(){ break; }")
        .expect_err("break stands in no loop");
    assert!(err.to_string().contains("'break' not allowed here"));
}

#[test]
fn break_outside_of_a_loop_fails_compilation() {
    let mut bleep = Bleep::new(TestHost);
    let err = bleep
        .compile_user(
            "(string)",
            StringInputOpener::for_string("function main(){ break; }"),
        )
        .expect_err("break stands in no loop");
    assert!(err.to_string().contains("'break' not allowed here"));
}

#[test]
fn break_in_a_function_inside_a_loop_fails_resolution() {
    let mut bleep = Bleep::new(TestHost);
    let err = bleep
        .load_string("function main(){ while (true) { var f = function() { break; }; } }")
        .expect_err("break does not cross the function");
    assert!(err.to_string().contains("'break' not allowed here"));
}

#[test]
fn break_leaves_the_loop_and_not_the_function() {
    both(
        "function main(){ var i=0; while (true) { i=i+1; if (i>3) break; } return i+100; }",
        &[],
        n(104.0),
    );
}

#[test]
fn break_leaves_the_frames_of_the_loop_body() {
    both(
        "function main(){ var i=0; while (true) { var j=i+1; i=j; if (j>=3) { var k=j; break; } } return i; }",
        &[],
        n(3.0),
    );
}

#[test]
fn multiplication_binds_tighter_than_addition() {
    both("function main(){ return 2 + 3 * 4; }", &[], n(14.0));
}

#[test]
fn power_associates_to_the_right() {
    both("function main(){ return 2 ^ 3 ^ 2; }", &[], n(512.0));
}

#[test]
fn subtraction_associates_to_the_left() {
    both("function main(){ return 10 - 4 - 3; }", &[], n(3.0));
}

#[test]
fn prefix_minus_negates() {
    both("function main(){ return -3 + 5; }", &[], n(2.0));
}

#[test]
fn function_without_return_gives_null() {
    both("function main(){ var x = 1; }", &[], Value::Null);
}

#[test]
fn return_from_nested_blocks_and_loops() {
    both(
        "function main(){ var a=1; while (a<10) { var b=a*2; if (b>6) { var c=b+1; return c; } a=a+1; } return 0; }",
        &[],
        n(9.0),
    );
}

#[test]
fn functions_call_each_other_whatever_the_order() {
    both(
        "function main(){ return even(10); } \
         function even(n){ if (n==0) return true; return odd(n-1); } \
         function odd(n){ if (n==0) return false; return even(n-1); }",
        &[],
        Value::Bool(true),
    );
}

#[test]
fn recursion_computes_factorial() {
    both(
        "function fact(n){ if (n<=1) return 1; return n*fact(n-1); } function main(a){ return fact(a); }",
        &[n(10.0)],
        n(3628800.0),
    );
}

#[test]
fn several_variables_of_one_block() {
    both(
        "function main(){ var a=1; var b=2; var c=a+b; a=c*2; return a+b+c; }",
        &[],
        n(11.0),
    );
}

#[test]
fn comparison_of_strings() {
    both(
        "function main(){ if (\"abc\" < \"abd\") return 1; return 2; }",
        &[],
        n(1.0),
    );
}

#[test]
fn if_else_takes_the_second_branch() {
    both(
        "function main(a){ if (a) { return 1; } else { return 2; } }",
        &[Value::Bool(false)],
        n(2.0),
    );
}

#[test]
fn closure_captures_its_environment() {
    let r = run_ast(
        "function make(n){ return function(x){ return x+n; }; } \
         function main(){ var add2 = make(2); return add2(40); }",
        &[],
    );
    assert_eq!(r.expect("a value"), n(42.0));
}

#[test]
fn closure_sees_later_assignments() {
    let r = run_ast(
        "function main(){ var n=1; var get = function(){ return n; }; n=5; return get(); }",
        &[],
    );
    assert_eq!(r.expect("a value"), n(5.0));
}

#[test]
fn vector_elements_are_shared() {
    let r = run_ast(
        "function set(v){ v[0]=7; } function main(){ var v=[1,2]; set(v); return v[0]; }",
        &[],
    );
    assert_eq!(r.expect("a value"), n(7.0));
}

#[test]
fn vector_grows_at_its_end() {
    let r = run_ast(
        "function main(){ var v=[]; v[0]=1; v[1]=2; return v[1]; }",
        &[],
    );
    assert_eq!(r.expect("a value"), n(2.0));
}

#[test]
fn map_attribute_access() {
    let r = run_ast(
        "function main(){ var m={a:1}; m.b=2; m.a=3; return m.a+m.b; }",
        &[],
    );
    assert_eq!(r.expect("a value"), n(5.0));
}

#[test]
fn error_throws_its_argument() {
    let r = run_ast("function main(){ error(\"boom\"); return 1; }", &[]);
    match r {
        Err(RunError::ScriptException(_, v)) => assert_eq!(v, Value::new_string("boom")),
        other => panic!("expected a script exception, got {:?}", other),
    }
}

#[test]
fn host_exception_gets_the_place_of_the_call() {
    let r = run_ast("function main(){ return 1 + \"a\"; }", &[]);
    match r {
        Err(RunError::ScriptException(loc, v)) => {
            assert_eq!(v, Value::new_string("invalid arguments for '+'"));
            assert_eq!(loc.filename, "(string)");
        }
        other => panic!("expected a script exception, got {:?}", other),
    }
}

#[test]
fn unknown_function_is_reported() {
    let mut bleep = Bleep::new(TestHost);
    let e = bleep
        .call_function("nothing", &[])
        .expect_err("there is no such function");
    assert_eq!(message(&e), "function not found: 'nothing'");
}

#[test]
fn calling_a_number_fails() {
    let mut bleep = Bleep::new(TestHost);
    bleep.set_var("x", n(1.0));
    let e = bleep.call_function("x", &[]).expect_err("a number is no function");
    assert_eq!(message(&e), "trying to call non-function value");
}

#[test]
fn globals_are_set_and_read() {
    let mut bleep = Bleep::new(TestHost);
    assert_eq!(bleep.get_var("answer"), None);
    bleep.set_var("answer", n(42.0));
    assert_eq!(bleep.get_var("answer"), Some(n(42.0)));
    bleep.set_var("answer", n(43.0));
    assert_eq!(bleep.get_var("answer"), Some(n(43.0)));
    assert_eq!(bleep.get_var("true"), Some(Value::Bool(true)));
}

#[test]
fn scripts_read_globals_of_the_host() {
    let mut bleep = Bleep::new(TestHost);
    bleep.set_var("base", n(40.0));
    bleep
        .load_string("function main(){ return base + 2; }")
        .expect("the script loads");
    assert_eq!(bleep.call_function("main", &[]).expect("a value"), n(42.0));
}

#[test]
fn endless_loop_runs_out_of_budget() {
    let mut bleep = Bleep::new(TestHost);
    bleep.set_limit(1000);
    bleep
        .load_string("function main(){ while (true) { } }")
        .expect("the script loads");
    let e = bleep.call_function("main", &[]).expect_err("the loop never ends");
    assert!(matches!(e, RunError::Panic(..)));
    assert_eq!(message(&e), "evaluation budget exhausted");
}

#[test]
fn endless_machine_loop_runs_out_of_steps() {
    let mut bleep = Bleep::new(TestHost);
    bleep.set_limit(1000);
    bleep
        .compile_user(
            "(string)",
            StringInputOpener::for_string("function main(){ while (true) { } }"),
        )
        .expect("the script compiles");
    let e = bleep.call_function("main", &[]).expect_err("the loop never ends");
    assert_eq!(message(&e), "step budget exhausted");
}

#[test]
fn machine_calls_a_closure_of_the_evaluator() {
    let mut bleep = Bleep::new(TestHost);
    bleep
        .load_string("function twice(x){ return x*2; }")
        .expect("the script loads");
    bleep
        .compile_user(
            "(string)",
            StringInputOpener::for_string("function main(a){ return twice(a)+1; }"),
        )
        .expect("the script compiles");
    assert_eq!(
        bleep.call_function("main", &[n(20.0)]).expect("a value"),
        n(41.0)
    );
}

#[test]
fn comments_and_blank_lines_are_skipped() {
    both(
        "# a comment\nfunction main() {\n  # another\n  return 1; # trailing\n}\n",
        &[],
        n(1.0),
    );
}

#[test]
fn include_from_a_string_fails() {
    let mut bleep = Bleep::new(TestHost);
    let err = bleep
        .load_string("include \"other\" function main(){ return 1; }")
        .expect_err("a string includes nothing");
    assert!(err
        .to_string()
        .contains("can't use 'include' from string source"));
}

#[test]
fn syntax_error_names_what_was_expected() {
    let mut bleep = Bleep::new(TestHost);
    let err = bleep
        .load_string("function main( { }")
        .expect_err("the parameter list is not closed");
    assert_eq!(
        err.to_string(),
        "(string):1:16: expected ')' or parameter name, found '{'"
    );
}

#[test]
fn a_new_interpreter_knows_the_constants() {
    let bleep = Bleep::new(TestHost);
    assert!(matches!(bleep.get_var("null"), Some(Value::Null)));
    assert!(matches!(bleep.get_var("true"), Some(Value::Bool(true))));
    assert!(matches!(bleep.get_var("false"), Some(Value::Bool(false))));
    assert!(matches!(bleep.get_var("+"), Some(Value::NativeFunc(_))));
    assert!(bleep.get_var("nothing").is_none());
    assert_eq!(bleep.funcs().len(), 0);
}

#[test]
fn loaded_functions_are_listed_in_order() {
    let mut bleep = Bleep::new(TestHost);
    bleep
        .load_string("function b() { return 1; } function a() { return 2; }")
        .unwrap();
    let names: Vec<String> = bleep.funcs().iter().map(|f| f.name.clone()).collect();
    assert_eq!(names, vec!["b".to_string(), "a".to_string()]);
}

/// Makes a container with the evaluator and hands it to `main`, once as
/// the evaluator runs it and once as the machine runs it.
fn both_with_container(maker: &str, script: &str, expected: Value) {
    let mut ast = Bleep::new(TestHost);
    ast.load_string(maker).expect("the maker loads");
    ast.load_string(script).expect("the script loads");
    let container = ast.call_function("make", &[]).expect("a container");
    let r = ast.call_function("main", &[container]).expect("the evaluator returns a value");
    assert_eq!(r, expected);

    let mut machine = Bleep::new(TestHost);
    machine.load_string(maker).expect("the maker loads");
    machine
        .compile_user("(string)", StringInputOpener::for_string(script))
        .expect("the script compiles");
    assert!(matches!(machine.get_var("main"), Some(Value::BCClosure(_))));
    let container = machine.call_function("make", &[]).expect("a container");
    let r = machine
        .call_function("main", &[container])
        .expect("the machine returns a value");
    assert_eq!(r, expected);
}

#[test]
fn the_machine_assigns_to_elements() {
    both_with_container(
        "function make(){ return [1, 5]; }",
        "function main(v){ v[0]=2; return v[0]+v[1]; }",
        n(7.0),
    );
}

#[test]
fn the_machine_extends_a_vector_at_its_end() {
    both_with_container(
        "function make(){ return []; }",
        "function main(v){ v[0]=1; v[1]=2; return v[1]; }",
        n(2.0),
    );
}

#[test]
fn the_machine_assigns_to_attributes_and_reads_them() {
    both_with_container(
        "function make(){ return {a:1}; }",
        "function main(m){ m.b=2; m.a=3; return m.a+m.b; }",
        n(5.0),
    );
}

#[test]
fn an_assignment_to_an_element_has_the_value_assigned() {
    both_with_container(
        "function make(){ return [0]; }",
        "function main(v){ return (v[0]=4)+1; }",
        n(5.0),
    );
}

#[test]
fn the_machine_reports_an_element_out_of_range() {
    let mut machine = Bleep::new(TestHost);
    machine.load_string("function make(){ return [1]; }").unwrap();
    machine
        .compile_user(
            "(string)",
            StringInputOpener::for_string("function main(v){ v[3]=1; return 0; }"),
        )
        .unwrap();
    let v = machine.call_function("make", &[]).unwrap();
    let e = machine.call_function("main", &[v]).expect_err("the index is out of range");
    assert!(matches!(e, RunError::ScriptException(..)));
}

#[test]
fn a_wrong_number_of_arguments_is_a_panic_of_the_machine() {
    let e = run_bytecode("function main(a){ return a; }", &[]).expect_err("one is missing");
    assert!(matches!(e, RunError::Panic(None, _)));
    let e = run_bytecode("function main(a){ return a; }", &[n(1.0), n(2.0)])
        .expect_err("one is too many");
    assert!(matches!(e, RunError::Panic(None, _)));
    let e = run_ast("function main(a){ return a; }", &[]).expect_err("one is missing");
    assert!(matches!(e, RunError::ScriptException(..)));
}

#[test]
fn the_compiler_attaches_notes_for_the_listing() {
    let mut bleep = Bleep::new(TestHost);
    bleep
        .compile_user(
            "(string)",
            StringInputOpener::for_string("function main(a){ var b = a + 1; return b; }"),
        )
        .unwrap();
    let notes: Vec<String> = bleep.bytecode().comments().values().cloned().collect();
    for wanted in ["+", "a", "number", "var b = ...", "b", "return", "auto return null"] {
        assert!(notes.iter().any(|n| n == wanted), "no note {:?} in {:?}", wanted, notes);
    }
    assert_eq!(bleep.bytecode().labels().get(&0), Some(&"main".to_string()));
}
