//! Functions that scripts call and that are not written in the language:
//! those of the host, and the comparisons that the library supplies itself.
use vstd::prelude::*;
use vstd::string::StringSliceAdditionalSpecFns;
use crate::errors::{RunError, RunErrorV, res_view};
use crate::number;
use crate::runtime::{Runtime, RuntimeV};
use crate::src_loc::{SrcLoc, SrcLocV};
use crate::text::{decimal, push_decimal};
use crate::value::{Value, ValueV, truthy, value_eq};

verus! {

/// A function of the host, known by the index it is registered under.
/// Two such values are the same function exactly when their indices agree.
#[derive(Clone, Copy, Debug)]
pub struct NativeFunc {
    pub index: usize,
}

/// `printf(format, ...)`: supplied by the host.
pub const FUNC_PRINTF: usize = 0;

/// `error(value)`: throws `value`.
pub const FUNC_ERROR: usize = 1;

/// `dump_env()`: supplied by the host.
pub const FUNC_DUMP_ENV: usize = 2;

/// `!`
pub const FUNC_LOGIC_NOT: usize = 3;

/// `==`
pub const FUNC_CMP_EQ: usize = 4;

/// `!=`
pub const FUNC_CMP_NE: usize = 5;

/// `<`
pub const FUNC_CMP_LT: usize = 6;

/// `<=`
pub const FUNC_CMP_LE: usize = 7;

/// `>`
pub const FUNC_CMP_GT: usize = 8;

/// `>=`
pub const FUNC_CMP_GE: usize = 9;

/// `+`: supplied by the host.
pub const FUNC_NUM_ADD: usize = 10;

/// `-`, with one argument or two: supplied by the host.
pub const FUNC_NUM_SUB: usize = 11;

/// `*`: supplied by the host.
pub const FUNC_NUM_MUL: usize = 12;

/// `/`: supplied by the host.
pub const FUNC_NUM_DIV: usize = 13;

/// `^`: supplied by the host.
pub const FUNC_NUM_POW: usize = 14;

/// `%`: supplied by the host.
pub const FUNC_NUM_MOD: usize = 15;

/// The first index that is free for the host's own functions.
pub const FIRST_USER_FUNC: usize = 16;

/// The arguments of a call, as specifications speak of them.
pub type Values = Seq<Value>;

/// What a call returns, as specifications speak of it: a value, or the
/// error that it throws.
pub type Outcome = Result<Value, RunErrorV>;

/// The text of a literal, as specifications speak of it.
pub type Text = Seq<char>;

/// The functions of the host.
///
/// A host function takes the arguments of the call, the state of the
/// script and the handle of the frame of the caller. It returns a value or
/// throws one. The library takes a host function to be a function in the
/// mathematical sense: what it returns depends on nothing but what it is
/// given. `result` stands for that function, and the contract of `call`
/// claims no more than that `call` computes it. The same holds of the
/// reading of number literals, with `numeral` and `number`.
pub trait NativeHost {
    /// What the function registered under `index` returns. This is a
    /// function of specifications: it is never run, and an implementation
    /// outside of verified code gives it a body that is never reached.
    spec fn result(&self, index: usize, args: Values, rt: RuntimeV, frame: usize) -> Outcome;

    /// Runs the function registered under `index`.
    fn call(&self, index: usize, args: &[Value], rt: &Runtime, frame: usize) -> (r: Result<
        Value,
        RunError,
    >)
        ensures
            res_view(r) == self.result(index, args@, rt@, frame),
    ;

    /// The number that the literal `text` is written for. This is a
    /// function of specifications, as `result` is.
    spec fn numeral(&self, text: Text) -> Option<u64>;

    /// The number that the literal `text` is written for, as the bit
    /// pattern of an IEEE-754 binary64 value, or `None` where the text is
    /// not written for a number. A literal is a run of decimal digits that
    /// may hold one point after its first digit.
    fn number(&self, text: &str) -> (r: Option<u64>)
        ensures
            r == self.numeral(text@),
    ;
}

/// A host without functions: every call throws, and no literal is a number.
pub struct NoHost;

impl NativeHost for NoHost {
    open spec fn result(&self, index: usize, args: Values, rt: RuntimeV, frame: usize) -> Outcome {
        Err(RunErrorV::NativeException(ValueV::String("no such host function"@)))
    }

    fn call(&self, index: usize, args: &[Value], rt: &Runtime, frame: usize) -> (r: Result<
        Value,
        RunError,
    >) {
        Err(RunError::new_native_str("no such host function"))
    }

    open spec fn numeral(&self, text: Text) -> Option<u64> {
        None
    }

    fn number(&self, text: &str) -> (r: Option<u64>) {
        None
    }
}

/// The argument at position `i`, or the exception that reports that it is
/// missing.
pub open spec fn arg_at(args: Seq<Value>, i: usize) -> Result<Value, RunErrorV> {
    if i < args.len() {
        Ok(args[i as int])
    } else {
        Err(
            RunErrorV::NativeException(
                ValueV::String("expected argument at position "@ + decimal((i + 1) as nat)),
            ),
        )
    }
}

/// `l == r` in a script: equality of values, except that a vector or a map
/// equals nothing.
pub open spec fn script_eq(l: Value, r: Value) -> bool {
    value_eq(l, r) && !(l is Vec) && !(l is Dict)
}

/// Whether the bytes `a` come before the bytes `b` in lexicographic order.
pub open spec fn bytes_lt(a: Seq<u8>, b: Seq<u8>) -> bool
    decreases a.len(),
{
    if b.len() == 0 {
        false
    } else if a.len() == 0 {
        true
    } else if a[0] != b[0] {
        a[0] < b[0]
    } else {
        bytes_lt(a.subrange(1, a.len() as int), b.subrange(1, b.len() as int))
    }
}

/// `l < r` in a script: numbers compare as numbers, strings by their
/// UTF-8 bytes, and nothing else is less than anything.
pub open spec fn script_lt(l: Value, r: Value) -> bool {
    match (l, r) {
        (Value::Number(a), Value::Number(b)) => number::num_lt(a, b),
        (Value::String(a), Value::String(b)) => bytes_lt(
            vstd::utf8::encode_utf8(a@),
            vstd::utf8::encode_utf8(b@),
        ),
        _ => false,
    }
}

/// `l <= r` in a script.
pub open spec fn script_le(l: Value, r: Value) -> bool {
    match (l, r) {
        (Value::Number(a), Value::Number(b)) => number::num_le(a, b),
        (Value::String(a), Value::String(b)) => !bytes_lt(
            vstd::utf8::encode_utf8(b@),
            vstd::utf8::encode_utf8(a@),
        ),
        _ => false,
    }
}

/// The comparison `index` applied to the first two arguments.
pub open spec fn comparison(index: usize, args: Seq<Value>) -> Result<Value, RunErrorV> {
    match arg_at(args, 0) {
        Err(e) => Err(e),
        Ok(l) => match arg_at(args, 1) {
            Err(e) => Err(e),
            Ok(r) => Ok(
                Value::Bool(
                    if index == FUNC_CMP_EQ {
                        script_eq(l, r)
                    } else if index == FUNC_CMP_NE {
                        !script_eq(l, r)
                    } else if index == FUNC_CMP_LT {
                        script_lt(l, r)
                    } else if index == FUNC_CMP_LE {
                        script_le(l, r)
                    } else if index == FUNC_CMP_GT {
                        !script_le(l, r)
                    } else {
                        !script_lt(l, r)
                    },
                ),
            ),
        },
    }
}

/// What `error(...)` does: it throws its first argument, at a place
/// without a name; without an argument it returns null.
pub open spec fn error_result(args: Seq<Value>) -> Result<Value, RunErrorV> {
    if args.len() > 0 {
        Err(
            RunErrorV::ScriptException(
                SrcLocV { filename: Seq::empty(), line_num: 0, col_num: 0 },
                args[0]@,
            ),
        )
    } else {
        Ok(Value::Null)
    }
}

/// What `!` returns: whether its argument is not true.
pub open spec fn logic_not_result(args: Seq<Value>) -> Result<Value, RunErrorV> {
    match arg_at(args, 0) {
        Err(e) => Err(e),
        Ok(v) => Ok(Value::Bool(!truthy(v))),
    }
}

/// What the function `index` returns before the caller has given the
/// exception its place: the library's own answer for the functions it
/// supplies, the host's for all others.
pub open spec fn raw_result<H: NativeHost>(
    host: H,
    index: usize,
    args: Seq<Value>,
    rt: RuntimeV,
    frame: usize,
) -> Result<Value, RunErrorV> {
    if index == FUNC_ERROR {
        error_result(args)
    } else if index == FUNC_LOGIC_NOT {
        logic_not_result(args)
    } else if FUNC_CMP_EQ <= index <= FUNC_CMP_GE {
        comparison(index, args)
    } else {
        host.result(index, args, rt, frame)
    }
}

/// What a call of the function `index` at `loc` returns: an exception
/// without a place gets the place of the call.
pub open spec fn native_result<H: NativeHost>(
    host: H,
    index: usize,
    args: Seq<Value>,
    rt: RuntimeV,
    frame: usize,
    loc: SrcLocV,
) -> Result<Value, RunErrorV> {
    match raw_result(host, index, args, rt, frame) {
        Ok(v) => Ok(v),
        Err(e) => Err(e.native_to_script(loc)),
    }
}

fn get_arg(args: &[Value], index: usize) -> (r: Result<&Value, RunError>)
    requires
        index < usize::MAX,
    ensures
        match r {
            Ok(v) => arg_at(args@, index) == Ok::<Value, RunErrorV>(*v),
            Err(e) => arg_at(args@, index) == Err::<Value, RunErrorV>(e@),
        },
{
    if index < args.len() {
        Ok(&args[index])
    } else {
        let mut msg = String::from_str("expected argument at position ");
        push_decimal(&mut msg, (index + 1) as u64);
        Err(RunError::NativeException(Value::String(msg)))
    }
}

fn cmp_eq(l: &Value, r: &Value) -> (b: bool)
    ensures
        b == script_eq(*l, *r),
{
    match (l, r) {
        (Value::Vec(_), _) => false,
        (Value::Dict(_), _) => false,
        _ => *l == *r,
    }
}

fn lt_bytes(a: &[u8], b: &[u8]) -> (r: bool)
    ensures
        r == bytes_lt(a@, b@),
{
    let mut i: usize = 0;
    assert(a@.subrange(0, a@.len() as int) =~= a@);
    assert(b@.subrange(0, b@.len() as int) =~= b@);
    loop
        invariant
            i <= a.len(),
            i <= b.len(),
            bytes_lt(a@, b@) == bytes_lt(
                a@.subrange(i as int, a@.len() as int),
                b@.subrange(i as int, b@.len() as int),
            ),
        decreases a.len() - i,
    {
        let ghost ra = a@.subrange(i as int, a@.len() as int);
        let ghost rb = b@.subrange(i as int, b@.len() as int);
        if i >= b.len() {
            return false;
        }
        if i >= a.len() {
            return true;
        }
        if a[i] != b[i] {
            return a[i] < b[i];
        }
        assert(ra.subrange(1, ra.len() as int) =~= a@.subrange(i + 1, a@.len() as int));
        assert(rb.subrange(1, rb.len() as int) =~= b@.subrange(i + 1, b@.len() as int));
        i += 1;
    }
}

fn cmp_lt(l: &Value, r: &Value) -> (b: bool)
    ensures
        b == script_lt(*l, *r),
{
    match (l, r) {
        (Value::Number(a), Value::Number(b)) => number::lt(*a, *b),
        (Value::String(a), Value::String(b)) => lt_bytes(
            a.as_str().as_bytes(),
            b.as_str().as_bytes(),
        ),
        _ => false,
    }
}

fn cmp_le(l: &Value, r: &Value) -> (b: bool)
    ensures
        b == script_le(*l, *r),
{
    match (l, r) {
        (Value::Number(a), Value::Number(b)) => number::le(*a, *b),
        (Value::String(a), Value::String(b)) => !lt_bytes(
            b.as_str().as_bytes(),
            a.as_str().as_bytes(),
        ),
        _ => false,
    }
}

fn compare(index: usize, args: &[Value]) -> (r: Result<Value, RunError>)
    requires
        FUNC_CMP_EQ <= index <= FUNC_CMP_GE,
    ensures
        res_view(r) == comparison(index, args@),
{
    let l = match get_arg(args, 0) {
        Ok(v) => v,
        Err(e) => {
            return Err(e);
        },
    };
    let r = match get_arg(args, 1) {
        Ok(v) => v,
        Err(e) => {
            return Err(e);
        },
    };
    let b = if index == FUNC_CMP_EQ {
        cmp_eq(l, r)
    } else if index == FUNC_CMP_NE {
        !cmp_eq(l, r)
    } else if index == FUNC_CMP_LT {
        cmp_lt(l, r)
    } else if index == FUNC_CMP_LE {
        cmp_le(l, r)
    } else if index == FUNC_CMP_GT {
        !cmp_le(l, r)
    } else {
        !cmp_lt(l, r)
    };
    Ok(Value::Bool(b))
}

/// `error(value)`: throws `value`.
pub fn func_error(args: &[Value]) -> (r: Result<Value, RunError>)
    ensures
        res_view(r) == error_result(args@),
{
    if args.len() > 0 {
        let loc = SrcLoc::new("", 0, 0);
        proof {
            reveal_strlit("");
            assert(loc@.filename =~= Seq::<char>::empty());
        }
        Err(RunError::ScriptException(loc, args[0].clone()))
    } else {
        Ok(Value::Null)
    }
}

/// `!`
pub fn func_logic_not(args: &[Value]) -> (r: Result<Value, RunError>)
    ensures
        res_view(r) == logic_not_result(args@),
{
    match get_arg(args, 0) {
        Ok(v) => Ok(Value::Bool(!v.is_true())),
        Err(e) => Err(e),
    }
}

/// `==`
pub fn func_cmp_eq(args: &[Value]) -> (r: Result<Value, RunError>)
    ensures
        res_view(r) == comparison(FUNC_CMP_EQ, args@),
{
    compare(FUNC_CMP_EQ, args)
}

/// `!=`
pub fn func_cmp_ne(args: &[Value]) -> (r: Result<Value, RunError>)
    ensures
        res_view(r) == comparison(FUNC_CMP_NE, args@),
{
    compare(FUNC_CMP_NE, args)
}

/// `<`
pub fn func_cmp_lt(args: &[Value]) -> (r: Result<Value, RunError>)
    ensures
        res_view(r) == comparison(FUNC_CMP_LT, args@),
{
    compare(FUNC_CMP_LT, args)
}

/// `<=`
pub fn func_cmp_le(args: &[Value]) -> (r: Result<Value, RunError>)
    ensures
        res_view(r) == comparison(FUNC_CMP_LE, args@),
{
    compare(FUNC_CMP_LE, args)
}

/// `>`: true exactly when `<=` is false.
pub fn func_cmp_gt(args: &[Value]) -> (r: Result<Value, RunError>)
    ensures
        res_view(r) == comparison(FUNC_CMP_GT, args@),
{
    compare(FUNC_CMP_GT, args)
}

/// `>=`: true exactly when `<` is false.
pub fn func_cmp_ge(args: &[Value]) -> (r: Result<Value, RunError>)
    ensures
        res_view(r) == comparison(FUNC_CMP_GE, args@),
{
    compare(FUNC_CMP_GE, args)
}

impl NativeFunc {
    pub fn new(index: usize) -> (r: NativeFunc)
        ensures
            r.index == index,
    {
        NativeFunc { index }
    }

    /// Calls the function with `args`, from a call that stands at `loc` and
    /// runs in `frame`.
    pub fn call<H: NativeHost>(
        &self,
        args: &[Value],
        rt: &Runtime,
        frame: usize,
        loc: &SrcLoc,
        host: &H,
    ) -> (r: Result<Value, RunError>)
        ensures
            res_view(r) == native_result(*host, self.index, args@, rt@, frame, loc@),
    {
        let raw = if self.index == FUNC_ERROR {
            func_error(args)
        } else if self.index == FUNC_LOGIC_NOT {
            func_logic_not(args)
        } else if FUNC_CMP_EQ <= self.index && self.index <= FUNC_CMP_GE {
            compare(self.index, args)
        } else {
            host.call(self.index, args, rt, frame)
        };
        match raw {
            Ok(v) => Ok(v),
            Err(e) => Err(e.native_to_script(loc)),
        }
    }
}

} // verus!
