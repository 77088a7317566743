use bleepscript::errors::RunError;
use bleepscript::heap::Heap;
use bleepscript::number;
use bleepscript::src_loc::SrcLoc;
use bleepscript::value::{MapValue, Value};

fn n(x: f64) -> Value {
    Value::Number(x.to_bits())
}

fn here() -> SrcLoc {
    SrcLoc::new("here", 3, 7)
}

fn thrown(e: RunError) -> String {
    match e {
        RunError::ScriptException(_, Value::String(s)) => s,
        RunError::NativeException(Value::String(s)) => s,
        RunError::Panic(_, s) => s,
        other => panic!("unexpected error {:?}", other),
    }
}

#[test]
fn null_is_false() {
    assert!(!Value::Null.is_true());
}

#[test]
fn booleans_are_themselves() {
    assert!(Value::Bool(true).is_true());
    assert!(!Value::Bool(false).is_true());
}

#[test]
fn numbers_are_true_unless_zero() {
    assert!(n(1.5).is_true());
    assert!(n(-1e-300).is_true());
    assert!(!n(0.0).is_true());
    assert!(!n(-0.0).is_true());
    assert!(n(f64::NAN).is_true());
    assert!(n(f64::INFINITY).is_true());
}

#[test]
fn everything_else_is_true() {
    assert!(Value::new_string("").is_true());
    assert!(Value::Vec(0).is_true());
    assert!(Value::Dict(0).is_true());
    assert!(Value::new_native_func(3).is_true());
}

#[test]
fn equality_of_scalars_is_by_content() {
    assert_eq!(Value::Null, Value::Null);
    assert_eq!(Value::Bool(true), Value::Bool(true));
    assert_ne!(Value::Bool(true), Value::Bool(false));
    assert_eq!(n(2.5), n(2.5));
    assert_ne!(n(2.5), n(2.6));
    assert_eq!(Value::new_string("a"), Value::new_string("a"));
    assert_ne!(Value::new_string("a"), Value::new_string("b"));
    assert_ne!(Value::Null, Value::Bool(false));
    assert_ne!(n(0.0), Value::Bool(false));
}

#[test]
fn equality_of_numbers_is_that_of_floats() {
    assert_eq!(n(0.0), n(-0.0));
    assert_ne!(n(f64::NAN), n(f64::NAN));
    assert_eq!(n(f64::INFINITY), n(f64::INFINITY));
    assert_ne!(n(f64::INFINITY), n(f64::NEG_INFINITY));
}

#[test]
fn equality_of_handles_is_by_identity() {
    assert_eq!(Value::Vec(1), Value::Vec(1));
    assert_ne!(Value::Vec(1), Value::Vec(2));
    assert_ne!(Value::Vec(1), Value::Dict(1));
    assert_eq!(Value::new_native_func(4), Value::new_native_func(4));
    assert_ne!(Value::new_native_func(4), Value::new_native_func(5));
}

#[test]
fn order_of_numbers_is_that_of_floats() {
    let samples = [
        f64::NEG_INFINITY,
        -1e300,
        -2.5,
        -1.0,
        -1e-310,
        -0.0,
        0.0,
        1e-310,
        0.5,
        1.0,
        3.0,
        1e300,
        f64::INFINITY,
        f64::NAN,
    ];
    for a in samples {
        for b in samples {
            assert_eq!(number::lt(a.to_bits(), b.to_bits()), a < b, "{} < {}", a, b);
            assert_eq!(number::le(a.to_bits(), b.to_bits()), a <= b, "{} <= {}", a, b);
            assert_eq!(number::eq(a.to_bits(), b.to_bits()), a == b, "{} == {}", a, b);
        }
    }
}

#[test]
fn truncation_is_that_of_the_machine() {
    let samples = [
        0.0,
        -0.0,
        0.4,
        0.99999,
        1.0,
        1.5,
        -1.5,
        2.0,
        41.999,
        -42.0,
        4503599627370496.0,
        4503599627370497.0,
        9007199254740993.0,
        1e18,
        -1e18,
        9223372036854775807.0,
        9223372036854775808.0,
        -9223372036854775808.0,
        -9223372036854777856.0,
        1e19,
        -1e19,
        1e300,
        5e-324,
        f64::INFINITY,
        f64::NEG_INFINITY,
        f64::NAN,
    ];
    for x in samples {
        assert_eq!(number::to_i64(x.to_bits()), x as i64, "{}", x);
    }
}

#[test]
fn nan_and_zero_are_recognised() {
    assert!(number::nan(f64::NAN.to_bits()));
    assert!(!number::nan(f64::INFINITY.to_bits()));
    assert!(!number::nan(1.0f64.to_bits()));
    assert!(number::zero(0.0f64.to_bits()));
    assert!(number::zero((-0.0f64).to_bits()));
    assert!(!number::zero(5e-324f64.to_bits()));
    assert_eq!(number::ONE, 1.0f64.to_bits());
    assert_eq!(number::ZERO, 0.0f64.to_bits());
}

#[test]
fn conversion_to_integer() {
    assert_eq!(Value::Bool(true).as_i64().unwrap(), 1);
    assert_eq!(Value::Bool(false).as_i64().unwrap(), 0);
    assert_eq!(n(41.9).as_i64().unwrap(), 41);
    assert_eq!(n(-41.9).as_i64().unwrap(), -41);
    assert_eq!(thrown(Value::Null.as_i64().unwrap_err()), "can't convert null to i64");
    assert_eq!(
        thrown(Value::new_string("1").as_i64().unwrap_err()),
        "can't convert string to i64"
    );
    assert_eq!(thrown(Value::Vec(0).as_i64().unwrap_err()), "can't convert vector to i64");
    assert_eq!(thrown(Value::Dict(0).as_i64().unwrap_err()), "can't convert map to i64");
    assert_eq!(
        thrown(Value::new_native_func(0).as_i64().unwrap_err()),
        "can't convert native function to i64"
    );
}

#[test]
fn conversion_to_number() {
    assert_eq!(Value::Bool(true).as_f64().unwrap(), 1.0f64.to_bits());
    assert_eq!(Value::Bool(false).as_f64().unwrap(), 0.0f64.to_bits());
    assert_eq!(n(2.5).as_f64().unwrap(), 2.5f64.to_bits());
    assert_eq!(thrown(Value::Null.as_f64().unwrap_err()), "can't convert null to f64");
    assert_eq!(
        thrown(Value::new_string("1").as_f64().unwrap_err()),
        "can't convert string to f64"
    );
}

#[test]
fn native_exception_becomes_script_exception() {
    let e = RunError::new_native_str("oops").native_to_script(&here());
    match e {
        RunError::ScriptException(loc, v) => {
            assert_eq!(loc.to_string(), "here:3:7");
            assert_eq!(v, Value::new_string("oops"));
        }
        other => panic!("unexpected error {:?}", other),
    }
    let p = RunError::new_panic(None, "bad").native_to_script(&here());
    assert!(matches!(p, RunError::Panic(None, ref s) if s == "bad"));
    let s = RunError::new_script(SrcLoc::new("there", 1, 2), "x").native_to_script(&here());
    assert!(matches!(s, RunError::ScriptException(ref loc, _) if loc.filename == "there"));
    assert!(matches!(
        RunError::new_native_val(Value::Null),
        RunError::NativeException(Value::Null)
    ));
}

#[test]
fn vector_elements_are_read() {
    let mut heap = Heap::new();
    let v = Value::new_vector(&mut heap, &[n(10.0), n(20.0)]);
    assert_eq!(v, Value::Vec(0));
    assert_eq!(v.get_element(&heap, &n(0.0), &here()).unwrap(), n(10.0));
    assert_eq!(v.get_element(&heap, &n(1.9), &here()).unwrap(), n(20.0));
    assert_eq!(v.get_element(&heap, &Value::Bool(true), &here()).unwrap(), n(20.0));
    assert_eq!(
        thrown(v.get_element(&heap, &n(2.0), &here()).unwrap_err()),
        "vector index out of bounds: 2"
    );
    assert_eq!(
        thrown(v.get_element(&heap, &n(-1.0), &here()).unwrap_err()),
        "vector index out of bounds: -1"
    );
    let e = v.get_element(&heap, &Value::Null, &here()).unwrap_err();
    assert!(matches!(e, RunError::ScriptException(..)));
    assert_eq!(thrown(e), "can't convert null to i64");
}

#[test]
fn vector_elements_are_written() {
    let mut heap = Heap::new();
    let v = Value::new_vector(&mut heap, &[n(10.0)]);
    v.set_element(&mut heap, n(0.0), n(11.0), &here()).unwrap();
    v.set_element(&mut heap, n(1.0), n(12.0), &here()).unwrap();
    assert_eq!(heap.vec(0).unwrap(), &vec![n(11.0), n(12.0)]);
    assert_eq!(
        thrown(v.set_element(&mut heap, n(3.0), n(0.0), &here()).unwrap_err()),
        "vector index out of bounds: 3"
    );
    assert_eq!(heap.vec(0).unwrap().len(), 2);
}

#[test]
fn maps_bind_keys() {
    let mut heap = Heap::new();
    let h = heap.alloc_map(MapValue::new());
    let m = Value::Dict(h);
    m.set_element(&mut heap, Value::new_string("a"), n(1.0), &here()).unwrap();
    m.set_element(&mut heap, Value::new_string("b"), n(2.0), &here()).unwrap();
    m.set_element(&mut heap, Value::new_string("a"), n(3.0), &here()).unwrap();
    assert_eq!(m.get_element(&heap, &Value::new_string("a"), &here()).unwrap(), n(3.0));
    assert_eq!(m.get_element(&heap, &Value::new_string("b"), &here()).unwrap(), n(2.0));
    let entries = heap.map(h).unwrap().iter();
    assert_eq!(entries.len(), 2);
    assert_eq!(entries[0].0, Value::new_string("b"));
    assert_eq!(entries[1].0, Value::new_string("a"));
    assert_eq!(
        thrown(m.get_element(&heap, &Value::new_string("c"), &here()).unwrap_err()),
        "map doesn't contain key"
    );
}

#[test]
fn map_finds_the_first_equal_key() {
    let map = MapValue::from_entries(vec![
        (n(1.0), n(10.0)),
        (n(1.0), n(20.0)),
        (n(f64::NAN), n(30.0)),
    ]);
    assert_eq!(map.get(&n(1.0)), Some(n(10.0)));
    assert_eq!(map.get(&n(f64::NAN)), None);
    assert_eq!(map.get(&n(2.0)), None);
}

#[test]
fn scalars_have_no_elements() {
    let mut heap = Heap::new();
    assert_eq!(
        thrown(n(1.0).get_element(&heap, &n(0.0), &here()).unwrap_err()),
        "trying to read element of non-container object"
    );
    assert_eq!(
        thrown(n(1.0).set_element(&mut heap, n(0.0), n(0.0), &here()).unwrap_err()),
        "trying to assign to element of non-container object"
    );
}

#[test]
fn handles_without_objects_are_panics() {
    let mut heap = Heap::new();
    assert!(matches!(
        Value::Vec(7).get_element(&heap, &n(0.0), &here()),
        Err(RunError::Panic(..))
    ));
    assert!(matches!(
        Value::Dict(7).set_element(&mut heap, n(0.0), n(0.0), &here()),
        Err(RunError::Panic(..))
    ));
}

#[test]
fn closure_identities_are_fresh() {
    let mut heap = Heap::new();
    assert_eq!(heap.fresh_id(), Some(0));
    assert_eq!(heap.fresh_id(), Some(1));
    assert_eq!(heap.fresh_id(), Some(2));
}
