//! Values of the language.
use vstd::prelude::*;
use vstd::std_specs::cmp::PartialEqSpecImpl;
use crate::bytecode::Closure as BcClosure;
use crate::exec::Closure as AstClosure;
use crate::native::NativeFunc;
use crate::number;
use crate::errors::{RunError, RunErrorV, res_view};
use crate::heap::{Heap, HeapV};
use crate::src_loc::{SrcLoc, SrcLocV};
use crate::text::{push_signed_decimal, signed_decimal};

verus! {

/// A value of the script language.
///
/// Vectors and maps are shared and mutable: the value is a handle, and the
/// elements live in the [`Heap`](crate::heap::Heap) under that handle.
#[derive(Debug)]
pub enum Value {
    /// The null value, `null`.
    Null,
    /// `true` or `false`
    Bool(bool),
    /// A number, as the bit pattern of an IEEE-754 binary64 value.
    Number(u64),
    /// String
    String(String),
    /// Vector, by its handle
    Vec(usize),
    /// Map, by its handle
    Dict(usize),
    /// Closure of the tree-walking evaluator
    ASTClosure(AstClosure),
    /// Closure of the bytecode backend
    BCClosure(BcClosure),
    /// Function of the host
    NativeFunc(NativeFunc),
}

/// The mathematical value of a [`Value`]: a string is its characters.
pub enum ValueV {
    Null,
    Bool(bool),
    Number(u64),
    String(Seq<char>),
    Vec(usize),
    Dict(usize),
    ASTClosure(AstClosure),
    BCClosure(BcClosure),
    NativeFunc(NativeFunc),
}

impl View for Value {
    type V = ValueV;

    open spec fn view(&self) -> ValueV {
        match *self {
            Value::Null => ValueV::Null,
            Value::Bool(b) => ValueV::Bool(b),
            Value::Number(n) => ValueV::Number(n),
            Value::String(s) => ValueV::String(s@),
            Value::Vec(h) => ValueV::Vec(h),
            Value::Dict(h) => ValueV::Dict(h),
            Value::ASTClosure(c) => ValueV::ASTClosure(c),
            Value::BCClosure(c) => ValueV::BCClosure(c),
            Value::NativeFunc(f) => ValueV::NativeFunc(f),
        }
    }
}

/// Equality of values: by content for null, booleans, numbers (as
/// IEEE-754 compares them) and strings; by identity for vectors, maps,
/// closures and host functions.
pub open spec fn value_eq(l: Value, r: Value) -> bool {
    match (l, r) {
        (Value::Null, Value::Null) => true,
        (Value::Bool(a), Value::Bool(b)) => a == b,
        (Value::Number(a), Value::Number(b)) => number::num_eq(a, b),
        (Value::String(a), Value::String(b)) => a@ == b@,
        (Value::Vec(a), Value::Vec(b)) => a == b,
        (Value::Dict(a), Value::Dict(b)) => a == b,
        (Value::ASTClosure(a), Value::ASTClosure(b)) => a.id == b.id,
        (Value::BCClosure(a), Value::BCClosure(b)) => a.id == b.id,
        (Value::NativeFunc(a), Value::NativeFunc(b)) => a.index == b.index,
        _ => false,
    }
}

/// Truthiness: null is false, a boolean is itself, a number is true unless
/// it is zero, and everything else is true.
pub open spec fn truthy(v: Value) -> bool {
    match v {
        Value::Null => false,
        Value::Bool(b) => b,
        Value::Number(n) => !number::is_zero(n),
        _ => true,
    }
}

impl Clone for Value {
    fn clone(&self) -> (r: Self)
        ensures
            r == *self,
    {
        match self {
            Value::Null => Value::Null,
            Value::Bool(b) => Value::Bool(*b),
            Value::Number(n) => Value::Number(*n),
            Value::String(s) => Value::String(s.clone()),
            Value::Vec(h) => Value::Vec(*h),
            Value::Dict(h) => Value::Dict(*h),
            Value::ASTClosure(c) => Value::ASTClosure(c.clone()),
            Value::BCClosure(c) => Value::BCClosure(*c),
            Value::NativeFunc(f) => Value::NativeFunc(*f),
        }
    }
}

impl PartialEq for Value {
    fn eq(&self, other: &Value) -> (r: bool)
    {
        match (self, other) {
            (Value::Null, Value::Null) => true,
            (Value::Bool(a), Value::Bool(b)) => *a == *b,
            (Value::Number(a), Value::Number(b)) => number::eq(*a, *b),
            (Value::String(a), Value::String(b)) => *a == *b,
            (Value::Vec(a), Value::Vec(b)) => *a == *b,
            (Value::Dict(a), Value::Dict(b)) => *a == *b,
            (Value::ASTClosure(a), Value::ASTClosure(b)) => a.id == b.id,
            (Value::BCClosure(a), Value::BCClosure(b)) => a.id == b.id,
            (Value::NativeFunc(a), Value::NativeFunc(b)) => a.index == b.index,
            _ => false,
        }
    }
}

impl PartialEqSpecImpl for Value {
    open spec fn obeys_eq_spec() -> bool {
        true
    }

    open spec fn eq_spec(&self, other: &Value) -> bool {
        value_eq(*self, *other)
    }
}

impl Value {
    /// The string value that holds the characters of `s`.
    pub fn new_string(s: &str) -> (r: Value)
        ensures
            r@ == ValueV::String(s@),
    {
        Value::String(String::from_str(s))
    }

    /// The value of the host function registered under `index`.
    pub fn new_native_func(index: usize) -> (r: Value)
        ensures
            r == Value::NativeFunc(NativeFunc { index }),
    {
        Value::NativeFunc(NativeFunc::new(index))
    }

    /// Whether a test on this value succeeds.
    pub fn is_true(&self) -> (r: bool)
        ensures
            r == truthy(*self),
    {
        match self {
            Value::Null => false,
            Value::Bool(b) => *b,
            Value::Number(n) => !number::zero(*n),
            Value::String(_) => true,
            Value::Vec(_) => true,
            Value::Dict(_) => true,
            Value::ASTClosure(_) => true,
            Value::BCClosure(_) => true,
            Value::NativeFunc(_) => true,
        }
    }
}

} // verus!

verus! {

/// What a value is as a 64-bit integer: a boolean is 1 or 0, a number is
/// truncated; nothing else converts.
pub open spec fn as_i64_spec(v: Value) -> Result<i64, RunErrorV> {
    match v {
        Value::Null => Err(RunErrorV::NativeException(ValueV::String("can't convert null to i64"@))),
        Value::Bool(b) => Ok(
            if b {
                1i64
            } else {
                0i64
            },
        ),
        Value::Number(n) => Ok(number::truncated(n) as i64),
        Value::String(_) => Err(
            RunErrorV::NativeException(ValueV::String("can't convert string to i64"@)),
        ),
        Value::Vec(_) => Err(
            RunErrorV::NativeException(ValueV::String("can't convert vector to i64"@)),
        ),
        Value::Dict(_) => Err(RunErrorV::NativeException(ValueV::String("can't convert map to i64"@))),
        Value::ASTClosure(_) => Err(
            RunErrorV::NativeException(ValueV::String("can't convert closure to i64"@)),
        ),
        Value::BCClosure(_) => Err(
            RunErrorV::NativeException(ValueV::String("can't convert closure to i64"@)),
        ),
        Value::NativeFunc(_) => Err(
            RunErrorV::NativeException(ValueV::String("can't convert native function to i64"@)),
        ),
    }
}

/// What a value is as a number, given as a bit pattern: a boolean is 1.0
/// or 0.0, a number is itself; nothing else converts.
pub open spec fn as_number_spec(v: Value) -> Result<u64, RunErrorV> {
    match v {
        Value::Null => Err(RunErrorV::NativeException(ValueV::String("can't convert null to f64"@))),
        Value::Bool(b) => Ok(
            if b {
                number::ONE
            } else {
                number::ZERO
            },
        ),
        Value::Number(n) => Ok(n),
        Value::String(_) => Err(
            RunErrorV::NativeException(ValueV::String("can't convert string to f64"@)),
        ),
        Value::Vec(_) => Err(
            RunErrorV::NativeException(ValueV::String("can't convert vector to f64"@)),
        ),
        Value::Dict(_) => Err(RunErrorV::NativeException(ValueV::String("can't convert map to f64"@))),
        Value::ASTClosure(_) => Err(
            RunErrorV::NativeException(ValueV::String("can't convert closure to f64"@)),
        ),
        Value::BCClosure(_) => Err(
            RunErrorV::NativeException(ValueV::String("can't convert closure to f64"@)),
        ),
        Value::NativeFunc(_) => Err(
            RunErrorV::NativeException(ValueV::String("can't convert native function to f64"@)),
        ),
    }
}

/// The value bound to the first key of `entries` that equals `key`.
pub open spec fn map_find(entries: Seq<(Value, Value)>, key: Value) -> Option<Value>
    decreases entries.len(),
{
    if entries.len() == 0 {
        None
    } else if value_eq(entries[0].0, key) {
        Some(entries[0].1)
    } else {
        map_find(entries.subrange(1, entries.len() as int), key)
    }
}

/// `entries` without the keys that equal `key`, followed by the entry that
/// binds `key` to `val`.
pub open spec fn map_put(entries: Seq<(Value, Value)>, key: Value, val: Value) -> Seq<
    (Value, Value),
> {
    entries.filter(|e: (Value, Value)| !value_eq(e.0, key)).push((key, val))
}

/// The element of `container` at `index`.
///
/// A map gives the value of the first key equal to `index`. A vector takes
/// `index` as an integer and gives the element there. Anything else has no
/// elements. What is missing is a script exception at `loc`; a handle
/// without an object is a panic.
pub open spec fn element_of(container: Value, heap: HeapV, index: Value, loc: SrcLocV) -> Result<
    Value,
    RunErrorV,
> {
    match container {
        Value::Dict(h) => if h >= heap.maps.len() {
            Err(RunErrorV::panic("map handle without a map"@))
        } else {
            match map_find(heap.maps[h as int], index) {
                Some(v) => Ok(v),
                None => Err(RunErrorV::script(loc, "map doesn't contain key"@)),
            }
        },
        Value::Vec(h) => if h >= heap.vecs.len() {
            Err(RunErrorV::panic("vector handle without a vector"@))
        } else {
            match as_i64_spec(index) {
                Err(e) => Err(e.native_to_script(loc)),
                Ok(i) => if 0 <= i < heap.vecs[h as int].len() {
                    Ok(heap.vecs[h as int][i as int])
                } else {
                    Err(
                        RunErrorV::script(
                            loc,
                            "vector index out of bounds: "@ + signed_decimal(i as int),
                        ),
                    )
                },
            }
        },
        _ => Err(RunErrorV::script(loc, "trying to read element of non-container object"@)),
    }
}

/// Whether `container[index] = val` succeeds, and the error where it does
/// not.
pub open spec fn store_result(container: Value, heap: HeapV, index: Value, loc: SrcLocV) -> Result<
    (),
    RunErrorV,
> {
    match container {
        Value::Dict(h) => if h >= heap.maps.len() {
            Err(RunErrorV::panic("map handle without a map"@))
        } else {
            Ok(())
        },
        Value::Vec(h) => if h >= heap.vecs.len() {
            Err(RunErrorV::panic("vector handle without a vector"@))
        } else {
            match as_i64_spec(index) {
                Err(e) => Err(e.native_to_script(loc)),
                Ok(i) => if 0 <= i <= heap.vecs[h as int].len() {
                    Ok(())
                } else {
                    Err(
                        RunErrorV::script(
                            loc,
                            "vector index out of bounds: "@ + signed_decimal(i as int),
                        ),
                    )
                },
            }
        },
        _ => Err(RunErrorV::script(loc, "trying to assign to element of non-container object"@)),
    }
}

/// The heap after `container[index] = val`: a map binds `index` to `val`;
/// a vector replaces the element at `index`, or grows by one where `index`
/// is its length. Unchanged where the assignment fails.
pub open spec fn store_element(container: Value, heap: HeapV, index: Value, val: Value) -> HeapV {
    match container {
        Value::Dict(h) => if h >= heap.maps.len() {
            heap
        } else {
            heap.set_map(h, map_put(heap.maps[h as int], index, val))
        },
        Value::Vec(h) => if h >= heap.vecs.len() {
            heap
        } else {
            match as_i64_spec(index) {
                Err(_) => heap,
                Ok(i) => if 0 <= i < heap.vecs[h as int].len() {
                    heap.set_vec(h, heap.vecs[h as int].update(i as int, val))
                } else if i == heap.vecs[h as int].len() {
                    heap.set_vec(h, heap.vecs[h as int].push(val))
                } else {
                    heap
                },
            }
        },
        _ => heap,
    }
}

fn out_of_bounds(loc: &SrcLoc, i: i64) -> (r: RunError)
    ensures
        r@ == RunErrorV::script(loc@, "vector index out of bounds: "@ + signed_decimal(i as int)),
{
    let mut msg = String::from_str("vector index out of bounds: ");
    push_signed_decimal(&mut msg, i);
    RunError::ScriptException(loc.clone(), Value::String(msg))
}

impl Value {
    /// A new vector that holds `vec`.
    pub fn new_vector(heap: &mut Heap, vec: &[Value]) -> (r: Value)
        ensures
            r == Value::Vec(old(heap)@.vecs.len() as usize),
            final(heap)@ == old(heap)@.with_vec(vec@),
    {
        Value::Vec(heap.alloc_vec(crate::env::values_of(vec)))
    }

    /// The element at `index` of this vector or map.
    pub fn get_element(&self, heap: &Heap, index: &Value, loc: &SrcLoc) -> (r: Result<
        Value,
        RunError,
    >)
        ensures
            res_view(r) == element_of(*self, heap@, *index, loc@),
    {
        match self {
            Value::Dict(h) => match heap.map(*h) {
                Some(m) => match m.get(index) {
                    Some(v) => Ok(v),
                    None => Err(RunError::new_script(loc.clone(), "map doesn't contain key")),
                },
                None => Err(RunError::new_panic(None, "map handle without a map")),
            },
            Value::Vec(h) => match heap.vec(*h) {
                Some(v) => {
                    let i = match index.as_i64() {
                        Ok(i) => i,
                        Err(e) => {
                            return Err(e.native_to_script(loc));
                        },
                    };
                    if 0 <= i && (i as u64) < (v.len() as u64) {
                        Ok(v[i as usize].clone())
                    } else {
                        Err(out_of_bounds(loc, i))
                    }
                },
                None => Err(RunError::new_panic(None, "vector handle without a vector")),
            },
            _ => Err(
                RunError::new_script(
                    loc.clone(),
                    "trying to read element of non-container object",
                ),
            ),
        }
    }

    /// Stores `val` at `index` of this vector or map. A vector also takes
    /// its length as `index`, and grows by one.
    pub fn set_element(&self, heap: &mut Heap, index: Value, val: Value, loc: &SrcLoc) -> (r:
        Result<(), RunError>)
        ensures
            res_view(r) == store_result(*self, old(heap)@, index, loc@),
            final(heap)@ == store_element(*self, old(heap)@, index, val),
    {
        match self {
            Value::Dict(h) => {
                if heap.map(*h).is_some() {
                    heap.map_set(*h, index, val);
                    Ok(())
                } else {
                    Err(RunError::new_panic(None, "map handle without a map"))
                }
            },
            Value::Vec(h) => {
                let len = match heap.vec(*h) {
                    Some(v) => v.len(),
                    None => {
                        return Err(RunError::new_panic(None, "vector handle without a vector"));
                    },
                };
                let i = match index.as_i64() {
                    Ok(i) => i,
                    Err(e) => {
                        return Err(e.native_to_script(loc));
                    },
                };
                if 0 <= i && (i as u64) < (len as u64) {
                    heap.vec_set(*h, i as usize, val);
                    Ok(())
                } else if 0 <= i && (i as u64) == (len as u64) {
                    heap.vec_push(*h, val);
                    Ok(())
                } else {
                    Err(out_of_bounds(loc, i))
                }
            },
            _ => Err(
                RunError::new_script(
                    loc.clone(),
                    "trying to assign to element of non-container object",
                ),
            ),
        }
    }

    /// This value as a 64-bit integer.
    pub fn as_i64(&self) -> (r: Result<i64, RunError>)
        ensures
            res_view(r) == as_i64_spec(*self),
    {
        match self {
            Value::Null => Err(RunError::new_native_str("can't convert null to i64")),
            Value::Bool(b) => if *b {
                Ok(1)
            } else {
                Ok(0)
            },
            Value::Number(n) => Ok(number::to_i64(*n)),
            Value::String(_) => Err(RunError::new_native_str("can't convert string to i64")),
            Value::Vec(_) => Err(RunError::new_native_str("can't convert vector to i64")),
            Value::Dict(_) => Err(RunError::new_native_str("can't convert map to i64")),
            Value::ASTClosure(_) => Err(RunError::new_native_str("can't convert closure to i64")),
            Value::BCClosure(_) => Err(RunError::new_native_str("can't convert closure to i64")),
            Value::NativeFunc(_) => Err(
                RunError::new_native_str("can't convert native function to i64"),
            ),
        }
    }

    /// This value as a number, given as the bit pattern of an IEEE-754
    /// binary64 value.
    pub fn as_f64(&self) -> (r: Result<u64, RunError>)
        ensures
            res_view(r) == as_number_spec(*self),
    {
        match self {
            Value::Null => Err(RunError::new_native_str("can't convert null to f64")),
            Value::Bool(b) => if *b {
                Ok(number::ONE)
            } else {
                Ok(number::ZERO)
            },
            Value::Number(n) => Ok(*n),
            Value::String(_) => Err(RunError::new_native_str("can't convert string to f64")),
            Value::Vec(_) => Err(RunError::new_native_str("can't convert vector to f64")),
            Value::Dict(_) => Err(RunError::new_native_str("can't convert map to f64")),
            Value::ASTClosure(_) => Err(RunError::new_native_str("can't convert closure to f64")),
            Value::BCClosure(_) => Err(RunError::new_native_str("can't convert closure to f64")),
            Value::NativeFunc(_) => Err(
                RunError::new_native_str("can't convert native function to f64"),
            ),
        }
    }
}

/// The entries of a map, in the order in which their keys were last set.
#[derive(Debug)]
pub struct MapValue {
    pub entries: Vec<(Value, Value)>,
}

impl View for MapValue {
    type V = Seq<(Value, Value)>;

    open spec fn view(&self) -> Seq<(Value, Value)> {
        self.entries@
    }
}

impl MapValue {
    /// A map without entries.
    pub fn new() -> (r: MapValue)
        ensures
            r@ == Seq::<(Value, Value)>::empty(),
    {
        MapValue { entries: Vec::new() }
    }

    /// The map that holds `entries`.
    pub fn from_entries(entries: Vec<(Value, Value)>) -> (r: MapValue)
        ensures
            r@ == entries@,
    {
        MapValue { entries }
    }

    /// Binds `key` to `val`: every entry whose key equals `key` leaves, and
    /// the new entry comes last.
    pub fn set(&mut self, key: Value, val: Value)
        ensures
            final(self)@ == map_put(old(self)@, key, val),
    {
        let ghost keep = |e: (Value, Value)| !value_eq(e.0, key);
        let mut kept: Vec<(Value, Value)> = Vec::new();
        let mut i: usize = 0;
        while i < self.entries.len()
            invariant
                i <= self.entries.len(),
                *self == *old(self),
                keep == |e: (Value, Value)| !value_eq(e.0, key),
                kept@ == self.entries@.subrange(0, i as int).filter(keep),
            decreases self.entries.len() - i,
        {
            proof {
                reveal(Seq::filter);
                assert(self.entries@.subrange(0, i + 1).drop_last() =~= self.entries@.subrange(
                    0,
                    i as int,
                ));
            }
            if !(self.entries[i].0 == key) {
                kept.push((self.entries[i].0.clone(), self.entries[i].1.clone()));
            }
            i += 1;
        }
        assert(self.entries@.subrange(0, i as int) =~= self.entries@);
        kept.push((key, val));
        self.entries = kept;
    }

    /// The value bound to `key`: that of the first entry whose key equals
    /// `key`.
    pub fn get(&self, key: &Value) -> (r: Option<Value>)
        ensures
            r == map_find(self@, *key),
    {
        let mut i: usize = 0;
        assert(self@.subrange(0, self@.len() as int) =~= self@);
        while i < self.entries.len()
            invariant
                i <= self.entries.len(),
                map_find(self@, *key) == map_find(
                    self@.subrange(i as int, self@.len() as int),
                    *key,
                ),
            decreases self.entries.len() - i,
        {
            let ghost rest = self@.subrange(i as int, self@.len() as int);
            assert(rest.subrange(1, rest.len() as int) =~= self@.subrange(
                i + 1,
                self@.len() as int,
            ));
            if self.entries[i].0 == *key {
                return Some(self.entries[i].1.clone());
            }
            i += 1;
        }
        None
    }

    /// The entries.
    pub fn iter(&self) -> (r: &Vec<(Value, Value)>)
        ensures
            r@ == self@,
    {
        &self.entries
    }
}

} // verus!
