use bleepscript::env::{Env, GLOBAL};
use bleepscript::errors::RunError;
use bleepscript::value::Value;

fn n(x: f64) -> Value {
    Value::Number(x.to_bits())
}

fn panic_text(e: RunError) -> String {
    match e {
        RunError::Panic(None, s) => s,
        other => panic!("expected a panic, got {:?}", other),
    }
}

#[test]
fn new_global_has_one_empty_frame() {
    let env = Env::new_global();
    assert_eq!(env.frame_count(), 1);
    assert_eq!(env.size(GLOBAL), 0);
    assert_eq!(env.parent(GLOBAL), None);
}

#[test]
fn grow_adds_a_null_slot_to_the_global_frame() {
    let mut env = Env::new_global();
    env.grow();
    env.grow();
    assert_eq!(env.size(GLOBAL), 2);
    assert_eq!(env.get_value(GLOBAL, 1, 0).unwrap(), Value::Null);
}

#[test]
fn frames_chain_to_their_parents() {
    let mut env = Env::new_global();
    env.grow();
    env.set_value(GLOBAL, 0, 0, n(1.0)).unwrap();
    let a = env.new(GLOBAL, &[n(2.0), n(3.0)]);
    let b = env.new(a, &[n(4.0)]);
    assert_eq!(a, 1);
    assert_eq!(b, 2);
    assert_eq!(env.parent(b), Some(a));
    assert_eq!(env.size(a), 2);
    assert_eq!(env.size(b), 1);
    assert_eq!(env.size(9), 0);
    assert_eq!(env.get_value(b, 0, 0).unwrap(), n(4.0));
    assert_eq!(env.get_value(b, 1, 1).unwrap(), n(3.0));
    assert_eq!(env.get_value(b, 0, 2).unwrap(), n(1.0));
}

#[test]
fn writes_are_seen_through_every_child() {
    let mut env = Env::new_global();
    let a = env.new(GLOBAL, &[n(1.0)]);
    let b = env.new(a, &[]);
    let c = env.new(a, &[]);
    env.set_value(b, 0, 1, n(9.0)).unwrap();
    assert_eq!(env.get_value(c, 0, 1).unwrap(), n(9.0));
    assert_eq!(env.get_value(a, 0, 0).unwrap(), n(9.0));
    assert_eq!(env.size(a), 1);
}

#[test]
fn invalid_slot_is_a_panic() {
    let mut env = Env::new_global();
    let a = env.new(GLOBAL, &[n(1.0)]);
    assert_eq!(
        panic_text(env.get_value(a, 1, 0).unwrap_err()),
        "Env::get_value() with invalid val_index: 1"
    );
    assert_eq!(
        panic_text(env.set_value(a, 5, 0, Value::Null).unwrap_err()),
        "Env::set_value() with invalid val_index: 5"
    );
}

#[test]
fn walking_past_the_root_is_a_panic() {
    let mut env = Env::new_global();
    let a = env.new(GLOBAL, &[n(1.0)]);
    assert_eq!(
        panic_text(env.get_value(a, 0, 3).unwrap_err()),
        "Env::get_value() with with invalid env_index: reached root with env_index = 2"
    );
    assert_eq!(
        panic_text(env.set_value(GLOBAL, 0, 1, Value::Null).unwrap_err()),
        "Env::set_value() with with invalid env_index: reached root with env_index = 1"
    );
}

#[test]
fn unknown_frame_is_a_panic() {
    let env = Env::new_global();
    assert_eq!(
        panic_text(env.get_value(4, 0, 0).unwrap_err()),
        "Env::get_value() with invalid frame"
    );
}

#[test]
fn partial_frames_are_padded_with_null() {
    let mut env = Env::new_global();
    let a = env.new_partial(GLOBAL, &[n(1.0)], 3);
    assert_eq!(env.size(a), 3);
    assert_eq!(env.get_value(a, 0, 0).unwrap(), n(1.0));
    assert_eq!(env.get_value(a, 2, 0).unwrap(), Value::Null);
    let b = env.new_partial(GLOBAL, &[n(1.0), n(2.0)], 1);
    assert_eq!(env.size(b), 2);
}

#[test]
fn set_global_grows_as_far_as_needed() {
    let mut env = Env::new_global();
    env.set_global(2, n(7.0));
    assert_eq!(env.size(GLOBAL), 3);
    assert_eq!(env.get_value(GLOBAL, 0, 0).unwrap(), Value::Null);
    assert_eq!(env.get_value(GLOBAL, 2, 0).unwrap(), n(7.0));
    env.set_global(0, n(8.0));
    assert_eq!(env.size(GLOBAL), 3);
    assert_eq!(env.get_value(GLOBAL, 0, 0).unwrap(), n(8.0));
}
