use bleepscript::ast::analysis::{InternalState, State};
use bleepscript::parser::ops::{Assoc, OpTable};
use bleepscript::parser::token::Keyword;
use bleepscript::src_loc::SrcLoc;
use bleepscript::sym_tab::SymTab;
use bleepscript::text::{join2, join3, push_decimal, push_signed_decimal};

fn names(list: &[&str]) -> Vec<String> {
    list.iter().map(|s| s.to_string()).collect()
}

#[test]
fn global_names_get_consecutive_slots() {
    let mut sym = SymTab::new_global();
    assert_eq!(sym.add_name("a"), 0);
    assert_eq!(sym.add_name("b"), 1);
    assert_eq!(sym.add_name("a"), 0);
    assert_eq!(sym.get_name("b"), Some((1, 0)));
    assert_eq!(sym.get_name("c"), None);
    assert_eq!(sym.depth(), 1);
}

#[test]
fn inner_scopes_shadow_outer_ones() {
    let mut sym = SymTab::new_global();
    sym.add_name("x");
    sym.add_name("y");
    let mut sym = SymTab::new(sym, &names(&["p", "x"]));
    assert_eq!(sym.get_name("x"), Some((1, 0)));
    assert_eq!(sym.get_name("p"), Some((0, 0)));
    assert_eq!(sym.get_name("y"), Some((1, 1)));
    sym.push(&names(&["y"]));
    assert_eq!(sym.get_name("y"), Some((0, 0)));
    assert_eq!(sym.get_name("x"), Some((1, 1)));
    assert_eq!(sym.get_name("p"), Some((0, 1)));
    sym.pop();
    assert_eq!(sym.get_name("y"), Some((1, 1)));
    assert_eq!(sym.depth(), 2);
}

#[test]
fn a_name_listed_twice_has_its_later_slot() {
    let sym = SymTab::new(SymTab::new_global(), &names(&["a", "b", "a"]));
    assert_eq!(sym.get_name("a"), Some((2, 0)));
    assert_eq!(sym.names(1).unwrap().len(), 3);
    assert!(sym.names(2).is_none());
}

#[test]
fn analysis_state_starts_without_break() {
    let loc = SrcLoc::new("f", 1, 1);
    let mut st = State::new();
    assert!(!InternalState::new().allow_break);
    assert!(!st.allow_break(&loc).unwrap());
    st.save_state();
    assert!(!st.allow_break(&loc).unwrap());
    st.set_allow_break(true, &loc).unwrap();
    assert!(st.allow_break(&loc).unwrap());
    st.save_state();
    assert!(!st.allow_break(&loc).unwrap());
    st.restore_state(&loc).unwrap();
    assert!(st.allow_break(&loc).unwrap());
    st.restore_state(&loc).unwrap();
    assert!(!st.allow_break(&loc).unwrap());
}

#[test]
fn analysis_state_without_levels_fails() {
    let loc = SrcLoc::new("f", 2, 3);
    let mut st = State::new();
    st.restore_state(&loc).unwrap();
    let e = st.restore_state(&loc).unwrap_err();
    assert_eq!(e.to_string(), "f:2:3: invalid anaylsis state");
    assert!(st.allow_break(&loc).is_err());
    assert!(st.set_allow_break(true, &loc).is_err());
}

#[test]
fn operators_are_found_by_kind_and_name() {
    let mut ops = OpTable::new();
    ops.add("-", 60, Assoc::Left);
    ops.add("-", 80, Assoc::Prefix);
    ops.add("^", 90, Assoc::Right);
    assert!(ops.is_binary("-"));
    assert!(ops.is_prefix("-"));
    assert!(ops.is_binary("^"));
    assert!(!ops.is_prefix("^"));
    assert!(ops.is_operator("^"));
    assert!(!ops.is_operator("+"));
    let minus = ops.get_binary("-").unwrap();
    assert_eq!((minus.name.as_str(), minus.prec, minus.assoc), ("-", 60, Assoc::Left));
    let neg = ops.get_prefix("-").unwrap();
    assert_eq!((neg.prec, neg.assoc), (80, Assoc::Prefix));
    assert!(ops.get_prefix("^").is_none());
    assert!(ops.get_binary("+").is_none());
}

#[test]
fn an_operator_added_again_replaces_the_first() {
    let mut ops = OpTable::new();
    ops.add("+", 60, Assoc::Left);
    ops.add("+", 70, Assoc::Right);
    let plus = ops.get_binary("+").unwrap();
    assert_eq!((plus.prec, plus.assoc), (70, Assoc::Right));
}

#[test]
fn keywords_and_their_words() {
    let all = [
        (Keyword::Include, "include"),
        (Keyword::Function, "function"),
        (Keyword::Var, "var"),
        (Keyword::If, "if"),
        (Keyword::Else, "else"),
        (Keyword::While, "while"),
        (Keyword::Break, "break"),
        (Keyword::Return, "return"),
    ];
    for (k, word) in all {
        assert_eq!(k.to_ident(), word);
        assert_eq!(Keyword::from_ident(word), Some(k));
    }
    assert_eq!(Keyword::from_ident("whilst"), None);
    assert_eq!(Keyword::from_ident(""), None);
    assert_eq!(Keyword::from_ident("If"), None);
}

#[test]
fn places_are_written_with_line_and_column() {
    let loc = SrcLoc::new("dir/file.bs", 12, 0);
    assert_eq!(loc.to_string(), "dir/file.bs:12:0");
    let at = loc.new_at(4294967295, 7);
    assert_eq!(at.to_string(), "dir/file.bs:4294967295:7");
    assert_eq!(loc.clone().to_string(), loc.to_string());
}

#[test]
fn decimal_notation() {
    let mut s = String::from("n=");
    push_decimal(&mut s, 0);
    s.push(',');
    push_decimal(&mut s, 7);
    s.push(',');
    push_decimal(&mut s, 1234567890);
    s.push(',');
    push_decimal(&mut s, u64::MAX);
    assert_eq!(s, "n=0,7,1234567890,18446744073709551615");
    let mut t = String::new();
    push_signed_decimal(&mut t, -42);
    t.push(' ');
    push_signed_decimal(&mut t, i64::MIN);
    t.push(' ');
    push_signed_decimal(&mut t, i64::MAX);
    t.push(' ');
    push_signed_decimal(&mut t, 0);
    assert_eq!(t, "-42 -9223372036854775808 9223372036854775807 0");
    assert_eq!(join2("ab", "cd"), "abcd");
    assert_eq!(join3("a", "", "c"), "ac");
}
