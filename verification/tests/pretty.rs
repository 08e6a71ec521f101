use liquid_rust::ast::pred::{BinOp, Constant, UnOp, Var};
use liquid_rust::ast::{BaseTy, Place, Proj};
use liquid_rust::diagnostics::fmt_expected;
use liquid_rust::names::{Field, Local, Location};
use liquid_rust::pretty::decimal_string;

#[test]
fn numerals() {
    assert_eq!(decimal_string(0), "0");
    assert_eq!(decimal_string(7), "7");
    assert_eq!(decimal_string(10), "10");
    assert_eq!(decimal_string(1234567890), "1234567890");
    assert_eq!(decimal_string(u128::MAX), "340282366920938463463374607431768211455");
}

#[test]
fn base_types_constants_and_operators() {
    assert_eq!(BaseTy::Unit.to_string(), "()");
    assert_eq!(BaseTy::Bool.to_string(), "bool");
    assert_eq!(BaseTy::Int.to_string(), "int");
    assert_eq!(Constant::Bool(true).to_string(), "true");
    assert_eq!(Constant::Bool(false).to_string(), "false");
    assert_eq!(Constant::Int(42).to_string(), "42");
    assert_eq!(Constant::Unit.to_string(), "()");
    assert_eq!(Var::Nu.to_string(), "v");
    assert_eq!(Var::Location(Location(12)).to_string(), "l$12");
    assert_eq!(Var::Field(Field(3)).to_string(), "f$3");
    let ops = [
        (BinOp::Add, "+"),
        (BinOp::Sub, "-"),
        (BinOp::Lt, "<"),
        (BinOp::Le, "<="),
        (BinOp::Eq, "="),
        (BinOp::Ge, ">="),
        (BinOp::Gt, ">"),
        (BinOp::Iff, "<=>"),
    ];
    for (op, text) in ops {
        assert_eq!(op.to_string(), text);
    }
    assert_eq!(UnOp::Not.to_string(), "!");
}

#[test]
fn pretty_places() {
    let p = |projs| Place::new(Local(1), projs).to_string();
    assert_eq!(p(vec![]), "_1");
    assert_eq!(p(vec![Proj::Field(0)]), "_1.0");
    assert_eq!(p(vec![Proj::Deref]), "*_1");
    assert_eq!(p(vec![Proj::Deref, Proj::Field(2)]), "(*_1).2");
    assert_eq!(p(vec![Proj::Field(3), Proj::Deref, Proj::Deref, Proj::Field(2), Proj::Field(10)]), "(**_1.3).2.10");
}

#[test]
fn expected_alternatives() {
    let s = |v: &[&str]| fmt_expected(&v.iter().map(|s| s.to_string()).collect());
    assert_eq!(s(&[]), "");
    assert_eq!(s(&["a"]), "Expected one of a");
    assert_eq!(s(&["a", "b"]), "Expected one of a or b");
    assert_eq!(s(&["a", "b", "c"]), "Expected one of a, b or c");
    assert_eq!(s(&["\"(\"", "\")\"", "ident", "int"]), "Expected one of \"(\", \")\", ident or int");
}
