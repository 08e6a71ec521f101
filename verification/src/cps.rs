//! The first continuation-passing IR: functions over named locals, without a heap.

use crate::names::Symbol;
use vstd::prelude::*;

verus! {

/// A function in continuation-passing style.
#[derive(Debug)]
pub struct CpsFn {
    pub name: Symbol,
    pub args: Vec<Tydent>,
    pub cont: Symbol,
    pub ret: Tydent,
    pub body: Box<Body>,
}

/// A local variable: a function argument, a let-bound variable, or a continuation.
pub type Local = Symbol;

/// A refinement with the identifier that it is about.
#[derive(Debug)]
pub struct Tydent {
    pub ident: Local,
    pub reft: Reft,
}

/// A boolean or integer literal.
#[derive(Debug, Clone, Copy, PartialEq, Eq, Structural)]
pub enum Literal {
    Bool(bool),
    Int(i128),
}

/// A projection into a tuple.
pub type Projection = u32;

/// A local variable with projections into it.
#[derive(Debug)]
pub struct Path {
    pub ident: Local,
    pub projs: Vec<Projection>,
}

/// A path or a literal.
#[derive(Debug)]
pub enum Operand {
    Path(Path),
    Lit(Literal),
}

/// An operand, or an operation on operands.
#[derive(Debug)]
pub enum RValue {
    Op(Operand),
    Binary(RBinOp, Operand, Operand),
}

/// A binary operation on operands.
#[derive(Debug, Clone, Copy, PartialEq, Eq, Structural)]
pub enum RBinOp {
    CheckedAdd,
    Lt,
    Le,
    Eq,
    Ge,
    Gt,
}

/// A part of a function body.
#[derive(Debug)]
pub enum Body {
    Let(Local, RValue, Box<Body>),
    Cont(Local, Vec<Tydent>, Box<Body>, Box<Body>),
    Ite(Path, Box<Body>, Box<Body>),
    Call(Local, Vec<Path>, Local),
    Jump(Local, Vec<Path>),
    Abort,
}

/// A primitive type.
#[derive(Debug, Clone, Copy, PartialEq, Eq, Structural)]
pub enum BasicType {
    Bool,
    Int(IntTy),
}

/// The width and signedness of an integer type.
#[derive(Debug, Clone, Copy, PartialEq, Eq, Structural)]
pub enum IntTy {
    I8,
    I16,
    I32,
    I64,
    I128,
    U8,
    U16,
    U32,
    U64,
    U128,
}

/// A refinement type.
#[derive(Debug)]
pub enum Reft {
    Fn { args: Vec<Tydent>, ret: Box<Reft> },
    Reft { ty: BasicType, pred: Pred },
    Proj(Vec<Reft>),
}

/// A refinement predicate.
#[derive(Debug)]
pub enum Pred {
    Op(Operand),
    Binary(PredBinOp, Operand, Operand),
}

/// A binary operator of refinement predicates.
#[derive(Debug, Clone, Copy, PartialEq, Eq, Structural)]
pub enum PredBinOp {
    Add,
    Lt,
    Le,
    Eq,
    Ge,
    Gt,
}

} // verus!
