//! Whole functions, from freshening to the obligation. The verdict on an obligation
//! is the business of a solver; here an obligation without predicate variables is
//! decided over a small range of values.

use liquid_rust::ast::pred::{self, BinOp as PredBinOp, Place as PredPlace, Pred, UnOp as PredUnOp, Var};
use liquid_rust::ast::{
    BaseTy, BinOp, Constant, ContDef, ContTy, FnBody, FnDecl, FnDef, Heap, Operand, Place,
    Program, Refine, Rvalue, Statement, StatementKind, Ty, TypeLayout,
};
use liquid_rust::constraint::Constraint;
use liquid_rust::freshen::NameFreshener;
use liquid_rust::names::{ContId, FnId, Local, Location};
use liquid_rust::refineck::check_fn_def;
use liquid_rust::ty::TyCtxt;
use std::collections::HashMap;

#[derive(Clone, Copy, PartialEq, Debug)]
enum Val {
    Unit,
    Bool(bool),
    Int(i128),
}

type Valuation = HashMap<Var, Val>;

fn eval(p: &Pred, rho: &Valuation) -> Val {
    match p {
        Pred::Constant(pred::Constant::Bool(b)) => Val::Bool(*b),
        Pred::Constant(pred::Constant::Int(n)) => Val::Int(*n as i128),
        Pred::Constant(pred::Constant::Unit) => Val::Unit,
        Pred::Place(place) => {
            assert!(place.projs.is_empty(), "no tuple is bound in these obligations");
            *rho.get(&place.base).unwrap_or_else(|| panic!("{:?} is not bound", place.base))
        }
        Pred::BinaryOp(op, l, r) => {
            let (l, r) = (eval(l, rho), eval(r, rho));
            match (op, l, r) {
                (PredBinOp::Eq, l, r) => Val::Bool(l == r),
                (PredBinOp::Iff, l, r) => Val::Bool((l == Val::Bool(true)) == (r == Val::Bool(true))),
                (PredBinOp::Add, Val::Int(a), Val::Int(b)) => Val::Int(a + b),
                (PredBinOp::Sub, Val::Int(a), Val::Int(b)) => Val::Int(a - b),
                (PredBinOp::Lt, Val::Int(a), Val::Int(b)) => Val::Bool(a < b),
                (PredBinOp::Le, Val::Int(a), Val::Int(b)) => Val::Bool(a <= b),
                (PredBinOp::Ge, Val::Int(a), Val::Int(b)) => Val::Bool(a >= b),
                (PredBinOp::Gt, Val::Int(a), Val::Int(b)) => Val::Bool(a > b),
                (PredBinOp::Add, _, _) | (PredBinOp::Sub, _, _) => Val::Int(0),
                _ => Val::Bool(false),
            }
        }
        Pred::UnaryOp(PredUnOp::Not, operand) => Val::Bool(eval(operand, rho) != Val::Bool(true)),
        Pred::Kvar(..) => panic!("a predicate variable is for the solver"),
    }
}

fn values(ty: BaseTy) -> Vec<Val> {
    match ty {
        BaseTy::Unit => vec![Val::Unit],
        BaseTy::Bool => vec![Val::Bool(false), Val::Bool(true)],
        BaseTy::Int => (-4..=6).map(Val::Int).collect(),
    }
}

/// Whether the obligation holds whatever value of the range each bound variable takes.
fn holds(c: &Constraint, rho: &mut Valuation) -> bool {
    match c {
        Constraint::Pred(p) => eval(p, rho) == Val::Bool(true),
        Constraint::Conj(cs) => cs.iter().all(|c| holds(c, rho)),
        Constraint::Guard(p, body) => eval(p, rho) != Val::Bool(true) || holds(body, rho),
        Constraint::Forall { bind, ty, hyp, body } => {
            let shadowed = rho.get(bind).copied();
            let mut ok = true;
            for value in values(*ty) {
                rho.insert(*bind, value);
                if eval(hyp, rho) == Val::Bool(true) && !holds(body, rho) {
                    ok = false;
                    break;
                }
            }
            match shadowed {
                Some(value) => rho.insert(*bind, value),
                None => rho.remove(bind),
            };
            ok
        }
    }
}

fn safe(c: &Constraint) -> bool {
    holds(c, &mut Valuation::new())
}

// Builders.

fn nu() -> Pred {
    Pred::Place(PredPlace::from_var(Var::Nu))
}

fn at(l: usize) -> Pred {
    Pred::Place(PredPlace::from_var(Var::Location(Location(l))))
}

fn lit(n: u128) -> Pred {
    Pred::Constant(pred::Constant::Int(n))
}

fn rel(op: PredBinOp, l: Pred, r: Pred) -> Pred {
    Pred::BinaryOp(op, Box::new(l), Box::new(r))
}

fn int_ty(p: Pred) -> Ty {
    Ty::Refine(BaseTy::Int, Refine::Pred(p))
}

fn tt() -> Pred {
    Pred::Constant(pred::Constant::Bool(true))
}

fn local(x: usize) -> Place {
    Place::from_local(Local(x))
}

fn seq(kind: StatementKind, rest: FnBody<()>) -> FnBody<()> {
    FnBody::Sequence(Statement { source_info: (), kind }, Box::new(rest))
}

fn new_local(x: usize, rest: FnBody<()>) -> FnBody<()> {
    seq(StatementKind::Let(Local(x), TypeLayout::Block(1)), rest)
}

fn assign(x: usize, rvalue: Rvalue, rest: FnBody<()>) -> FnBody<()> {
    seq(StatementKind::Assign(local(x), rvalue), rest)
}

fn jump(k: usize, args: Vec<usize>) -> FnBody<()> {
    FnBody::Jump { target: ContId(k), args: args.into_iter().map(Local).collect() }
}

fn copy(x: usize) -> Operand {
    Operand::Copy(local(x))
}

fn num(n: u128) -> Operand {
    Operand::Constant(Constant::Int(n))
}

/// A function of one integer argument, which returns an integer. The argument is the
/// local 1 at the location 10, the result is at the location 11, and the function
/// returns to the continuation 0.
fn function(pre: Pred, post: Pred, body: FnBody<()>) -> FnDef<()> {
    FnDef {
        ty: FnDecl {
            regions: vec![],
            in_heap: Heap(vec![(Location(10), int_ty(pre))]),
            inputs: vec![(Local(1), Location(10))],
            out_heap: Heap(vec![(Location(11), int_ty(post))]),
            outputs: vec![],
            output: Location(11),
        },
        params: vec![Local(1)],
        body,
        ret: ContId(0),
    }
}

/// The obligation of the one function of a program, which is known as function 7.
fn obligation(def: FnDef<()>) -> Option<Constraint> {
    let mut tcx = TyCtxt::new();
    let mut program = Program::new();
    program.add_fn(FnId(7), def);
    let program = NameFreshener::new().try_freshen(&mut tcx, program)?;
    let mut fns = program.into_vec();
    let (id, def) = fns.pop().unwrap();
    let sigs = vec![(
        id,
        FnDecl {
            regions: def.ty.regions.clone(),
            in_heap: def.ty.in_heap.clone(),
            inputs: def.ty.inputs.clone(),
            out_heap: def.ty.out_heap.clone(),
            outputs: def.ty.outputs.clone(),
            output: def.ty.output,
        },
    )];
    check_fn_def(&mut tcx, &sigs, &def)
}

fn ge(l: Pred, r: Pred) -> Pred {
    rel(PredBinOp::Ge, l, r)
}

/// `f(x: {v >= 0}) -> {v >= x} = x + 2`
fn identity_like(post: Pred) -> FnDef<()> {
    function(
        ge(nu(), lit(0)),
        post,
        new_local(2, assign(2, Rvalue::BinaryOp(BinOp::Add, copy(1), num(2)), jump(0, vec![2]))),
    )
}

#[test]
fn identity_like_is_safe() {
    let c = obligation(identity_like(ge(nu(), at(10)))).expect("the function is well formed");
    assert!(safe(&c));
}

#[test]
fn identity_like_has_the_expected_obligation() {
    // After freshening the argument is at location 0, the result at location 1; the
    // let takes location 2 and the assignment location 3.
    let c = obligation(identity_like(ge(nu(), at(10)))).unwrap();
    let sum = rel(PredBinOp::Add, at(0), lit(2));
    let forall = |bind: Var, hyp: Pred, body: Constraint| Constraint::Forall {
        bind,
        ty: BaseTy::Int,
        hyp,
        body: Box::new(body),
    };
    let passes = forall(Var::Nu, rel(PredBinOp::Eq, nu(), at(3)), Constraint::Pred(ge(nu(), at(0))));
    let expected = forall(
        Var::Location(Location(0)),
        ge(at(0), lit(0)),
        Constraint::Conj(vec![
            Constraint::Conj(vec![]),
            Constraint::Conj(vec![
                Constraint::Conj(vec![]),
                forall(
                    Var::Location(Location(3)),
                    rel(PredBinOp::Eq, at(3), sum),
                    Constraint::Conj(vec![passes]),
                ),
            ]),
        ]),
    );
    assert_eq!(c, expected);
}

#[test]
fn identity_like_with_too_strong_a_result_is_unsafe() {
    // v >= x + 3 does not hold of x + 2.
    let post = ge(nu(), rel(PredBinOp::Add, at(10), lit(3)));
    let c = obligation(identity_like(post)).expect("the function is well formed");
    assert!(!safe(&c));
}

/// `abs(n: {true}) -> post = if n < 0 { 0 - n } else { n }`
fn abs(post: Pred) -> FnDef<()> {
    function(
        tt(),
        post,
        new_local(
            2,
            assign(
                2,
                Rvalue::BinaryOp(BinOp::Lt, copy(1), num(0)),
                FnBody::Ite {
                    discr: local(2),
                    then: Box::new(new_local(
                        3,
                        assign(3, Rvalue::BinaryOp(BinOp::Sub, num(0), copy(1)), jump(0, vec![3])),
                    )),
                    else_: Box::new(jump(0, vec![1])),
                },
            ),
        ),
    )
}

#[test]
fn absolute_value_is_safe() {
    let c = obligation(abs(ge(nu(), lit(0)))).expect("the function is well formed");
    assert!(safe(&c));
}

#[test]
fn absolute_value_is_not_strictly_positive() {
    let c = obligation(abs(rel(PredBinOp::Gt, nu(), lit(0)))).expect("the function is well formed");
    assert!(!safe(&c));
}

/// `sum(n: {v >= 0}) -> post = if n == 0 { 0 } else { n + sum(n - 1) }`
///
/// The continuation 5 takes over after the recursive call: it expects the argument
/// where it is, and the result of the call, which is not negative, in the local 6.
fn sum(post: Pred) -> FnDef<()> {
    let after_call = ContDef {
        name: ContId(5),
        params: vec![],
        body: Box::new(new_local(
            7,
            assign(7, Rvalue::BinaryOp(BinOp::Add, copy(1), copy(6)), jump(0, vec![7])),
        )),
        ty: ContTy {
            heap: Heap(vec![(Location(20), int_ty(ge(nu(), lit(0))))]),
            locals: vec![(Local(1), Location(10)), (Local(6), Location(20))],
            inputs: vec![],
        },
    };
    function(
        ge(nu(), lit(0)),
        post,
        new_local(
            2,
            assign(
                2,
                Rvalue::BinaryOp(BinOp::Eq, copy(1), num(0)),
                FnBody::Ite {
                    discr: local(2),
                    then: Box::new(new_local(3, assign(3, Rvalue::Use(num(0)), jump(0, vec![3])))),
                    else_: Box::new(new_local(
                        4,
                        assign(
                            4,
                            Rvalue::BinaryOp(BinOp::Sub, copy(1), num(1)),
                            new_local(
                                6,
                                FnBody::LetCont(
                                    vec![after_call],
                                    Box::new(FnBody::Call {
                                        func: FnId(7),
                                        args: vec![Local(4)],
                                        destination: Some((local(6), ContId(5))),
                                    }),
                                ),
                            ),
                        ),
                    )),
                },
            ),
        ),
    )
}

#[test]
fn recursive_sum_is_safe() {
    let c = obligation(sum(ge(nu(), at(10)))).expect("the function is well formed");
    assert!(safe(&c));
}

#[test]
fn recursive_sum_with_a_strict_bound_is_unsafe() {
    // At n == 0 the function returns 0, which is not above n.
    let c = obligation(sum(rel(PredBinOp::Gt, nu(), at(10)))).expect("the function is well formed");
    assert!(!safe(&c));
}

#[test]
fn ill_formed_functions_have_no_obligation() {
    // A jump to a continuation that nothing defines does not even freshen.
    assert_eq!(obligation(function(tt(), tt(), jump(9, vec![1]))), None);
    // A branch on a place that holds no boolean.
    let branch = FnBody::Ite {
        discr: local(1),
        then: Box::new(FnBody::Abort),
        else_: Box::new(FnBody::Abort),
    };
    assert_eq!(obligation(function(tt(), tt(), branch)), None);
    // A jump with too many arguments.
    assert_eq!(obligation(function(tt(), tt(), jump(0, vec![1, 1]))), None);
    // A call with too few arguments.
    let call = FnBody::Call { func: FnId(7), args: vec![], destination: None };
    assert_eq!(obligation(function(tt(), tt(), call)), None);
    // An aborting body asks for nothing.
    assert!(safe(&obligation(function(tt(), tt(), FnBody::Abort)).unwrap()));
}

#[test]
fn a_function_that_returns_its_argument_is_safe() {
    // f(x: T) -> T = x: what is handed back unchanged passes for its own type.
    for bound in [0u128, 5] {
        let def = function(ge(nu(), lit(bound)), ge(nu(), lit(bound)), jump(0, vec![1]));
        let c = obligation(def).expect("the function is well formed");
        assert!(safe(&c));
    }
    // It does not pass for a type that asks more.
    let def = function(ge(nu(), lit(0)), ge(nu(), lit(1)), jump(0, vec![1]));
    assert!(!safe(&obligation(def).expect("the function is well formed")));
}
