use liquid_rust::ast::pred::{BinOp, Constant, Place as PredPlace, Pred, UnOp, Var as PredVar};
use liquid_rust::ast::{BaseTy, Heap, Refine, Ty};
use liquid_rust::lower::support::LowerError;
use liquid_rust::lower::{Lower, LowerCtx};
use liquid_rust::names::{Field, Location};
use liquid_rust::surface::{
    self, BinOpKind, FnTy, FnTyKind, Ident, Place, Predicate, PredicateKind, TyKind, UnOpKind, Var,
};

fn place(base: Var) -> Predicate {
    Predicate { kind: PredicateKind::Place(Place { base, projs: vec![] }) }
}

fn lit(n: u128) -> Predicate {
    Predicate { kind: PredicateKind::Lit(Constant::Int(n)) }
}

fn bin(kind: BinOpKind, l: Predicate, r: Predicate) -> Predicate {
    Predicate { kind: PredicateKind::BinaryOp(surface::BinOp { kind }, Box::new(l), Box::new(r)) }
}

fn refined(p: Predicate) -> surface::Ty {
    surface::Ty { kind: TyKind::Refined(None, BaseTy::Int, p) }
}

fn var(v: PredVar) -> Pred {
    Pred::Place(PredPlace::from_var(v))
}

#[test]
fn context_hands_out_identifiers_in_order() {
    let mut lcx = LowerCtx::new();
    assert_eq!(lcx.fresh(), 0);
    assert_eq!(lcx.define(Var::Location(Ident(7))), 1);
    assert_eq!(lcx.fresh(), 2);
    // A bound name stands for what it was bound to; the kinds of variables do not mix.
    assert_eq!(lcx.try_get(Var::Location(Ident(7))), 1);
    assert_eq!(lcx.try_get(Var::Field(Ident(7))), 3);
    assert_eq!(lcx.try_get(Var::Field(Ident(7))), 3);
    assert_eq!(lcx.try_get(Var::Nu), 4);
    assert_eq!(lcx.try_get(Var::Nu), 4);
    // Binding a name again gives it a new identifier.
    assert_eq!(lcx.define(Var::Location(Ident(7))), 5);
    assert_eq!(lcx.try_get(Var::Location(Ident(7))), 5);
    assert!(lcx.has_fresh());
}

#[test]
fn operators() {
    let mut lcx = LowerCtx::new();
    assert_eq!(surface::UnOp { kind: UnOpKind::Not }.lower(&mut lcx), UnOp::Not);
    assert!(surface::UnOp { kind: UnOpKind::Not }.is_supported());
    assert!(!surface::UnOp { kind: UnOpKind::Neg }.is_supported());
    let pairs = [
        (BinOpKind::Add, BinOp::Add),
        (BinOpKind::Sub, BinOp::Sub),
        (BinOpKind::Lt, BinOp::Lt),
        (BinOpKind::Le, BinOp::Le),
        (BinOpKind::Eq, BinOp::Eq),
        (BinOpKind::Ge, BinOp::Ge),
        (BinOpKind::Gt, BinOp::Gt),
    ];
    for (kind, op) in pairs {
        assert!(surface::BinOp { kind }.is_supported());
        assert_eq!(surface::BinOp { kind }.lower(&mut lcx), op);
    }
    for kind in [BinOpKind::Mul, BinOpKind::Div, BinOpKind::Rem, BinOpKind::And, BinOpKind::Or, BinOpKind::Neq] {
        assert!(!surface::BinOp { kind }.is_supported());
    }
    assert_eq!(lcx.fresh(), 0);
}

#[test]
fn base_types_get_the_trivial_refinement() {
    let mut lcx = LowerCtx::new();
    let ty = surface::Ty { kind: TyKind::Base(BaseTy::Bool) }.lower(&mut lcx);
    assert_eq!(ty, Ty::Refine(BaseTy::Bool, Refine::Pred(Pred::Constant(Constant::Bool(true)))));
}

#[test]
fn predicates_resolve_names_from_left_to_right() {
    let mut lcx = LowerCtx::new();
    // !(x + y >= x), with x and y yet unbound.
    let x = || place(Var::Location(Ident(10)));
    let y = || place(Var::Location(Ident(11)));
    let p = Predicate {
        kind: PredicateKind::UnaryOp(
            surface::UnOp { kind: UnOpKind::Not },
            Box::new(bin(BinOpKind::Ge, bin(BinOpKind::Add, x(), y()), x())),
        ),
    };
    let lowered = Lower::lower(p, &mut lcx);
    let l = |n| var(PredVar::Location(Location(n)));
    assert_eq!(
        lowered,
        Pred::UnaryOp(
            UnOp::Not,
            Box::new(Pred::BinaryOp(
                BinOp::Ge,
                Box::new(Pred::BinaryOp(BinOp::Add, Box::new(l(0)), Box::new(l(1)))),
                Box::new(l(0)),
            )),
        )
    );
}

#[test]
fn tuples_scope_their_fields() {
    let mut lcx = LowerCtx::new();
    // (a: int, b: {v >= a}), then a reference to the field a from outside the tuple.
    let tuple = surface::Ty {
        kind: TyKind::Tuple(vec![
            (Ident(1), surface::Ty { kind: TyKind::Base(BaseTy::Int) }),
            (Ident(2), refined(bin(BinOpKind::Ge, place(Var::Nu), place(Var::Field(Ident(1)))))),
        ]),
    };
    let lowered = tuple.lower(&mut lcx);
    assert_eq!(
        lowered,
        Ty::Tuple(vec![
            (Field(0), Ty::Refine(BaseTy::Int, Refine::Pred(Pred::Constant(Constant::Bool(true))))),
            (
                Field(1),
                Ty::Refine(
                    BaseTy::Int,
                    Refine::Pred(Pred::BinaryOp(
                        BinOp::Ge,
                        Box::new(var(PredVar::Nu)),
                        Box::new(var(PredVar::Field(Field(0)))),
                    )),
                ),
            ),
        ])
    );
    // Outside the tuple the name of the field is unbound again.
    assert_eq!(lcx.try_get(Var::Field(Ident(1))), 2);
}

#[test]
fn function_types() {
    // (x: {v >= 0}, y: {v >= x}) -> {v >= x + y}
    let f = FnTy {
        kind: FnTyKind {
            args: vec![
                (Ident(1), refined(bin(BinOpKind::Ge, place(Var::Nu), lit(0)))),
                (Ident(2), refined(bin(BinOpKind::Ge, place(Var::Nu), place(Var::Location(Ident(1)))))),
            ],
            output: Box::new(refined(bin(
                BinOpKind::Ge,
                place(Var::Nu),
                bin(BinOpKind::Add, place(Var::Location(Ident(1))), place(Var::Location(Ident(2)))),
            ))),
        },
    };
    let mut lcx = LowerCtx::new();
    let lowered = f.lower(&mut lcx);
    let ge = |r: Pred| {
        Ty::Refine(BaseTy::Int, Refine::Pred(Pred::BinaryOp(BinOp::Ge, Box::new(var(PredVar::Nu)), Box::new(r))))
    };
    let l = |n| var(PredVar::Location(Location(n)));
    let x = ge(Pred::Constant(Constant::Int(0)));
    let y = ge(l(0));
    let out = ge(Pred::BinaryOp(BinOp::Add, Box::new(l(0)), Box::new(l(1))));
    assert_eq!(lowered.inputs, vec![Location(0), Location(1)]);
    assert_eq!(lowered.in_heap, Heap(vec![(Location(0), x.clone()), (Location(1), y.clone())]));
    assert_eq!(lowered.output, Location(2));
    assert_eq!(
        lowered.out_heap,
        Heap(vec![(Location(0), x), (Location(1), y), (Location(2), out)])
    );
}

#[test]
fn a_late_annotation_refers_to_an_earlier_parameter() {
    // (x: {v >= y}, y: int) -> int: the name y is bound where it is first met.
    let f = FnTy {
        kind: FnTyKind {
            args: vec![
                (Ident(1), refined(bin(BinOpKind::Ge, place(Var::Nu), place(Var::Location(Ident(2)))))),
                (Ident(2), surface::Ty { kind: TyKind::Base(BaseTy::Int) }),
            ],
            output: Box::new(surface::Ty { kind: TyKind::Base(BaseTy::Int) }),
        },
    };
    let mut lcx = LowerCtx::new();
    let lowered = f.lower(&mut lcx);
    assert_eq!(lowered.inputs, vec![Location(0), Location(1)]);
    assert_eq!(lowered.output, Location(2));
    match &lowered.in_heap.0[0].1 {
        Ty::Refine(_, Refine::Pred(Pred::BinaryOp(_, _, rhs))) => {
            assert_eq!(**rhs, var(PredVar::Location(Location(1))))
        }
        _ => panic!("the type changed its shape"),
    }
}

fn neg(p: Predicate) -> Predicate {
    Predicate { kind: PredicateKind::UnaryOp(surface::UnOp { kind: UnOpKind::Neg }, Box::new(p)) }
}

/// `(a: int, b: {v >= -a})`: the second field uses an operator that the logic lacks.
fn tuple_with_negation() -> surface::Ty {
    surface::Ty {
        kind: TyKind::Tuple(vec![
            (Ident(1), surface::Ty { kind: TyKind::Base(BaseTy::Int) }),
            (Ident(2), refined(bin(BinOpKind::Ge, place(Var::Nu), neg(place(Var::Field(Ident(1))))))),
        ]),
    }
}

#[test]
fn a_tuple_that_fails_closes_its_scope() {
    let mut lcx = LowerCtx::new();
    assert_eq!(tuple_with_negation().try_lower(&mut lcx), None);
    // The first field was bound, to 0, and the second, to 1, before the operator was
    // met. Outside the tuple neither is bound: the name gets the next identifier.
    assert_eq!(lcx.try_get(Var::Field(Ident(1))), 2);
    assert_eq!(lcx.try_get(Var::Field(Ident(2))), 3);
}

#[test]
fn what_the_logic_lacks_is_told_from_the_rest() {
    let mut lcx = LowerCtx::new();
    assert!(!tuple_with_negation().is_supported());
    assert_eq!(tuple_with_negation().lower_or_error(&mut lcx), Err(LowerError::Unsupported));
    // Nothing was bound and no identifier handed out.
    assert_eq!(lcx.fresh(), 0);
    assert_eq!(neg(lit(1)).lower_or_error(&mut lcx), Err(LowerError::Unsupported));
    assert!(!neg(lit(1)).is_supported());
    assert!(bin(BinOpKind::Add, lit(1), lit(2)).is_supported());
    assert_eq!(
        bin(BinOpKind::Add, lit(1), lit(2)).lower_or_error(&mut lcx),
        Ok(Pred::BinaryOp(
            BinOp::Add,
            Box::new(Pred::Constant(Constant::Int(1))),
            Box::new(Pred::Constant(Constant::Int(2))),
        ))
    );
    let f = |output: surface::Ty| FnTy {
        kind: FnTyKind {
            args: vec![(Ident(1), surface::Ty { kind: TyKind::Base(BaseTy::Int) })],
            output: Box::new(output),
        },
    };
    assert!(!f(refined(neg(lit(1)))).is_supported());
    assert!(matches!(f(refined(neg(lit(1)))).lower_or_error(&mut lcx), Err(LowerError::Unsupported)));
    assert_eq!(lcx.fresh(), 1);
    assert!(f(refined(lit(1))).is_supported());
    match f(refined(lit(1))).lower_or_error(&mut lcx) {
        Ok(ty) => {
            assert_eq!(ty.inputs, vec![Location(2)]);
            assert_eq!(ty.output, Location(3));
        }
        Err(e) => panic!("no lowering: {:?}", e),
    }
}
