use liquid_rust::ast::pred::{BinOp, Constant, Place as PredPlace, Pred, Var};
use liquid_rust::ast::{
    self, BaseTy, ContDef, ContTy, FnBody, FnDecl, FnDef, Heap, Place, Program, Proj, Refine,
    Statement, StatementKind, Ty, TypeLayout,
};
use liquid_rust::freshen::NameFreshener;
use liquid_rust::names::{ContId, Field, FnId, Local, Location};
use liquid_rust::ty::TyCtxt;

fn int_ge(l: Location) -> Ty {
    Ty::Refine(
        BaseTy::Int,
        Refine::Pred(Pred::BinaryOp(
            BinOp::Ge,
            Box::new(Pred::Place(PredPlace::from_var(Var::Nu))),
            Box::new(Pred::Place(PredPlace::from_var(Var::Location(l)))),
        )),
    )
}

fn int_true() -> Ty {
    Ty::Refine(BaseTy::Int, Refine::Pred(Pred::Constant(Constant::Bool(true))))
}

/// `fn f(l7: int; x3: own(l7)) ret k9(l8: {v >= l7}; own(l8)) = let x4 = new(1); jump k9(x4)`
fn sample() -> FnDef<u8> {
    let l7 = Location(7);
    let l8 = Location(8);
    FnDef {
        ty: FnDecl {
            regions: vec![],
            in_heap: Heap(vec![(l7, int_true())]),
            inputs: vec![(Local(3), l7)],
            out_heap: Heap(vec![(l8, int_ge(l7))]),
            outputs: vec![],
            output: l8,
        },
        params: vec![Local(3)],
        body: FnBody::Sequence(
            Statement { source_info: 42, kind: StatementKind::Let(Local(4), TypeLayout::Block(1)) },
            Box::new(FnBody::Jump { target: ContId(9), args: vec![Local(4), Local(3)] }),
        ),
        ret: ContId(9),
    }
}

#[test]
fn freshen_renames_binders_and_references() {
    let mut tcx = TyCtxt::new();
    let mut program = Program::new();
    program.add_fn(FnId(5), sample());
    let fresh = NameFreshener::new().freshen(&mut tcx, program);
    let fns = fresh.into_vec();
    assert_eq!(fns.len(), 1);
    let (id, def) = &fns[0];
    assert_eq!(*id, FnId(0));
    assert_eq!(def.ret, ContId(0));
    assert_eq!(def.params, vec![Local(0)]);
    match &def.body {
        FnBody::Sequence(s, rest) => {
            assert_eq!(s.source_info, 42);
            match &s.kind {
                StatementKind::Let(x, TypeLayout::Block(1)) => assert_eq!(*x, Local(1)),
                _ => panic!("the statement changed its kind"),
            }
            match &**rest {
                FnBody::Jump { target, args } => {
                    assert_eq!(*target, ContId(0));
                    assert_eq!(*args, vec![Local(1), Local(0)]);
                }
                _ => panic!("the jump changed its kind"),
            }
        }
        _ => panic!("the body changed its kind"),
    }
    // The signature: the input local is bound anew, in a scope of its own.
    assert_eq!(def.ty.inputs, vec![(Local(2), Location(0))]);
    assert_eq!(def.ty.in_heap.0.len(), 1);
    assert_eq!(def.ty.in_heap.0[0].0, Location(0));
    assert_eq!(def.ty.out_heap.0[0].0, Location(1));
    assert_eq!(def.ty.output, Location(1));
    match &def.ty.out_heap.0[0].1 {
        Ty::Refine(BaseTy::Int, Refine::Pred(Pred::BinaryOp(BinOp::Ge, _, rhs))) => match &**rhs {
            Pred::Place(p) => assert_eq!(p.base, Var::Location(Location(0))),
            _ => panic!("the predicate changed its shape"),
        },
        _ => panic!("the type changed its shape"),
    }
}

#[test]
fn freshen_gives_distinct_names_to_equal_binders() {
    let mut tcx = TyCtxt::new();
    let mut program = Program::new();
    program.add_fn(FnId(5), sample());
    program.add_fn(FnId(6), sample());
    let fresh = NameFreshener::new().freshen(&mut tcx, program);
    let fns = fresh.into_vec();
    assert_eq!(fns.len(), 2);
    assert_eq!(fns[0].0, FnId(0));
    assert_eq!(fns[1].0, FnId(1));
    assert_ne!(fns[0].1.ret, fns[1].1.ret);
    assert_ne!(fns[0].1.params, fns[1].1.params);
    assert_ne!(fns[0].1.ty.output, fns[1].1.ty.output);
}

#[test]
fn freshen_scopes_tuple_fields() {
    // (f1: int, f2: {v >= f1}) at location 0, as the heap of a continuation.
    let tuple = Ty::Tuple(vec![
        (Field(1), int_true()),
        (
            Field(2),
            Ty::Refine(
                BaseTy::Int,
                Refine::Pred(Pred::BinaryOp(
                    BinOp::Ge,
                    Box::new(Pred::Place(PredPlace::from_var(Var::Nu))),
                    Box::new(Pred::Place(PredPlace::from_var(Var::Field(Field(1))))),
                )),
            ),
        ),
    ]);
    let cont = ContDef {
        name: ContId(1),
        params: vec![Local(1)],
        body: Box::new(FnBody::Ite {
            discr: Place::new(Local(1), vec![Proj::Field(0)]),
            then: Box::new(FnBody::Abort),
            else_: Box::new(FnBody::Jump { target: ContId(1), args: vec![] }),
        }),
        ty: ContTy { heap: Heap(vec![(Location(0), tuple)]), locals: vec![(Local(1), Location(0))], inputs: vec![] },
    };
    let def: FnDef<()> = FnDef {
        ty: FnDecl {
            regions: vec![],
            in_heap: Heap(vec![]),
            inputs: vec![],
            out_heap: Heap(vec![(Location(3), ast::Ty::unit())]),
            outputs: vec![],
            output: Location(3),
        },
        params: vec![],
        body: FnBody::LetCont(vec![cont], Box::new(FnBody::Abort)),
        ret: ContId(0),
    };
    let mut tcx = TyCtxt::new();
    let mut program = Program::new();
    program.add_fn(FnId(0), def);
    let fresh = NameFreshener::new().freshen(&mut tcx, program).into_vec();
    match &fresh[0].1.body {
        FnBody::LetCont(defs, rest) => {
            assert_eq!(defs.len(), 1);
            assert!(matches!(**rest, FnBody::Abort));
            assert_eq!(defs[0].name, ContId(1));
            assert_eq!(defs[0].params, vec![Local(0)]);
            assert_eq!(defs[0].ty.locals, vec![(Local(0), Location(0))]);
            match &defs[0].ty.heap.0[0].1 {
                Ty::Tuple(fields) => {
                    assert_eq!(fields[0].0, Field(0));
                    assert_eq!(fields[1].0, Field(1));
                    match &fields[1].1 {
                        Ty::Refine(_, Refine::Pred(Pred::BinaryOp(_, _, rhs))) => match &**rhs {
                            Pred::Place(p) => assert_eq!(p.base, Var::Field(Field(0))),
                            _ => panic!("the predicate changed its shape"),
                        },
                        _ => panic!("the field changed its shape"),
                    }
                }
                _ => panic!("the tuple changed its shape"),
            }
            match &*defs[0].body {
                FnBody::Ite { discr, .. } => {
                    assert_eq!(discr.base, Local(0));
                    assert_eq!(discr.projs, vec![Proj::Field(0)]);
                }
                _ => panic!("the branch changed its kind"),
            }
        }
        _ => panic!("the body changed its kind"),
    }
}

/// A function without parameters whose body is `body`, returning to the continuation
/// `ret` with the unit at location 3.
fn closed(ret: usize, body: FnBody<u8>) -> FnDef<u8> {
    FnDef {
        ty: FnDecl {
            regions: vec![],
            in_heap: Heap(vec![]),
            inputs: vec![],
            out_heap: Heap(vec![(Location(3), ast::Ty::unit())]),
            outputs: vec![],
            output: Location(3),
        },
        params: vec![],
        body,
        ret: ContId(ret),
    }
}

fn freshens(first: (usize, FnDef<u8>), second: (usize, FnDef<u8>)) -> bool {
    let mut tcx = TyCtxt::new();
    let mut program = Program::new();
    program.add_fn(FnId(first.0), first.1);
    program.add_fn(FnId(second.0), second.1);
    NameFreshener::new().try_freshen(&mut tcx, program).is_some()
}

#[test]
fn a_parameter_of_one_function_is_unbound_in_another() {
    // The other function branches on the local 3, which only `sample` binds.
    let uses_param = || {
        closed(
            1,
            FnBody::Ite {
                discr: Place::new(Local(3), vec![]),
                then: Box::new(FnBody::Abort),
                else_: Box::new(FnBody::Abort),
            },
        )
    };
    assert!(!freshens((5, sample()), (6, uses_param())));
    assert!(!freshens((6, uses_param()), (5, sample())));
    // Each of the two is fine where it binds what it uses.
    assert!(freshens((5, sample()), (6, sample())));
    assert!(freshens((5, closed(1, FnBody::Abort)), (6, sample())));
}

#[test]
fn a_return_continuation_of_one_function_is_unbound_in_another() {
    // The other function jumps to the continuation 9, to which only `sample` returns.
    let jumps_away = || closed(1, FnBody::Jump { target: ContId(9), args: vec![] });
    assert!(!freshens((5, sample()), (6, jumps_away())));
    assert!(!freshens((6, jumps_away()), (5, sample())));
    // Its own return continuation is in scope.
    assert!(freshens((5, sample()), (6, closed(1, FnBody::Jump { target: ContId(1), args: vec![] }))));
}

#[test]
fn a_location_of_one_signature_is_unbound_in_another() {
    // The signature of the other function says that it returns at the location 7,
    // which only the input heap of `sample` binds.
    let mut stray = closed(1, FnBody::Abort);
    stray.ty.out_heap = Heap(vec![]);
    stray.ty.output = Location(7);
    assert!(!freshens((5, sample()), (6, stray)));
}

#[test]
fn functions_are_numbered_in_order_and_keep_their_shape() {
    let mut tcx = TyCtxt::new();
    let mut program = Program::new();
    program.add_fn(FnId(40), sample());
    program.add_fn(FnId(20), closed(1, FnBody::Abort));
    program.add_fn(FnId(30), sample());
    let fns = NameFreshener::new().freshen(&mut tcx, program).into_vec();
    assert_eq!(fns.len(), 3);
    for (j, (id, _)) in fns.iter().enumerate() {
        assert_eq!(*id, FnId(j));
    }
    assert!(matches!(fns[0].1.body, FnBody::Sequence(..)));
    assert!(matches!(fns[1].1.body, FnBody::Abort));
    assert!(matches!(fns[2].1.body, FnBody::Sequence(..)));
    // Binders of the first and the third function, equal before, are distinct now.
    assert_ne!(fns[0].1.params, fns[2].1.params);
    assert_ne!(fns[0].1.ret, fns[2].1.ret);
    assert_ne!(fns[0].1.ty.in_heap.0[0].0, fns[2].1.ty.in_heap.0[0].0);
}

#[test]
fn a_use_stands_for_its_innermost_binder() {
    // The continuation binds the local 3 again: inside it the local stands for the
    // parameter of the continuation, after it for that of the function.
    let branch = || FnBody::Ite {
        discr: Place::new(Local(3), vec![]),
        then: Box::new(FnBody::Abort),
        else_: Box::new(FnBody::Abort),
    };
    let cont = ContDef {
        name: ContId(1),
        params: vec![Local(3)],
        body: Box::new(branch()),
        ty: ContTy { heap: Heap(vec![(Location(5), int_true())]), locals: vec![], inputs: vec![Location(5)] },
    };
    let mut def = sample();
    def.body = FnBody::LetCont(vec![cont], Box::new(branch()));
    let mut tcx = TyCtxt::new();
    let mut program = Program::new();
    program.add_fn(FnId(0), def);
    let fresh = NameFreshener::new().freshen(&mut tcx, program).into_vec();
    let def = &fresh[0].1;
    let discr = |body: &FnBody<u8>| match body {
        FnBody::Ite { discr, .. } => discr.base,
        _ => panic!("the branch changed its kind"),
    };
    match &def.body {
        FnBody::LetCont(defs, rest) => {
            assert_eq!(discr(&defs[0].body), defs[0].params[0]);
            assert_eq!(discr(rest), def.params[0]);
            assert_ne!(defs[0].params[0], def.params[0]);
        }
        _ => panic!("the body changed its kind"),
    }
}

#[test]
fn one_identifier_is_drawn_for_each_binding_occurrence() {
    // `sample` binds the parameter 3, the local 4 of the `let`, and the input local of
    // its signature: three locals; the locations 7 and 8; and one continuation.
    let mut tcx = TyCtxt::new();
    let mut program = Program::new();
    program.add_fn(FnId(5), sample());
    program.add_fn(FnId(6), sample());
    NameFreshener::new().freshen(&mut tcx, program);
    assert_eq!(tcx.fresh_local(), Local(6));
    assert_eq!(tcx.fresh_location(), Location(4));
    assert_eq!(tcx.fresh_cont(), ContId(2));
    assert_eq!(tcx.fresh_fn(), FnId(2));
    assert_eq!(tcx.fresh_field(), Field(0));
}
