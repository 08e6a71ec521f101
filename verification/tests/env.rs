use liquid_rust::ast::pred::{BinOp, Constant, Place as PredPlace, Pred, Var};
use liquid_rust::ast::{
    BaseTy, BorrowKind, ContTy, FnDecl, Heap, Operand, Place, Proj, Refine, Region, Ty,
};
use liquid_rust::constraint::Constraint;
use liquid_rust::env::{ContEnv, Env};
use liquid_rust::names::{ContId, Field, Local, Location};
use liquid_rust::ty::TyCtxt;

fn nu() -> Pred {
    Pred::Place(PredPlace::from_var(Var::Nu))
}

fn int_ty(p: Pred) -> Ty {
    Ty::Refine(BaseTy::Int, Refine::Pred(p))
}

fn tt() -> Pred {
    Pred::Constant(Constant::Bool(true))
}

fn ge(n: u128) -> Pred {
    Pred::BinaryOp(BinOp::Ge, Box::new(nu()), Box::new(Pred::Constant(Constant::Int(n))))
}

fn eq_place(l: usize, projs: Vec<usize>) -> Pred {
    Pred::BinaryOp(
        BinOp::Eq,
        Box::new(nu()),
        Box::new(Pred::Place(PredPlace { base: Var::Location(Location(l)), projs })),
    )
}

fn place(x: usize, projs: Vec<Proj>) -> Place {
    Place::new(Local(x), projs)
}

#[test]
fn allocate_binds_a_fresh_location() {
    let mut tcx = TyCtxt::new();
    let mut env = Env::new();
    env.allocate(&mut tcx, Local(7), int_ty(ge(0)));
    env.allocate(&mut tcx, Local(8), int_ty(tt()));
    assert_eq!(env.heap().len(), 2);
    assert_eq!(env.heap().0[0], (Location(0), int_ty(ge(0))));
    assert_eq!(env.heap().0[1], (Location(1), int_ty(tt())));
    assert_eq!(*env.lookup(&place(7, vec![])), int_ty(ge(0)));
    assert_eq!(*env.lookup(&place(8, vec![])), int_ty(tt()));
    assert_eq!(env.locals().get(&Local(7)), Some(&Location(0)));
    assert_eq!(env.locals().get(&Local(9)), None);
    assert_eq!(
        env.vars_in_scope(),
        vec![Var::Location(Location(0)), Var::Location(Location(1))]
    );
}

#[test]
fn update_replaces_the_part_and_selfifies_the_rest() {
    let mut tcx = TyCtxt::new();
    let mut env = Env::new();
    let pair = Ty::Tuple(vec![(Field(0), int_ty(ge(0))), (Field(1), int_ty(ge(5)))]);
    env.allocate(&mut tcx, Local(1), pair.clone());
    env.update(&mut tcx, &place(1, vec![Proj::Field(1)]), int_ty(ge(9)));
    // The place holds the new type.
    assert_eq!(*env.lookup(&place(1, vec![Proj::Field(1)])), int_ty(ge(9)));
    // Its sibling is equal to what the old location holds there.
    assert_eq!(*env.lookup(&place(1, vec![Proj::Field(0)])), int_ty(eq_place(0, vec![0])));
    // The old location keeps what it held.
    assert_eq!(env.heap().0[0], (Location(0), pair));
    assert_eq!(env.heap().len(), 2);
    assert_eq!(env.heap().0[1].0, Location(1));
    assert_eq!(env.locals().get(&Local(1)), Some(&Location(1)));
}

#[test]
fn update_of_a_whole_local() {
    let mut tcx = TyCtxt::new();
    let mut env = Env::new();
    env.allocate(&mut tcx, Local(1), Ty::Uninit(1));
    env.update(&mut tcx, &place(1, vec![]), int_ty(ge(3)));
    assert_eq!(*env.lookup(&place(1, vec![])), int_ty(ge(3)));
    assert_eq!(env.heap().0[1], (Location(1), int_ty(ge(3))));
}

#[test]
fn update_through_a_pointer_binds_a_new_pointee() {
    let mut tcx = TyCtxt::new();
    let mut env = Env::new();
    env.allocate(&mut tcx, Local(1), int_ty(ge(0)));
    let l = env.borrow(&mut tcx, &place(1, vec![]));
    assert_eq!(l, Location(1));
    env.allocate(&mut tcx, Local(2), Ty::OwnRef(l));
    env.update(&mut tcx, &place(2, vec![Proj::Deref]), int_ty(ge(7)));
    assert_eq!(*env.lookup(&place(2, vec![Proj::Deref])), int_ty(ge(7)));
    // Location 3 was drawn for the local, location 4 for the pointee; the pointee
    // is bound first.
    assert_eq!(env.heap().len(), 5);
    assert_eq!(env.heap().0[3], (Location(4), int_ty(ge(7))));
    assert_eq!(env.heap().0[4], (Location(3), Ty::OwnRef(Location(4))));
    // The old pointee is untouched.
    assert_eq!(env.heap().0[1], (Location(1), int_ty(ge(0))));
    assert_eq!(
        env.resolve_place(&place(2, vec![Proj::Deref])),
        PredPlace { base: Var::Location(Location(4)), projs: vec![] }
    );
}

#[test]
fn resolve_place_follows_fields_and_pointers() {
    let mut tcx = TyCtxt::new();
    let mut env = Env::new();
    let pair = Ty::Tuple(vec![(Field(0), int_ty(tt())), (Field(1), int_ty(tt()))]);
    env.allocate(&mut tcx, Local(1), pair);
    env.allocate(&mut tcx, Local(2), Ty::Ref(BorrowKind::Shared, Region::Concrete(vec![]), Location(0)));
    assert_eq!(
        env.resolve_place(&place(1, vec![Proj::Field(1)])),
        PredPlace { base: Var::Location(Location(0)), projs: vec![1] }
    );
    assert_eq!(
        env.resolve_place(&place(2, vec![Proj::Deref, Proj::Field(0)])),
        PredPlace { base: Var::Location(Location(0)), projs: vec![0] }
    );
    assert_eq!(
        env.resolve_place(&place(2, vec![])),
        PredPlace { base: Var::Location(Location(1)), projs: vec![] }
    );
    assert_eq!(
        env.resolve_operand(&Operand::Copy(place(1, vec![Proj::Field(0)]))),
        Pred::Place(PredPlace { base: Var::Location(Location(0)), projs: vec![0] })
    );
    assert_eq!(
        env.resolve_operand(&Operand::Constant(liquid_rust::ast::Constant::Int(3))),
        Pred::Constant(Constant::Int(3))
    );
    assert_eq!(
        env.resolve_operand(&Operand::Constant(liquid_rust::ast::Constant::Unit)),
        Pred::Constant(Constant::Unit)
    );
}

#[test]
fn drop_without_borrows_leaves_uninitialised_memory() {
    let mut tcx = TyCtxt::new();
    let mut env = Env::new();
    let pair = Ty::Tuple(vec![(Field(0), int_ty(tt())), (Field(1), Ty::Uninit(3))]);
    env.allocate(&mut tcx, Local(1), pair);
    let c = env.drop(&mut tcx, &Local(1));
    assert_eq!(c, Constraint::Conj(vec![]));
    assert_eq!(*env.lookup(&place(1, vec![])), Ty::Uninit(4));
    assert_eq!(env.locals().get(&Local(1)), Some(&Location(1)));
}

#[test]
fn drop_of_a_borrow_of_one_place_updates_the_place() {
    let mut tcx = TyCtxt::new();
    let mut env = Env::new();
    env.allocate(&mut tcx, Local(1), int_ty(ge(0)));
    let l = env.borrow(&mut tcx, &place(1, vec![]));
    env.allocate(
        &mut tcx,
        Local(2),
        Ty::Ref(BorrowKind::Mut, Region::Concrete(vec![place(1, vec![])]), l),
    );
    env.update(&mut tcx, &place(2, vec![Proj::Deref]), int_ty(ge(5)));
    let c = env.drop(&mut tcx, &Local(2));
    assert_eq!(c, Constraint::Conj(vec![]));
    // The borrowed place now holds what the borrow pointed to at its end.
    assert_eq!(*env.lookup(&place(1, vec![])), int_ty(ge(5)));
    assert_eq!(*env.lookup(&place(2, vec![])), Ty::Uninit(1));
}

#[test]
fn drop_of_a_borrow_of_several_places_joins_them() {
    let mut tcx = TyCtxt::new();
    let mut env = Env::new();
    env.allocate(&mut tcx, Local(1), int_ty(ge(1)));
    env.allocate(&mut tcx, Local(2), int_ty(ge(2)));
    env.allocate(&mut tcx, Local(3), int_ty(ge(3)));
    env.allocate(
        &mut tcx,
        Local(4),
        Ty::Ref(
            BorrowKind::Mut,
            Region::Concrete(vec![place(1, vec![]), place(2, vec![])]),
            Location(2),
        ),
    );
    let c = env.drop(&mut tcx, &Local(4));
    let vars = vec![
        Var::Nu,
        Var::Location(Location(0)),
        Var::Location(Location(1)),
        Var::Location(Location(2)),
        Var::Location(Location(3)),
    ];
    let join = || Pred::Kvar(0, vars.clone());
    let implies = |hyp: Pred| Constraint::Forall {
        bind: Var::Nu,
        ty: BaseTy::Int,
        hyp,
        body: Box::new(Constraint::Pred(join())),
    };
    // What the borrow points to, and what each of the two places holds, must pass
    // for the join type.
    assert_eq!(c, Constraint::Conj(vec![implies(ge(3)), implies(ge(1)), implies(ge(2))]));
    assert_eq!(*env.lookup(&place(1, vec![])), int_ty(join()));
    assert_eq!(*env.lookup(&place(2, vec![])), int_ty(join()));
    assert_eq!(*env.lookup(&place(3, vec![])), int_ty(ge(3)));
    assert_eq!(*env.lookup(&place(4, vec![])), Ty::Uninit(1));
    assert!(tcx.has_kvar());
}

#[test]
fn snapshot_and_rollback() {
    let mut tcx = TyCtxt::new();
    let mut env = Env::new();
    env.allocate(&mut tcx, Local(1), int_ty(ge(1)));
    let snapshot = env.snapshot();
    env.allocate(&mut tcx, Local(2), int_ty(ge(2)));
    env.update(&mut tcx, &place(1, vec![]), int_ty(ge(9)));
    assert_eq!(*env.lookup(&place(1, vec![])), int_ty(ge(9)));
    assert_eq!(env.heap().len(), 3);
    let bindings = env.capture_bindings(1);
    assert_eq!(bindings, vec![(Location(1), int_ty(ge(2))), (Location(2), int_ty(ge(9)))]);
    assert_eq!(env.capture_bindings(5), vec![]);
    env.rollback_to(snapshot);
    assert_eq!(env.heap().len(), 1);
    assert_eq!(*env.lookup(&place(1, vec![])), int_ty(ge(1)));
    assert_eq!(env.locals().get(&Local(2)), None);

    let snapshot = env.snapshot_without_locals();
    assert_eq!(env.locals().get(&Local(1)), None);
    env.insert_locals(&vec![(Local(5), Location(0))]);
    assert_eq!(*env.lookup(&place(5, vec![])), int_ty(ge(1)));
    env.rollback_to(snapshot);
    assert_eq!(env.locals().get(&Local(1)), Some(&Location(0)));
    assert_eq!(env.locals().get(&Local(5)), None);
}

#[test]
fn extend_heap_adds_the_entries_in_order() {
    let mut env = Env::new();
    let heap = Heap(vec![(Location(4), int_ty(ge(1))), (Location(2), Ty::OwnRef(Location(4)))]);
    env.extend_heap(&heap);
    assert_eq!(env.heap(), &heap);
}

#[test]
fn cont_env_defines_and_finds_signatures() {
    let mut tcx = TyCtxt::new();
    let mut conts = ContEnv::new();
    assert!(conts.get_ty(&ContId(3)).is_none());
    let hole = Ty::Refine(BaseTy::Int, Refine::Infer);
    let cont_ty = ContTy {
        heap: Heap(vec![(Location(0), hole.clone()), (Location(1), int_ty(ge(1))), (Location(2), hole)]),
        locals: vec![(Local(1), Location(0))],
        inputs: vec![Location(2)],
    };
    conts.define_cont(&mut tcx, ContId(3), &cont_ty, vec![Var::Location(Location(9))]);
    let lowered = conts.get_ty(&ContId(3)).unwrap();
    assert_eq!(
        lowered.heap,
        Heap(vec![
            (Location(0), int_ty(Pred::Kvar(0, vec![Var::Nu, Var::Location(Location(9))]))),
            (Location(1), int_ty(ge(1))),
            (
                Location(2),
                int_ty(Pred::Kvar(
                    1,
                    vec![
                        Var::Nu,
                        Var::Location(Location(9)),
                        Var::Location(Location(0)),
                        Var::Location(Location(1)),
                    ]
                ))
            ),
        ])
    );
    assert_eq!(lowered.locals, vec![(Local(1), Location(0))]);
    assert_eq!(lowered.inputs, vec![Location(2)]);

    let fn_ty = FnDecl {
        regions: vec![],
        in_heap: Heap(vec![]),
        inputs: vec![],
        out_heap: Heap(vec![(Location(5), int_ty(ge(0)))]),
        outputs: vec![],
        output: Location(5),
    };
    conts.define_ret_cont(&mut tcx, ContId(4), &fn_ty, vec![]);
    let ret = conts.index(&ContId(4));
    assert_eq!(ret.heap, Heap(vec![(Location(5), int_ty(ge(0)))]));
    assert_eq!(ret.locals, vec![]);
    assert_eq!(ret.inputs, vec![Location(5)]);
    // The first definition is still there.
    assert_eq!(conts.index(&ContId(3)).inputs, vec![Location(2)]);
    assert!(conts.get_ty(&ContId(5)).is_none());
}

#[test]
fn a_failed_update_leaves_the_environment_as_it_was() {
    let mut tcx = TyCtxt::new();
    let mut env = Env::new();
    env.allocate(&mut tcx, Local(1), int_ty(ge(0)));
    let l = env.borrow(&mut tcx, &place(1, vec![]));
    env.allocate(
        &mut tcx,
        Local(2),
        Ty::Ref(BorrowKind::Mut, Region::Concrete(vec![place(1, vec![])]), l),
    );
    let entries = env.heap().0.len();
    let pointer = env.lookup(&place(2, vec![])).clone();
    // A number has no field: the update fails after it has gone through the pointer.
    assert!(!env.try_update(&mut tcx, &place(2, vec![Proj::Deref, Proj::Field(0)]), int_ty(tt())));
    assert_eq!(env.heap().0.len(), entries);
    assert_eq!(*env.lookup(&place(2, vec![])), pointer);
    assert_eq!(*env.lookup(&place(2, vec![Proj::Deref])), int_ty(ge(0)));
    assert_eq!(env.locals().get(&Local(2)), Some(&Location(2)));
    // A local that is not bound cannot be updated either.
    assert!(!env.try_update(&mut tcx, &place(7, vec![]), int_ty(tt())));
    assert_eq!(env.heap().0.len(), entries);
    // The same update of a place that is there goes through.
    assert!(env.try_update(&mut tcx, &place(2, vec![Proj::Deref]), int_ty(ge(5))));
    assert_eq!(*env.lookup(&place(2, vec![Proj::Deref])), int_ty(ge(5)));
}

#[test]
fn a_failed_drop_leaves_the_environment_as_it_was() {
    let mut tcx = TyCtxt::new();
    let mut env = Env::new();
    env.allocate(&mut tcx, Local(1), int_ty(ge(0)));
    let l = env.borrow(&mut tcx, &place(1, vec![]));
    // The borrow may alias the local 1 and the local 9, which is not bound.
    env.allocate(
        &mut tcx,
        Local(2),
        Ty::Ref(BorrowKind::Mut, Region::Concrete(vec![place(1, vec![]), place(9, vec![])]), l),
    );
    let entries = env.heap().0.len();
    let pointer = env.lookup(&place(2, vec![])).clone();
    assert_eq!(env.try_drop(&mut tcx, &Local(2)), None);
    assert_eq!(env.heap().0.len(), entries);
    assert_eq!(*env.lookup(&place(1, vec![])), int_ty(ge(0)));
    assert_eq!(*env.lookup(&place(2, vec![])), pointer);
    assert_eq!(env.locals().get(&Local(1)), Some(&Location(0)));
    assert_eq!(env.locals().get(&Local(2)), Some(&Location(2)));
    // A local that is not bound cannot be dropped.
    assert_eq!(env.try_drop(&mut tcx, &Local(9)), None);
    assert_eq!(env.heap().0.len(), entries);
}

#[test]
fn locations_stay_below_the_counter_of_the_context() {
    let mut tcx = TyCtxt::new();
    let mut env = Env::new();
    env.allocate(&mut tcx, Local(1), int_ty(ge(0)));
    let l = env.borrow(&mut tcx, &place(1, vec![]));
    env.allocate(
        &mut tcx,
        Local(2),
        Ty::Ref(BorrowKind::Mut, Region::Concrete(vec![place(1, vec![])]), l),
    );
    env.update(&mut tcx, &place(2, vec![Proj::Deref]), int_ty(ge(5)));
    env.drop(&mut tcx, &Local(2));
    let next = tcx.fresh_location();
    for (l, _) in env.heap().0.iter() {
        assert!(l.0 < next.0);
    }
    // No location is bound twice.
    for (i, (l, _)) in env.heap().0.iter().enumerate() {
        for (k, _) in env.heap().0[..i].iter() {
            assert_ne!(k, l);
        }
    }
}
