use liquid_rust::ast::pred::{BinOp, Constant, Place as PredPlace, Pred, Var};
use liquid_rust::ast::{BaseTy, BorrowKind, ContTy, Heap, Refine, Region, Ty};
use liquid_rust::names::{ContId, Field, FnId, Local, Location, UniversalRegion};
use liquid_rust::ty::{TyCtxt, TypeLowerer};

fn nu() -> Pred {
    Pred::Place(PredPlace::from_var(Var::Nu))
}

fn ge(n: u128) -> Ty {
    Ty::Refine(
        BaseTy::Int,
        Refine::Pred(Pred::BinaryOp(BinOp::Ge, Box::new(nu()), Box::new(Pred::Constant(Constant::Int(n))))),
    )
}

fn hole() -> Ty {
    Ty::Refine(BaseTy::Int, Refine::Infer)
}

fn kvar(k: usize, vars: Vec<Var>) -> Ty {
    Ty::Refine(BaseTy::Int, Refine::Pred(Pred::Kvar(k, vars)))
}

#[test]
fn every_family_counts_on_its_own() {
    let mut tcx = TyCtxt::new();
    assert_eq!(tcx.fresh_local(), Local(0));
    assert_eq!(tcx.fresh_local(), Local(1));
    assert_eq!(tcx.fresh_location(), Location(0));
    assert_eq!(tcx.fresh_field(), Field(0));
    assert_eq!(tcx.fresh_cont(), ContId(0));
    assert_eq!(tcx.fresh_fn(), FnId(0));
    assert_eq!(tcx.fresh_region(), UniversalRegion(0));
    assert_eq!(tcx.fresh_kvar(), 0);
    assert_eq!(tcx.fresh_local(), Local(2));
    assert_eq!(tcx.fresh_kvar(), 1);
    assert!(tcx.has_local() && tcx.has_location() && tcx.has_field() && tcx.has_cont());
    assert!(tcx.has_fn() && tcx.has_region() && tcx.has_kvar());
}

#[test]
fn selfify_equates_every_part_with_its_place() {
    let tcx = TyCtxt::new();
    let ty = Ty::Tuple(vec![
        (Field(3), ge(0)),
        (Field(4), Ty::Tuple(vec![(Field(5), hole()), (Field(6), Ty::OwnRef(Location(1)))])),
        (Field(7), Ty::Uninit(2)),
    ]);
    let place = PredPlace { base: Var::Location(Location(9)), projs: vec![2] };
    let eq = |projs: Vec<usize>| {
        Ty::Refine(
            BaseTy::Int,
            Refine::Pred(Pred::BinaryOp(
                BinOp::Eq,
                Box::new(nu()),
                Box::new(Pred::Place(PredPlace { base: Var::Location(Location(9)), projs })),
            )),
        )
    };
    assert_eq!(
        tcx.selfify(&ty, place),
        Ty::Tuple(vec![
            (Field(3), eq(vec![2, 0])),
            (Field(4), Ty::Tuple(vec![(Field(5), eq(vec![2, 1, 0])), (Field(6), Ty::OwnRef(Location(1)))])),
            (Field(7), Ty::Uninit(2)),
        ])
    );
}

#[test]
fn kvars_replace_refinements() {
    let mut tcx = TyCtxt::new();
    let scope = vec![Var::Location(Location(1))];
    let ty = Ty::Tuple(vec![(Field(3), ge(0)), (Field(4), hole())]);
    // Every refinement.
    let all = tcx.replace_refines_with_kvars(&ty, &scope);
    assert_eq!(
        all,
        Ty::Tuple(vec![
            (Field(3), kvar(0, vec![Var::Nu, Var::Location(Location(1))])),
            (Field(4), kvar(1, vec![Var::Nu, Var::Location(Location(1)), Var::Field(Field(3))])),
        ])
    );
    // Only the holes.
    let lowerer = TypeLowerer::new(scope);
    let lowered = lowerer.lower_ty(&mut tcx, &ty);
    assert_eq!(
        lowered,
        Ty::Tuple(vec![
            (Field(3), ge(0)),
            (Field(4), kvar(2, vec![Var::Nu, Var::Location(Location(1)), Var::Field(Field(3))])),
        ])
    );
    // Lowering again changes nothing and uses up no predicate variable.
    assert_eq!(lowerer.lower_ty(&mut tcx, &lowered), lowered);
    assert_eq!(tcx.fresh_kvar(), 3);
    // Pointers are left alone.
    let r = Ty::Ref(BorrowKind::Mut, Region::Infer, Location(0));
    assert_eq!(tcx.replace_refines_with_kvars(&r, &vec![]), r);
}

#[test]
fn lowering_a_heap_puts_earlier_locations_in_scope() {
    let mut tcx = TyCtxt::new();
    let lowerer = TypeLowerer::new(vec![]);
    let heap = Heap(vec![(Location(4), hole()), (Location(5), hole())]);
    assert_eq!(
        lowerer.lower_heap(&mut tcx, &heap),
        Heap(vec![
            (Location(4), kvar(0, vec![Var::Nu])),
            (Location(5), kvar(1, vec![Var::Nu, Var::Location(Location(4))])),
        ])
    );
}

#[test]
fn sizes() {
    assert_eq!(ge(0).size(), 1);
    assert_eq!(Ty::OwnRef(Location(0)).size(), 1);
    assert_eq!(Ty::Ref(BorrowKind::Shared, Region::Infer, Location(0)).size(), 1);
    assert_eq!(Ty::Uninit(5).size(), 5);
    assert_eq!(Ty::Tuple(vec![]).size(), 0);
    let nested = Ty::Tuple(vec![
        (Field(0), ge(0)),
        (Field(1), Ty::Tuple(vec![(Field(2), Ty::Uninit(3)), (Field(3), hole())])),
    ]);
    assert_eq!(nested.size(), 5);
    assert_eq!(TyCtxt::new().mk_uninit(4), Ty::Uninit(4));
}

#[test]
fn renaming_a_variable() {
    let ty = Ty::Tuple(vec![
        (
            Field(0),
            Ty::Refine(
                BaseTy::Int,
                Refine::Pred(Pred::BinaryOp(
                    BinOp::Lt,
                    Box::new(Pred::Place(PredPlace { base: Var::Field(Field(9)), projs: vec![1] })),
                    Box::new(Pred::Kvar(2, vec![Var::Nu, Var::Field(Field(9)), Var::Field(Field(8))])),
                )),
            ),
        ),
        (Field(9), hole()),
    ]);
    let renamed = ty.rename(Var::Field(Field(9)), Var::Location(Location(1)));
    assert_eq!(
        renamed,
        Ty::Tuple(vec![
            (
                Field(0),
                Ty::Refine(
                    BaseTy::Int,
                    Refine::Pred(Pred::BinaryOp(
                        BinOp::Lt,
                        Box::new(Pred::Place(PredPlace { base: Var::Location(Location(1)), projs: vec![1] })),
                        Box::new(Pred::Kvar(2, vec![Var::Nu, Var::Location(Location(1)), Var::Field(Field(8))])),
                    )),
                ),
            ),
            (Field(9), hole()),
        ])
    );
}

#[test]
fn lowering_a_signature_keeps_its_locals_and_inputs() {
    let mut tcx = TyCtxt::new();
    let lowerer = TypeLowerer::new(vec![Var::Location(Location(9))]);
    let cont_ty = ContTy {
        heap: Heap(vec![(Location(4), hole())]),
        locals: vec![(Local(1), Location(4))],
        inputs: vec![Location(4)],
    };
    let lowered = lowerer.lower_cont_ty(&mut tcx, &cont_ty);
    assert_eq!(lowered.heap, Heap(vec![(Location(4), kvar(0, vec![Var::Nu, Var::Location(Location(9))]))]));
    assert_eq!(lowered.locals, cont_ty.locals);
    assert_eq!(lowered.inputs, cont_ty.inputs);
    assert_eq!(lowerer.try_lower_cont_ty(&mut tcx, &lowered), Some(lowered));
    assert_eq!(lowerer.try_lower_ty(&mut tcx, &ge(3)), Some(ge(3)));
    assert_eq!(
        lowerer.try_lower_ty(&mut tcx, &hole()),
        Some(kvar(1, vec![Var::Nu, Var::Location(Location(9))]))
    );
    assert_eq!(tcx.scratch().fresh_kvar(), 2);
    assert_eq!(tcx.fresh_kvar(), 2);
}
