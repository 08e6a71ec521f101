use liquid_rust::ast::pred::{BinOp, Constant, Place as PredPlace, Pred, Var};
use liquid_rust::ast::{BaseTy, BorrowKind, Heap, Place, Refine, Region, Ty};
use liquid_rust::constraint::Constraint;
use liquid_rust::names::{Field, Local, Location, UniversalRegion};
use liquid_rust::subtyping::{region_is_subset, subtyping, try_subtyping};

fn var(v: Var) -> Pred {
    Pred::Place(PredPlace::from_var(v))
}

fn cmp(op: BinOp, l: Pred, r: Pred) -> Pred {
    Pred::BinaryOp(op, Box::new(l), Box::new(r))
}

fn ge(n: u128) -> Pred {
    cmp(BinOp::Ge, var(Var::Nu), Pred::Constant(Constant::Int(n)))
}

fn int_ty(p: Pred) -> Ty {
    Ty::Refine(BaseTy::Int, Refine::Pred(p))
}

fn implies(hyp: Pred, concl: Pred) -> Constraint {
    Constraint::Forall { bind: Var::Nu, ty: BaseTy::Int, hyp, body: Box::new(Constraint::Pred(concl)) }
}

#[test]
fn refinements_give_an_implication() {
    let heap = Heap(vec![]);
    assert_eq!(subtyping(&heap, &int_ty(ge(1)), &heap, &int_ty(ge(0))), implies(ge(1), ge(0)));
}

#[test]
fn mismatches_give_nothing() {
    let heap = Heap(vec![]);
    let boolean = Ty::Refine(BaseTy::Bool, Refine::Pred(Pred::Constant(Constant::Bool(true))));
    assert_eq!(try_subtyping(&heap, &int_ty(ge(1)), &heap, &boolean), None);
    assert_eq!(try_subtyping(&heap, &int_ty(ge(1)), &heap, &Ty::Uninit(1)), None);
    assert_eq!(try_subtyping(&heap, &Ty::Uninit(2), &heap, &Ty::Uninit(1)), None);
    assert_eq!(try_subtyping(&heap, &Ty::Uninit(2), &heap, &Ty::Uninit(2)), Some(Constraint::Conj(vec![])));
    assert_eq!(
        try_subtyping(&heap, &Ty::Refine(BaseTy::Int, Refine::Infer), &heap, &int_ty(ge(0))),
        None
    );
    let one = Ty::Tuple(vec![(Field(0), int_ty(ge(0)))]);
    let two = Ty::Tuple(vec![(Field(1), int_ty(ge(0))), (Field(2), int_ty(ge(0)))]);
    assert_eq!(try_subtyping(&heap, &one, &heap, &two), None);
    // A pointer that does not resolve.
    assert_eq!(try_subtyping(&heap, &Ty::OwnRef(Location(0)), &heap, &Ty::OwnRef(Location(0))), None);
}

#[test]
fn tuples_thread_the_fields() {
    let heap = Heap(vec![]);
    // (a: {v >= 0}, b: {v >= a})  <:  (c: {v >= 0}, d: {v >= c})
    let a = Ty::Tuple(vec![
        (Field(1), int_ty(ge(0))),
        (Field(2), int_ty(cmp(BinOp::Ge, var(Var::Nu), var(Var::Field(Field(1)))))),
    ]);
    let b = Ty::Tuple(vec![
        (Field(3), int_ty(ge(0))),
        (Field(4), int_ty(cmp(BinOp::Ge, var(Var::Nu), var(Var::Field(Field(3)))))),
    ]);
    let c = subtyping(&heap, &a, &heap, &b);
    let second = cmp(BinOp::Ge, var(Var::Nu), var(Var::Field(Field(1))));
    let bind = |f: usize, hyp: Pred, body: Constraint| Constraint::Forall {
        bind: Var::Field(Field(f)),
        ty: BaseTy::Int,
        hyp,
        body: Box::new(body),
    };
    let expected = Constraint::Conj(vec![
        implies(ge(0), ge(0)),
        bind(
            1,
            cmp(BinOp::Ge, var(Var::Field(Field(1))), Pred::Constant(Constant::Int(0))),
            Constraint::Conj(vec![
                // The second field of the right-hand side speaks of the first field by the
                // name that the left-hand side gives it.
                implies(second.clone(), second.clone()),
                bind(
                    2,
                    cmp(BinOp::Ge, var(Var::Field(Field(2))), var(Var::Field(Field(1)))),
                    Constraint::Conj(vec![]),
                ),
            ]),
        ),
    ]);
    assert_eq!(c, expected);
}

#[test]
fn pointers_compare_their_pointees() {
    let ha = Heap(vec![(Location(0), int_ty(ge(2)))]);
    let hb = Heap(vec![(Location(5), int_ty(ge(1)))]);
    assert_eq!(
        subtyping(&ha, &Ty::OwnRef(Location(0)), &hb, &Ty::OwnRef(Location(5))),
        implies(ge(2), ge(1))
    );
    let shared = |l| Ty::Ref(BorrowKind::Shared, Region::Concrete(vec![]), Location(l));
    assert_eq!(subtyping(&ha, &shared(0), &hb, &shared(5)), implies(ge(2), ge(1)));
    let mutable = |l| Ty::Ref(BorrowKind::Mut, Region::Concrete(vec![]), Location(l));
    assert_eq!(
        subtyping(&ha, &mutable(0), &hb, &mutable(5)),
        Constraint::Conj(vec![implies(ge(2), ge(1)), implies(ge(1), ge(2))])
    );
    assert_eq!(try_subtyping(&ha, &mutable(0), &hb, &shared(5)), None);
}

#[test]
fn regions_must_be_included() {
    let p = |x| Place::from_local(Local(x));
    let small = Region::Concrete(vec![p(1)]);
    let large = Region::Concrete(vec![p(2), p(1)]);
    assert!(region_is_subset(&small, &large));
    assert!(!region_is_subset(&large, &small));
    assert!(region_is_subset(&Region::Concrete(vec![]), &small));
    assert!(region_is_subset(&Region::Universal(UniversalRegion(1)), &Region::Universal(UniversalRegion(1))));
    assert!(!region_is_subset(&Region::Universal(UniversalRegion(1)), &Region::Universal(UniversalRegion(2))));
    assert!(!region_is_subset(&Region::Infer, &Region::Infer));
    assert!(!region_is_subset(&small, &Region::Universal(UniversalRegion(1))));

    let heap = Heap(vec![(Location(0), int_ty(ge(2)))]);
    let with = |r: Region| Ty::Ref(BorrowKind::Shared, r, Location(0));
    assert!(try_subtyping(&heap, &with(Region::Concrete(vec![p(1)])), &heap, &with(Region::Concrete(vec![p(2), p(1)]))).is_some());
    assert!(try_subtyping(&heap, &with(Region::Concrete(vec![p(2), p(1)])), &heap, &with(Region::Concrete(vec![p(1)]))).is_none());
}

#[test]
fn a_type_passes_for_itself() {
    let heap = Heap(vec![(Location(0), int_ty(ge(2)))]);
    let t = Ty::Tuple(vec![(Field(1), int_ty(ge(0))), (Field(2), Ty::OwnRef(Location(0)))]);
    let c = subtyping(&heap, &t, &heap, &t);
    assert_eq!(
        c,
        Constraint::Conj(vec![
            implies(ge(0), ge(0)),
            Constraint::Forall {
                bind: Var::Field(Field(1)),
                ty: BaseTy::Int,
                hyp: cmp(BinOp::Ge, var(Var::Field(Field(1))), Pred::Constant(Constant::Int(0))),
                body: Box::new(Constraint::Conj(vec![implies(ge(2), ge(2)), Constraint::Conj(vec![])])),
            },
        ])
    );
}
