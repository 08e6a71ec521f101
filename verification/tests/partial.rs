//! What the passes do with what is not well formed.

use liquid_rust::ast::pred::{Constant, Place as PredPlace, Pred, Var};
use liquid_rust::ast::{
    BaseTy, BorrowKind, FnBody, FnDecl, FnDef, Heap, Operand, Place, Program, Proj, Refine,
    Region, Ty,
};
use liquid_rust::env::Env;
use liquid_rust::freshen::NameFreshener;
use liquid_rust::lower::LowerCtx;
use liquid_rust::names::{ContId, Field, FnId, Local, Location, UniversalRegion};
use liquid_rust::surface::{self, BinOpKind, Ident, PredicateKind, TyKind, UnOpKind};
use liquid_rust::ty::TyCtxt;

fn int_ty() -> Ty {
    Ty::Refine(BaseTy::Int, Refine::Pred(Pred::Constant(Constant::Bool(true))))
}

fn def(in_heap: Vec<(Location, Ty)>, body: FnBody<()>) -> FnDef<()> {
    FnDef {
        ty: FnDecl {
            regions: vec![],
            in_heap: Heap(in_heap),
            inputs: vec![],
            out_heap: Heap(vec![(Location(1), int_ty())]),
            outputs: vec![],
            output: Location(1),
        },
        params: vec![],
        body,
        ret: ContId(0),
    }
}

fn freshens(def: FnDef<()>) -> bool {
    let mut tcx = TyCtxt::new();
    let mut program = Program::new();
    program.add_fn(FnId(0), def);
    NameFreshener::new().try_freshen(&mut tcx, program).is_some()
}

#[test]
fn references_without_binders_do_not_freshen() {
    assert!(freshens(def(vec![], FnBody::Abort)));
    // A continuation.
    assert!(!freshens(def(vec![], FnBody::Jump { target: ContId(3), args: vec![] })));
    // A local.
    assert!(!freshens(def(vec![], FnBody::Jump { target: ContId(0), args: vec![Local(4)] })));
    // A function.
    assert!(!freshens(def(vec![], FnBody::Call { func: FnId(9), args: vec![], destination: None })));
    // A location.
    assert!(!freshens(def(vec![(Location(2), Ty::OwnRef(Location(5)))], FnBody::Abort)));
    // A field.
    let dangling = Ty::Refine(
        BaseTy::Int,
        Refine::Pred(Pred::Place(PredPlace::from_var(Var::Field(Field(3))))),
    );
    assert!(!freshens(def(vec![(Location(2), dangling)], FnBody::Abort)));
    // A universal region.
    let borrow = Ty::Ref(BorrowKind::Shared, Region::Universal(UniversalRegion(1)), Location(2));
    assert!(!freshens(def(vec![(Location(2), int_ty()), (Location(3), borrow)], FnBody::Abort)));
    // A local at the root of a place of a region.
    let aliasing = Ty::Ref(BorrowKind::Shared, Region::Concrete(vec![Place::from_local(Local(8))]), Location(2));
    assert!(!freshens(def(vec![(Location(2), int_ty()), (Location(3), aliasing)], FnBody::Abort)));
}

#[test]
fn places_that_do_not_resolve() {
    let mut tcx = TyCtxt::new();
    let mut env = Env::new();
    env.allocate(&mut tcx, Local(1), Ty::Tuple(vec![(Field(0), int_ty())]));
    env.allocate(&mut tcx, Local(2), Ty::OwnRef(Location(9)));
    let place = |x, projs| Place::new(Local(x), projs);
    assert!(env.try_lookup(&place(1, vec![Proj::Field(0)])).is_some());
    // An unbound local, a field that the tuple does not have, a dereference of what is
    // no pointer, a field of what is no tuple, a pointer to nowhere.
    assert!(env.try_lookup(&place(3, vec![])).is_none());
    assert!(env.try_lookup(&place(1, vec![Proj::Field(1)])).is_none());
    assert!(env.try_lookup(&place(1, vec![Proj::Deref])).is_none());
    assert!(env.try_lookup(&place(1, vec![Proj::Field(0), Proj::Field(0)])).is_none());
    assert!(env.try_lookup(&place(2, vec![Proj::Deref])).is_none());
    assert!(env.try_resolve_place(&place(1, vec![Proj::Field(1)])).is_none());
    assert!(env.try_resolve_place(&place(2, vec![Proj::Deref])).is_none());
    assert!(env.try_resolve_operand(&Operand::Move(place(3, vec![]))).is_none());
    assert!(env.try_borrow(&mut tcx, &place(3, vec![])).is_none());
    assert!(env.try_drop(&mut tcx, &Local(3)).is_none());
    assert!(!env.try_update(&mut tcx, &place(3, vec![]), int_ty()));
    assert!(!env.try_update(&mut tcx, &place(1, vec![Proj::Field(4)]), int_ty()));
    assert!(!env.try_update(&mut tcx, &place(2, vec![Proj::Deref]), int_ty()));
    // What resolves still does.
    assert!(env.try_update(&mut tcx, &place(1, vec![Proj::Field(0)]), Ty::Uninit(1)));
    assert!(env.try_allocate(&mut tcx, Local(3), int_ty()));
    assert!(env.try_drop(&mut tcx, &Local(3)).is_some());
}

#[test]
fn operators_that_the_logic_lacks_do_not_lower() {
    let lit = |n| surface::Predicate { kind: PredicateKind::Lit(Constant::Int(n)) };
    let neg = surface::Predicate {
        kind: PredicateKind::UnaryOp(surface::UnOp { kind: UnOpKind::Neg }, Box::new(lit(1))),
    };
    let mul = surface::Predicate {
        kind: PredicateKind::BinaryOp(surface::BinOp { kind: BinOpKind::Mul }, Box::new(lit(1)), Box::new(lit(2))),
    };
    let mut lcx = LowerCtx::new();
    assert!(neg.try_lower(&mut lcx).is_none());
    assert!(mul.try_lower(&mut lcx).is_none());
    let nested = surface::Ty {
        kind: TyKind::Tuple(vec![(
            Ident(1),
            surface::Ty {
                kind: TyKind::Refined(
                    None,
                    BaseTy::Int,
                    surface::Predicate {
                        kind: PredicateKind::UnaryOp(surface::UnOp { kind: UnOpKind::Neg }, Box::new(lit(1))),
                    },
                ),
            },
        )]),
    };
    assert!(nested.try_lower(&mut lcx).is_none());
    let fine = surface::Ty { kind: TyKind::Base(BaseTy::Int) };
    assert!(fine.try_lower(&mut lcx).is_some());
}
