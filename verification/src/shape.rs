//! The shape of a tree: what is left of it when its identifiers are forgotten. Two
//! trees have one shape when they have the same nodes, with the same number of parts
//! each, and agree on everything but identifiers.

use crate::ast::pred::{PredView, Var};
use crate::ast::{
    ContDefView, ContTyView, FnBodyView, FnDeclView, FnDefView, OperandView, PlaceView,
    RefineView, RegionView, RvalueView, StatementKindView, StatementView, TyView,
};
use crate::names::{FnId, Location};
use vstd::prelude::*;

verus! {

pub open spec fn var_shape(a: Var, b: Var) -> bool {
    match (a, b) {
        (Var::Nu, Var::Nu) => true,
        (Var::Location(_), Var::Location(_)) => true,
        (Var::Field(_), Var::Field(_)) => true,
        _ => false,
    }
}

pub open spec fn vars_shape(a: Seq<Var>, b: Seq<Var>) -> bool {
    a.len() == b.len() && forall|i: int| 0 <= i < a.len() ==> var_shape(#[trigger] a[i], b[i])
}

pub open spec fn pred_shape(a: PredView, b: PredView) -> bool
    decreases a,
{
    match (a, b) {
        (PredView::Constant(c1), PredView::Constant(c2)) => c1 == c2,
        (PredView::Place(pa), PredView::Place(pb)) => pa.projs == pb.projs && var_shape(
            pa.base,
            pb.base,
        ),
        (PredView::BinaryOp(o1, l1, r1), PredView::BinaryOp(o2, l2, r2)) => o1 == o2
            && pred_shape(*l1, *l2) && pred_shape(*r1, *r2),
        (PredView::UnaryOp(o1, x1), PredView::UnaryOp(o2, x2)) => o1 == o2 && pred_shape(
            *x1,
            *x2,
        ),
        (PredView::Kvar(k1, v1), PredView::Kvar(k2, v2)) => k1 == k2 && vars_shape(v1, v2),
        _ => false,
    }
}

pub open spec fn refine_shape(a: RefineView, b: RefineView) -> bool {
    match (a, b) {
        (RefineView::Infer, RefineView::Infer) => true,
        (RefineView::Pred(pa), RefineView::Pred(pb)) => pred_shape(pa, pb),
        _ => false,
    }
}

pub open spec fn place_shape(a: PlaceView, b: PlaceView) -> bool {
    a.projs == b.projs
}

pub open spec fn places_shape(a: Seq<PlaceView>, b: Seq<PlaceView>) -> bool {
    a.len() == b.len() && forall|i: int| 0 <= i < a.len() ==> place_shape(#[trigger] a[i], b[i])
}

pub open spec fn region_shape(a: RegionView, b: RegionView) -> bool {
    match (a, b) {
        (RegionView::Concrete(pa), RegionView::Concrete(pb)) => places_shape(pa, pb),
        (RegionView::Infer, RegionView::Infer) => true,
        (RegionView::Universal(_), RegionView::Universal(_)) => true,
        _ => false,
    }
}

pub open spec fn ty_shape(a: TyView, b: TyView) -> bool
    decreases a,
{
    match (a, b) {
        (TyView::OwnRef(_), TyView::OwnRef(_)) => true,
        (TyView::Ref(k1, r1, _), TyView::Ref(k2, r2, _)) => k1 == k2 && region_shape(r1, r2),
        (TyView::Tuple(f1), TyView::Tuple(f2)) => f1.len() == f2.len() && forall|i: int|
            0 <= i < f1.len() ==> ty_shape((#[trigger] f1[i]).1, f2[i].1),
        (TyView::Uninit(n), TyView::Uninit(m)) => n == m,
        (TyView::Refine(b1, r1), TyView::Refine(b2, r2)) => b1 == b2 && refine_shape(r1, r2),
        _ => false,
    }
}

pub open spec fn heap_shape(a: Seq<(Location, TyView)>, b: Seq<(Location, TyView)>) -> bool {
    a.len() == b.len() && forall|i: int| 0 <= i < a.len() ==> ty_shape((#[trigger] a[i]).1, b[i].1)
}

pub open spec fn cont_ty_shape(a: ContTyView, b: ContTyView) -> bool {
    &&& heap_shape(a.heap, b.heap)
    &&& a.locals.len() == b.locals.len()
    &&& a.inputs.len() == b.inputs.len()
}

pub open spec fn fn_decl_shape(a: FnDeclView, b: FnDeclView) -> bool {
    &&& a.regions.len() == b.regions.len()
    &&& heap_shape(a.in_heap, b.in_heap)
    &&& a.inputs.len() == b.inputs.len()
    &&& heap_shape(a.out_heap, b.out_heap)
    &&& a.outputs.len() == b.outputs.len()
}

pub open spec fn operand_shape(a: OperandView, b: OperandView) -> bool {
    match (a, b) {
        (OperandView::Copy(pa), OperandView::Copy(pb)) => place_shape(pa, pb),
        (OperandView::Move(pa), OperandView::Move(pb)) => place_shape(pa, pb),
        (OperandView::Constant(c1), OperandView::Constant(c2)) => c1 == c2,
        _ => false,
    }
}

pub open spec fn rvalue_shape(a: RvalueView, b: RvalueView) -> bool {
    match (a, b) {
        (RvalueView::Use(o1), RvalueView::Use(o2)) => operand_shape(o1, o2),
        (RvalueView::Ref(k1, pa), RvalueView::Ref(k2, pb)) => k1 == k2 && place_shape(pa, pb),
        (RvalueView::BinaryOp(o1, l1, r1), RvalueView::BinaryOp(o2, l2, r2)) => o1 == o2
            && operand_shape(l1, l2) && operand_shape(r1, r2),
        (RvalueView::CheckedBinaryOp(o1, l1, r1), RvalueView::CheckedBinaryOp(o2, l2, r2)) => o1
            == o2 && operand_shape(l1, l2) && operand_shape(r1, r2),
        (RvalueView::UnaryOp(o1, x1), RvalueView::UnaryOp(o2, x2)) => o1 == o2 && operand_shape(
            x1,
            x2,
        ),
        _ => false,
    }
}

pub open spec fn statement_shape<I>(a: StatementView<I>, b: StatementView<I>) -> bool {
    a.source_info == b.source_info && match (a.kind, b.kind) {
        (StatementKindView::Let(_, l1), StatementKindView::Let(_, l2)) => l1 == l2,
        (StatementKindView::Assign(pa, r1), StatementKindView::Assign(pb, r2)) => place_shape(
            pa,
            pb,
        ) && rvalue_shape(r1, r2),
        (StatementKindView::Drop(pa), StatementKindView::Drop(pb)) => place_shape(pa, pb),
        (StatementKindView::Nop, StatementKindView::Nop) => true,
        _ => false,
    }
}

pub open spec fn body_shape<I>(a: FnBodyView<I>, b: FnBodyView<I>) -> bool
    decreases a, 0nat,
{
    match (a, b) {
        (FnBodyView::LetCont(d1, r1), FnBodyView::LetCont(d2, r2)) => d1.len() == d2.len() && (
        forall|i: int| 0 <= i < d1.len() ==> cont_def_shape(#[trigger] d1[i], d2[i]))
            && body_shape(*r1, *r2),
        (
            FnBodyView::Ite { discr: pa, then: t1, else_: e1 },
            FnBodyView::Ite { discr: pb, then: t2, else_: e2 },
        ) => place_shape(pa, pb) && body_shape(*t1, *t2) && body_shape(*e1, *e2),
        (
            FnBodyView::Call { func: _, args: a1, destination: d1 },
            FnBodyView::Call { func: _, args: a2, destination: d2 },
        ) => a1.len() == a2.len() && match (d1, d2) {
            (Some((pa, _)), Some((pb, _))) => place_shape(pa, pb),
            (None, None) => true,
            _ => false,
        },
        (FnBodyView::Jump { target: _, args: a1 }, FnBodyView::Jump { target: _, args: a2 }) => a1.len()
            == a2.len(),
        (FnBodyView::Sequence(s1, r1), FnBodyView::Sequence(s2, r2)) => statement_shape(s1, s2)
            && body_shape(*r1, *r2),
        (FnBodyView::Abort, FnBodyView::Abort) => true,
        _ => false,
    }
}

pub open spec fn cont_def_shape<I>(a: ContDefView<I>, b: ContDefView<I>) -> bool
    decreases a, 1nat,
{
    &&& a.params.len() == b.params.len()
    &&& cont_ty_shape(a.ty, b.ty)
    &&& body_shape(*a.body, *b.body)
}

pub open spec fn fn_def_shape<I>(a: FnDefView<I>, b: FnDefView<I>) -> bool {
    &&& fn_decl_shape(a.ty, b.ty)
    &&& a.params.len() == b.params.len()
    &&& body_shape(a.body, b.body)
}

pub open spec fn program_shape<I>(a: Seq<(FnId, FnDefView<I>)>, b: Seq<(FnId, FnDefView<I>)>) -> bool {
    a.len() == b.len() && forall|i: int|
        0 <= i < a.len() ==> fn_def_shape((#[trigger] a[i]).1, b[i].1)
}

} // verus!
