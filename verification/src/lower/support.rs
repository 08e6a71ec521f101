//! Which surface syntax the logic has, and lowering that says why there is no result.

use crate::ast::{FnTy, Ty};
use crate::ast::pred::Pred;
use crate::lower::{lower_bin_op, lower_un_op, LowerCtx, LowerState};
use crate::names::{Field, Location};
use crate::surface;
use crate::surface::{Ident, PredicateKind, PredicateView, TyKind};
use vstd::prelude::*;

verus! {

/// Why a piece of surface syntax has no lowering.
#[derive(Clone, Copy, Debug, PartialEq, Eq, Structural)]
pub enum LowerError {
    /// An operator in it is not one of the logic: it is not yet implemented. Nothing
    /// has been lowered and no identifier has been handed out.
    Unsupported,
    /// Every operator in it is one of the logic, and the identifiers have run out.
    Exhausted,
}

/// Whether every operator of the predicate is one of the logic.
pub open spec fn pred_supported(p: PredicateView) -> bool
    decreases p,
{
    match p {
        PredicateView::Lit(_) => true,
        PredicateView::Place(_, _) => true,
        PredicateView::UnaryOp(op, operand) => lower_un_op(op) is Some && pred_supported(*operand),
        PredicateView::BinaryOp(op, lhs, rhs) => lower_bin_op(op) is Some && pred_supported(*lhs)
            && pred_supported(*rhs),
    }
}

/// Whether every operator in the refinements of the type is one of the logic.
pub open spec fn ty_supported(t: surface::TyView) -> bool
    decreases t, 0nat,
{
    match t {
        surface::TyView::Base(_) => true,
        surface::TyView::Refined(_, _, p) => pred_supported(p),
        surface::TyView::Tuple(fields) => named_supported(fields, 0),
    }
}

/// Whether every operator in the types of the list, from the `i`-th on, is one of the
/// logic.
pub open spec fn named_supported(named: Seq<(Ident, surface::TyView)>, i: nat) -> bool
    decreases named, named.len() - i,
{
    if i >= named.len() {
        true
    } else {
        ty_supported(named[i as int].1) && named_supported(named, i + 1)
    }
}

/// Whether every operator in the type of the function is one of the logic.
pub open spec fn fn_ty_supported(f: surface::FnTyView) -> bool {
    named_supported(f.args, 0) && ty_supported(f.output)
}

/// A predicate with an operator that the logic lacks has no lowering, whatever the
/// state.
pub proof fn lemma_pred_unsupported(st: LowerState, p: PredicateView)
    requires
        !pred_supported(p),
    ensures
        st.pred(p) is None,
    decreases p,
{
    match p {
        PredicateView::Lit(_) => {},
        PredicateView::Place(_, _) => {},
        PredicateView::UnaryOp(op, operand) => {
            if lower_un_op(op) is Some {
                lemma_pred_unsupported(st, *operand);
            }
        },
        PredicateView::BinaryOp(op, lhs, rhs) => {
            if lower_bin_op(op) is Some {
                if !pred_supported(*lhs) {
                    lemma_pred_unsupported(st, *lhs);
                } else {
                    match st.pred(*lhs) {
                        Some((st1, _)) => lemma_pred_unsupported(st1, *rhs),
                        None => {},
                    }
                }
            }
        },
    }
}

/// A type with an operator that the logic lacks has no lowering, whatever the state.
pub proof fn lemma_ty_unsupported(st: LowerState, t: surface::TyView)
    requires
        !ty_supported(t),
    ensures
        st.ty(t) is None,
    decreases t, 0nat,
{
    match t {
        surface::TyView::Base(_) => {},
        surface::TyView::Refined(_, _, p) => lemma_pred_unsupported(st, p),
        surface::TyView::Tuple(fields) => lemma_fields_unsupported(
            st.push_layer(),
            fields,
            0,
            Seq::empty(),
        ),
    }
}

/// Fields with an operator that the logic lacks have no lowering, whatever the state.
pub proof fn lemma_fields_unsupported(
    st: LowerState,
    fields: Seq<(Ident, surface::TyView)>,
    i: nat,
    done: Seq<(Field, crate::ast::TyView)>,
)
    requires
        !named_supported(fields, i),
    ensures
        st.fields(fields, i, done) is None,
    decreases fields, fields.len() - i,
{
    if i < fields.len() {
        match st.define(surface::Var::Field(fields[i as int].0)) {
            Some((st1, n)) => {
                if !ty_supported(fields[i as int].1) {
                    lemma_ty_unsupported(st1, fields[i as int].1);
                } else {
                    match st1.ty(fields[i as int].1) {
                        Some((st2, t)) => lemma_fields_unsupported(
                            st2,
                            fields,
                            i + 1,
                            done.push((Field(n), t)),
                        ),
                        None => {},
                    }
                }
            },
            None => {},
        }
    }
}

/// Arguments with an operator that the logic lacks have no lowering, whatever the
/// state.
pub proof fn lemma_args_unsupported(
    st: LowerState,
    args: Seq<(Ident, surface::TyView)>,
    i: nat,
    inputs: Seq<Location>,
    heap: Seq<(Location, crate::ast::TyView)>,
)
    requires
        !named_supported(args, i),
    ensures
        st.args(args, i, inputs, heap) is None,
    decreases args.len() - i,
{
    if i < args.len() {
        match st.try_get(surface::Var::Location(args[i as int].0)) {
            Some((st1, n)) => {
                if !ty_supported(args[i as int].1) {
                    lemma_ty_unsupported(st1, args[i as int].1);
                } else {
                    match st1.ty(args[i as int].1) {
                        Some((st2, t)) => lemma_args_unsupported(
                            st2,
                            args,
                            i + 1,
                            inputs.push(Location(n)),
                            heap.push((Location(n), t)),
                        ),
                        None => {},
                    }
                }
            },
            None => {},
        }
    }
}

/// The type of a function with an operator that the logic lacks has no lowering,
/// whatever the state: the two reasons for which there is none do not meet.
pub proof fn lemma_fn_ty_unsupported(st: LowerState, f: surface::FnTyView)
    requires
        !fn_ty_supported(f),
    ensures
        st.fn_ty(f) is None,
{
    if !named_supported(f.args, 0) {
        lemma_args_unsupported(st, f.args, 0, Seq::empty(), Seq::empty());
    } else {
        match st.args(f.args, 0, Seq::empty(), Seq::empty()) {
            Some((st1, _, _)) => match st1.fresh() {
                Some((st2, _)) => lemma_ty_unsupported(st2, f.output),
                None => {},
            },
            None => {},
        }
    }
}

/// How many identifiers lowering the predicate may draw: one for each place in it.
pub open spec fn pred_draws(p: PredicateView) -> nat
    decreases p,
{
    match p {
        PredicateView::Lit(_) => 0,
        PredicateView::Place(_, _) => 1,
        PredicateView::UnaryOp(_, operand) => pred_draws(*operand),
        PredicateView::BinaryOp(_, lhs, rhs) => pred_draws(*lhs) + pred_draws(*rhs),
    }
}

/// How many identifiers lowering the type may draw: one for each field of a tuple in
/// it and one for each place in its refinements.
pub open spec fn ty_draws(t: surface::TyView) -> nat
    decreases t, 0nat,
{
    match t {
        surface::TyView::Base(_) => 0,
        surface::TyView::Refined(_, _, p) => pred_draws(p),
        surface::TyView::Tuple(fields) => named_draws(fields, 0),
    }
}

/// How many identifiers lowering the types of the list, from the `i`-th on, may draw,
/// each with one for its name.
pub open spec fn named_draws(named: Seq<(Ident, surface::TyView)>, i: nat) -> nat
    decreases named, named.len() - i,
{
    if i >= named.len() {
        0
    } else {
        1 + ty_draws(named[i as int].1) + named_draws(named, i + 1)
    }
}

/// How many identifiers lowering the type of the function may draw: those of its
/// arguments, one for its result, and those of the type of the result.
pub open spec fn fn_ty_draws(f: surface::FnTyView) -> nat {
    named_draws(f.args, 0) + 1 + ty_draws(f.output)
}

/// A predicate whose operators the logic has is lowered, unless the identifiers run
/// out: where as many are left as it may draw, there is a result, and no more were
/// drawn.
pub proof fn lemma_pred_lowers(st: LowerState, p: PredicateView)
    requires
        pred_supported(p),
        st.locs + pred_draws(p) <= usize::MAX,
    ensures
        st.pred(p) matches Some((after, _)) && after.locs <= st.locs + pred_draws(p),
    decreases p,
{
    match p {
        PredicateView::Lit(_) => {},
        PredicateView::Place(_, _) => {},
        PredicateView::UnaryOp(_, operand) => {
            lemma_pred_lowers(st, *operand);
        },
        PredicateView::BinaryOp(_, lhs, rhs) => {
            lemma_pred_lowers(st, *lhs);
            lemma_pred_lowers(st.pred(*lhs).unwrap().0, *rhs);
        },
    }
}

/// A type whose operators the logic has is lowered, unless the identifiers run out.
pub proof fn lemma_ty_lowers(st: LowerState, t: surface::TyView)
    requires
        ty_supported(t),
        st.locs + ty_draws(t) <= usize::MAX,
    ensures
        st.ty(t) matches Some((after, _)) && after.locs <= st.locs + ty_draws(t),
    decreases t, 0nat,
{
    match t {
        surface::TyView::Base(_) => {},
        surface::TyView::Refined(_, _, p) => lemma_pred_lowers(st, p),
        surface::TyView::Tuple(fields) => lemma_fields_lower(
            st.push_layer(),
            fields,
            0,
            Seq::empty(),
        ),
    }
}

/// Fields whose operators the logic has are lowered, unless the identifiers run out.
pub proof fn lemma_fields_lower(
    st: LowerState,
    fields: Seq<(Ident, surface::TyView)>,
    i: nat,
    done: Seq<(Field, crate::ast::TyView)>,
)
    requires
        named_supported(fields, i),
        st.locs + named_draws(fields, i) <= usize::MAX,
    ensures
        st.fields(fields, i, done) matches Some((after, _)) && after.locs <= st.locs + named_draws(
            fields,
            i,
        ),
    decreases fields, fields.len() - i,
{
    if i < fields.len() {
        let (st1, n) = st.define(surface::Var::Field(fields[i as int].0)).unwrap();
        lemma_ty_lowers(st1, fields[i as int].1);
        let (st2, t) = st1.ty(fields[i as int].1).unwrap();
        lemma_fields_lower(st2, fields, i + 1, done.push((Field(n), t)));
    }
}

/// Arguments whose operators the logic has are lowered, unless the identifiers run
/// out.
pub proof fn lemma_args_lower(
    st: LowerState,
    args: Seq<(Ident, surface::TyView)>,
    i: nat,
    inputs: Seq<Location>,
    heap: Seq<(Location, crate::ast::TyView)>,
)
    requires
        named_supported(args, i),
        st.locs + named_draws(args, i) <= usize::MAX,
    ensures
        st.args(args, i, inputs, heap) matches Some((after, _, _)) && after.locs <= st.locs
            + named_draws(args, i),
    decreases args.len() - i,
{
    if i < args.len() {
        let (st1, n) = st.try_get(surface::Var::Location(args[i as int].0)).unwrap();
        lemma_ty_lowers(st1, args[i as int].1);
        let (st2, t) = st1.ty(args[i as int].1).unwrap();
        lemma_args_lower(st2, args, i + 1, inputs.push(Location(n)), heap.push((Location(n), t)));
    }
}

/// The type of a function whose operators the logic has is lowered, unless the
/// identifiers run out: where as many are left as it may draw, there is a result. So
/// there is none only for one of two reasons: the logic lacks an operator, or the
/// identifiers run out.
pub proof fn lemma_fn_ty_lowers(st: LowerState, f: surface::FnTyView)
    requires
        fn_ty_supported(f),
        st.locs + fn_ty_draws(f) <= usize::MAX,
    ensures
        st.fn_ty(f) matches Some((after, _)) && after.locs <= st.locs + fn_ty_draws(f),
{
    lemma_args_lower(st, f.args, 0, Seq::empty(), Seq::empty());
    let (st1, _, _) = st.args(f.args, 0, Seq::empty(), Seq::empty()).unwrap();
    let (st2, _) = st1.fresh().unwrap();
    lemma_ty_lowers(st2, f.output);
}

impl surface::Predicate {
    /// Whether every operator of the predicate is one of the logic.
    pub fn is_supported(&self) -> (b: bool)
        ensures
            b == pred_supported(self@),
        decreases self,
    {
        match &self.kind {
            PredicateKind::Lit(_) => true,
            PredicateKind::Place(_) => true,
            PredicateKind::UnaryOp(op, operand) => op.is_supported() && operand.is_supported(),
            PredicateKind::BinaryOp(op, lhs, rhs) => op.is_supported() && lhs.is_supported()
                && rhs.is_supported(),
        }
    }

    /// The predicate over locations and fields, or why there is none.
    pub fn lower_or_error(self, lcx: &mut LowerCtx) -> (r: Result<Pred, LowerError>)
        ensures
            match r {
                Ok(p) => old(lcx)@.pred(self@) == Some((final(lcx)@, p@)),
                Err(LowerError::Unsupported) => !pred_supported(self@) && final(lcx)@ == old(
                    lcx,
                )@,
                Err(LowerError::Exhausted) => pred_supported(self@) && old(lcx)@.pred(self@)
                    is None,
            },
            old(lcx)@.wf() ==> final(lcx)@.framed_from(old(lcx)@),
    {
        if !self.is_supported() {
            return Err(LowerError::Unsupported);
        }
        match self.try_lower(lcx) {
            Some(p) => Ok(p),
            None => Err(LowerError::Exhausted),
        }
    }
}

/// Whether every operator in the types of `named` is one of the logic.
fn named_are_supported(named: &Vec<(Ident, surface::Ty)>) -> (b: bool)
    ensures
        b == named_supported(surface::named_view(named@), 0),
    decreases named,
{
    let ghost views = surface::named_view(named@);
    let mut i: usize = 0;
    while i < named.len()
        invariant
            i <= named.len(),
            views == surface::named_view(named@),
            named_supported(views, 0) == named_supported(views, i as nat),
        decreases named.len() - i,
    {
        if !named[i].1.is_supported() {
            return false;
        }
        i += 1;
    }
    true
}

impl surface::Ty {
    /// Whether every operator in the refinements of the type is one of the logic.
    pub fn is_supported(&self) -> (b: bool)
        ensures
            b == ty_supported(self@),
        decreases self, 0nat,
    {
        proof {
            if self.kind is Tuple {
                surface::lemma_tuple_view(*self);
            }
        }
        match &self.kind {
            TyKind::Base(_) => true,
            TyKind::Refined(_, _, p) => p.is_supported(),
            TyKind::Tuple(fields) => named_are_supported(fields),
        }
    }

    /// The type over locations and fields, or why there is none.
    pub fn lower_or_error(self, lcx: &mut LowerCtx) -> (r: Result<Ty, LowerError>)
        ensures
            match r {
                Ok(ty) => old(lcx)@.ty(self@) == Some((final(lcx)@, ty@)),
                Err(LowerError::Unsupported) => !ty_supported(self@) && final(lcx)@ == old(
                    lcx,
                )@,
                Err(LowerError::Exhausted) => ty_supported(self@) && old(lcx)@.ty(self@) is None,
            },
            old(lcx)@.wf() ==> final(lcx)@.framed_from(old(lcx)@),
    {
        if !self.is_supported() {
            return Err(LowerError::Unsupported);
        }
        match self.try_lower(lcx) {
            Some(ty) => Ok(ty),
            None => Err(LowerError::Exhausted),
        }
    }
}

impl surface::FnTy {
    /// Whether every operator in the type of the function is one of the logic.
    pub fn is_supported(&self) -> (b: bool)
        ensures
            b == fn_ty_supported(self@),
    {
        named_are_supported(&self.kind.args) && self.kind.output.is_supported()
    }

    /// The type of the function over locations and fields, or why there is none. What
    /// the logic lacks is found before anything is lowered.
    pub fn lower_or_error(self, lcx: &mut LowerCtx) -> (r: Result<FnTy, LowerError>)
        ensures
            match r {
                Ok(ty) => old(lcx)@.fn_ty(self@) == Some((final(lcx)@, ty@)),
                Err(LowerError::Unsupported) => !fn_ty_supported(self@) && final(lcx)@ == old(
                    lcx,
                )@,
                Err(LowerError::Exhausted) => fn_ty_supported(self@) && old(lcx)@.fn_ty(self@)
                    is None,
            },
            old(lcx)@.wf() ==> final(lcx)@.framed_from(old(lcx)@),
    {
        if !self.is_supported() {
            return Err(LowerError::Unsupported);
        }
        match self.try_lower(lcx) {
            Some(ty) => Ok(ty),
            None => Err(LowerError::Exhausted),
        }
    }
}

} // verus!
