//! Lowering of annotations: from types whose binders are source names to types over
//! locations and fields.
//!
//! Names are resolved from left to right. A name that is bound where it is met stands
//! for the identifier that it was bound to; any other is bound to the next identifier.
//! A tuple opens a scope, so that the names of its fields are bound within it only.

use crate::ast::pred::{
    BinOp, Constant, Place as PredPlace, PlaceView as PredPlaceView, Pred, PredView, UnOp,
    Var as PredVar,
};
use crate::ast::{
    fields_view, lemma_tuple_view, FnTy, FnTyView, Heap, Refine, RefineView, Ty, TyView,
};
use crate::freshen::laws::{below_top, lemma_pop_restores};
use crate::names::{Field, Location};
use crate::scope::{
    define, lookup, scope_define, scope_get, scope_layers, scope_new, scope_pop_layer,
    scope_push_layer,
};
use crate::surface;
use crate::surface::{BinOpKind, Ident, PredicateKind, PredicateView, TyKind, UnOpKind, Var};
use quickscope::ScopeMap;
use std::collections::hash_map::RandomState;
use vstd::pervasive::unreached;
use vstd::prelude::*;

pub mod support;

verus! {

/// The state of lowering: what each name in scope is bound to, by the kind of variable
/// that it names, and the next identifier.
pub struct LowerState {
    pub nu: Seq<Map<usize, usize>>,
    pub locations: Seq<Map<usize, usize>>,
    pub fields: Seq<Map<usize, usize>>,
    pub locs: nat,
}

/// The unary operator as the logic has it, if it has it.
pub open spec fn lower_un_op(kind: UnOpKind) -> Option<UnOp> {
    match kind {
        UnOpKind::Not => Some(UnOp::Not),
        UnOpKind::Neg => None,
    }
}

/// The binary operator as the logic has it, if it has it.
pub open spec fn lower_bin_op(kind: BinOpKind) -> Option<BinOp> {
    match kind {
        BinOpKind::Add => Some(BinOp::Add),
        BinOpKind::Sub => Some(BinOp::Sub),
        BinOpKind::Lt => Some(BinOp::Lt),
        BinOpKind::Le => Some(BinOp::Le),
        BinOpKind::Eq => Some(BinOp::Eq),
        BinOpKind::Ge => Some(BinOp::Ge),
        BinOpKind::Gt => Some(BinOp::Gt),
        _ => None,
    }
}

impl LowerState {
    /// The state in which nothing is bound.
    pub open spec fn initial() -> LowerState {
        LowerState {
            nu: seq![Map::empty()],
            locations: seq![Map::empty()],
            fields: seq![Map::empty()],
            locs: 0,
        }
    }

    /// There is a scope to bind in.
    pub open spec fn wf(self) -> bool {
        self.nu.len() >= 1 && self.locations.len() >= 1 && self.fields.len() >= 1
    }

    /// Whether this state has come from `before` with every scope closed that was
    /// opened since: there are as many scopes, those around the innermost are as they
    /// were, and no identifier is handed out again.
    pub open spec fn framed_from(self, before: LowerState) -> bool {
        &&& below_top(before.nu, self.nu, true)
        &&& below_top(before.locations, self.locations, true)
        &&& below_top(before.fields, self.fields, true)
        &&& before.locs <= self.locs
    }

    /// What `v` is bound to.
    pub open spec fn get(self, v: Var) -> Option<usize> {
        match v {
            Var::Nu => lookup(self.nu, 0),
            Var::Location(i) => lookup(self.locations, i.0),
            Var::Field(i) => lookup(self.fields, i.0),
        }
    }

    /// The next identifier, which is then used up.
    pub open spec fn fresh(self) -> Option<(LowerState, usize)> {
        if self.locs < usize::MAX {
            Some((LowerState { locs: self.locs + 1, ..self }, self.locs as usize))
        } else {
            None
        }
    }

    /// Binds `v` to the next identifier in the innermost scope.
    pub open spec fn define(self, v: Var) -> Option<(LowerState, usize)> {
        if self.locs < usize::MAX {
            let n = self.locs as usize;
            let st = LowerState { locs: self.locs + 1, ..self };
            Some(
                (
                    match v {
                        Var::Nu => LowerState { nu: define(self.nu, 0, n), ..st },
                        Var::Location(i) => LowerState {
                            locations: define(self.locations, i.0, n),
                            ..st
                        },
                        Var::Field(i) => LowerState { fields: define(self.fields, i.0, n), ..st },
                    },
                    n,
                ),
            )
        } else {
            None
        }
    }

    /// What `v` is bound to; where it is not bound, it is bound to the next identifier.
    pub open spec fn try_get(self, v: Var) -> Option<(LowerState, usize)> {
        match self.get(v) {
            Some(n) => Some((self, n)),
            None => self.define(v),
        }
    }

    /// The state with a scope opened.
    pub open spec fn push_layer(self) -> LowerState {
        LowerState {
            nu: self.nu.push(Map::empty()),
            locations: self.locations.push(Map::empty()),
            fields: self.fields.push(Map::empty()),
            ..self
        }
    }

    /// The state with the innermost scope closed.
    pub open spec fn pop_layer(self) -> LowerState {
        LowerState {
            nu: crate::freshen::pop(self.nu),
            locations: crate::freshen::pop(self.locations),
            fields: crate::freshen::pop(self.fields),
            ..self
        }
    }

    /// A variable lowered: a name stands for what it is bound to, or is bound now.
    pub open spec fn var(self, v: Var) -> Option<(LowerState, PredVar)> {
        match v {
            Var::Nu => Some((self, PredVar::Nu)),
            Var::Location(_) => match self.try_get(v) {
                Some((st, n)) => Some((st, PredVar::Location(Location(n)))),
                None => None,
            },
            Var::Field(_) => match self.try_get(v) {
                Some((st, n)) => Some((st, PredVar::Field(Field(n)))),
                None => None,
            },
        }
    }

    /// A predicate lowered, its parts from left to right. There is none where an
    /// operator is not one of the logic.
    pub open spec fn pred(self, p: PredicateView) -> Option<(LowerState, PredView)>
        decreases p,
    {
        match p {
            PredicateView::Lit(c) => Some((self, PredView::Constant(c))),
            PredicateView::Place(base, projs) => match self.var(base) {
                Some((st, base)) => Some((st, PredView::Place(PredPlaceView { base, projs }))),
                None => None,
            },
            PredicateView::UnaryOp(op, operand) => match lower_un_op(op) {
                Some(op) => match self.pred(*operand) {
                    Some((st, o)) => Some((st, PredView::UnaryOp(op, Box::new(o)))),
                    None => None,
                },
                None => None,
            },
            PredicateView::BinaryOp(op, lhs, rhs) => match lower_bin_op(op) {
                Some(op) => match self.pred(*lhs) {
                    Some((st, l)) => match st.pred(*rhs) {
                        Some((st, r)) => Some(
                            (st, PredView::BinaryOp(op, Box::new(l), Box::new(r))),
                        ),
                        None => None,
                    },
                    None => None,
                },
                None => None,
            },
        }
    }

    /// A type lowered. A base type without a refinement gets the refinement `true`. A
    /// tuple binds each field to the next identifier, in a scope of its own, before the
    /// type of the field is lowered.
    pub open spec fn ty(self, t: surface::TyView) -> Option<(LowerState, TyView)>
        decreases t, 0nat,
    {
        match t {
            surface::TyView::Base(b) => Some(
                (self, TyView::Refine(b, RefineView::Pred(PredView::tt()))),
            ),
            surface::TyView::Refined(_, b, p) => match self.pred(p) {
                Some((st, p)) => Some((st, TyView::Refine(b, RefineView::Pred(p)))),
                None => None,
            },
            surface::TyView::Tuple(fields) => match self.push_layer().fields(
                fields,
                0,
                Seq::empty(),
            ) {
                Some((st, fs)) => Some((st.pop_layer(), TyView::Tuple(fs))),
                None => None,
            },
        }
    }

    /// The fields of a tuple lowered from the `i`-th on, after `done`.
    pub open spec fn fields(self, fields: Seq<(Ident, surface::TyView)>, i: nat, done: Seq<(Field, TyView)>)
        -> Option<(LowerState, Seq<(Field, TyView)>)>
        decreases fields, fields.len() - i,
    {
        if i >= fields.len() {
            Some((self, done))
        } else {
            match self.define(Var::Field(fields[i as int].0)) {
                Some((st, n)) => match st.ty(fields[i as int].1) {
                    Some((st, t)) => st.fields(fields, i + 1, done.push((Field(n), t))),
                    None => None,
                },
                None => None,
            }
        }
    }

    /// The arguments of a function lowered from the `i`-th on, after those at the
    /// locations `inputs`, which `heap` holds: each argument names a location, which
    /// holds the lowered type of the argument.
    pub open spec fn args(
        self,
        args: Seq<(Ident, surface::TyView)>,
        i: nat,
        inputs: Seq<Location>,
        heap: Seq<(Location, TyView)>,
    ) -> Option<(LowerState, Seq<Location>, Seq<(Location, TyView)>)>
        decreases args.len() - i,
    {
        if i >= args.len() {
            Some((self, inputs, heap))
        } else {
            match self.try_get(Var::Location(args[i as int].0)) {
                Some((st, n)) => match st.ty(args[i as int].1) {
                    Some((st, t)) => st.args(
                        args,
                        i + 1,
                        inputs.push(Location(n)),
                        heap.push((Location(n), t)),
                    ),
                    None => None,
                },
                None => None,
            }
        }
    }

    /// The type of a function lowered: the input heap holds one location for each
    /// argument, in order; the output heap holds those and then a fresh location for
    /// the result.
    pub open spec fn fn_ty(self, f: surface::FnTyView) -> Option<(LowerState, FnTyView)> {
        match self.args(f.args, 0, Seq::empty(), Seq::empty()) {
            Some((st, inputs, heap)) => match st.fresh() {
                Some((st, n)) => match st.ty(f.output) {
                    Some((st, t)) => Some(
                        (
                            st,
                            FnTyView {
                                in_heap: heap,
                                inputs,
                                out_heap: heap.push((Location(n), t)),
                                output: Location(n),
                            },
                        ),
                    ),
                    None => None,
                },
                None => None,
            },
            None => None,
        }
    }
}

/// A scope that was opened and has been closed leaves the scopes as they were: where
/// `inner` has come from `before` with one scope more, closing that scope gives a state
/// that has come from `before`.
pub proof fn lemma_closed(before: LowerState, inner: LowerState)
    requires
        before.wf(),
        inner.framed_from(before.push_layer()),
    ensures
        inner.pop_layer().framed_from(before),
{
    lemma_pop_restores(before.nu, inner.nu);
    lemma_pop_restores(before.locations, inner.locations);
    lemma_pop_restores(before.fields, inner.fields);
}

/// The context of lowering.
pub struct LowerCtx {
    nu: ScopeMap<usize, usize, RandomState>,
    locations: ScopeMap<usize, usize, RandomState>,
    fields: ScopeMap<usize, usize, RandomState>,
    locs: usize,
}

impl View for LowerCtx {
    type V = LowerState;

    closed spec fn view(&self) -> LowerState {
        LowerState {
            nu: scope_layers(self.nu),
            locations: scope_layers(self.locations),
            fields: scope_layers(self.fields),
            locs: self.locs as nat,
        }
    }
}

impl LowerCtx {
    /// The context in which nothing is bound.
    pub fn new() -> (lcx: LowerCtx)
        ensures
            lcx@ == LowerState::initial(),
    {
        LowerCtx { nu: scope_new(), locations: scope_new(), fields: scope_new(), locs: 0 }
    }

    /// The next identifier, which is then used up.
    pub fn fresh(&mut self) -> (n: usize)
        requires
            old(self)@.fresh() is Some,
        ensures
            old(self)@.fresh() == Some((final(self)@, n)),
            old(self)@.wf() ==> final(self)@.framed_from(old(self)@),
    {
        self.locs += 1;
        self.locs - 1
    }

    /// Binds `i` to the next identifier in the innermost scope, and returns it.
    pub fn define(&mut self, i: Var) -> (n: usize)
        requires
            old(self)@.define(i) is Some,
        ensures
            old(self)@.define(i) == Some((final(self)@, n)),
            old(self)@.wf() ==> final(self)@.framed_from(old(self)@),
    {
        let n = self.locs;
        self.locs += 1;
        match i {
            Var::Nu => scope_define(&mut self.nu, 0, n),
            Var::Location(id) => scope_define(&mut self.locations, id.0, n),
            Var::Field(id) => scope_define(&mut self.fields, id.0, n),
        }
        n
    }

    /// What `i` is bound to; where it is not bound, it is bound to the next identifier.
    pub fn try_get(&mut self, i: Var) -> (n: usize)
        requires
            old(self)@.try_get(i) is Some,
        ensures
            old(self)@.try_get(i) == Some((final(self)@, n)),
            old(self)@.wf() ==> final(self)@.framed_from(old(self)@),
    {
        let found = match i {
            Var::Nu => scope_get(&self.nu, 0),
            Var::Location(id) => scope_get(&self.locations, id.0),
            Var::Field(id) => scope_get(&self.fields, id.0),
        };
        match found {
            Some(v) => v,
            None => self.define(i),
        }
    }

    /// Whether `try_get` can bind a name: an identifier is left.
    pub fn has_fresh(&self) -> (b: bool)
        ensures
            b == (self@.locs < usize::MAX),
    {
        self.locs < usize::MAX
    }

    fn push_layer(&mut self)
        ensures
            final(self)@ == old(self)@.push_layer(),
    {
        scope_push_layer(&mut self.nu);
        scope_push_layer(&mut self.locations);
        scope_push_layer(&mut self.fields);
    }

    fn pop_layer(&mut self)
        ensures
            final(self)@ == old(self)@.pop_layer(),
    {
        scope_pop_layer(&mut self.nu);
        scope_pop_layer(&mut self.locations);
        scope_pop_layer(&mut self.fields);
    }
}

impl surface::UnOp {
    /// The operator as the logic has it.
    pub fn lower(self, lcx: &mut LowerCtx) -> (op: UnOp)
        requires
            lower_un_op(self.kind) is Some,
        ensures
            lower_un_op(self.kind) == Some(op),
            final(lcx)@ == old(lcx)@,
    {
        match self.kind {
            UnOpKind::Not => UnOp::Not,
            UnOpKind::Neg => unreached(),
        }
    }

    /// Whether the logic has the operator.
    pub fn is_supported(&self) -> (b: bool)
        ensures
            b == lower_un_op(self.kind) is Some,
    {
        match self.kind {
            UnOpKind::Not => true,
            UnOpKind::Neg => false,
        }
    }
}

impl surface::BinOp {
    /// The operator as the logic has it.
    pub fn lower(self, lcx: &mut LowerCtx) -> (op: BinOp)
        requires
            lower_bin_op(self.kind) is Some,
        ensures
            lower_bin_op(self.kind) == Some(op),
            final(lcx)@ == old(lcx)@,
    {
        match self.kind {
            BinOpKind::Add => BinOp::Add,
            BinOpKind::Sub => BinOp::Sub,
            BinOpKind::Lt => BinOp::Lt,
            BinOpKind::Le => BinOp::Le,
            BinOpKind::Eq => BinOp::Eq,
            BinOpKind::Ge => BinOp::Ge,
            BinOpKind::Gt => BinOp::Gt,
            _ => unreached(),
        }
    }

    /// Whether the logic has the operator.
    pub fn is_supported(&self) -> (b: bool)
        ensures
            b == lower_bin_op(self.kind) is Some,
    {
        match self.kind {
            BinOpKind::Add => true,
            BinOpKind::Sub => true,
            BinOpKind::Lt => true,
            BinOpKind::Le => true,
            BinOpKind::Eq => true,
            BinOpKind::Ge => true,
            BinOpKind::Gt => true,
            _ => false,
        }
    }
}

impl LowerCtx {
    fn checked_define(&mut self, i: Var) -> (n: Option<usize>)
        ensures
            match n {
                Some(n) => old(self)@.define(i) == Some((final(self)@, n)),
                None => old(self)@.define(i) is None && final(self)@ == old(self)@,
            },
            old(self)@.wf() ==> final(self)@.framed_from(old(self)@),
    {
        if self.has_fresh() {
            Some(self.define(i))
        } else {
            None
        }
    }

    fn checked_try_get(&mut self, i: Var) -> (n: Option<usize>)
        ensures
            match n {
                Some(n) => old(self)@.try_get(i) == Some((final(self)@, n)),
                None => old(self)@.try_get(i) is None && final(self)@ == old(self)@,
            },
            old(self)@.wf() ==> final(self)@.framed_from(old(self)@),
    {
        let found = match i {
            Var::Nu => scope_get(&self.nu, 0),
            Var::Location(id) => scope_get(&self.locations, id.0),
            Var::Field(id) => scope_get(&self.fields, id.0),
        };
        match found {
            Some(v) => Some(v),
            None => self.checked_define(i),
        }
    }
}

impl surface::Predicate {
    /// The predicate over locations and fields; none where an operator is not one of
    /// the logic, or where the identifiers run out.
    pub fn try_lower(self, lcx: &mut LowerCtx) -> (p: Option<Pred>)
        ensures
            match p {
                Some(p) => old(lcx)@.pred(self@) == Some((final(lcx)@, p@)),
                None => old(lcx)@.pred(self@) is None,
            },
            old(lcx)@.wf() ==> final(lcx)@.framed_from(old(lcx)@),
        decreases self,
    {
        match self.kind {
            PredicateKind::Lit(c) => Some(Pred::Constant(c)),
            PredicateKind::Place(p) => {
                let base = match p.base {
                    Var::Nu => PredVar::Nu,
                    Var::Location(_) => match lcx.checked_try_get(p.base) {
                        Some(n) => PredVar::Location(Location(n)),
                        None => return None,
                    },
                    Var::Field(_) => match lcx.checked_try_get(p.base) {
                        Some(n) => PredVar::Field(Field(n)),
                        None => return None,
                    },
                };
                Some(Pred::Place(PredPlace { base, projs: p.projs }))
            },
            PredicateKind::UnaryOp(uo, bp) => {
                if !uo.is_supported() {
                    return None;
                }
                let op = uo.lower(lcx);
                match (*bp).try_lower(lcx) {
                    Some(o) => Some(Pred::UnaryOp(op, Box::new(o))),
                    None => None,
                }
            },
            PredicateKind::BinaryOp(bop, ba, bb) => {
                if !bop.is_supported() {
                    return None;
                }
                let op = bop.lower(lcx);
                let l = match (*ba).try_lower(lcx) {
                    Some(l) => l,
                    None => return None,
                };
                let r = match (*bb).try_lower(lcx) {
                    Some(r) => r,
                    None => return None,
                };
                Some(Pred::BinaryOp(op, Box::new(l), Box::new(r)))
            },
        }
    }

    /// The predicate over locations and fields.
    pub fn lower(self, lcx: &mut LowerCtx) -> (p: Pred)
        requires
            old(lcx)@.pred(self@) is Some,
        ensures
            old(lcx)@.pred(self@) == Some((final(lcx)@, p@)),
            old(lcx)@.wf() ==> final(lcx)@.framed_from(old(lcx)@),
    {
        match self.try_lower(lcx) {
            Some(p) => p,
            None => unreached(),
        }
    }
}

impl surface::Ty {
    /// The type over locations and fields; none where an operator is not one of the
    /// logic, or where the identifiers run out.
    #[verifier::loop_isolation(false)]
    pub fn try_lower(self, lcx: &mut LowerCtx) -> (ty: Option<Ty>)
        ensures
            match ty {
                Some(ty) => old(lcx)@.ty(self@) == Some((final(lcx)@, ty@)),
                None => old(lcx)@.ty(self@) is None,
            },
            old(lcx)@.wf() ==> final(lcx)@.framed_from(old(lcx)@),
        decreases self,
    {
        proof {
            if self.kind is Tuple {
                surface::lemma_tuple_view(self);
            }
        }
        match self.kind {
            TyKind::Base(b) => Some(Ty::Refine(b, Refine::Pred(Pred::tt()))),
            TyKind::Refined(_i, b, p) => match p.try_lower(lcx) {
                Some(lp) => Some(Ty::Refine(b, Refine::Pred(lp))),
                None => None,
            },
            TyKind::Tuple(fs) => {
                let ghost fields = surface::named_view(fs@);
                let ghost fs0 = fs@;
                lcx.push_layer();
                let ghost st1 = lcx@;
                let mut pending = crate::ast::reversed(fs);
                let mut res: Vec<(Field, Ty)> = Vec::new();
                assert(fields_view(res@) =~= Seq::empty());
                while pending.len() > 0
                    invariant
                        pending@.len() + res@.len() == fs0.len(),
                        forall|j: int|
                            0 <= j < pending@.len() ==> pending@[j] == fs0[fs0.len() - 1 - j],
                        old(lcx)@.wf() ==> lcx@.framed_from(st1),
                        lcx@.fields(fields, res@.len() as nat, fields_view(res@)) == st1.fields(
                            fields,
                            0,
                            Seq::empty(),
                        ),
                    decreases pending.len(),
                {
                    let ghost k = res@.len() as int;
                    let (f, t) = pending.pop().unwrap();
                    assert((f, t) == fs0[k]);
                    assert(decreases_to!(self => self.kind));
                    assert(decreases_to!(self.kind => self.kind->Tuple_0));
                    assert(decreases_to!(self.kind->Tuple_0 => self.kind->Tuple_0[k]));
                    let nf = match lcx.checked_define(Var::Field(f)) {
                        Some(n) => Field(n),
                        None => {
                            proof {
                                if old(lcx)@.wf() {
                                    lemma_closed(old(lcx)@, lcx@);
                                }
                            }
                            lcx.pop_layer();
                            return None;
                        },
                    };
                    let lt = match t.try_lower(lcx) {
                        Some(lt) => lt,
                        None => {
                            proof {
                                if old(lcx)@.wf() {
                                    lemma_closed(old(lcx)@, lcx@);
                                }
                            }
                            lcx.pop_layer();
                            return None;
                        },
                    };
                    proof {
                        assert(fields_view(res@.push((nf, lt))) =~= fields_view(res@).push(
                            (nf, lt@),
                        ));
                    }
                    res.push((nf, lt));
                }
                proof {
                    if old(lcx)@.wf() {
                        lemma_closed(old(lcx)@, lcx@);
                    }
                }
                lcx.pop_layer();
                proof {
                    lemma_tuple_view(res);
                }
                Some(Ty::Tuple(res))
            },
        }
    }

    /// The type over locations and fields.
    pub fn lower(self, lcx: &mut LowerCtx) -> (ty: Ty)
        requires
            old(lcx)@.ty(self@) is Some,
        ensures
            old(lcx)@.ty(self@) == Some((final(lcx)@, ty@)),
            old(lcx)@.wf() ==> final(lcx)@.framed_from(old(lcx)@),
    {
        match self.try_lower(lcx) {
            Some(ty) => ty,
            None => unreached(),
        }
    }
}

impl surface::FnTy {
    /// The type of the function over locations and fields; none where an operator is
    /// not one of the logic, or where the identifiers run out.
    #[verifier::loop_isolation(false)]
    pub fn try_lower(self, lcx: &mut LowerCtx) -> (ty: Option<FnTy>)
        ensures
            match ty {
                Some(ty) => old(lcx)@.fn_ty(self@) == Some((final(lcx)@, ty@)),
                None => old(lcx)@.fn_ty(self@) is None,
            },
            old(lcx)@.wf() ==> final(lcx)@.framed_from(old(lcx)@),
    {
        let ghost args0 = self.kind.args@;
        let ghost args = surface::named_view(args0);
        let ghost st0 = lcx@;
        let out = self.kind.output;
        let mut pending = crate::ast::reversed(self.kind.args);
        let mut inputs: Vec<Location> = Vec::new();
        let mut in_heap = Heap::new();
        let mut out_heap = Heap::new();
        while pending.len() > 0
            invariant
                pending@.len() + inputs@.len() == args0.len(),
                forall|j: int| 0 <= j < pending@.len() ==> pending@[j] == args0[args0.len() - 1 - j],
                in_heap@ == out_heap@,
                st0.wf() ==> lcx@.framed_from(st0),
                lcx@.args(args, inputs@.len() as nat, inputs@, in_heap@) == st0.args(
                    args,
                    0,
                    Seq::empty(),
                    Seq::empty(),
                ),
            decreases pending.len(),
        {
            let ghost k = inputs@.len() as int;
            let (ident, ty) = pending.pop().unwrap();
            assert((ident, ty) == args0[k]);
            let loc = match lcx.checked_try_get(Var::Location(ident)) {
                Some(n) => Location(n),
                None => return None,
            };
            let lty = match ty.try_lower(lcx) {
                Some(lty) => lty,
                None => return None,
            };
            inputs.push(loc);
            in_heap.insert(loc, lty.clone());
            out_heap.insert(loc, lty);
        }
        if !lcx.has_fresh() {
            return None;
        }
        let output = Location(lcx.fresh());
        let oty = match (*out).try_lower(lcx) {
            Some(oty) => oty,
            None => return None,
        };
        out_heap.insert(output, oty);
        Some(FnTy { in_heap, inputs, out_heap, output })
    }

    /// The type of the function over locations and fields.
    pub fn lower(self, lcx: &mut LowerCtx) -> (ty: FnTy)
        requires
            old(lcx)@.fn_ty(self@) is Some,
        ensures
            old(lcx)@.fn_ty(self@) == Some((final(lcx)@, ty@)),
            old(lcx)@.wf() ==> final(lcx)@.framed_from(old(lcx)@),
    {
        match self.try_lower(lcx) {
            Some(ty) => ty,
            None => unreached(),
        }
    }
}

/// What can be lowered.
pub trait Lower: Sized {
    /// What it is lowered to.
    type Output;

    /// Whether lowering is defined from the state `st`.
    spec fn lowers(&self, st: LowerState) -> bool;

    /// Whether `out` is what lowering from the state `st` gives, and `after` the state
    /// that it leaves.
    spec fn lowered(&self, st: LowerState, after: LowerState, out: Self::Output) -> bool;

    fn lower(self, lcx: &mut LowerCtx) -> (out: Self::Output)
        requires
            self.lowers(old(lcx)@),
        ensures
            self.lowered(old(lcx)@, final(lcx)@, out),
    ;
}

impl Lower for surface::UnOp {
    type Output = UnOp;

    open spec fn lowers(&self, st: LowerState) -> bool {
        lower_un_op(self.kind) is Some
    }

    open spec fn lowered(&self, st: LowerState, after: LowerState, out: UnOp) -> bool {
        lower_un_op(self.kind) == Some(out) && after == st
    }

    fn lower(self, lcx: &mut LowerCtx) -> (out: UnOp) {
        surface::UnOp::lower(self, lcx)
    }
}

impl Lower for surface::BinOp {
    type Output = BinOp;

    open spec fn lowers(&self, st: LowerState) -> bool {
        lower_bin_op(self.kind) is Some
    }

    open spec fn lowered(&self, st: LowerState, after: LowerState, out: BinOp) -> bool {
        lower_bin_op(self.kind) == Some(out) && after == st
    }

    fn lower(self, lcx: &mut LowerCtx) -> (out: BinOp) {
        surface::BinOp::lower(self, lcx)
    }
}

impl Lower for surface::Predicate {
    type Output = Pred;

    open spec fn lowers(&self, st: LowerState) -> bool {
        st.pred(self@) is Some
    }

    open spec fn lowered(&self, st: LowerState, after: LowerState, out: Pred) -> bool {
        st.pred(self@) == Some((after, out@))
    }

    fn lower(self, lcx: &mut LowerCtx) -> (out: Pred) {
        surface::Predicate::lower(self, lcx)
    }
}

impl Lower for surface::Ty {
    type Output = Ty;

    open spec fn lowers(&self, st: LowerState) -> bool {
        st.ty(self@) is Some
    }

    open spec fn lowered(&self, st: LowerState, after: LowerState, out: Ty) -> bool {
        st.ty(self@) == Some((after, out@))
    }

    fn lower(self, lcx: &mut LowerCtx) -> (out: Ty) {
        surface::Ty::lower(self, lcx)
    }
}

impl Lower for surface::FnTy {
    type Output = FnTy;

    open spec fn lowers(&self, st: LowerState) -> bool {
        st.fn_ty(self@) is Some
    }

    open spec fn lowered(&self, st: LowerState, after: LowerState, out: FnTy) -> bool {
        st.fn_ty(self@) == Some((after, out@))
    }

    fn lower(self, lcx: &mut LowerCtx) -> (out: FnTy) {
        surface::FnTy::lower(self, lcx)
    }
}

} // verus!
