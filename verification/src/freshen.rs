//! Renaming of every bound identifier of a program to one that nothing else uses.
//!
//! The pass keeps one stack of scopes for each family of identifiers that nests
//! (continuations, locals, locations, fields) and one flat map for each that does not
//! (functions, universal regions). A binder gets the next identifier of its family
//! from the generation context; a reference resolves to the innermost enclosing binder.

pub mod count;
pub mod laws;

use crate::ast::pred::{PlaceView as PredPlaceView, Pred, PredView, Var};
use crate::ast::{
    ContDef, ContDefView, ContTy, ContTyView, FnBody, FnBodyView, FnDecl, FnDeclView, FnDef,
    FnDefView, Heap, Operand, OperandView, Place, PlaceView, Program, Refine, RefineView, Region,
    RegionView, Rvalue, RvalueView, Statement, StatementKind, StatementKindView, StatementView,
    Ty, TyView,
};
use crate::names::{ContId, Field, FnId, Local, Location, UniversalRegion};
use crate::scope::{
    define, lookup, scope_define, scope_get, scope_layers, scope_new, scope_pop_layer,
    scope_push_layer,
};
use crate::freshen::count::{advanced, program_binds};
use crate::shape::program_shape;
use crate::ty::{Counters, TyCtxt};
use quickscope::ScopeMap;
use std::collections::hash_map::RandomState;
use std::collections::HashMap;
use vstd::pervasive::unreached;
use vstd::prelude::*;

verus! {

/// `layers` without its topmost layer, unless that is the only one.
pub open spec fn pop(layers: Seq<Map<usize, usize>>) -> Seq<Map<usize, usize>> {
    if layers.len() > 1 {
        layers.drop_last()
    } else {
        layers
    }
}

/// `layers` with an empty layer on top.
pub open spec fn push(layers: Seq<Map<usize, usize>>) -> Seq<Map<usize, usize>> {
    layers.push(Map::empty())
}

/// What each identifier in scope is renamed to: a stack of scopes for each family
/// that nests, a flat map for each that does not.
pub struct Scopes {
    pub conts: Seq<Map<usize, usize>>,
    pub locals: Seq<Map<usize, usize>>,
    pub locations: Seq<Map<usize, usize>>,
    pub fields: Seq<Map<usize, usize>>,
    pub regions: Map<usize, usize>,
    pub fns: Map<usize, usize>,
}

/// The state of the pass: the scopes, and the counters of the context that it draws
/// identifiers from.
pub struct FreshState {
    pub scopes: Scopes,
    pub gen: Counters,
}

impl Scopes {
    /// The scopes before anything is bound.
    pub open spec fn initial() -> Scopes {
        Scopes {
            conts: seq![Map::empty()],
            locals: seq![Map::empty()],
            locations: seq![Map::empty()],
            fields: seq![Map::empty()],
            regions: Map::empty(),
            fns: Map::empty(),
        }
    }

    // References: each resolves to what its innermost enclosing binder was renamed to.

    pub open spec fn cont_id(self, k: ContId) -> Option<ContId> {
        match lookup(self.conts, k.0) {
            Some(n) => Some(ContId(n)),
            None => None,
        }
    }

    pub open spec fn local(self, x: Local) -> Option<Local> {
        match lookup(self.locals, x.0) {
            Some(n) => Some(Local(n)),
            None => None,
        }
    }

    pub open spec fn location(self, l: Location) -> Option<Location> {
        match lookup(self.locations, l.0) {
            Some(n) => Some(Location(n)),
            None => None,
        }
    }

    pub open spec fn field(self, f: Field) -> Option<Field> {
        match lookup(self.fields, f.0) {
            Some(n) => Some(Field(n)),
            None => None,
        }
    }

    pub open spec fn universal(self, r: UniversalRegion) -> Option<UniversalRegion> {
        if self.regions.contains_key(r.0) {
            Some(UniversalRegion(self.regions[r.0]))
        } else {
            None
        }
    }

    pub open spec fn func(self, f: FnId) -> Option<FnId> {
        if self.fns.contains_key(f.0) {
            Some(FnId(self.fns[f.0]))
        } else {
            None
        }
    }

    // What mentions identifiers without binding any.

    pub open spec fn place(self, p: PlaceView) -> Option<PlaceView> {
        match self.local(p.base) {
            Some(base) => Some(PlaceView { base, projs: p.projs }),
            None => None,
        }
    }

    pub open spec fn places(self, ps: Seq<PlaceView>) -> Option<Seq<PlaceView>> {
        if forall|i: int| 0 <= i < ps.len() ==> self.place(#[trigger] ps[i]) is Some {
            Some(Seq::new(ps.len(), |i: int| self.place(ps[i]).unwrap()))
        } else {
            None
        }
    }

    pub open spec fn args(self, xs: Seq<Local>) -> Option<Seq<Local>> {
        if forall|i: int| 0 <= i < xs.len() ==> self.local(#[trigger] xs[i]) is Some {
            Some(Seq::new(xs.len(), |i: int| self.local(xs[i]).unwrap()))
        } else {
            None
        }
    }

    pub open spec fn bound_local(self, b: (Local, Location)) -> Option<(Local, Location)> {
        match (self.local(b.0), self.location(b.1)) {
            (Some(x), Some(l)) => Some((x, l)),
            _ => None,
        }
    }

    pub open spec fn locals(self, xs: Seq<(Local, Location)>) -> Option<Seq<(Local, Location)>> {
        if forall|i: int| 0 <= i < xs.len() ==> self.bound_local(#[trigger] xs[i]) is Some {
            Some(Seq::new(xs.len(), |i: int| self.bound_local(xs[i]).unwrap()))
        } else {
            None
        }
    }

    pub open spec fn inputs(self, ls: Seq<Location>) -> Option<Seq<Location>> {
        if forall|i: int| 0 <= i < ls.len() ==> self.location(#[trigger] ls[i]) is Some {
            Some(Seq::new(ls.len(), |i: int| self.location(ls[i]).unwrap()))
        } else {
            None
        }
    }

    pub open spec fn universals(self, rs: Seq<UniversalRegion>) -> Option<Seq<UniversalRegion>> {
        if forall|i: int| 0 <= i < rs.len() ==> self.universal(#[trigger] rs[i]) is Some {
            Some(Seq::new(rs.len(), |i: int| self.universal(rs[i]).unwrap()))
        } else {
            None
        }
    }

    pub open spec fn var(self, v: Var) -> Option<Var> {
        match v {
            Var::Nu => Some(Var::Nu),
            Var::Location(l) => match self.location(l) {
                Some(l) => Some(Var::Location(l)),
                None => None,
            },
            Var::Field(f) => match self.field(f) {
                Some(f) => Some(Var::Field(f)),
                None => None,
            },
        }
    }

    pub open spec fn vars(self, vs: Seq<Var>) -> Option<Seq<Var>> {
        if forall|i: int| 0 <= i < vs.len() ==> self.var(#[trigger] vs[i]) is Some {
            Some(Seq::new(vs.len(), |i: int| self.var(vs[i]).unwrap()))
        } else {
            None
        }
    }

    pub open spec fn pred(self, p: PredView) -> Option<PredView>
        decreases p,
    {
        match p {
            PredView::Constant(c) => Some(p),
            PredView::Place(place) => match self.var(place.base) {
                Some(base) => Some(PredView::Place(PredPlaceView { base, projs: place.projs })),
                None => None,
            },
            PredView::BinaryOp(op, lhs, rhs) => match (self.pred(*lhs), self.pred(*rhs)) {
                (Some(l), Some(r)) => Some(PredView::BinaryOp(op, Box::new(l), Box::new(r))),
                _ => None,
            },
            PredView::UnaryOp(op, operand) => match self.pred(*operand) {
                Some(o) => Some(PredView::UnaryOp(op, Box::new(o))),
                None => None,
            },
            PredView::Kvar(k, vars) => match self.vars(vars) {
                Some(vs) => Some(PredView::Kvar(k, vs)),
                None => None,
            },
        }
    }

    pub open spec fn refine(self, r: RefineView) -> Option<RefineView> {
        match r {
            RefineView::Infer => Some(RefineView::Infer),
            RefineView::Pred(p) => match self.pred(p) {
                Some(p) => Some(RefineView::Pred(p)),
                None => None,
            },
        }
    }

    pub open spec fn region(self, r: RegionView) -> Option<RegionView> {
        match r {
            RegionView::Concrete(places) => match self.places(places) {
                Some(ps) => Some(RegionView::Concrete(ps)),
                None => None,
            },
            RegionView::Infer => Some(RegionView::Infer),
            RegionView::Universal(u) => match self.universal(u) {
                Some(u) => Some(RegionView::Universal(u)),
                None => None,
            },
        }
    }

    pub open spec fn operand(self, op: OperandView) -> Option<OperandView> {
        match op {
            OperandView::Copy(p) => match self.place(p) {
                Some(p) => Some(OperandView::Copy(p)),
                None => None,
            },
            OperandView::Move(p) => match self.place(p) {
                Some(p) => Some(OperandView::Move(p)),
                None => None,
            },
            OperandView::Constant(c) => Some(op),
        }
    }

    pub open spec fn rvalue(self, rvalue: RvalueView) -> Option<RvalueView> {
        match rvalue {
            RvalueView::Use(op) => match self.operand(op) {
                Some(op) => Some(RvalueView::Use(op)),
                None => None,
            },
            RvalueView::Ref(kind, p) => match self.place(p) {
                Some(p) => Some(RvalueView::Ref(kind, p)),
                None => None,
            },
            RvalueView::BinaryOp(op, lhs, rhs) => match (self.operand(lhs), self.operand(rhs)) {
                (Some(l), Some(r)) => Some(RvalueView::BinaryOp(op, l, r)),
                _ => None,
            },
            RvalueView::CheckedBinaryOp(op, lhs, rhs) => match (
                self.operand(lhs),
                self.operand(rhs),
            ) {
                (Some(l), Some(r)) => Some(RvalueView::CheckedBinaryOp(op, l, r)),
                _ => None,
            },
            RvalueView::UnaryOp(op, operand) => match self.operand(operand) {
                Some(o) => Some(RvalueView::UnaryOp(op, o)),
                None => None,
            },
        }
    }
}

impl FreshState {
    /// The state before anything is bound.
    pub open spec fn initial(gen: Counters) -> FreshState {
        FreshState { scopes: Scopes::initial(), gen }
    }

    pub open spec fn push_conts(self) -> FreshState {
        FreshState { scopes: Scopes { conts: push(self.scopes.conts), ..self.scopes }, ..self }
    }

    pub open spec fn pop_conts(self) -> FreshState {
        FreshState { scopes: Scopes { conts: pop(self.scopes.conts), ..self.scopes }, ..self }
    }

    pub open spec fn push_locals(self) -> FreshState {
        FreshState { scopes: Scopes { locals: push(self.scopes.locals), ..self.scopes }, ..self }
    }

    pub open spec fn pop_locals(self) -> FreshState {
        FreshState { scopes: Scopes { locals: pop(self.scopes.locals), ..self.scopes }, ..self }
    }

    pub open spec fn push_locations(self) -> FreshState {
        FreshState {
            scopes: Scopes { locations: push(self.scopes.locations), ..self.scopes },
            ..self
        }
    }

    pub open spec fn pop_locations(self) -> FreshState {
        FreshState {
            scopes: Scopes { locations: pop(self.scopes.locations), ..self.scopes },
            ..self
        }
    }

    pub open spec fn push_fields(self) -> FreshState {
        FreshState { scopes: Scopes { fields: push(self.scopes.fields), ..self.scopes }, ..self }
    }

    pub open spec fn pop_fields(self) -> FreshState {
        FreshState { scopes: Scopes { fields: pop(self.scopes.fields), ..self.scopes }, ..self }
    }

    // Binders: each takes the next identifier of its family, in the topmost scope.

    pub open spec fn def_cont(self, k: ContId) -> Option<FreshState> {
        if self.gen.cont < usize::MAX {
            Some(
                FreshState {
                    scopes: Scopes { conts: define(self.scopes.conts, k.0, self.gen.cont as usize), ..self.scopes },
                    gen: Counters { cont: self.gen.cont + 1, ..self.gen },
                },
            )
        } else {
            None
        }
    }

    pub open spec fn def_local(self, x: Local) -> Option<FreshState> {
        if self.gen.local < usize::MAX {
            Some(
                FreshState {
                    scopes: Scopes { locals: define(self.scopes.locals, x.0, self.gen.local as usize), ..self.scopes },
                    gen: Counters { local: self.gen.local + 1, ..self.gen },
                },
            )
        } else {
            None
        }
    }

    pub open spec fn def_location(self, l: Location) -> Option<FreshState> {
        if self.gen.location < usize::MAX {
            Some(
                FreshState {
                    scopes: Scopes { locations: define(self.scopes.locations, l.0, self.gen.location as usize), ..self.scopes },
                    gen: Counters { location: self.gen.location + 1, ..self.gen },
                },
            )
        } else {
            None
        }
    }

    pub open spec fn def_field(self, f: Field) -> Option<FreshState> {
        if self.gen.field < usize::MAX {
            Some(
                FreshState {
                    scopes: Scopes { fields: define(self.scopes.fields, f.0, self.gen.field as usize), ..self.scopes },
                    gen: Counters { field: self.gen.field + 1, ..self.gen },
                },
            )
        } else {
            None
        }
    }

    pub open spec fn def_region(self, r: UniversalRegion) -> Option<FreshState> {
        if self.gen.region < usize::MAX {
            Some(
                FreshState {
                    scopes: Scopes { regions: self.scopes.regions.insert(r.0, self.gen.region as usize), ..self.scopes },
                    gen: Counters { region: self.gen.region + 1, ..self.gen },
                },
            )
        } else {
            None
        }
    }

    pub open spec fn def_fn(self, f: FnId) -> Option<FreshState> {
        if self.gen.func < usize::MAX {
            Some(
                FreshState {
                    scopes: Scopes { fns: self.scopes.fns.insert(f.0, self.gen.func as usize), ..self.scopes },
                    gen: Counters { func: self.gen.func + 1, ..self.gen },
                },
            )
        } else {
            None
        }
    }

    /// The state after binding the locals of `xs` from the `i`-th on, in order.
    pub open spec fn def_locals(self, xs: Seq<Local>, i: nat) -> Option<FreshState>
        decreases xs.len() - i,
    {
        if i >= xs.len() {
            Some(self)
        } else {
            match self.def_local(xs[i as int]) {
                Some(st) => st.def_locals(xs, i + 1),
                None => None,
            }
        }
    }

    /// The state after binding the locals that `xs` pairs with locations, from the
    /// `i`-th pair on, in order.
    pub open spec fn def_bound_locals(self, xs: Seq<(Local, Location)>, i: nat) -> Option<
        FreshState,
    >
        decreases xs.len() - i,
    {
        if i >= xs.len() {
            Some(self)
        } else {
            match self.def_local(xs[i as int].0) {
                Some(st) => st.def_bound_locals(xs, i + 1),
                None => None,
            }
        }
    }

    /// The state after binding the locations of `heap` from the `i`-th entry on, in
    /// order.
    pub open spec fn def_locations(self, heap: Seq<(Location, TyView)>, i: nat) -> Option<
        FreshState,
    >
        decreases heap.len() - i,
    {
        if i >= heap.len() {
            Some(self)
        } else {
            match self.def_location(heap[i as int].0) {
                Some(st) => st.def_locations(heap, i + 1),
                None => None,
            }
        }
    }

    /// The state after binding the fields of a tuple from the `i`-th on, in order.
    pub open spec fn def_fields(self, fields: Seq<(Field, TyView)>, i: nat) -> Option<FreshState>
        decreases fields.len() - i,
    {
        if i >= fields.len() {
            Some(self)
        } else {
            match self.def_field(fields[i as int].0) {
                Some(st) => st.def_fields(fields, i + 1),
                None => None,
            }
        }
    }

    /// The state after binding the regions of `rs` from the `i`-th on, in order.
    pub open spec fn def_regions(self, rs: Seq<UniversalRegion>, i: nat) -> Option<FreshState>
        decreases rs.len() - i,
    {
        if i >= rs.len() {
            Some(self)
        } else {
            match self.def_region(rs[i as int]) {
                Some(st) => st.def_regions(rs, i + 1),
                None => None,
            }
        }
    }

    /// The state after binding the names of `defs` from the `i`-th on, in order.
    pub open spec fn def_conts<I>(self, defs: Seq<ContDefView<I>>, i: nat) -> Option<FreshState>
        decreases defs.len() - i,
    {
        if i >= defs.len() {
            Some(self)
        } else {
            match self.def_cont(defs[i as int].name) {
                Some(st) => st.def_conts(defs, i + 1),
                None => None,
            }
        }
    }

    // What binds identifiers: the state goes in and comes out.

    /// A type renamed. A tuple binds its fields in a scope of their own, all of them
    /// before the types of any of them.
    pub open spec fn ty(self, t: TyView) -> Option<(FreshState, TyView)>
        decreases t, 0nat,
    {
        match t {
            TyView::OwnRef(l) => match self.scopes.location(l) {
                Some(l) => Some((self, TyView::OwnRef(l))),
                None => None,
            },
            TyView::Ref(kind, region, l) => match (self.scopes.region(region), self.scopes.location(l)) {
                (Some(r), Some(l)) => Some((self, TyView::Ref(kind, r, l))),
                _ => None,
            },
            TyView::Tuple(fields) => {
                let st = self.push_fields();
                match st.def_fields(fields, 0) {
                    Some(st) => match st.tuple(fields, 0, Seq::empty()) {
                        Some((st, fs)) => Some((st.pop_fields(), TyView::Tuple(fs))),
                        None => None,
                    },
                    None => None,
                }
            },
            TyView::Uninit(n) => Some((self, t)),
            TyView::Refine(bty, refine) => match self.scopes.refine(refine) {
                Some(r) => Some((self, TyView::Refine(bty, r))),
                None => None,
            },
        }
    }

    /// The fields of a tuple renamed from the `i`-th on, after `done`.
    pub open spec fn tuple(self, fields: Seq<(Field, TyView)>, i: nat, done: Seq<(Field, TyView)>)
        -> Option<(FreshState, Seq<(Field, TyView)>)>
        decreases fields, fields.len() - i,
    {
        if i >= fields.len() {
            Some((self, done))
        } else {
            match self.scopes.field(fields[i as int].0) {
                Some(f) => match self.ty(fields[i as int].1) {
                    Some((st, t)) => st.tuple(fields, i + 1, done.push((f, t))),
                    None => None,
                },
                None => None,
            }
        }
    }

    /// The entries of a heap renamed from the `i`-th on, after `done`.
    pub open spec fn heap(self, heap: Seq<(Location, TyView)>, i: nat, done: Seq<(Location, TyView)>)
        -> Option<(FreshState, Seq<(Location, TyView)>)>
        decreases heap.len() - i,
    {
        if i >= heap.len() {
            Some((self, done))
        } else {
            match self.scopes.location(heap[i as int].0) {
                Some(l) => match self.ty(heap[i as int].1) {
                    Some((st, t)) => st.heap(heap, i + 1, done.push((l, t))),
                    None => None,
                },
                None => None,
            }
        }
    }

    /// The signature of a continuation renamed: its inputs, then its heap, then its
    /// locals.
    pub open spec fn cont_ty(self, ty: ContTyView) -> Option<(FreshState, ContTyView)> {
        match self.scopes.inputs(ty.inputs) {
            Some(inputs) => match self.heap(ty.heap, 0, Seq::empty()) {
                Some((st, heap)) => match st.scopes.locals(ty.locals) {
                    Some(locals) => Some((st, ContTyView { heap, locals, inputs })),
                    None => None,
                },
                None => None,
            },
            None => None,
        }
    }

    /// The signature of a function renamed. Its input locals are bound in a scope of
    /// their own, and so are the locations of its output heap.
    pub open spec fn fn_ty(self, ty: FnDeclView) -> Option<(FreshState, FnDeclView)> {
        match self.scopes.universals(ty.regions) {
            Some(regions) => {
                let st = self.push_locals();
                match st.def_bound_locals(ty.inputs, 0) {
                    Some(st) => match st.heap(ty.in_heap, 0, Seq::empty()) {
                        Some((st, in_heap)) => match st.scopes.locals(ty.inputs) {
                            Some(inputs) => {
                                let st = st.push_locations();
                                match st.def_locations(ty.out_heap, 0) {
                                    Some(st) => match st.heap(ty.out_heap, 0, Seq::empty()) {
                                        Some((st, out_heap)) => match (
                                            st.scopes.location(ty.output),
                                            st.scopes.locals(ty.outputs),
                                        ) {
                                            (Some(output), Some(outputs)) => Some(
                                                (
                                                    st.pop_locations().pop_locals(),
                                                    FnDeclView {
                                                        regions,
                                                        in_heap,
                                                        inputs,
                                                        out_heap,
                                                        outputs,
                                                        output,
                                                    },
                                                ),
                                            ),
                                            _ => None,
                                        },
                                        None => None,
                                    },
                                    None => None,
                                }
                            },
                            None => None,
                        },
                        None => None,
                    },
                    None => None,
                }
            },
            None => None,
        }
    }

    /// A statement renamed. A `let` binds its local in the scope that is open.
    pub open spec fn statement<I>(self, s: StatementView<I>) -> Option<
        (FreshState, StatementView<I>),
    > {
        match s.kind {
            StatementKindView::Let(x, layout) => match self.def_local(x) {
                Some(st) => match st.scopes.local(x) {
                    Some(x) => Some(
                        (
                            st,
                            StatementView {
                                source_info: s.source_info,
                                kind: StatementKindView::Let(x, layout),
                            },
                        ),
                    ),
                    None => None,
                },
                None => None,
            },
            StatementKindView::Assign(p, rvalue) => match (self.scopes.place(p), self.scopes.rvalue(rvalue)) {
                (Some(p), Some(rvalue)) => Some(
                    (
                        self,
                        StatementView {
                            source_info: s.source_info,
                            kind: StatementKindView::Assign(p, rvalue),
                        },
                    ),
                ),
                _ => None,
            },
            StatementKindView::Drop(p) => match self.scopes.place(p) {
                Some(p) => Some(
                    (
                        self,
                        StatementView { source_info: s.source_info, kind: StatementKindView::Drop(p) },
                    ),
                ),
                None => None,
            },
            StatementKindView::Nop => Some((self, s)),
        }
    }

    /// A body renamed. A group of continuations binds all its names, in a scope of
    /// their own, before any of its members; a statement opens a scope of locals for
    /// itself and for what follows it.
    pub open spec fn body<I>(self, b: FnBodyView<I>) -> Option<(FreshState, FnBodyView<I>)>
        decreases b, 0nat,
    {
        match b {
            FnBodyView::LetCont(defs, rest) => {
                let st = self.push_conts();
                match st.def_conts(defs, 0) {
                    Some(st) => match st.cont_defs(defs, 0, Seq::empty()) {
                        Some((st, ds)) => match st.body(*rest) {
                            Some((st, r)) => Some(
                                (
                                    st.pop_conts(),
                                    FnBodyView::LetCont(ds, Box::new(r)),
                                ),
                            ),
                            None => None,
                        },
                        None => None,
                    },
                    None => None,
                }
            },
            FnBodyView::Ite { discr, then, else_ } => match self.scopes.place(discr) {
                Some(discr) => match self.body(*then) {
                    Some((st, t)) => match st.body(*else_) {
                        Some((st, e)) => Some(
                            (st, FnBodyView::Ite { discr, then: Box::new(t), else_: Box::new(e) }),
                        ),
                        None => None,
                    },
                    None => None,
                },
                None => None,
            },
            FnBodyView::Call { func, args, destination } => match (
                self.scopes.func(func),
                self.scopes.args(args),
            ) {
                (Some(func), Some(args)) => match destination {
                    Some((place, ret)) => match (self.scopes.place(place), self.scopes.cont_id(ret)) {
                        (Some(place), Some(ret)) => Some(
                            (self, FnBodyView::Call { func, args, destination: Some((place, ret)) }),
                        ),
                        _ => None,
                    },
                    None => Some((self, FnBodyView::Call { func, args, destination: None })),
                },
                _ => None,
            },
            FnBodyView::Jump { target, args } => match (self.scopes.cont_id(target), self.scopes.args(args)) {
                (Some(target), Some(args)) => Some((self, FnBodyView::Jump { target, args })),
                _ => None,
            },
            FnBodyView::Sequence(statement, rest) => {
                let st = self.push_locals();
                match st.statement(statement) {
                    Some((st, s)) => match st.body(*rest) {
                        Some((st, r)) => Some(
                            (
                                st.pop_locals(),
                                FnBodyView::Sequence(s, Box::new(r)),
                            ),
                        ),
                        None => None,
                    },
                    None => None,
                }
            },
            FnBodyView::Abort => Some((self, b)),
        }
    }

    /// The continuations of a group renamed from the `i`-th on, after `done`.
    pub open spec fn cont_defs<I>(self, defs: Seq<ContDefView<I>>, i: nat, done: Seq<ContDefView<I>>)
        -> Option<(FreshState, Seq<ContDefView<I>>)>
        decreases defs, defs.len() - i,
    {
        if i >= defs.len() {
            Some((self, done))
        } else {
            match self.cont_def(defs[i as int]) {
                Some((st, d)) => st.cont_defs(defs, i + 1, done.push(d)),
                None => None,
            }
        }
    }

    /// A continuation renamed. Its parameters are bound in a scope of their own, and
    /// so are the locations of its heap.
    pub open spec fn cont_def<I>(self, def: ContDefView<I>) -> Option<(FreshState, ContDefView<I>)>
        decreases def, 0nat,
    {
        let st = self.push_locals();
        match st.def_locals(def.params, 0) {
            Some(st) => {
                let st = st.push_locations();
                match st.def_locations(def.ty.heap, 0) {
                    Some(st) => match st.scopes.cont_id(def.name) {
                        Some(name) => match st.cont_ty(def.ty) {
                            Some((st, ty)) => match st.scopes.args(def.params) {
                                Some(params) => match st.body(*def.body) {
                                    Some((st, body)) => Some(
                                        (
                                            st.pop_locations().pop_locals(),
                                            ContDefView { name, params, body: Box::new(body), ty },
                                        ),
                                    ),
                                    None => None,
                                },
                                None => None,
                            },
                            None => None,
                        },
                        None => None,
                    },
                    None => None,
                }
            },
            None => None,
        }
    }

    /// A function renamed. A function is a scope of its own: its return continuation,
    /// its parameters and the locations of its input heap are bound in scopes that
    /// are opened for it and closed after it, so that no binder of one function is in
    /// scope in another. Its regions are bound in the flat map of regions.
    pub open spec fn fn_def<I>(self, def: FnDefView<I>) -> Option<(FreshState, FnDefView<I>)> {
        match self.push_conts().push_locals().push_locations().def_cont(def.ret) {
            Some(st) => match st.def_locals(def.params, 0) {
                Some(st) => match st.def_locations(def.ty.in_heap, 0) {
                    Some(st) => match st.def_regions(def.ty.regions, 0) {
                        Some(st) => match st.scopes.args(def.params) {
                            Some(params) => match st.body(def.body) {
                                Some((st, body)) => match st.fn_ty(def.ty) {
                                    Some((st, ty)) => match st.scopes.cont_id(def.ret) {
                                        Some(ret) => Some(
                                            (
                                                st.pop_locations().pop_locals().pop_conts(),
                                                FnDefView { ty, params, body, ret },
                                            ),
                                        ),
                                        None => None,
                                    },
                                    None => None,
                                },
                                None => None,
                            },
                            None => None,
                        },
                        None => None,
                    },
                    None => None,
                },
                None => None,
            },
            None => None,
        }
    }

    /// The state after binding the identifiers of `fns` from the `i`-th on, in order.
    pub open spec fn def_fns<I>(self, fns: Seq<(FnId, FnDefView<I>)>, i: nat) -> Option<FreshState>
        decreases fns.len() - i,
    {
        if i >= fns.len() {
            Some(self)
        } else {
            match self.def_fn(fns[i as int].0) {
                Some(st) => st.def_fns(fns, i + 1),
                None => None,
            }
        }
    }

    /// The functions of a program renamed from the `i`-th on, each defined in `done`
    /// under its new identifier.
    pub open spec fn fn_defs<I>(
        self,
        fns: Seq<(FnId, FnDefView<I>)>,
        i: nat,
        done: Seq<(FnId, FnDefView<I>)>,
    ) -> Option<(FreshState, Seq<(FnId, FnDefView<I>)>)>
        decreases fns.len() - i,
    {
        if i >= fns.len() {
            Some((self, done))
        } else {
            match self.scopes.func(fns[i as int].0) {
                Some(f) => match self.fn_def(fns[i as int].1) {
                    Some((st, d)) => st.fn_defs(fns, i + 1, crate::ast::with_fn(done, f, d)),
                    None => None,
                },
                None => None,
            }
        }
    }

    /// A program renamed: every function identifier is bound before any function is
    /// renamed, so that a call may name a function that the program defines later.
    pub open spec fn program<I>(self, fns: Seq<(FnId, FnDefView<I>)>) -> Option<
        (FreshState, Seq<(FnId, FnDefView<I>)>),
    > {
        match self.def_fns(fns, 0) {
            Some(st) => st.fn_defs(fns, 0, Seq::empty()),
            None => None,
        }
    }
}

/// The renaming pass.
pub struct NameFreshener {
    conts: ScopeMap<usize, usize, RandomState>,
    locals: ScopeMap<usize, usize, RandomState>,
    locations: ScopeMap<usize, usize, RandomState>,
    fields: ScopeMap<usize, usize, RandomState>,
    regions: HashMap<usize, usize>,
    fns: HashMap<usize, usize>,
}

impl View for NameFreshener {
    type V = Scopes;

    closed spec fn view(&self) -> Scopes {
        Scopes {
            conts: scope_layers(self.conts),
            locals: scope_layers(self.locals),
            locations: scope_layers(self.locations),
            fields: scope_layers(self.fields),
            regions: self.regions@,
            fns: self.fns@,
        }
    }
}

impl NameFreshener {
    /// The state of the pass when its context has the counters `gen`.
    pub open spec fn state(&self, gen: Counters) -> FreshState {
        FreshState { scopes: self@, gen }
    }

    /// A pass that has bound nothing yet.
    pub fn new() -> (pass: NameFreshener)
        ensures
            pass@ == Scopes::initial(),
    {
        NameFreshener {
            conts: scope_new(),
            locals: scope_new(),
            locations: scope_new(),
            fields: scope_new(),
            regions: HashMap::new(),
            fns: HashMap::new(),
        }
    }

    fn freshen_cont_id(&self, cont_id: ContId) -> (r: Option<ContId>)
        ensures
            r == self@.cont_id(cont_id),
    {
        match scope_get(&self.conts, cont_id.0) {
            Some(n) => Some(ContId(n)),
            None => None,
        }
    }

    fn freshen_local(&self, x: Local) -> (r: Option<Local>)
        ensures
            r == self@.local(x),
    {
        match scope_get(&self.locals, x.0) {
            Some(n) => Some(Local(n)),
            None => None,
        }
    }

    fn freshen_location(&self, l: Location) -> (r: Option<Location>)
        ensures
            r == self@.location(l),
    {
        match scope_get(&self.locations, l.0) {
            Some(n) => Some(Location(n)),
            None => None,
        }
    }

    fn freshen_field(&self, f: Field) -> (r: Option<Field>)
        ensures
            r == self@.field(f),
    {
        match scope_get(&self.fields, f.0) {
            Some(n) => Some(Field(n)),
            None => None,
        }
    }

    fn freshen_universal(&self, region: UniversalRegion) -> (r: Option<UniversalRegion>)
        ensures
            r == self@.universal(region),
    {
        match self.regions.get(&region.0) {
            Some(n) => Some(UniversalRegion(*n)),
            None => None,
        }
    }

    fn freshen_fn_id(&self, func: FnId) -> (r: Option<FnId>)
        ensures
            r == self@.func(func),
    {
        match self.fns.get(&func.0) {
            Some(n) => Some(FnId(*n)),
            None => None,
        }
    }

    fn freshen_place(&self, place: &Place) -> (r: Option<Place>)
        ensures
            renamed(r, self@.place(place@)),
    {
        let base = match self.freshen_local(place.base) {
            Some(base) => base,
            None => return None,
        };
        let copy = place.clone();
        Some(Place { base, projs: copy.projs })
    }

    fn freshen_args(&self, args: &Vec<Local>) -> (r: Option<Vec<Local>>)
        ensures
            renamed(r, self@.args(args@)),
    {
        let mut out: Vec<Local> = Vec::new();
        let mut i: usize = 0;
        while i < args.len()
            invariant
                i <= args.len(),
                out@.len() == i,
                forall|j: int|
                    #![trigger args@[j]]
                    #![trigger out@[j]]
                    0 <= j < i ==> self@.local(args@[j]) == Some(out@[j]),
            decreases args.len() - i,
        {
            match self.freshen_local(args[i]) {
                Some(x) => out.push(x),
                None => {
                    assert(self@.local(args@[i as int]) is None);
                    return None;
                },
            }
            i += 1;
        }
        assert(self@.args(args@) is Some);
        assert(out@ =~= self@.args(args@).unwrap());
        Some(out)
    }

    fn freshen_params(&self, params: &Vec<Local>) -> (r: Option<Vec<Local>>)
        ensures
            renamed(r, self@.args(params@)),
    {
        self.freshen_args(params)
    }

    fn freshen_locals(&self, locals: &Vec<(Local, Location)>) -> (r: Option<Vec<(Local, Location)>>)
        ensures
            renamed(r, self@.locals(locals@)),
    {
        let mut out: Vec<(Local, Location)> = Vec::new();
        let mut i: usize = 0;
        while i < locals.len()
            invariant
                i <= locals.len(),
                out@.len() == i,
                forall|j: int|
                    #![trigger locals@[j]]
                    #![trigger out@[j]]
                    0 <= j < i ==> self@.bound_local(locals@[j]) == Some(out@[j]),
            decreases locals.len() - i,
        {
            match (self.freshen_local(locals[i].0), self.freshen_location(locals[i].1)) {
                (Some(x), Some(l)) => out.push((x, l)),
                _ => {
                    assert(self@.bound_local(locals@[i as int]) is None);
                    return None;
                },
            }
            i += 1;
        }
        assert(self@.locals(locals@) is Some);
        assert(out@ =~= self@.locals(locals@).unwrap());
        Some(out)
    }

    fn freshen_inputs(&self, inputs: &Vec<Location>) -> (r: Option<Vec<Location>>)
        ensures
            renamed(r, self@.inputs(inputs@)),
    {
        let mut out: Vec<Location> = Vec::new();
        let mut i: usize = 0;
        while i < inputs.len()
            invariant
                i <= inputs.len(),
                out@.len() == i,
                forall|j: int|
                    #![trigger inputs@[j]]
                    #![trigger out@[j]]
                    0 <= j < i ==> self@.location(inputs@[j]) == Some(out@[j]),
            decreases inputs.len() - i,
        {
            match self.freshen_location(inputs[i]) {
                Some(l) => out.push(l),
                None => {
                    assert(self@.location(inputs@[i as int]) is None);
                    return None;
                },
            }
            i += 1;
        }
        assert(self@.inputs(inputs@) is Some);
        assert(out@ =~= self@.inputs(inputs@).unwrap());
        Some(out)
    }

    fn freshen_universals(&self, regions: &Vec<UniversalRegion>) -> (r: Option<Vec<UniversalRegion>>)
        ensures
            renamed(r, self@.universals(regions@)),
    {
        let mut out: Vec<UniversalRegion> = Vec::new();
        let mut i: usize = 0;
        while i < regions.len()
            invariant
                i <= regions.len(),
                out@.len() == i,
                forall|j: int|
                    #![trigger regions@[j]]
                    #![trigger out@[j]]
                    0 <= j < i ==> self@.universal(regions@[j]) == Some(out@[j]),
            decreases regions.len() - i,
        {
            match self.freshen_universal(regions[i]) {
                Some(r) => out.push(r),
                None => {
                    assert(self@.universal(regions@[i as int]) is None);
                    return None;
                },
            }
            i += 1;
        }
        assert(self@.universals(regions@) is Some);
        assert(out@ =~= self@.universals(regions@).unwrap());
        Some(out)
    }

    fn freshen_var(&self, var: Var) -> (r: Option<Var>)
        ensures
            r == self@.var(var),
    {
        match var {
            Var::Nu => Some(Var::Nu),
            Var::Location(location) => match self.freshen_location(location) {
                Some(l) => Some(Var::Location(l)),
                None => None,
            },
            Var::Field(field) => match self.freshen_field(field) {
                Some(f) => Some(Var::Field(f)),
                None => None,
            },
        }
    }

    fn freshen_vars(&self, vars: &Vec<Var>) -> (r: Option<Vec<Var>>)
        ensures
            renamed(r, self@.vars(vars@)),
    {
        let mut out: Vec<Var> = Vec::new();
        let mut i: usize = 0;
        while i < vars.len()
            invariant
                i <= vars.len(),
                out@.len() == i,
                forall|j: int|
                    #![trigger vars@[j]]
                    #![trigger out@[j]]
                    0 <= j < i ==> self@.var(vars@[j]) == Some(out@[j]),
            decreases vars.len() - i,
        {
            match self.freshen_var(vars[i]) {
                Some(v) => out.push(v),
                None => {
                    assert(self@.var(vars@[i as int]) is None);
                    return None;
                },
            }
            i += 1;
        }
        assert(self@.vars(vars@) is Some);
        assert(out@ =~= self@.vars(vars@).unwrap());
        Some(out)
    }

    fn freshen_pred(&self, pred: &Pred) -> (r: Option<Pred>)
        ensures
            renamed(r, self@.pred(pred@)),
        decreases pred,
    {
        match pred {
            Pred::Constant(c) => Some(Pred::Constant(*c)),
            Pred::Place(place) => {
                let base = match self.freshen_var(place.base) {
                    Some(base) => base,
                    None => return None,
                };
                let copy = place.clone();
                Some(Pred::Place(crate::ast::pred::Place { base, projs: copy.projs }))
            },
            Pred::BinaryOp(op, lhs, rhs) => {
                let l = self.freshen_pred(lhs);
                let r = self.freshen_pred(rhs);
                match (l, r) {
                    (Some(l), Some(r)) => Some(Pred::BinaryOp(*op, Box::new(l), Box::new(r))),
                    _ => None,
                }
            },
            Pred::UnaryOp(op, operand) => match self.freshen_pred(operand) {
                Some(o) => Some(Pred::UnaryOp(*op, Box::new(o))),
                None => None,
            },
            Pred::Kvar(k, vars) => match self.freshen_vars(vars) {
                Some(vs) => Some(Pred::Kvar(*k, vs)),
                None => None,
            },
        }
    }

    fn freshen_refine(&self, refine: &Refine) -> (r: Option<Refine>)
        ensures
            renamed(r, self@.refine(refine@)),
    {
        match refine {
            Refine::Infer => Some(Refine::Infer),
            Refine::Pred(pred) => match self.freshen_pred(pred) {
                Some(p) => Some(Refine::Pred(p)),
                None => None,
            },
        }
    }

    fn freshen_region(&self, region: &Region) -> (r: Option<Region>)
        ensures
            renamed(r, self@.region(region@)),
    {
        match region {
            Region::Concrete(places) => {
                let ghost ps = crate::ast::places_view(places@);
                let mut out: Vec<Place> = Vec::new();
                let mut i: usize = 0;
                while i < places.len()
                    invariant
                        i <= places.len(),
                        ps == crate::ast::places_view(places@),
                        region@ == RegionView::Concrete(ps),
                        out@.len() == i,
                        forall|j: int|
                            #![trigger ps[j]]
                            #![trigger out@[j]]
                            0 <= j < i ==> self@.place(ps[j]) == Some(out@[j]@),
                    decreases places.len() - i,
                {
                    match self.freshen_place(&places[i]) {
                        Some(p) => out.push(p),
                        None => {
                            assert(self@.place(ps[i as int]) is None);
                            return None;
                        },
                    }
                    i += 1;
                }
                assert(self@.places(ps) is Some);
                assert(crate::ast::places_view(out@) =~= self@.places(ps).unwrap());
                Some(Region::Concrete(out))
            },
            Region::Infer => Some(Region::Infer),
            Region::Universal(region) => match self.freshen_universal(*region) {
                Some(r) => Some(Region::Universal(r)),
                None => None,
            },
        }
    }

    fn freshen_operand(&self, operand: &Operand) -> (r: Option<Operand>)
        ensures
            renamed(r, self@.operand(operand@)),
    {
        match operand {
            Operand::Copy(place) => match self.freshen_place(place) {
                Some(p) => Some(Operand::Copy(p)),
                None => None,
            },
            Operand::Move(place) => match self.freshen_place(place) {
                Some(p) => Some(Operand::Move(p)),
                None => None,
            },
            Operand::Constant(c) => Some(Operand::Constant(*c)),
        }
    }

    fn freshen_rvalue(&self, rvalue: &Rvalue) -> (r: Option<Rvalue>)
        ensures
            renamed(r, self@.rvalue(rvalue@)),
    {
        match rvalue {
            Rvalue::Use(op) => match self.freshen_operand(op) {
                Some(op) => Some(Rvalue::Use(op)),
                None => None,
            },
            Rvalue::Ref(kind, place) => match self.freshen_place(place) {
                Some(p) => Some(Rvalue::Ref(*kind, p)),
                None => None,
            },
            Rvalue::BinaryOp(op, lhs, rhs) => {
                match (self.freshen_operand(lhs), self.freshen_operand(rhs)) {
                    (Some(l), Some(r)) => Some(Rvalue::BinaryOp(*op, l, r)),
                    _ => None,
                }
            },
            Rvalue::CheckedBinaryOp(op, lhs, rhs) => {
                match (self.freshen_operand(lhs), self.freshen_operand(rhs)) {
                    (Some(l), Some(r)) => Some(Rvalue::CheckedBinaryOp(*op, l, r)),
                    _ => None,
                }
            },
            Rvalue::UnaryOp(op, operand) => match self.freshen_operand(operand) {
                Some(o) => Some(Rvalue::UnaryOp(*op, o)),
                None => None,
            },
        }
    }

    fn define_cont(&mut self, tcx: &mut TyCtxt, k: ContId) -> (ok: bool)
        ensures
            stepped(ok, old(self).state(old(tcx)@).def_cont(k), final(self).state(final(tcx)@)),
    {
        if !tcx.has_cont() {
            return false;
        }
        let fresh = tcx.fresh_cont();
        scope_define(&mut self.conts, k.0, fresh.0);
        true
    }

    fn define_local(&mut self, tcx: &mut TyCtxt, x: Local) -> (ok: bool)
        ensures
            stepped(ok, old(self).state(old(tcx)@).def_local(x), final(self).state(final(tcx)@)),
    {
        if !tcx.has_local() {
            return false;
        }
        let fresh = tcx.fresh_local();
        scope_define(&mut self.locals, x.0, fresh.0);
        true
    }

    fn define_location(&mut self, tcx: &mut TyCtxt, l: Location) -> (ok: bool)
        ensures
            stepped(
                ok,
                old(self).state(old(tcx)@).def_location(l),
                final(self).state(final(tcx)@),
            ),
    {
        if !tcx.has_location() {
            return false;
        }
        let fresh = tcx.fresh_location();
        scope_define(&mut self.locations, l.0, fresh.0);
        true
    }

    fn define_field(&mut self, tcx: &mut TyCtxt, f: Field) -> (ok: bool)
        ensures
            stepped(ok, old(self).state(old(tcx)@).def_field(f), final(self).state(final(tcx)@)),
    {
        if !tcx.has_field() {
            return false;
        }
        let fresh = tcx.fresh_field();
        scope_define(&mut self.fields, f.0, fresh.0);
        true
    }

    fn define_region(&mut self, tcx: &mut TyCtxt, r: UniversalRegion) -> (ok: bool)
        ensures
            stepped(ok, old(self).state(old(tcx)@).def_region(r), final(self).state(final(tcx)@)),
    {
        if !tcx.has_region() {
            return false;
        }
        let fresh = tcx.fresh_region();
        self.regions.insert(r.0, fresh.0);
        true
    }

    fn define_fn(&mut self, tcx: &mut TyCtxt, f: FnId) -> (ok: bool)
        ensures
            stepped(ok, old(self).state(old(tcx)@).def_fn(f), final(self).state(final(tcx)@)),
    {
        if !tcx.has_fn() {
            return false;
        }
        let fresh = tcx.fresh_fn();
        self.fns.insert(f.0, fresh.0);
        true
    }

    fn define_locals(&mut self, tcx: &mut TyCtxt, xs: &Vec<Local>) -> (ok: bool)
        ensures
            stepped(
                ok,
                old(self).state(old(tcx)@).def_locals(xs@, 0),
                final(self).state(final(tcx)@),
            ),
    {
        let mut i: usize = 0;
        while i < xs.len()
            invariant
                i <= xs.len(),
                self.state(tcx@).def_locals(xs@, i as nat) == old(self).state(old(tcx)@).def_locals(
                    xs@,
                    0,
                ),
            decreases xs.len() - i,
        {
            if !self.define_local(tcx, xs[i]) {
                return false;
            }
            i += 1;
        }
        true
    }

    fn define_bound_locals(&mut self, tcx: &mut TyCtxt, xs: &Vec<(Local, Location)>) -> (ok: bool)
        ensures
            stepped(
                ok,
                old(self).state(old(tcx)@).def_bound_locals(xs@, 0),
                final(self).state(final(tcx)@),
            ),
    {
        let mut i: usize = 0;
        while i < xs.len()
            invariant
                i <= xs.len(),
                self.state(tcx@).def_bound_locals(xs@, i as nat) == old(self).state(
                    old(tcx)@,
                ).def_bound_locals(xs@, 0),
            decreases xs.len() - i,
        {
            if !self.define_local(tcx, xs[i].0) {
                return false;
            }
            i += 1;
        }
        true
    }

    fn define_locations(&mut self, tcx: &mut TyCtxt, heap: &Heap) -> (ok: bool)
        ensures
            stepped(
                ok,
                old(self).state(old(tcx)@).def_locations(heap@, 0),
                final(self).state(final(tcx)@),
            ),
    {
        let mut i: usize = 0;
        while i < heap.0.len()
            invariant
                i <= heap.0.len(),
                heap@.len() == heap.0.len(),
                self.state(tcx@).def_locations(heap@, i as nat) == old(self).state(
                    old(tcx)@,
                ).def_locations(heap@, 0),
            decreases heap.0.len() - i,
        {
            if !self.define_location(tcx, heap.0[i].0) {
                return false;
            }
            i += 1;
        }
        true
    }

    fn define_regions(&mut self, tcx: &mut TyCtxt, rs: &Vec<UniversalRegion>) -> (ok: bool)
        ensures
            stepped(
                ok,
                old(self).state(old(tcx)@).def_regions(rs@, 0),
                final(self).state(final(tcx)@),
            ),
    {
        let mut i: usize = 0;
        while i < rs.len()
            invariant
                i <= rs.len(),
                self.state(tcx@).def_regions(rs@, i as nat) == old(self).state(
                    old(tcx)@,
                ).def_regions(rs@, 0),
            decreases rs.len() - i,
        {
            if !self.define_region(tcx, rs[i]) {
                return false;
            }
            i += 1;
        }
        true
    }

    #[verifier::loop_isolation(false)]
    fn freshen_ty(&mut self, tcx: &mut TyCtxt, ty: &Ty) -> (r: Option<Ty>)
        ensures
            renamed_in(r, old(self).state(old(tcx)@).ty(ty@), final(self).state(final(tcx)@)),
        decreases ty,
    {
        match ty {
            Ty::OwnRef(location) => match self.freshen_location(*location) {
                Some(l) => Some(Ty::OwnRef(l)),
                None => None,
            },
            Ty::Ref(kind, region, location) => {
                let r = self.freshen_region(region);
                let l = self.freshen_location(*location);
                match (r, l) {
                    (Some(r), Some(l)) => Some(Ty::Ref(*kind, r, l)),
                    _ => None,
                }
            },
            Ty::Tuple(tup) => {
                let ghost fs = crate::ast::fields_view(tup@);
                proof {
                    crate::ast::lemma_tuple_view(*tup);
                }
                scope_push_layer(&mut self.fields);
                let mut i: usize = 0;
                while i < tup.len()
                    invariant
                        i <= tup.len(),
                        fs == crate::ast::fields_view(tup@),
                        self.state(tcx@).def_fields(fs, i as nat) == old(self).state(
                            old(tcx)@,
                        ).push_fields().def_fields(fs, 0),
                    decreases tup.len() - i,
                {
                    if !self.define_field(tcx, tup[i].0) {
                        return None;
                    }
                    i += 1;
                }
                let ghost st1 = self.state(tcx@);
                let mut out: Vec<(Field, Ty)> = Vec::new();
                assert(crate::ast::fields_view(out@) =~= Seq::empty());
                let mut i: usize = 0;
                while i < tup.len()
                    invariant
                        ty is Tuple,
                        ty->Tuple_0 == *tup,
                        i <= tup.len(),
                        fs == crate::ast::fields_view(tup@),
                        self.state(tcx@).tuple(fs, i as nat, crate::ast::fields_view(out@))
                            == st1.tuple(fs, 0, Seq::empty()),
                    decreases tup.len() - i,
                {
                    let f = match self.freshen_field(tup[i].0) {
                        Some(f) => f,
                        None => return None,
                    };
                    let t = match self.freshen_ty(tcx, &tup[i].1) {
                        Some(t) => t,
                        None => return None,
                    };
                    proof {
                        assert(crate::ast::fields_view(out@.push((f, t))) =~= crate::ast::fields_view(
                            out@,
                        ).push((f, t@)));
                    }
                    out.push((f, t));
                    i += 1;
                }
                scope_pop_layer(&mut self.fields);
                proof {
                    crate::ast::lemma_tuple_view(out);
                }
                Some(Ty::Tuple(out))
            },
            Ty::Uninit(n) => Some(Ty::Uninit(*n)),
            Ty::Refine(bty, refine) => match self.freshen_refine(refine) {
                Some(r) => Some(Ty::Refine(*bty, r)),
                None => None,
            },
        }
    }

    fn freshen_heap(&mut self, tcx: &mut TyCtxt, heap: &Heap) -> (r: Option<Heap>)
        ensures
            renamed_in(
                r,
                old(self).state(old(tcx)@).heap(heap@, 0, Seq::empty()),
                final(self).state(final(tcx)@),
            ),
    {
        let mut out = Heap::new();
        let mut i: usize = 0;
        while i < heap.0.len()
            invariant
                i <= heap.0.len(),
                heap@.len() == heap.0.len(),
                self.state(tcx@).heap(heap@, i as nat, out@) == old(self).state(old(tcx)@).heap(
                    heap@,
                    0,
                    Seq::empty(),
                ),
            decreases heap.0.len() - i,
        {
            let l = match self.freshen_location(heap.0[i].0) {
                Some(l) => l,
                None => return None,
            };
            let t = match self.freshen_ty(tcx, &heap.0[i].1) {
                Some(t) => t,
                None => return None,
            };
            out.insert(l, t);
            i += 1;
        }
        Some(out)
    }

    fn freshen_cont_ty(&mut self, tcx: &mut TyCtxt, cont_ty: &ContTy) -> (r: Option<ContTy>)
        ensures
            renamed_in(
                r,
                old(self).state(old(tcx)@).cont_ty(cont_ty@),
                final(self).state(final(tcx)@),
            ),
    {
        let inputs = match self.freshen_inputs(&cont_ty.inputs) {
            Some(inputs) => inputs,
            None => return None,
        };
        let heap = match self.freshen_heap(tcx, &cont_ty.heap) {
            Some(heap) => heap,
            None => return None,
        };
        let locals = match self.freshen_locals(&cont_ty.locals) {
            Some(locals) => locals,
            None => return None,
        };
        Some(ContTy { heap, locals, inputs })
    }

    fn freshen_fn_ty(&mut self, tcx: &mut TyCtxt, ty: &FnDecl) -> (r: Option<FnDecl>)
        ensures
            renamed_in(r, old(self).state(old(tcx)@).fn_ty(ty@), final(self).state(final(tcx)@)),
    {
        let regions = match self.freshen_universals(&ty.regions) {
            Some(regions) => regions,
            None => return None,
        };
        scope_push_layer(&mut self.locals);
        if !self.define_bound_locals(tcx, &ty.inputs) {
            return None;
        }
        let in_heap = match self.freshen_heap(tcx, &ty.in_heap) {
            Some(heap) => heap,
            None => return None,
        };
        let inputs = match self.freshen_locals(&ty.inputs) {
            Some(inputs) => inputs,
            None => return None,
        };
        scope_push_layer(&mut self.locations);
        if !self.define_locations(tcx, &ty.out_heap) {
            return None;
        }
        let out_heap = match self.freshen_heap(tcx, &ty.out_heap) {
            Some(heap) => heap,
            None => return None,
        };
        let output = self.freshen_location(ty.output);
        let outputs = self.freshen_locals(&ty.outputs);
        let (output, outputs) = match (output, outputs) {
            (Some(output), Some(outputs)) => (output, outputs),
            _ => return None,
        };
        scope_pop_layer(&mut self.locations);
        scope_pop_layer(&mut self.locals);
        Some(FnDecl { regions, in_heap, inputs, out_heap, outputs, output })
    }

    fn freshen_statement<I>(&mut self, tcx: &mut TyCtxt, statement: Statement<I>) -> (r: Option<
        Statement<I>,
    >)
        ensures
            renamed_in(
                r,
                old(self).state(old(tcx)@).statement(statement@),
                final(self).state(final(tcx)@),
            ),
    {
        let kind = match statement.kind {
            StatementKind::Let(local, layout) => {
                if !self.define_local(tcx, local) {
                    return None;
                }
                match self.freshen_local(local) {
                    Some(x) => StatementKind::Let(x, layout),
                    None => return None,
                }
            },
            StatementKind::Assign(place, value) => {
                let p = self.freshen_place(&place);
                let v = self.freshen_rvalue(&value);
                match (p, v) {
                    (Some(p), Some(v)) => StatementKind::Assign(p, v),
                    _ => return None,
                }
            },
            StatementKind::Drop(place) => match self.freshen_place(&place) {
                Some(p) => StatementKind::Drop(p),
                None => return None,
            },
            StatementKind::Nop => StatementKind::Nop,
        };
        Some(Statement { source_info: statement.source_info, kind })
    }

    #[verifier::loop_isolation(false)]
    fn freshen_body<I>(&mut self, tcx: &mut TyCtxt, body: FnBody<I>) -> (r: Option<FnBody<I>>)
        ensures
            renamed_in(r, old(self).state(old(tcx)@).body(body@), final(self).state(final(tcx)@)),
        decreases body,
    {
        match body {
            FnBody::LetCont(defs, rest) => {
                let ghost ds = crate::ast::conts_view(defs@);
                let ghost defs0 = defs@;
                proof {
                    crate::ast::lemma_let_cont_view(defs, rest);
                }
                scope_push_layer(&mut self.conts);
                let mut i: usize = 0;
                while i < defs.len()
                    invariant
                        i <= defs.len(),
                        ds == crate::ast::conts_view(defs@),
                        self.state(tcx@).def_conts(ds, i as nat) == old(self).state(
                            old(tcx)@,
                        ).push_conts().def_conts(ds, 0),
                    decreases defs.len() - i,
                {
                    if !self.define_cont(tcx, defs[i].name) {
                        return None;
                    }
                    i += 1;
                }
                let ghost st1 = self.state(tcx@);
                let mut pending = crate::ast::reversed(defs);
                let mut out: Vec<ContDef<I>> = Vec::new();
                assert(crate::ast::conts_view(out@) =~= Seq::empty());
                while pending.len() > 0
                    invariant
                        body is LetCont,
                        body->LetCont_0@ == defs0,
                        ds == crate::ast::conts_view(defs0),
                        pending@.len() + out@.len() == defs0.len(),
                        forall|j: int|
                            0 <= j < pending@.len() ==> pending@[j] == defs0[defs0.len() - 1 - j],
                        self.state(tcx@).cont_defs(
                            ds,
                            out@.len() as nat,
                            crate::ast::conts_view(out@),
                        ) == st1.cont_defs(ds, 0, Seq::empty()),
                    decreases pending.len(),
                {
                    let ghost k = out@.len() as int;
                    let def = pending.pop().unwrap();
                    assert(def == defs0[k]);
                    assert(decreases_to!(body => body->LetCont_0));
                    assert(decreases_to!(body->LetCont_0 => body->LetCont_0[k]));
                    let d = match self.freshen_cont_def(tcx, def) {
                        Some(d) => d,
                        None => return None,
                    };
                    proof {
                        assert(crate::ast::conts_view(out@.push(d)) =~= crate::ast::conts_view(
                            out@,
                        ).push(d@));
                    }
                    out.push(d);
                }
                let rest = match self.freshen_body(tcx, *rest) {
                    Some(rest) => rest,
                    None => return None,
                };
                scope_pop_layer(&mut self.conts);
                proof {
                    crate::ast::lemma_let_cont_view(out, Box::new(rest));
                }
                Some(FnBody::LetCont(out, Box::new(rest)))
            },
            FnBody::Ite { discr, then, else_ } => {
                let discr = match self.freshen_place(&discr) {
                    Some(discr) => discr,
                    None => return None,
                };
                let then = match self.freshen_body(tcx, *then) {
                    Some(then) => then,
                    None => return None,
                };
                let else_ = match self.freshen_body(tcx, *else_) {
                    Some(else_) => else_,
                    None => return None,
                };
                Some(FnBody::Ite { discr, then: Box::new(then), else_: Box::new(else_) })
            },
            FnBody::Call { func, args, destination } => {
                let func = self.freshen_fn_id(func);
                let args = self.freshen_args(&args);
                let (func, args) = match (func, args) {
                    (Some(func), Some(args)) => (func, args),
                    _ => return None,
                };
                let destination = match destination {
                    Some((place, ret)) => {
                        let p = self.freshen_place(&place);
                        let k = self.freshen_cont_id(ret);
                        match (p, k) {
                            (Some(p), Some(k)) => Some((p, k)),
                            _ => return None,
                        }
                    },
                    None => None,
                };
                Some(FnBody::Call { func, args, destination })
            },
            FnBody::Jump { target, args } => {
                let target = self.freshen_cont_id(target);
                let args = self.freshen_args(&args);
                match (target, args) {
                    (Some(target), Some(args)) => Some(FnBody::Jump { target, args }),
                    _ => None,
                }
            },
            FnBody::Sequence(statement, rest) => {
                scope_push_layer(&mut self.locals);
                let statement = match self.freshen_statement(tcx, statement) {
                    Some(statement) => statement,
                    None => return None,
                };
                let rest = match self.freshen_body(tcx, *rest) {
                    Some(rest) => rest,
                    None => return None,
                };
                scope_pop_layer(&mut self.locals);
                Some(FnBody::Sequence(statement, Box::new(rest)))
            },
            FnBody::Abort => Some(FnBody::Abort),
        }
    }

    fn freshen_cont_def<I>(&mut self, tcx: &mut TyCtxt, cont: ContDef<I>) -> (r: Option<ContDef<I>>)
        ensures
            renamed_in(
                r,
                old(self).state(old(tcx)@).cont_def(cont@),
                final(self).state(final(tcx)@),
            ),
        decreases cont,
    {
        scope_push_layer(&mut self.locals);
        if !self.define_locals(tcx, &cont.params) {
            return None;
        }
        scope_push_layer(&mut self.locations);
        if !self.define_locations(tcx, &cont.ty.heap) {
            return None;
        }
        let name = match self.freshen_cont_id(cont.name) {
            Some(name) => name,
            None => return None,
        };
        let ty = match self.freshen_cont_ty(tcx, &cont.ty) {
            Some(ty) => ty,
            None => return None,
        };
        let params = match self.freshen_params(&cont.params) {
            Some(params) => params,
            None => return None,
        };
        let body = match self.freshen_body(tcx, *cont.body) {
            Some(body) => body,
            None => return None,
        };
        scope_pop_layer(&mut self.locations);
        scope_pop_layer(&mut self.locals);
        Some(ContDef { name, ty, params, body: Box::new(body) })
    }

    fn freshen_fn_def<I>(&mut self, tcx: &mut TyCtxt, def: FnDef<I>) -> (r: Option<FnDef<I>>)
        ensures
            renamed_in(r, old(self).state(old(tcx)@).fn_def(def@), final(self).state(final(tcx)@)),
    {
        scope_push_layer(&mut self.conts);
        scope_push_layer(&mut self.locals);
        scope_push_layer(&mut self.locations);
        if !self.define_cont(tcx, def.ret) {
            return None;
        }
        if !self.define_locals(tcx, &def.params) {
            return None;
        }
        if !self.define_locations(tcx, &def.ty.in_heap) {
            return None;
        }
        if !self.define_regions(tcx, &def.ty.regions) {
            return None;
        }
        let params = match self.freshen_args(&def.params) {
            Some(params) => params,
            None => return None,
        };
        let body = match self.freshen_body(tcx, def.body) {
            Some(body) => body,
            None => return None,
        };
        let ty = match self.freshen_fn_ty(tcx, &def.ty) {
            Some(ty) => ty,
            None => return None,
        };
        let ret = match self.freshen_cont_id(def.ret) {
            Some(ret) => ret,
            None => return None,
        };
        scope_pop_layer(&mut self.locations);
        scope_pop_layer(&mut self.locals);
        scope_pop_layer(&mut self.conts);
        Some(FnDef { ty, params, body, ret })
    }

    /// Renames every bound identifier of `program` to one that `tcx` has not handed out
    /// before, and every reference to what its binder was renamed to. There is no
    /// result where a reference has no enclosing binder, or where `tcx` runs out of
    /// identifiers. Where there is one, it has the shape of `program`, its functions are
    /// numbered in order from the counter on, and `tcx` has handed out one identifier
    /// for each binding occurrence of `program`.
    #[verifier::loop_isolation(false)]
    pub fn try_freshen<I>(self, tcx: &mut TyCtxt, program: Program<I>) -> (r: Option<Program<I>>)
        ensures
            match r {
                Some(r) => self.state(old(tcx)@).program(program@) matches Some((st, fns)) && r@
                    == fns && final(tcx)@ == st.gen,
                None => self.state(old(tcx)@).program(program@) is None,
            },
            r matches Some(p) ==> (self.state(old(tcx)@).good() ==> program_shape(program@, p@)
                && forall|j: int|
                0 <= j < p@.len() ==> (#[trigger] p@[j]).0 == FnId((old(tcx)@.func + j) as usize)),
            r is Some ==> advanced(old(tcx)@, final(tcx)@, program_binds(program@)),
    {
        let ghost fns = program@;
        let ghost st0 = self.state(tcx@);
        proof {
            st0.lemma_program_draws(fns);
        }
        let mut pass = self;
        let defs = program.into_vec();
        let mut i: usize = 0;
        while i < defs.len()
            invariant
                i <= defs.len(),
                fns == crate::ast::fns_view(defs@),
                pass.state(tcx@).def_fns(fns, i as nat) == st0.def_fns(fns, 0),
            decreases defs.len() - i,
        {
            if !pass.define_fn(tcx, defs[i].0) {
                return None;
            }
            i += 1;
        }
        let ghost st1 = pass.state(tcx@);
        let ghost defs0 = defs@;
        let mut pending = crate::ast::reversed(defs);
        let mut out: Program<I> = Program::new();
        let ghost mut done: int = 0;
        while pending.len() > 0
            invariant
                fns == crate::ast::fns_view(defs0),
                pending@.len() + done == defs0.len(),
                0 <= done,
                forall|j: int| 0 <= j < pending@.len() ==> pending@[j] == defs0[defs0.len() - 1 - j],
                pass.state(tcx@).fn_defs(fns, done as nat, out@) == st1.fn_defs(fns, 0, Seq::empty()),
            decreases pending.len(),
        {
            let (fn_id, def) = pending.pop().unwrap();
            assert((fn_id, def) == defs0[done]);
            let f = match pass.freshen_fn_id(fn_id) {
                Some(f) => f,
                None => return None,
            };
            let d = match pass.freshen_fn_def(tcx, def) {
                Some(d) => d,
                None => return None,
            };
            out.add_fn(f, d);
            proof {
                done = done + 1;
            }
        }
        proof {
            if st0.good() {
                st0.lemma_program(fns);
            }
        }
        Some(out)
    }

    /// Renames every bound identifier of `program` to one that `tcx` has not handed out
    /// before, and every reference to what its binder was renamed to.
    ///
    /// The program is one that the pass can rename: every reference in it has an
    /// enclosing binder, and `tcx` does not run out of identifiers.
    pub fn freshen<I>(self, tcx: &mut TyCtxt, program: Program<I>) -> (r: Program<I>)
        requires
            self.state(old(tcx)@).program(program@) is Some,
        ensures
            self.state(old(tcx)@).program(program@) matches Some((st, fns)) && r@ == fns
                && final(tcx)@ == st.gen,
            self.state(old(tcx)@).good() ==> program_shape(program@, r@) && forall|j: int|
                0 <= j < r@.len() ==> (#[trigger] r@[j]).0 == FnId(
                    (old(tcx)@.func + j) as usize,
                ),
            advanced(old(tcx)@, final(tcx)@, program_binds(program@)),
    {
        match self.try_freshen(tcx, program) {
            Some(r) => r,
            None => unreached(),
        }
    }
}

/// An identifier of one of the families that nest.
#[derive(Debug, Clone, Copy, PartialEq, Eq, Hash, Structural)]
pub enum Name {
    Location(Location),
    Local(Local),
    Field(Field),
    ContId(ContId),
}

/// Whether `r` is what the pass gives for a part that binds nothing: `spec`, seen
/// through the view.
pub open spec fn renamed<T: View>(r: Option<T>, spec: Option<T::V>) -> bool {
    match r {
        Some(v) => spec == Some(v@),
        None => spec is None,
    }
}

/// Whether `r` and the state `after` are what the pass gives for a part that may bind:
/// `spec`, seen through the view.
pub open spec fn renamed_in<T: View>(r: Option<T>, spec: Option<(FreshState, T::V)>, after: FreshState)
    -> bool {
    match r {
        Some(v) => spec == Some((after, v@)),
        None => spec is None,
    }
}

/// Whether the binding went as `spec` says: to the state `after`, or not at all.
pub open spec fn stepped(ok: bool, spec: Option<FreshState>, after: FreshState) -> bool {
    if ok {
        spec == Some(after)
    } else {
        spec is None
    }
}

} // verus!
