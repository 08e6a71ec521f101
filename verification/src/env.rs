//! The environment of the checker: the heap of locations with their types, and the
//! stack of scopes that bind locals to locations.

pub mod frame;

use crate::ast::pred::{
    Constant as PredConstant, Place as PredPlace, PlaceView as PredPlaceView, Pred, PredView, Var,
};
use crate::ast::{
    fields_view, heap_get, lemma_heap_index_last, lemma_tuple_view, BorrowKind, Constant, ContTy,
    ContTyView, FnDecl, Heap, Operand, OperandView, Place, PlaceView, Proj, Region, RegionView, Ty,
    TyView,
};
use crate::constraint::{
    constraints_view, lemma_conj_valid, lemma_conj_view, Constraint, ConstraintView, Solution,
};
use crate::names::{ContId, Field, Local, Location};
use crate::scope::{define, lookup, scope_define, scope_get, scope_layers, scope_new};
use crate::subtyping::{subtype, try_subtyping};
use crate::ty::{heap_with_kvars, Counters, TyCtxt, TypeLowerer};
use quickscope::ScopeMap;
use std::collections::hash_map::RandomState;
use vstd::pervasive::unreached;
use vstd::prelude::*;

verus! {

/// The bindings of one scope: the location that each local is bound to.
#[derive(Debug)]
pub struct LocalsMap {
    entries: Vec<(Local, Location)>,
}

/// The location that the last binding of `x` among the first `n` of `bindings` gives it.
pub open spec fn locals_get_in(bindings: Seq<(Local, Location)>, n: nat, x: Local) -> Option<
    Location,
>
    decreases n,
{
    if n == 0 || n > bindings.len() {
        None
    } else if bindings[n - 1].0 == x {
        Some(bindings[n - 1].1)
    } else {
        locals_get_in(bindings, (n - 1) as nat, x)
    }
}

/// The location that `bindings` binds `x` to: that of its last binding.
pub open spec fn locals_get(bindings: Seq<(Local, Location)>, x: Local) -> Option<Location> {
    locals_get_in(bindings, bindings.len(), x)
}

impl View for LocalsMap {
    type V = Seq<(Local, Location)>;

    closed spec fn view(&self) -> Seq<(Local, Location)> {
        self.entries@
    }
}

impl LocalsMap {
    /// The scope that binds nothing.
    pub fn empty() -> (m: LocalsMap)
        ensures
            m@ == Seq::<(Local, Location)>::empty(),
    {
        LocalsMap { entries: Vec::new() }
    }

    /// Binds `x` to `l`, in place of what it was bound to.
    pub fn insert(&mut self, x: Local, l: Location)
        ensures
            final(self)@ == old(self)@.push((x, l)),
    {
        self.entries.push((x, l));
    }

    /// The location that `x` is bound to.
    pub fn get(&self, x: &Local) -> (l: Option<&Location>)
        ensures
            match l {
                Some(l) => locals_get(self@, *x) == Some(*l),
                None => locals_get(self@, *x) is None,
            },
    {
        let mut i: usize = self.entries.len();
        while i > 0
            invariant
                i <= self.entries.len(),
                locals_get(self@, *x) == locals_get_in(self@, i as nat, *x),
            decreases i,
        {
            i -= 1;
            if self.entries[i].0 == *x {
                return Some(&self.entries[i].1);
            }
        }
        None
    }

    /// Binds each local of `locals` in turn.
    pub fn extend(&mut self, locals: &Vec<(Local, Location)>)
        ensures
            final(self)@ == old(self)@ + locals@,
    {
        let mut i: usize = 0;
        while i < locals.len()
            invariant
                i <= locals.len(),
                self@ == old(self)@ + locals@.take(i as int),
            decreases locals.len() - i,
        {
            self.entries.push(locals[i]);
            i += 1;
        }
        assert(locals@.take(locals@.len() as int) =~= locals@);
    }

    /// The bindings, oldest first.
    pub fn bindings(&self) -> (v: &Vec<(Local, Location)>)
        ensures
            v@ == self@,
    {
        &self.entries
    }
}

impl Clone for LocalsMap {
    fn clone(&self) -> (m: LocalsMap)
        ensures
            m@ == self@,
    {
        let mut entries: Vec<(Local, Location)> = Vec::new();
        let mut i: usize = 0;
        while i < self.entries.len()
            invariant
                i <= self.entries.len(),
                entries@ == self.entries@.take(i as int),
            decreases self.entries.len() - i,
        {
            entries.push(self.entries[i]);
            i += 1;
        }
        assert(self.entries@.take(self.entries@.len() as int) =~= self.entries@);
        LocalsMap { entries }
    }
}

/// A point to roll an environment back to.
pub struct Snapshot {
    heap_len: usize,
    /// The number of scopes around the innermost one at the point.
    outer_depth: usize,
}

impl Snapshot {
    /// The number of heap entries at the point.
    pub closed spec fn heap_len(&self) -> nat {
        self.heap_len as nat
    }

    /// The number of scopes at the point.
    pub closed spec fn locals_depth(&self) -> nat {
        self.outer_depth as nat + 1
    }
}

/// What an [`Env`] denotes: the scopes, innermost last, and the heap.
pub struct EnvView {
    pub locals: Seq<Seq<(Local, Location)>>,
    pub heap: Seq<(Location, TyView)>,
}

impl EnvView {
    /// There is a scope to bind locals in.
    pub open spec fn wf(self) -> bool {
        self.locals.len() >= 1
    }

    /// Whether this environment has come from `before` by binding: the heap has the
    /// entries that it had, there are as many scopes, and the scopes around the
    /// innermost are as they were.
    pub open spec fn grown_from(self, before: EnvView) -> bool {
        &&& before.heap.is_prefix_of(self.heap)
        &&& self.locals.len() == before.locals.len()
        &&& self.locals.drop_last() == before.locals.drop_last()
    }

    /// Every location of the heap is one that the context with the counters `gen` has
    /// handed out, so that no location that the context hands out from now on is in
    /// the heap.
    pub open spec fn below(self, gen: Counters) -> bool {
        forall|i: int| 0 <= i < self.heap.len() ==> (#[trigger] self.heap[i]).0.0 < gen.location
    }

    /// The location that the innermost scope binds `x` to.
    pub open spec fn lookup_local(self, x: Local) -> Option<Location> {
        locals_get(self.locals.last(), x)
    }

    /// The type that the heap holds at `l`.
    pub open spec fn lookup_location(self, l: Location) -> Option<TyView> {
        heap_get(self.heap, l)
    }

    /// The environment with `x` bound to `l` in the innermost scope.
    pub open spec fn insert_local(self, x: Local, l: Location) -> EnvView {
        EnvView {
            locals: self.locals.update(self.locals.len() - 1, self.locals.last().push((x, l))),
            ..self
        }
    }

    /// The environment with `l` holding `ty`.
    pub open spec fn insert_heap(self, l: Location, ty: TyView) -> EnvView {
        EnvView { heap: self.heap.push((l, ty)), ..self }
    }

    /// The type that the projections lead to from `ty`, from the `i`-th on: a field
    /// projection leads into a tuple, a dereference to what the pointer's location
    /// holds.
    pub open spec fn walk(self, ty: TyView, projs: Seq<Proj>, i: nat) -> Option<TyView>
        decreases projs.len() - i,
    {
        if i >= projs.len() {
            Some(ty)
        } else {
            match (ty, projs[i as int]) {
                (TyView::Tuple(fields), Proj::Field(n)) => if n < fields.len() {
                    self.walk(fields[n as int].1, projs, i + 1)
                } else {
                    None
                },
                (TyView::Ref(_, _, l), Proj::Deref) => match self.lookup_location(l) {
                    Some(t) => self.walk(t, projs, i + 1),
                    None => None,
                },
                (TyView::OwnRef(l), Proj::Deref) => match self.lookup_location(l) {
                    Some(t) => self.walk(t, projs, i + 1),
                    None => None,
                },
                _ => None,
            }
        }
    }

    /// The type at `place`.
    pub open spec fn lookup(self, place: PlaceView) -> Option<TyView> {
        match self.lookup_local(place.base) {
            Some(l) => match self.lookup_location(l) {
                Some(t) => self.walk(t, place.projs, 0),
                None => None,
            },
            None => None,
        }
    }

    /// The place in terms of locations that the projections lead to from the part
    /// `path` of `base`, which has type `ty`, from the `i`-th on: a dereference starts
    /// over at the pointer's location.
    pub open spec fn resolve(
        self,
        base: Location,
        path: Seq<usize>,
        ty: TyView,
        projs: Seq<Proj>,
        i: nat,
    ) -> Option<PredPlaceView>
        decreases projs.len() - i,
    {
        if i >= projs.len() {
            Some(PredPlaceView { base: Var::Location(base), projs: path })
        } else {
            match (ty, projs[i as int]) {
                (TyView::Tuple(fields), Proj::Field(n)) => if n < fields.len() {
                    self.resolve(base, path.push(n), fields[n as int].1, projs, i + 1)
                } else {
                    None
                },
                (TyView::Ref(_, _, l), Proj::Deref) => match self.lookup_location(l) {
                    Some(t) => self.resolve(l, Seq::empty(), t, projs, i + 1),
                    None => None,
                },
                (TyView::OwnRef(l), Proj::Deref) => match self.lookup_location(l) {
                    Some(t) => self.resolve(l, Seq::empty(), t, projs, i + 1),
                    None => None,
                },
                _ => None,
            }
        }
    }

    /// `place` in terms of locations, as predicates speak of it.
    pub open spec fn resolve_place(self, place: PlaceView) -> Option<PredPlaceView> {
        match self.lookup_local(place.base) {
            Some(l) => match self.lookup_location(l) {
                Some(t) => self.resolve(l, Seq::empty(), t, place.projs, 0),
                None => None,
            },
            None => None,
        }
    }

    /// The operand as a predicate: a place in terms of locations, or a literal.
    pub open spec fn resolve_operand(self, op: OperandView) -> Option<PredView> {
        match op {
            OperandView::Copy(p) => match self.resolve_place(p) {
                Some(p) => Some(PredView::Place(p)),
                None => None,
            },
            OperandView::Move(p) => match self.resolve_place(p) {
                Some(p) => Some(PredView::Place(p)),
                None => None,
            },
            OperandView::Constant(c) => Some(PredView::Constant(constant_of(c))),
        }
    }

    /// The place that is the location `l` itself.
    pub open spec fn at(l: Location) -> PredPlaceView {
        PredPlaceView { base: Var::Location(l), projs: Seq::empty() }
    }

    /// The type that `root` becomes when the part of it that the projections lead to,
    /// from the `i`-th on, is replaced by `ty`. The rest of `root` stays. Where the way
    /// leads through a pointer, what the pointer's location holds is first re-expressed
    /// as equal to itself, then updated in turn and bound to a fresh location, which
    /// the pointer points to from then on; the old location keeps what it held. With
    /// the type come the environment with the new locations and the counters after
    /// they were drawn.
    pub open spec fn update_ty(self, gen: Counters, root: TyView, projs: Seq<Proj>, i: nat, ty: TyView)
        -> Option<(EnvView, Counters, TyView)>
        decreases projs.len() - i,
    {
        if i >= projs.len() {
            Some((self, gen, ty))
        } else {
            match (root, projs[i as int]) {
                (TyView::Tuple(fields), Proj::Field(n)) => if n < fields.len() {
                    match self.update_ty(gen, fields[n as int].1, projs, i + 1, ty) {
                        Some((env, gen, t)) => Some(
                            (env, gen, TyView::Tuple(fields.update(n as int, (fields[n as int].0, t)))),
                        ),
                        None => None,
                    }
                } else {
                    None
                },
                (TyView::Ref(kind, region, l), Proj::Deref) => match self.update_pointee(
                    gen,
                    l,
                    projs,
                    i,
                    ty,
                ) {
                    Some((env, gen, fresh)) => Some((env, gen, TyView::Ref(kind, region, fresh))),
                    None => None,
                },
                (TyView::OwnRef(l), Proj::Deref) => match self.update_pointee(gen, l, projs, i, ty) {
                    Some((env, gen, fresh)) => Some((env, gen, TyView::OwnRef(fresh))),
                    None => None,
                },
                _ => None,
            }
        }
    }

    /// The fresh location that holds what `l` holds, updated along the projections
    /// after the `i`-th, which is the dereference that led to `l`.
    pub open spec fn update_pointee(self, gen: Counters, l: Location, projs: Seq<Proj>, i: nat, ty: TyView)
        -> Option<(EnvView, Counters, Location)>
        decreases projs.len() - i, 0nat,
        when i < projs.len()
    {
        match self.lookup_location(l) {
            Some(pointee) => if gen.location < usize::MAX {
                let fresh = Location(gen.location as usize);
                match self.update_ty(
                    Counters { location: gen.location + 1, ..gen },
                    pointee.selfify(Self::at(l)),
                    projs,
                    i + 1,
                    ty,
                ) {
                    Some((env, gen, t)) => Some((env.insert_heap(fresh, t), gen, fresh)),
                    None => None,
                }
            } else {
                None
            },
            None => None,
        }
    }

    /// The strong update of `place` to `ty`: the local at the root of `place` is bound
    /// to a fresh location, which holds what the local held, re-expressed as equal to
    /// itself, with `ty` in the place of the part that `place` names.
    pub open spec fn update(self, gen: Counters, place: PlaceView, ty: TyView) -> Option<
        (EnvView, Counters),
    > {
        match self.lookup_local(place.base) {
            Some(l) => match self.lookup_location(l) {
                Some(held) => if gen.location < usize::MAX {
                    let fresh = Location(gen.location as usize);
                    match self.update_ty(
                        Counters { location: gen.location + 1, ..gen },
                        held.selfify(Self::at(l)),
                        place.projs,
                        0,
                        ty,
                    ) {
                        Some((env, gen, t)) => Some(
                            (env.insert_local(place.base, fresh).insert_heap(fresh, t), gen),
                        ),
                        None => None,
                    }
                } else {
                    None
                },
                None => None,
            },
            None => None,
        }
    }

    /// Updating a type binds no local: the scopes stay, and the heap only grows.
    pub proof fn lemma_update_ty_scopes(
        self,
        gen: Counters,
        root: TyView,
        projs: Seq<Proj>,
        i: nat,
        ty: TyView,
    )
        ensures
            self.update_ty(gen, root, projs, i, ty) matches Some((env, g, t)) ==> env.locals
                == self.locals && self.heap.is_prefix_of(env.heap) && gen.le(g) && (self.below(gen)
                ==> env.below(g)),
        decreases projs.len() - i,
    {
        if i < projs.len() {
            match (root, projs[i as int]) {
                (TyView::Tuple(fields), Proj::Field(n)) => {
                    if n < fields.len() {
                        self.lemma_update_ty_scopes(gen, fields[n as int].1, projs, i + 1, ty);
                    }
                },
                (TyView::Ref(kind, region, l), Proj::Deref) => {
                    self.lemma_update_pointee_scopes(gen, l, projs, i, ty);
                },
                (TyView::OwnRef(l), Proj::Deref) => {
                    self.lemma_update_pointee_scopes(gen, l, projs, i, ty);
                },
                _ => {},
            }
        }
    }

    /// Updating what a pointer points to binds no local: the scopes stay, and the heap
    /// only grows.
    pub proof fn lemma_update_pointee_scopes(
        self,
        gen: Counters,
        l: Location,
        projs: Seq<Proj>,
        i: nat,
        ty: TyView,
    )
        requires
            i < projs.len(),
        ensures
            self.update_pointee(gen, l, projs, i, ty) matches Some((env, g, fresh)) ==> env.locals
                == self.locals && self.heap.is_prefix_of(env.heap) && gen.le(g) && (self.below(gen)
                ==> env.below(g)),
        decreases projs.len() - i, 0nat,
    {
        match self.lookup_location(l) {
            Some(pointee) => {
                if gen.location < usize::MAX {
                    self.lemma_update_ty_scopes(
                        Counters { location: gen.location + 1, ..gen },
                        pointee.selfify(Self::at(l)),
                        projs,
                        i + 1,
                        ty,
                    );
                }
            },
            None => {},
        }
    }

    /// The obligation under which a value of type `a` passes for one of type `b`, both
    /// in the heap of this environment.
    pub open spec fn subtype(self, a: TyView, b: TyView) -> Option<ConstraintView> {
        subtype(self.heap, self.heap.len(), a, self.heap, self.heap.len(), b)
    }

    /// The obligations under which what each of `places` holds, from the `i`-th on,
    /// passes for a value of type `join`, after `done`.
    pub open spec fn join_constraints(
        self,
        places: Seq<PlaceView>,
        join: TyView,
        i: nat,
        done: Seq<ConstraintView>,
    ) -> Option<Seq<ConstraintView>>
        decreases places.len() - i,
    {
        if i >= places.len() {
            Some(done)
        } else {
            match self.lookup(places[i as int]) {
                Some(t) => match self.subtype(t, join) {
                    Some(c) => self.join_constraints(places, join, i + 1, done.push(c)),
                    None => None,
                },
                None => None,
            }
        }
    }

    /// The strong update of each of `places` to `ty`, from the `i`-th on, in order.
    pub open spec fn update_all(self, gen: Counters, places: Seq<PlaceView>, ty: TyView, i: nat)
        -> Option<(EnvView, Counters)>
        decreases places.len() - i,
    {
        if i >= places.len() {
            Some((self, gen))
        } else {
            match self.update(gen, places[i as int], ty) {
                Some((env, gen)) => env.update_all(gen, places, ty, i + 1),
                None => None,
            }
        }
    }

    /// What the end of a mutable borrow of region `region`, which points to `l`, does
    /// to the places that the borrow may alias:
    ///
    /// - none: nothing;
    /// - one: it is updated to what `l` holds;
    /// - several: what `l` holds is generalised to a join type, with a predicate
    ///   variable over the value and `vars` in place of every refinement; what `l`
    ///   holds, and what each of the places holds, must pass for the join type; and
    ///   then each of the places is updated to the join type.
    ///
    /// A region that is not a list of places counts as none. With the environment and
    /// the counters come the obligations, in that order.
    pub open spec fn drop_ref(self, gen: Counters, region: RegionView, l: Location, vars: Seq<Var>)
        -> Option<(EnvView, Counters, Seq<ConstraintView>)> {
        match self.lookup_location(l) {
            Some(pointee) => {
                let places = match region {
                    RegionView::Concrete(places) => places,
                    _ => Seq::empty(),
                };
                if places.len() == 0 {
                    Some((self, gen, Seq::empty()))
                } else if places.len() == 1 {
                    match self.update(gen, places[0], pointee) {
                        Some((env, gen)) => Some((env, gen, Seq::empty())),
                        None => None,
                    }
                } else {
                    match pointee.with_kvars(true, gen.kvar, vars) {
                        Some((k, join)) => match self.subtype(pointee, join) {
                            Some(c) => match self.join_constraints(places, join, 0, seq![c]) {
                                Some(cs) => match self.update_all(
                                    Counters { kvar: k, ..gen },
                                    places,
                                    join,
                                    0,
                                ) {
                                    Some((env, gen)) => Some((env, gen, cs)),
                                    None => None,
                                },
                                None => None,
                            },
                            None => None,
                        },
                        None => None,
                    }
                }
            },
            None => None,
        }
    }

    /// What dropping a value of type `ty` does: every mutable borrow in it ends, the
    /// type itself first, then the fields of a tuple from the left.
    pub open spec fn drop_ty(self, gen: Counters, ty: TyView, vars: Seq<Var>) -> Option<
        (EnvView, Counters, Seq<ConstraintView>),
    >
        decreases ty, 0nat,
    {
        match ty {
            TyView::Ref(BorrowKind::Mut, region, l) => self.drop_ref(gen, region, l, vars),
            TyView::Tuple(fields) => self.drop_fields(gen, fields, vars, 0, Seq::empty()),
            _ => Some((self, gen, Seq::empty())),
        }
    }

    /// What dropping the fields of a tuple does, from the `i`-th on, after the
    /// obligations `done`.
    pub open spec fn drop_fields(
        self,
        gen: Counters,
        fields: Seq<(Field, TyView)>,
        vars: Seq<Var>,
        i: nat,
        done: Seq<ConstraintView>,
    ) -> Option<(EnvView, Counters, Seq<ConstraintView>)>
        decreases fields, fields.len() - i,
    {
        if i >= fields.len() {
            Some((self, gen, done))
        } else {
            match self.drop_ty(gen, fields[i as int].1, vars) {
                Some((env, gen, cs)) => env.drop_fields(gen, fields, vars, i + 1, done + cs),
                None => None,
            }
        }
    }

    /// What dropping the local `x` does: the borrows in what it holds end, and `x` is
    /// bound to a fresh location that holds uninitialised memory of the size of what
    /// it held. With the environment comes the conjunction of the obligations.
    pub open spec fn drop_local(self, gen: Counters, x: Local) -> Option<
        (EnvView, Counters, ConstraintView),
    > {
        match self.lookup_local(x) {
            Some(l) => match self.lookup_location(l) {
                Some(ty) => match self.drop_ty(gen, ty, self.vars_in_scope()) {
                    Some((env, gen, cs)) => if ty.size() <= usize::MAX && gen.location
                        < usize::MAX {
                        let fresh = Location(gen.location as usize);
                        Some(
                            (
                                env.insert_local(x, fresh).insert_heap(
                                    fresh,
                                    TyView::Uninit(ty.size() as usize),
                                ),
                                Counters { location: gen.location + 1, ..gen },
                                ConstraintView::Conj(cs),
                            ),
                        )
                    } else {
                        None
                    },
                    None => None,
                },
                None => None,
            },
            None => None,
        }
    }

    /// The environment with the entries `later` added to the heap.
    pub open spec fn with_later(self, later: Seq<(Location, TyView)>) -> EnvView {
        EnvView { heap: self.heap + later, ..self }
    }

    /// After an update along a path, the path leads to the new type: where `root` was
    /// updated to `t` along the projections from the `i`-th on, those projections lead
    /// from `t` to `ty`. This holds in the updated environment, and still after the
    /// heap has got entries `later` for locations that were drawn before the update.
    pub proof fn lemma_walk_updated(
        self,
        gen: Counters,
        root: TyView,
        projs: Seq<Proj>,
        i: nat,
        ty: TyView,
        later: Seq<(Location, TyView)>,
    )
        requires
            self.update_ty(gen, root, projs, i, ty) is Some,
            forall|j: int| 0 <= j < later.len() ==> (#[trigger] later[j]).0.0 < gen.location,
        ensures
            ({
                let (env, g, t) = self.update_ty(gen, root, projs, i, ty).unwrap();
                env.with_later(later).walk(t, projs, i) == Some(ty)
            }),
        decreases projs.len() - i,
    {
        let (env, g, t) = self.update_ty(gen, root, projs, i, ty).unwrap();
        if i >= projs.len() {
        } else {
            match (root, projs[i as int]) {
                (TyView::Tuple(fields), Proj::Field(n)) => {
                    self.lemma_walk_updated(gen, fields[n as int].1, projs, i + 1, ty, later);
                },
                (TyView::Ref(kind, region, l), Proj::Deref) => {
                    self.lemma_walk_updated_pointee(gen, l, projs, i, ty, later);
                },
                (TyView::OwnRef(l), Proj::Deref) => {
                    self.lemma_walk_updated_pointee(gen, l, projs, i, ty, later);
                },
                _ => {},
            }
        }
    }

    /// After an update through a pointer, the fresh location holds a type from which
    /// the rest of the path leads to the new type.
    pub proof fn lemma_walk_updated_pointee(
        self,
        gen: Counters,
        l: Location,
        projs: Seq<Proj>,
        i: nat,
        ty: TyView,
        later: Seq<(Location, TyView)>,
    )
        requires
            i < projs.len(),
            self.update_pointee(gen, l, projs, i, ty) is Some,
            forall|j: int| 0 <= j < later.len() ==> (#[trigger] later[j]).0.0 < gen.location,
        ensures
            ({
                let (env, g, fresh) = self.update_pointee(gen, l, projs, i, ty).unwrap();
                let now = env.with_later(later);
                now.lookup_location(fresh) matches Some(t) && now.walk(t, projs, i + 1) == Some(
                    ty,
                )
            }),
        decreases projs.len() - i, 0nat,
    {
        let pointee = self.lookup_location(l).unwrap();
        let fresh = Location(gen.location as usize);
        let g1 = Counters { location: gen.location + 1, ..gen };
        let root = pointee.selfify(Self::at(l));
        let (inner, g, t) = self.update_ty(g1, root, projs, i + 1, ty).unwrap();
        let later1 = seq![(fresh, t)] + later;
        self.lemma_walk_updated(g1, root, projs, i + 1, ty, later1);
        let (env, g2, fresh2) = self.update_pointee(gen, l, projs, i, ty).unwrap();
        let now = env.with_later(later);
        assert(now.heap =~= inner.heap + later1);
        assert(now == inner.with_later(later1));
        let at = inner.heap.len() as int;
        assert(now.heap[at] == (fresh, t));
        assert forall|j: int| at < j < now.heap.len() implies (#[trigger] now.heap[j]).0
            != fresh by {
            assert(now.heap[j] == later[j - at - 1]);
        }
        lemma_heap_index_last(now.heap, now.heap.len(), fresh, at);
    }

    /// After the strong update of a place to a type, that type is what the place
    /// holds.
    pub proof fn lemma_update_then_lookup(self, gen: Counters, place: PlaceView, ty: TyView)
        requires
            self.wf(),
            self.update(gen, place, ty) is Some,
        ensures
            self.update(gen, place, ty).unwrap().0.lookup(place) == Some(ty),
    {
        let l = self.lookup_local(place.base).unwrap();
        let held = self.lookup_location(l).unwrap();
        let fresh = Location(gen.location as usize);
        let g1 = Counters { location: gen.location + 1, ..gen };
        let root = held.selfify(Self::at(l));
        let (env, g, t) = self.update_ty(g1, root, place.projs, 0, ty).unwrap();
        let later = seq![(fresh, t)];
        self.lemma_walk_updated(g1, root, place.projs, 0, ty, later);
        self.lemma_update_ty_scopes(g1, root, place.projs, 0, ty);
        let after = self.update(gen, place, ty).unwrap().0;
        assert(after.heap =~= env.heap + later);
        assert(after.heap == env.with_later(later).heap);
        let top = env.locals.last().push((place.base, fresh));
        assert(after.locals.last() == top);
        assert(locals_get(top, place.base) == Some(fresh));
        lemma_heap_index_last(after.heap, after.heap.len(), fresh, env.heap.len() as int);
        after.lemma_walk_heap(env.with_later(later), t, place.projs, 0);
    }

    /// Field projections commute with selfification: a path of fields leads from a
    /// selfified type to the selfified part that it leads to from the type itself.
    pub proof fn lemma_walk_selfified(
        self,
        ty: TyView,
        place: PredPlaceView,
        fields: Seq<usize>,
        i: nat,
    )
        requires
            i <= fields.len(),
        ensures
            self.walk(ty.selfify(place), field_projs(fields), i) == match self.walk(
                ty,
                field_projs(fields),
                i,
            ) {
                Some(part) => Some(
                    part.selfify(
                        PredPlaceView {
                            base: place.base,
                            projs: place.projs + fields.skip(i as int),
                        },
                    ),
                ),
                None => None,
            },
        decreases fields.len() - i,
    {
        let projs = field_projs(fields);
        if i >= fields.len() {
            assert(place.projs + fields.skip(i as int) =~= place.projs);
        } else {
            let n = fields[i as int];
            assert(projs[i as int] == Proj::Field(n));
            match ty {
                TyView::Tuple(fs) => {
                    if n < fs.len() {
                        let inner = PredPlaceView { base: place.base, projs: place.projs.push(n) };
                        assert(ty.selfify(place)->Tuple_0[n as int].1 == fs[n as int].1.selfify(
                            inner,
                        ));
                        self.lemma_walk_selfified(fs[n as int].1, inner, fields, i + 1);
                        assert(inner.projs + fields.skip(i as int + 1) =~= place.projs
                            + fields.skip(i as int));
                    }
                },
                _ => {},
            }
        }
    }

    /// An update leaves alone what lies off its path: where a path of fields agrees
    /// with the projections of the update up to the `j`-th and parts from them there,
    /// it leads from the updated type to what it led to from the type before.
    pub proof fn lemma_walk_beside_update(
        self,
        gen: Counters,
        root: TyView,
        projs: Seq<Proj>,
        i: nat,
        ty: TyView,
        fields: Seq<usize>,
        j: nat,
        other: EnvView,
    )
        requires
            self.update_ty(gen, root, projs, i, ty) is Some,
            i <= j < fields.len(),
            j < projs.len(),
            forall|k: int| i <= k < j ==> projs[k] == Proj::Field(fields[k]),
            projs[j as int] != Proj::Field(fields[j as int]),
        ensures
            other.walk(self.update_ty(gen, root, projs, i, ty).unwrap().2, field_projs(fields), i)
                == other.walk(root, field_projs(fields), i),
        decreases j - i,
    {
        let q = field_projs(fields);
        assert(q[i as int] == Proj::Field(fields[i as int]));
        if i < j {
            match (root, projs[i as int]) {
                (TyView::Tuple(fs), Proj::Field(n)) => {
                    self.lemma_walk_beside_update(
                        gen,
                        fs[n as int].1,
                        projs,
                        i + 1,
                        ty,
                        fields,
                        j,
                        other,
                    );
                },
                _ => {},
            }
        }
    }

    /// A strong update loses nothing about what the local held before: the heap keeps
    /// every entry it had, and a part of the local that lies off the updated path now
    /// has the type it had, re-expressed as equal to that part of what the old
    /// location of the local holds.
    pub proof fn lemma_update_keeps_siblings(
        self,
        gen: Counters,
        place: PlaceView,
        ty: TyView,
        fields: Seq<usize>,
        j: nat,
    )
        requires
            self.wf(),
            self.update(gen, place, ty) is Some,
            j < fields.len(),
            j < place.projs.len(),
            forall|k: int| 0 <= k < j ==> place.projs[k] == Proj::Field(fields[k]),
            place.projs[j as int] != Proj::Field(fields[j as int]),
        ensures
            self.heap.is_prefix_of(self.update(gen, place, ty).unwrap().0.heap),
            self.update(gen, place, ty).unwrap().0.lookup(
                PlaceView { base: place.base, projs: field_projs(fields) },
            ) == match self.lookup(PlaceView { base: place.base, projs: field_projs(fields) }) {
                Some(part) => Some(
                    part.selfify(
                        PredPlaceView {
                            base: Var::Location(self.lookup_local(place.base).unwrap()),
                            projs: fields,
                        },
                    ),
                ),
                None => None,
            },
    {
        let l = self.lookup_local(place.base).unwrap();
        let held = self.lookup_location(l).unwrap();
        let fresh = Location(gen.location as usize);
        let g1 = Counters { location: gen.location + 1, ..gen };
        let root = held.selfify(Self::at(l));
        let (env, g, t) = self.update_ty(g1, root, place.projs, 0, ty).unwrap();
        let after = self.update(gen, place, ty).unwrap().0;
        self.lemma_update_ty_scopes(g1, root, place.projs, 0, ty);
        let top = env.locals.last().push((place.base, fresh));
        assert(after.locals.last() == top);
        assert(locals_get(top, place.base) == Some(fresh));
        lemma_heap_index_last(after.heap, after.heap.len(), fresh, env.heap.len() as int);
        self.lemma_walk_beside_update(g1, root, place.projs, 0, ty, fields, j, after);
        after.lemma_walk_selfified(held, Self::at(l), fields, 0);
        after.lemma_walk_fields(self, held, fields, 0);
        assert(Self::at(l).projs + fields.skip(0) =~= fields);
    }

    /// Where a path of fields leads does not depend on the environment.
    pub proof fn lemma_walk_fields(self, other: EnvView, ty: TyView, fields: Seq<usize>, i: nat)
        ensures
            self.walk(ty, field_projs(fields), i) == other.walk(ty, field_projs(fields), i),
        decreases fields.len() - i,
    {
        if i < fields.len() {
            assert(field_projs(fields)[i as int] == Proj::Field(fields[i as int]));
            match ty {
                TyView::Tuple(fs) => {
                    let n = fields[i as int];
                    if n < fs.len() {
                        self.lemma_walk_fields(other, fs[n as int].1, fields, i + 1);
                    }
                },
                _ => {},
            }
        }
    }

    /// The obligations of a join are one for each place, in order, after those that
    /// were there: that what the place holds passes for the join type.
    pub proof fn lemma_join_constraints(
        self,
        places: Seq<PlaceView>,
        join: TyView,
        i: nat,
        done: Seq<ConstraintView>,
    )
        requires
            i <= places.len(),
            self.join_constraints(places, join, i, done) is Some,
        ensures
            ({
                let cs = self.join_constraints(places, join, i, done).unwrap();
                &&& cs.len() == done.len() + places.len() - i
                &&& forall|k: int| 0 <= k < done.len() ==> cs[k] == done[k]
                &&& forall|k: int|
                    i <= k < places.len() ==> (self.lookup(#[trigger] places[k]) matches Some(t)
                        && self.subtype(t, join) == Some(cs[done.len() + k - i]))
            }),
        decreases places.len() - i,
    {
        if i < places.len() {
            let t = self.lookup(places[i as int]).unwrap();
            let c = self.subtype(t, join).unwrap();
            self.lemma_join_constraints(places, join, i + 1, done.push(c));
            let cs = self.join_constraints(places, join, i, done).unwrap();
            assert(cs[done.len() as int] == done.push(c)[done.len() as int]);
            assert forall|k: int| 0 <= k < done.len() implies cs[k] == done[k] by {
                assert(cs[k] == done.push(c)[k]);
            }
        }
    }

    /// The join at the end of a mutable borrow is sound. Where the borrow may alias
    /// several places, what is emitted is, in order, the obligation that what the
    /// borrow points to passes for the join type, and for each place the obligation
    /// that what the place holds passes for it; and their conjunction is valid under a
    /// solution exactly when each of them is. So a solution under which the join type
    /// does not admit what one of the places holds does not meet the conjunction.
    pub proof fn lemma_join_sound(
        self,
        gen: Counters,
        places: Seq<PlaceView>,
        l: Location,
        vars: Seq<Var>,
        sigma: Solution,
    )
        requires
            places.len() >= 2,
            self.drop_ref(gen, RegionView::Concrete(places), l, vars) is Some,
        ensures
            ({
                let cs = self.drop_ref(gen, RegionView::Concrete(places), l, vars).unwrap().2;
                let pointee = self.lookup_location(l).unwrap();
                let join = pointee.with_kvars(true, gen.kvar, vars).unwrap().1;
                &&& cs.len() == places.len() + 1
                &&& self.subtype(pointee, join) == Some(cs[0])
                &&& forall|k: int|
                    0 <= k < places.len() ==> (self.lookup(#[trigger] places[k]) matches Some(t)
                        && self.subtype(t, join) == Some(cs[k + 1]))
                &&& ConstraintView::Conj(cs).valid(sigma) <==> forall|k: int|
                    0 <= k < cs.len() ==> (#[trigger] cs[k]).valid(sigma)
            }),
    {
        let pointee = self.lookup_location(l).unwrap();
        let join = pointee.with_kvars(true, gen.kvar, vars).unwrap().1;
        let c = self.subtype(pointee, join).unwrap();
        self.lemma_join_constraints(places, join, 0, seq![c]);
        let cs = self.drop_ref(gen, RegionView::Concrete(places), l, vars).unwrap().2;
        assert(cs == self.join_constraints(places, join, 0, seq![c]).unwrap());
        assert(cs[0] == seq![c][0]);
        lemma_conj_valid(cs, sigma);
    }

    /// A strong update keeps the heap within what the context has handed out.
    pub proof fn lemma_update_below(self, gen: Counters, place: PlaceView, ty: TyView)
        requires
            self.below(gen),
            self.update(gen, place, ty) is Some,
        ensures
            self.update(gen, place, ty).unwrap().0.below(self.update(gen, place, ty).unwrap().1),
            gen.le(self.update(gen, place, ty).unwrap().1),
            self.heap.is_prefix_of(self.update(gen, place, ty).unwrap().0.heap),
    {
        let l = self.lookup_local(place.base).unwrap();
        let held = self.lookup_location(l).unwrap();
        let g1 = Counters { location: gen.location + 1, ..gen };
        self.lemma_update_ty_scopes(g1, held.selfify(Self::at(l)), place.projs, 0, ty);
    }

    /// Strong updates in turn keep the heap within what the context has handed out.
    pub proof fn lemma_update_all_below(self, gen: Counters, places: Seq<PlaceView>, ty: TyView, i: nat)
        requires
            self.below(gen),
            self.update_all(gen, places, ty, i) is Some,
        ensures
            self.update_all(gen, places, ty, i).unwrap().0.below(
                self.update_all(gen, places, ty, i).unwrap().1,
            ),
            gen.le(self.update_all(gen, places, ty, i).unwrap().1),
        decreases places.len() - i,
    {
        if i < places.len() {
            self.lemma_update_below(gen, places[i as int], ty);
            let (env, g) = self.update(gen, places[i as int], ty).unwrap();
            env.lemma_update_all_below(g, places, ty, i + 1);
        }
    }

    /// The end of a borrow keeps the heap within what the context has handed out.
    pub proof fn lemma_drop_ref_below(self, gen: Counters, region: RegionView, l: Location, vars: Seq<Var>)
        requires
            self.below(gen),
            self.drop_ref(gen, region, l, vars) is Some,
        ensures
            self.drop_ref(gen, region, l, vars).unwrap().0.below(
                self.drop_ref(gen, region, l, vars).unwrap().1,
            ),
            gen.le(self.drop_ref(gen, region, l, vars).unwrap().1),
    {
        let pointee = self.lookup_location(l).unwrap();
        let places = match region {
            RegionView::Concrete(places) => places,
            _ => Seq::empty(),
        };
        if places.len() == 0 {
        } else if places.len() == 1 {
            self.lemma_update_below(gen, places[0], pointee);
        } else {
            let (k, join) = pointee.with_kvars(true, gen.kvar, vars).unwrap();
            pointee.lemma_with_kvars_grows(true, gen.kvar, vars);
            self.lemma_update_all_below(Counters { kvar: k, ..gen }, places, join, 0);
        }
    }

    /// Dropping a value keeps the heap within what the context has handed out.
    pub proof fn lemma_drop_ty_below(self, gen: Counters, ty: TyView, vars: Seq<Var>)
        requires
            self.below(gen),
            self.drop_ty(gen, ty, vars) is Some,
        ensures
            self.drop_ty(gen, ty, vars).unwrap().0.below(self.drop_ty(gen, ty, vars).unwrap().1),
            gen.le(self.drop_ty(gen, ty, vars).unwrap().1),
        decreases ty, 0nat,
    {
        match ty {
            TyView::Ref(BorrowKind::Mut, region, l) => {
                self.lemma_drop_ref_below(gen, region, l, vars);
            },
            TyView::Tuple(fields) => {
                self.lemma_drop_fields_below(gen, fields, vars, 0, Seq::empty());
            },
            _ => {},
        }
    }

    /// Dropping the fields of a tuple keeps the heap within what the context has
    /// handed out.
    pub proof fn lemma_drop_fields_below(
        self,
        gen: Counters,
        fields: Seq<(Field, TyView)>,
        vars: Seq<Var>,
        i: nat,
        done: Seq<ConstraintView>,
    )
        requires
            self.below(gen),
            self.drop_fields(gen, fields, vars, i, done) is Some,
        ensures
            self.drop_fields(gen, fields, vars, i, done).unwrap().0.below(
                self.drop_fields(gen, fields, vars, i, done).unwrap().1,
            ),
            gen.le(self.drop_fields(gen, fields, vars, i, done).unwrap().1),
        decreases fields, fields.len() - i,
    {
        if i < fields.len() {
            self.lemma_drop_ty_below(gen, fields[i as int].1, vars);
            let (env, g, cs) = self.drop_ty(gen, fields[i as int].1, vars).unwrap();
            env.lemma_drop_fields_below(g, fields, vars, i + 1, done + cs);
        }
    }

    /// Dropping a local keeps the heap within what the context has handed out.
    pub proof fn lemma_drop_below(self, gen: Counters, x: Local)
        requires
            self.below(gen),
            self.drop_local(gen, x) is Some,
        ensures
            self.drop_local(gen, x).unwrap().0.below(self.drop_local(gen, x).unwrap().1),
            gen.le(self.drop_local(gen, x).unwrap().1),
    {
        let l = self.lookup_local(x).unwrap();
        let ty = self.lookup_location(l).unwrap();
        self.lemma_drop_ty_below(gen, ty, self.vars_in_scope());
    }

    /// Where a path leads depends on the heap alone.
    pub proof fn lemma_walk_heap(self, other: EnvView, ty: TyView, projs: Seq<Proj>, i: nat)
        requires
            self.heap == other.heap,
        ensures
            self.walk(ty, projs, i) == other.walk(ty, projs, i),
        decreases projs.len() - i,
    {
        if i < projs.len() {
            match (ty, projs[i as int]) {
                (TyView::Tuple(fields), Proj::Field(n)) => {
                    if n < fields.len() {
                        self.lemma_walk_heap(other, fields[n as int].1, projs, i + 1);
                    }
                },
                (TyView::Ref(_, _, l), Proj::Deref) => {
                    if self.lookup_location(l) is Some {
                        self.lemma_walk_heap(other, self.lookup_location(l).unwrap(), projs, i + 1);
                    }
                },
                (TyView::OwnRef(l), Proj::Deref) => {
                    if self.lookup_location(l) is Some {
                        self.lemma_walk_heap(other, self.lookup_location(l).unwrap(), projs, i + 1);
                    }
                },
                _ => {},
            }
        }
    }

    /// The variables that a predicate may mention: one for each heap entry.
    pub open spec fn vars_in_scope(self) -> Seq<Var> {
        Seq::new(self.heap.len(), |i: int| Var::Location(self.heap[i].0))
    }
}

/// The path that projects the fields `fields` in turn.
pub open spec fn field_projs(fields: Seq<usize>) -> Seq<Proj> {
    Seq::new(fields.len(), |k: int| Proj::Field(fields[k]))
}

/// The literal as the logic has it.
pub open spec fn constant_of(c: Constant) -> PredConstant {
    match c {
        Constant::Bool(b) => PredConstant::Bool(b),
        Constant::Int(n) => PredConstant::Int(n),
        Constant::Unit => PredConstant::Unit,
    }
}

/// The scopes of a list, each by what it denotes.
pub open spec fn scopes_view(scopes: Seq<LocalsMap>) -> Seq<Seq<(Local, Location)>> {
    Seq::new(scopes.len(), |i: int| scopes[i]@)
}

/// The environment of the checker.
#[derive(Debug)]
pub struct Env {
    /// The scopes around the innermost one, outermost first.
    outer: Vec<LocalsMap>,
    /// The innermost scope.
    top: LocalsMap,
    heap: Heap,
}

impl View for Env {
    type V = EnvView;

    closed spec fn view(&self) -> EnvView {
        EnvView { locals: scopes_view(self.outer@).push(self.top@), heap: self.heap@ }
    }
}

impl Env {
    /// The environment of one empty scope and an empty heap.
    pub fn new() -> (env: Env)
        ensures
            env@ == (EnvView { locals: seq![Seq::empty()], heap: Seq::empty() }),
    {
        let env = Env { outer: Vec::new(), top: LocalsMap::empty(), heap: Heap::new() };
        assert(env@.locals =~= seq![Seq::empty()]);
        env
    }

    /// An environment always has a scope to bind locals in.
    pub proof fn lemma_wf(&self)
        ensures
            self@.wf(),
    {
    }

    fn insert_local(&mut self, x: Local, l: Location)
        ensures
            final(self)@ == old(self)@.insert_local(x, l),
    {
        self.top.insert(x, l);
        assert(self@.locals =~= old(self)@.insert_local(x, l).locals);
    }

    fn lookup_local(&self, x: &Local) -> (l: Option<Location>)
        ensures
            l == self@.lookup_local(*x),
    {
        match self.top.get(x) {
            Some(l) => Some(*l),
            None => None,
        }
    }

    fn lookup_location(&self, l: &Location) -> (ty: Option<&Ty>)
        ensures
            found(ty, self@.lookup_location(*l)),
    {
        self.heap.get(l)
    }

    /// Binds `x` to a fresh location that holds `ty`, if `tcx` has a location left.
    pub fn try_allocate(&mut self, tcx: &mut TyCtxt, x: Local, ty: Ty) -> (ok: bool)
        ensures
            ok == (old(tcx)@.location < usize::MAX),
            ok ==> final(self)@ == old(self)@.insert_local(
                x,
                Location(old(tcx)@.location as usize),
            ).insert_heap(Location(old(tcx)@.location as usize), ty@),
            ok ==> final(tcx)@ == (Counters { location: old(tcx)@.location + 1, ..old(tcx)@ }),
            !ok ==> final(self)@ == old(self)@ && final(tcx)@ == old(tcx)@,
            old(self)@.below(old(tcx)@) ==> final(self)@.below(final(tcx)@),
    {
        if !tcx.has_location() {
            return false;
        }
        let l = tcx.fresh_location();
        self.insert_local(x, l);
        self.heap.insert(l, ty);
        true
    }

    /// Binds `x` to a fresh location that holds `ty`.
    pub fn allocate(&mut self, tcx: &mut TyCtxt, x: Local, ty: Ty)
        requires
            old(tcx)@.location < usize::MAX,
        ensures
            final(self)@ == old(self)@.insert_local(x, Location(old(tcx)@.location as usize))
                .insert_heap(Location(old(tcx)@.location as usize), ty@),
            final(tcx)@ == (Counters { location: old(tcx)@.location + 1, ..old(tcx)@ }),
            old(self)@.below(old(tcx)@) ==> final(self)@.below(final(tcx)@),
    {
        let ok = self.try_allocate(tcx, x, ty);
    }

    /// The type at `place`, if the place resolves.
    pub fn try_lookup(&self, place: &Place) -> (ty: Option<&Ty>)
        ensures
            found(ty, self@.lookup(place@)),
    {
        let l = match self.lookup_local(&place.base) {
            Some(l) => l,
            None => return None,
        };
        let mut ty = match self.lookup_location(&l) {
            Some(ty) => ty,
            None => return None,
        };
        let mut i: usize = 0;
        while i < place.projs.len()
            invariant
                i <= place.projs.len(),
                self@.walk(ty@, place@.projs, i as nat) == self@.lookup(place@),
            decreases place.projs.len() - i,
        {
            match (ty, place.projs[i]) {
                (Ty::Tuple(tuple), Proj::Field(n)) => {
                    proof {
                        lemma_tuple_view(*tuple);
                    }
                    if n < tuple.len() {
                        ty = &tuple[n].1;
                    } else {
                        return None;
                    }
                },
                (Ty::Ref(_, _, l), Proj::Deref) => {
                    ty = match self.lookup_location(l) {
                        Some(ty) => ty,
                        None => return None,
                    };
                },
                (Ty::OwnRef(l), Proj::Deref) => {
                    ty = match self.lookup_location(l) {
                        Some(ty) => ty,
                        None => return None,
                    };
                },
                _ => {
                    return None;
                },
            }
            i += 1;
        }
        Some(ty)
    }

    /// The type at `place`, which resolves.
    pub fn lookup(&self, place: &Place) -> (ty: &Ty)
        requires
            self@.lookup(place@) is Some,
        ensures
            self@.lookup(place@) == Some(ty@),
    {
        match self.try_lookup(place) {
            Some(ty) => ty,
            None => unreached(),
        }
    }

    /// `place` in terms of locations, as predicates speak of it, if the place
    /// resolves.
    pub fn try_resolve_place(&self, place: &Place) -> (r: Option<PredPlace>)
        ensures
            match r {
                Some(r) => self@.resolve_place(place@) == Some(r@),
                None => self@.resolve_place(place@) is None,
            },
    {
        let mut base = match self.lookup_local(&place.base) {
            Some(l) => l,
            None => return None,
        };
        let mut ty = match self.lookup_location(&base) {
            Some(ty) => ty,
            None => return None,
        };
        let mut projs: Vec<usize> = Vec::new();
        let mut i: usize = 0;
        while i < place.projs.len()
            invariant
                i <= place.projs.len(),
                self@.resolve(base, projs@, ty@, place@.projs, i as nat) == self@.resolve_place(
                    place@,
                ),
            decreases place.projs.len() - i,
        {
            match (ty, place.projs[i]) {
                (Ty::Tuple(tup), Proj::Field(n)) => {
                    proof {
                        lemma_tuple_view(*tup);
                    }
                    if n < tup.len() {
                        ty = &tup[n].1;
                        projs.push(n);
                    } else {
                        return None;
                    }
                },
                (Ty::Ref(_, _, l), Proj::Deref) => {
                    ty = match self.lookup_location(l) {
                        Some(ty) => ty,
                        None => return None,
                    };
                    projs = Vec::new();
                    base = *l;
                },
                (Ty::OwnRef(l), Proj::Deref) => {
                    ty = match self.lookup_location(l) {
                        Some(ty) => ty,
                        None => return None,
                    };
                    projs = Vec::new();
                    base = *l;
                },
                _ => {
                    return None;
                },
            }
            i += 1;
        }
        Some(PredPlace { base: Var::Location(base), projs })
    }

    /// `place` in terms of locations, as predicates speak of it. The place resolves.
    pub fn resolve_place(&self, place: &Place) -> (r: PredPlace)
        requires
            self@.resolve_place(place@) is Some,
        ensures
            self@.resolve_place(place@) == Some(r@),
    {
        match self.try_resolve_place(place) {
            Some(r) => r,
            None => unreached(),
        }
    }

    /// The operand as a predicate: a place in terms of locations, or a literal; if
    /// the place resolves.
    pub fn try_resolve_operand(&self, op: &Operand) -> (p: Option<Pred>)
        ensures
            match p {
                Some(p) => self@.resolve_operand(op@) == Some(p@),
                None => self@.resolve_operand(op@) is None,
            },
    {
        match op {
            Operand::Copy(place) => match self.try_resolve_place(place) {
                Some(place) => Some(Pred::Place(place)),
                None => None,
            },
            Operand::Move(place) => match self.try_resolve_place(place) {
                Some(place) => Some(Pred::Place(place)),
                None => None,
            },
            Operand::Constant(c) => {
                let c = match *c {
                    Constant::Bool(b) => PredConstant::Bool(b),
                    Constant::Int(n) => PredConstant::Int(n),
                    Constant::Unit => PredConstant::Unit,
                };
                Some(Pred::Constant(c))
            },
        }
    }

    /// The operand as a predicate: a place in terms of locations, or a literal. The
    /// place resolves.
    pub fn resolve_operand(&self, op: &Operand) -> (p: Pred)
        requires
            self@.resolve_operand(op@) is Some,
        ensures
            self@.resolve_operand(op@) == Some(p@),
    {
        match self.try_resolve_operand(op) {
            Some(p) => p,
            None => unreached(),
        }
    }

    /// Copies the type at `place` into a fresh location, and returns the location;
    /// if the place resolves and `tcx` has a location left.
    pub fn try_borrow(&mut self, tcx: &mut TyCtxt, place: &Place) -> (l: Option<Location>)
        ensures
            match l {
                Some(l) => {
                    &&& old(self)@.lookup(place@) is Some
                    &&& old(tcx)@.location < usize::MAX
                    &&& l.0 == old(tcx)@.location
                    &&& final(self)@ == old(self)@.insert_heap(
                        l,
                        old(self)@.lookup(place@).unwrap(),
                    )
                    &&& final(tcx)@ == (Counters { location: old(tcx)@.location + 1, ..old(tcx)@ })
                },
                None => {
                    &&& old(self)@.lookup(place@) is None || old(tcx)@.location >= usize::MAX
                    &&& final(self)@ == old(self)@
                    &&& final(tcx)@ == old(tcx)@
                },
            },
            old(self)@.below(old(tcx)@) ==> final(self)@.below(final(tcx)@),
    {
        let ty = match self.try_lookup(place) {
            Some(ty) => ty.clone(),
            None => return None,
        };
        if !tcx.has_location() {
            proof {
                tcx.lemma_bounded();
            }
            return None;
        }
        let l = tcx.fresh_location();
        self.heap.insert(l, ty);
        Some(l)
    }

    /// Copies the type at `place` into a fresh location, and returns the location.
    pub fn borrow(&mut self, tcx: &mut TyCtxt, place: &Place) -> (l: Location)
        requires
            old(self)@.lookup(place@) is Some,
            old(tcx)@.location < usize::MAX,
        ensures
            l.0 == old(tcx)@.location,
            final(self)@ == old(self)@.insert_heap(l, old(self)@.lookup(place@).unwrap()),
            final(tcx)@ == (Counters { location: old(tcx)@.location + 1, ..old(tcx)@ }),
            old(self)@.below(old(tcx)@) ==> final(self)@.below(final(tcx)@),
    {
        match self.try_borrow(tcx, place) {
            Some(l) => l,
            None => unreached(),
        }
    }

    /// Adds the entries of `heap`, in order.
    pub fn extend_heap(&mut self, heap: &Heap)
        ensures
            final(self)@ == (EnvView { heap: old(self)@.heap + heap@, ..old(self)@ }),
    {
        let mut i: usize = 0;
        while i < heap.0.len()
            invariant
                i <= heap.0.len(),
                heap@.len() == heap.0.len(),
                self@ == (EnvView { heap: old(self)@.heap + heap@.take(i as int), ..old(self)@ }),
            decreases heap.0.len() - i,
        {
            let l = heap.0[i].0;
            let ty = heap.0[i].1.clone();
            self.heap.insert(l, ty);
            assert(self@.heap =~= old(self)@.heap + heap@.take(i + 1));
            i += 1;
        }
        assert(heap@.take(heap@.len() as int) =~= heap@);
    }

    /// Binds each local of `locals`, in turn, in the innermost scope.
    pub fn insert_locals(&mut self, locals: &Vec<(Local, Location)>)
        ensures
            final(self)@ == (EnvView {
                locals: old(self)@.locals.update(
                    old(self)@.locals.len() - 1,
                    old(self)@.locals.last() + locals@,
                ),
                ..old(self)@
            }),
    {
        self.top.extend(locals);
        assert(self@.locals =~= old(self)@.locals.update(
            old(self)@.locals.len() - 1,
            old(self)@.locals.last() + locals@,
        ));
    }

    /// The heap.
    pub fn heap(&self) -> (heap: &Heap)
        ensures
            heap@ == self@.heap,
    {
        &self.heap
    }

    /// The innermost scope.
    pub fn locals(&self) -> (locals: &LocalsMap)
        ensures
            locals@ == self@.locals.last(),
    {
        &self.top
    }

    /// The variables that a predicate may mention: one for each heap entry.
    pub fn vars_in_scope(&self) -> (vars: Vec<Var>)
        ensures
            vars@ == self@.vars_in_scope(),
    {
        let mut out: Vec<Var> = Vec::new();
        let mut i: usize = 0;
        while i < self.heap.0.len()
            invariant
                i <= self.heap.0.len(),
                self@.heap.len() == self.heap.0.len(),
                out@.len() == i,
                forall|j: int| 0 <= j < i ==> out@[j] == Var::Location(self@.heap[j].0),
            decreases self.heap.0.len() - i,
        {
            out.push(Var::Location(self.heap.0[i].0));
            i += 1;
        }
        assert(out@ =~= self@.vars_in_scope());
        out
    }

    /// Opens a scope that starts with the bindings of the scope around it, and
    /// returns the point before it.
    pub fn snapshot(&mut self) -> (snapshot: Snapshot)
        ensures
            snapshot.heap_len() == old(self)@.heap.len(),
            snapshot.locals_depth() == old(self)@.locals.len(),
            final(self)@ == (EnvView {
                locals: old(self)@.locals.push(old(self)@.locals.last()),
                ..old(self)@
            }),
    {
        let heap_len = self.heap.len();
        let locals_depth = self.outer.len();
        self.outer.push(self.top.clone());
        assert(self@.locals =~= old(self)@.locals.push(old(self)@.locals.last()));
        Snapshot { heap_len, outer_depth: locals_depth }
    }

    /// Opens a scope without bindings, and returns the point before it.
    pub fn snapshot_without_locals(&mut self) -> (snapshot: Snapshot)
        ensures
            snapshot.heap_len() == old(self)@.heap.len(),
            snapshot.locals_depth() == old(self)@.locals.len(),
            final(self)@ == (EnvView {
                locals: old(self)@.locals.push(Seq::empty()),
                ..old(self)@
            }),
    {
        let heap_len = self.heap.len();
        let locals_depth = self.outer.len();
        let mut top = LocalsMap::empty();
        std::mem::swap(&mut self.top, &mut top);
        self.outer.push(top);
        assert(self@.locals =~= old(self)@.locals.push(Seq::empty()));
        Snapshot { heap_len, outer_depth: locals_depth }
    }

    /// Goes back to the point of `snapshot`: the heap entries and the scopes that came
    /// after it are forgotten.
    pub fn rollback_to(&mut self, snapshot: Snapshot)
        ensures
            final(self)@.heap == if snapshot.heap_len() <= old(self)@.heap.len() {
                old(self)@.heap.take(snapshot.heap_len() as int)
            } else {
                old(self)@.heap
            },
            final(self)@.locals == if snapshot.locals_depth() <= old(self)@.locals.len() {
                old(self)@.locals.take(snapshot.locals_depth() as int)
            } else {
                old(self)@.locals
            },
    {
        self.heap.truncate(snapshot.heap_len);
        if snapshot.outer_depth < self.outer.len() {
            self.outer.truncate(snapshot.outer_depth + 1);
            self.top = self.outer.pop().unwrap();
            assert(self@.locals =~= old(self)@.locals.take(snapshot.locals_depth() as int));
        } else {
            assert(snapshot.locals_depth() <= old(self)@.locals.len() ==> old(self)@.locals.take(
                snapshot.locals_depth() as int,
            ) =~= old(self)@.locals);
        }
    }

    /// The heap entries from the `from`-th on: what was bound since the heap had
    /// `from` entries.
    pub fn capture_bindings(&self, from: usize) -> (bindings: Vec<(Location, Ty)>)
        ensures
            crate::ast::heap_view(bindings@) == if from <= self@.heap.len() {
                self@.heap.skip(from as int)
            } else {
                Seq::empty()
            },
    {
        let mut out: Vec<(Location, Ty)> = Vec::new();
        if from > self.heap.0.len() {
            assert(crate::ast::heap_view(out@) =~= Seq::empty());
            return out;
        }
        let mut i: usize = from;
        while i < self.heap.0.len()
            invariant
                from <= i <= self.heap.0.len(),
                self@.heap.len() == self.heap.0.len(),
                out@.len() == i - from,
                forall|j: int|
                    0 <= j < out@.len() ==> out@[j].0 == self@.heap[from + j].0 && out@[j].1@
                        == self@.heap[from + j].1,
            decreases self.heap.0.len() - i,
        {
            let l = self.heap.0[i].0;
            let ty = self.heap.0[i].1.clone();
            out.push((l, ty));
            i += 1;
        }
        assert(crate::ast::heap_view(out@) =~= self@.heap.skip(from as int));
        out
    }

    fn update_ty(&mut self, tcx: &mut TyCtxt, root: &Ty, projs: &Vec<Proj>, i: usize, ty: Ty) -> (r:
        Option<Ty>)
        ensures
            match r {
                Some(r) => old(self)@.update_ty(old(tcx)@, root@, projs@, i as nat, ty@) == Some(
                    (final(self)@, final(tcx)@, r@),
                ),
                None => old(self)@.update_ty(old(tcx)@, root@, projs@, i as nat, ty@) is None
                    && final(self)@ == old(self)@,
            },
        decreases projs.len() - i,
    {
        if i >= projs.len() {
            return Some(ty);
        }
        match (root, projs[i]) {
            (Ty::Tuple(tup), Proj::Field(n)) => {
                proof {
                    lemma_tuple_view(*tup);
                }
                if n >= tup.len() {
                    return None;
                }
                let t = match self.update_ty(tcx, &tup[n].1, projs, i + 1, ty) {
                    Some(t) => t,
                    None => return None,
                };
                let mut out: Vec<(Field, Ty)> = Vec::new();
                let mut j: usize = 0;
                while j < n
                    invariant
                        j <= n < tup.len(),
                        out@.len() == j,
                        forall|k: int|
                            0 <= k < j ==> (#[trigger] out@[k]).0 == tup@[k].0 && out@[k].1@
                                == tup@[k].1@,
                    decreases n - j,
                {
                    out.push((tup[j].0, tup[j].1.clone()));
                    j += 1;
                }
                out.push((tup[n].0, t));
                j += 1;
                while j < tup.len()
                    invariant
                        n < j <= tup.len(),
                        out@.len() == j,
                        out@[n as int].0 == tup@[n as int].0,
                        out@[n as int].1@ == t@,
                        forall|k: int|
                            0 <= k < j && k != n ==> (#[trigger] out@[k]).0 == tup@[k].0
                                && out@[k].1@ == tup@[k].1@,
                    decreases tup.len() - j,
                {
                    out.push((tup[j].0, tup[j].1.clone()));
                    j += 1;
                }
                proof {
                    lemma_tuple_view(out);
                    assert(fields_view(out@) =~= fields_view(tup@).update(
                        n as int,
                        (tup@[n as int].0, t@),
                    ));
                }
                Some(Ty::Tuple(out))
            },
            (Ty::Ref(bk, r, l), Proj::Deref) => {
                match self.update_pointee(tcx, *l, projs, i, ty) {
                    Some(fresh_l) => Some(Ty::Ref(*bk, r.clone(), fresh_l)),
                    None => None,
                }
            },
            (Ty::OwnRef(l), Proj::Deref) => {
                match self.update_pointee(tcx, *l, projs, i, ty) {
                    Some(fresh_l) => Some(Ty::OwnRef(fresh_l)),
                    None => None,
                }
            },
            _ => None,
        }
    }

    fn update_pointee(&mut self, tcx: &mut TyCtxt, l: Location, projs: &Vec<Proj>, i: usize, ty: Ty)
        -> (fresh_l: Option<Location>)
        requires
            i < projs.len(),
        ensures
            match fresh_l {
                Some(fresh_l) => old(self)@.update_pointee(old(tcx)@, l, projs@, i as nat, ty@)
                    == Some((final(self)@, final(tcx)@, fresh_l)),
                None => old(self)@.update_pointee(old(tcx)@, l, projs@, i as nat, ty@) is None
                    && final(self)@ == old(self)@,
            },
        decreases projs.len() - i, 0nat,
    {
        let root = match self.lookup_location(&l) {
            Some(held) => tcx.selfify(held, PredPlace::from_var(Var::Location(l))),
            None => return None,
        };
        if !tcx.has_location() {
            return None;
        }
        let fresh_l = tcx.fresh_location();
        let ty = match self.update_ty(tcx, &root, projs, i + 1, ty) {
            Some(ty) => ty,
            None => return None,
        };
        self.heap.insert(fresh_l, ty);
        Some(fresh_l)
    }

    /// The strong update of `place` to `ty`, if the place resolves and `tcx` has the
    /// locations that it takes. Where it does not, the environment is left as it was.
    pub fn try_update(&mut self, tcx: &mut TyCtxt, place: &Place, ty: Ty) -> (ok: bool)
        ensures
            ok ==> old(self)@.update(old(tcx)@, place@, ty@) == Some((final(self)@, final(tcx)@)),
            !ok ==> old(self)@.update(old(tcx)@, place@, ty@) is None && final(self)@ == old(
                self,
            )@,
            final(self)@.grown_from(old(self)@),
            ok && old(self)@.below(old(tcx)@) ==> final(self)@.below(final(tcx)@),
    {
        proof {
            self.lemma_wf();
            if old(self)@.update(old(tcx)@, place@, ty@) is Some {
                let l = self@.lookup_local(place@.base).unwrap();
                let held = self@.lookup_location(l).unwrap();
                let g1 = Counters { location: tcx@.location + 1, ..tcx@ };
                self@.lemma_update_ty_scopes(g1, held.selfify(EnvView::at(l)), place@.projs, 0, ty@);
                if self@.below(tcx@) {
                    self@.lemma_update_below(tcx@, place@, ty@);
                }
                let after = self@.update(tcx@, place@, ty@).unwrap().0;
                assert(after.locals.drop_last() =~= self@.locals.drop_last());
            }
        }
        let l = match self.lookup_local(&place.base) {
            Some(l) => l,
            None => return false,
        };
        let root = match self.lookup_location(&l) {
            Some(held) => tcx.selfify(held, PredPlace::from_var(Var::Location(l))),
            None => return false,
        };
        if !tcx.has_location() {
            return false;
        }
        let fresh_l = tcx.fresh_location();
        let ty = match self.update_ty(tcx, &root, &place.projs, 0, ty) {
            Some(ty) => ty,
            None => return false,
        };
        self.insert_local(place.base, fresh_l);
        self.heap.insert(fresh_l, ty);
        true
    }

    /// The strong update of `place` to `ty`. The place resolves, and `tcx` has the
    /// locations that the update takes.
    pub fn update(&mut self, tcx: &mut TyCtxt, place: &Place, ty: Ty)
        requires
            old(self)@.update(old(tcx)@, place@, ty@) is Some,
        ensures
            old(self)@.update(old(tcx)@, place@, ty@) == Some((final(self)@, final(tcx)@)),
            old(self)@.below(old(tcx)@) ==> final(self)@.below(final(tcx)@),
    {
        let ok = self.try_update(tcx, place, ty);
    }

    #[verifier::loop_isolation(false)]
    fn drop_ref(&mut self, tcx: &mut TyCtxt, region: &Region, l: &Location, vars: &Vec<Var>) -> (r:
        Option<Vec<Constraint>>)
        ensures
            match r {
                Some(r) => old(self)@.drop_ref(old(tcx)@, region@, *l, vars@) == Some(
                    (final(self)@, final(tcx)@, constraints_view(r@)),
                ),
                None => old(self)@.drop_ref(old(tcx)@, region@, *l, vars@) is None,
            },
            final(self)@.grown_from(old(self)@),
    {
        let mut constraints: Vec<Constraint> = Vec::new();
        assert(constraints_view(constraints@) =~= Seq::empty());
        let ty = match self.lookup_location(l) {
            Some(ty) => ty.clone(),
            None => return None,
        };
        let none: Vec<Place> = Vec::new();
        assert(crate::ast::places_view(none@) =~= Seq::empty());
        let places = match region {
            Region::Concrete(places) => places,
            _ => &none,
        };
        let ghost ps = crate::ast::places_view(places@);
        if places.len() == 0 {
        } else if places.len() == 1 {
            if !self.try_update(tcx, &places[0], ty) {
                return None;
            }
        } else {
            let ghost env0 = self@;
            let ty_join = match tcx.try_with_kvars(&ty, true, vars) {
                Some(ty_join) => ty_join,
                None => return None,
            };
            let ghost gen1 = tcx@;
            let c = match try_subtyping(&self.heap, &ty, &self.heap, &ty_join) {
                Some(c) => c,
                None => return None,
            };
            constraints.push(c);
            assert(constraints_view(constraints@) =~= seq![c@]);
            let mut i: usize = 0;
            while i < places.len()
                invariant
                    i <= places.len(),
                    self@ == env0,
                    ps == crate::ast::places_view(places@),
                    env0.join_constraints(ps, ty_join@, i as nat, constraints_view(constraints@))
                        == env0.join_constraints(ps, ty_join@, 0, seq![c@]),
                decreases places.len() - i,
            {
                let ci = match self.try_lookup(&places[i]) {
                    Some(t) => match try_subtyping(&self.heap, t, &self.heap, &ty_join) {
                        Some(ci) => ci,
                        None => return None,
                    },
                    None => return None,
                };
                proof {
                    assert(constraints_view(constraints@.push(ci)) =~= constraints_view(
                        constraints@,
                    ).push(ci@));
                }
                constraints.push(ci);
                i += 1;
            }
            let mut i: usize = 0;
            while i < places.len()
                invariant
                    i <= places.len(),
                    ps == crate::ast::places_view(places@),
                    self@.grown_from(old(self)@),
                    self@.update_all(tcx@, ps, ty_join@, i as nat) == env0.update_all(
                        gen1,
                        ps,
                        ty_join@,
                        0,
                    ),
                decreases places.len() - i,
            {
                if !self.try_update(tcx, &places[i], ty_join.clone()) {
                    return None;
                }
                i += 1;
            }
        }
        Some(constraints)
    }

    #[verifier::loop_isolation(false)]
    fn drop_ty(&mut self, tcx: &mut TyCtxt, ty: &Ty, vars: &Vec<Var>) -> (r: Option<Vec<Constraint>>)
        ensures
            match r {
                Some(r) => old(self)@.drop_ty(old(tcx)@, ty@, vars@) == Some(
                    (final(self)@, final(tcx)@, constraints_view(r@)),
                ),
                None => old(self)@.drop_ty(old(tcx)@, ty@, vars@) is None,
            },
            final(self)@.grown_from(old(self)@),
        decreases ty,
    {
        match ty {
            Ty::Ref(BorrowKind::Mut, r, l) => self.drop_ref(tcx, r, l, vars),
            Ty::Tuple(fields) => {
                let ghost fs = fields_view(fields@);
                let ghost env0 = self@;
                let ghost gen0 = tcx@;
                proof {
                    lemma_tuple_view(*fields);
                }
                let mut constraints: Vec<Constraint> = Vec::new();
                assert(constraints_view(constraints@) =~= Seq::empty());
                let mut i: usize = 0;
                while i < fields.len()
                    invariant
                        i <= fields.len(),
                        self@.grown_from(old(self)@),
                        self@.drop_fields(tcx@, fs, vars@, i as nat, constraints_view(constraints@))
                            == env0.drop_fields(gen0, fs, vars@, 0, Seq::empty()),
                    decreases fields.len() - i,
                {
                    let mut cs = match self.drop_ty(tcx, &fields[i].1, vars) {
                        Some(cs) => cs,
                        None => return None,
                    };
                    proof {
                        assert(constraints_view(constraints@ + cs@) =~= constraints_view(
                            constraints@,
                        ) + constraints_view(cs@));
                    }
                    constraints.append(&mut cs);
                    i += 1;
                }
                Some(constraints)
            },
            _ => {
                let constraints: Vec<Constraint> = Vec::new();
                assert(constraints_view(constraints@) =~= Seq::empty());
                Some(constraints)
            },
        }
    }

    /// Drops the local `x`: the borrows in what it holds end, and `x` is bound to
    /// uninitialised memory. Returns what must hold for that to be sound; nothing
    /// where a place or a pointer does not resolve, where a type that must pass for
    /// another is not of its shape, or where `tcx` runs out of identifiers. Then the
    /// environment is put back as it was.
    pub fn try_drop(&mut self, tcx: &mut TyCtxt, x: &Local) -> (c: Option<Constraint>)
        ensures
            match c {
                Some(c) => old(self)@.drop_local(old(tcx)@, *x) == Some(
                    (final(self)@, final(tcx)@, c@),
                ),
                None => old(self)@.drop_local(old(tcx)@, *x) is None && final(self)@ == old(self)@,
            },
            c is Some && old(self)@.below(old(tcx)@) ==> final(self)@.below(final(tcx)@),
    {
        proof {
            if old(self)@.below(old(tcx)@) && old(self)@.drop_local(old(tcx)@, *x) is Some {
                old(self)@.lemma_drop_below(old(tcx)@, *x);
            }
        }
        let l = match self.lookup_local(x) {
            Some(l) => l,
            None => return None,
        };
        let ty = match self.lookup_location(&l) {
            Some(ty) => ty.clone(),
            None => return None,
        };
        let vars = self.vars_in_scope();
        let heap_len = self.heap.len();
        let saved = self.top.clone();
        let dropped = self.drop_ty(tcx, &ty, &vars);
        let size = ty.checked_size();
        match (dropped, size) {
            (Some(constraints), Some(size)) => {
                if tcx.has_location() {
                    let fresh_l = tcx.fresh_location();
                    self.insert_local(*x, fresh_l);
                    self.heap.insert(fresh_l, tcx.mk_uninit(size));
                    proof {
                        lemma_conj_view(constraints);
                    }
                    return Some(Constraint::Conj(constraints));
                }
            },
            _ => {},
        }
        self.heap.truncate(heap_len);
        self.top = saved;
        proof {
            assert(self@.heap =~= old(self)@.heap);
            assert(self@.locals =~= old(self)@.locals) by {
                assert(self@.locals.drop_last() == old(self)@.locals.drop_last());
                assert(self@.locals.last() == old(self)@.locals.last());
                assert(self@.locals =~= self@.locals.drop_last().push(self@.locals.last()));
                assert(old(self)@.locals =~= old(self)@.locals.drop_last().push(
                    old(self)@.locals.last(),
                ));
            }
        }
        None
    }

    /// Drops the local `x`: the borrows in what it holds end, and `x` is bound to
    /// uninitialised memory. Returns what must hold for that to be sound.
    pub fn drop(&mut self, tcx: &mut TyCtxt, x: &Local) -> (c: Constraint)
        requires
            old(self)@.drop_local(old(tcx)@, *x) is Some,
        ensures
            old(self)@.drop_local(old(tcx)@, *x) == Some((final(self)@, final(tcx)@, c@)),
            old(self)@.below(old(tcx)@) ==> final(self)@.below(final(tcx)@),
    {
        match self.try_drop(tcx, x) {
            Some(c) => c,
            None => unreached(),
        }
    }
}

/// Whether `r` is the type that `spec` says was found, or nothing where it says so.
pub open spec fn found(r: Option<&Ty>, spec: Option<TyView>) -> bool {
    match r {
        Some(ty) => spec == Some(ty@),
        None => spec is None,
    }
}

/// What a [`ContEnv`] denotes: the scopes, which give each continuation in them the
/// position of its signature among `tys`.
pub struct ContEnvView {
    pub layers: Seq<Map<usize, usize>>,
    pub tys: Seq<ContTyView>,
}

impl ContEnvView {
    /// The signature of `cont_id`, if the continuation is defined.
    pub open spec fn get_ty(self, cont_id: ContId) -> Option<ContTyView> {
        match lookup(self.layers, cont_id.0) {
            Some(i) => if i < self.tys.len() {
                Some(self.tys[i as int])
            } else {
                None
            },
            None => None,
        }
    }

    /// The environment with `cont_id` defined to have the signature `ty`.
    pub open spec fn define(self, cont_id: ContId, ty: ContTyView) -> ContEnvView {
        ContEnvView {
            layers: define(self.layers, cont_id.0, self.tys.len() as usize),
            tys: self.tys.push(ty),
        }
    }
}

/// The signatures of the continuations in scope.
pub struct ContEnv {
    map: ScopeMap<usize, usize, RandomState>,
    tys: Vec<ContTy>,
}

/// The signatures of a list, each by what it denotes.
pub open spec fn cont_tys_view(tys: Seq<ContTy>) -> Seq<ContTyView> {
    Seq::new(tys.len(), |i: int| tys[i]@)
}

impl View for ContEnv {
    type V = ContEnvView;

    closed spec fn view(&self) -> ContEnvView {
        ContEnvView { layers: scope_layers(self.map), tys: cont_tys_view(self.tys@) }
    }
}

impl ContEnv {
    /// The environment that defines no continuation.
    pub fn new() -> (env: ContEnv)
        ensures
            env@ == (ContEnvView { layers: seq![Map::empty()], tys: Seq::empty() }),
    {
        let env = ContEnv { map: scope_new(), tys: Vec::new() };
        assert(env@.tys =~= Seq::empty());
        env
    }

    fn define(&mut self, cont_id: ContId, ty: ContTy)
        ensures
            final(self)@ == old(self)@.define(cont_id, ty@),
    {
        let at = self.tys.len();
        self.tys.push(ty);
        scope_define(&mut self.map, cont_id.0, at);
        assert(self@.tys =~= old(self)@.tys.push(ty@));
    }

    /// Defines `cont_id` to have the signature `cont_ty`, with a fresh predicate
    /// variable over `vars_in_scope` in place of every refinement that is yet to be
    /// inferred; if `tcx` has the predicate variables that it takes.
    pub fn try_define_cont(
        &mut self,
        tcx: &mut TyCtxt,
        cont_id: ContId,
        cont_ty: &ContTy,
        vars_in_scope: Vec<Var>,
    ) -> (ok: bool)
        ensures
            ok ==> (heap_with_kvars(cont_ty@.heap, old(tcx)@.kvar, vars_in_scope@, 0, Seq::empty())
                matches Some((k, heap)) && final(self)@ == old(self)@.define(
                cont_id,
                ContTyView { heap, locals: cont_ty@.locals, inputs: cont_ty@.inputs },
            ) && final(tcx)@ == (Counters { kvar: k, ..old(tcx)@ })),
            !ok ==> heap_with_kvars(cont_ty@.heap, old(tcx)@.kvar, vars_in_scope@, 0, Seq::empty())
                is None && final(self)@ == old(self)@,
    {
        match TypeLowerer::new(vars_in_scope).try_lower_cont_ty(tcx, cont_ty) {
            Some(ty) => {
                self.define(cont_id, ty);
                true
            },
            None => false,
        }
    }

    /// Defines `cont_id` to have the signature `cont_ty`, with a fresh predicate
    /// variable over `vars_in_scope` in place of every refinement that is yet to be
    /// inferred.
    pub fn define_cont(
        &mut self,
        tcx: &mut TyCtxt,
        cont_id: ContId,
        cont_ty: &ContTy,
        vars_in_scope: Vec<Var>,
    )
        requires
            heap_with_kvars(cont_ty@.heap, old(tcx)@.kvar, vars_in_scope@, 0, Seq::empty())
                is Some,
        ensures
            heap_with_kvars(cont_ty@.heap, old(tcx)@.kvar, vars_in_scope@, 0, Seq::empty())
                matches Some((k, heap)) && final(self)@ == old(self)@.define(
                cont_id,
                ContTyView { heap, locals: cont_ty@.locals, inputs: cont_ty@.inputs },
            ) && final(tcx)@ == (Counters { kvar: k, ..old(tcx)@ }),
    {
        let ok = self.try_define_cont(tcx, cont_id, cont_ty, vars_in_scope);
    }

    /// Defines `cont_id` as the return continuation of a function of type `fn_ty`: it
    /// requires the output heap of the function, lowered as for
    /// [`define_cont`](ContEnv::define_cont), binds no local, and takes the output
    /// location as its input; if `tcx` has the predicate variables that it takes.
    pub fn try_define_ret_cont(
        &mut self,
        tcx: &mut TyCtxt,
        cont_id: ContId,
        fn_ty: &FnDecl,
        vars_in_scope: Vec<Var>,
    ) -> (ok: bool)
        ensures
            ok ==> (heap_with_kvars(fn_ty@.out_heap, old(tcx)@.kvar, vars_in_scope@, 0, Seq::empty())
                matches Some((k, heap)) && final(self)@ == old(self)@.define(
                cont_id,
                ContTyView { heap, locals: Seq::empty(), inputs: seq![fn_ty@.output] },
            ) && final(tcx)@ == (Counters { kvar: k, ..old(tcx)@ })),
            !ok ==> heap_with_kvars(
                fn_ty@.out_heap,
                old(tcx)@.kvar,
                vars_in_scope@,
                0,
                Seq::empty(),
            ) is None && final(self)@ == old(self)@,
    {
        match TypeLowerer::new(vars_in_scope).try_lower_heap(tcx, &fn_ty.out_heap) {
            Some(heap) => {
                let mut inputs: Vec<Location> = Vec::new();
                inputs.push(fn_ty.output);
                assert(inputs@ =~= seq![fn_ty@.output]);
                self.define(cont_id, ContTy { heap, locals: Vec::new(), inputs });
                true
            },
            None => false,
        }
    }

    /// Defines `cont_id` as the return continuation of a function of type `fn_ty`.
    pub fn define_ret_cont(
        &mut self,
        tcx: &mut TyCtxt,
        cont_id: ContId,
        fn_ty: &FnDecl,
        vars_in_scope: Vec<Var>,
    )
        requires
            heap_with_kvars(fn_ty@.out_heap, old(tcx)@.kvar, vars_in_scope@, 0, Seq::empty())
                is Some,
        ensures
            heap_with_kvars(fn_ty@.out_heap, old(tcx)@.kvar, vars_in_scope@, 0, Seq::empty())
                matches Some((k, heap)) && final(self)@ == old(self)@.define(
                cont_id,
                ContTyView { heap, locals: Seq::empty(), inputs: seq![fn_ty@.output] },
            ) && final(tcx)@ == (Counters { kvar: k, ..old(tcx)@ }),
    {
        let ok = self.try_define_ret_cont(tcx, cont_id, fn_ty, vars_in_scope);
    }

    /// The signature of `cont_id`, if the continuation is defined.
    pub fn get_ty(&self, cont_id: &ContId) -> (ty: Option<&ContTy>)
        ensures
            match ty {
                Some(ty) => self@.get_ty(*cont_id) == Some(ty@),
                None => self@.get_ty(*cont_id) is None,
            },
    {
        match scope_get(&self.map, cont_id.0) {
            Some(i) => {
                if i < self.tys.len() {
                    Some(&self.tys[i])
                } else {
                    None
                }
            },
            None => None,
        }
    }

    /// The signature of `index`, which is defined.
    pub fn index(&self, index: &ContId) -> (ty: &ContTy)
        requires
            self@.get_ty(*index) is Some,
        ensures
            self@.get_ty(*index) == Some(ty@),
    {
        match self.get_ty(index) {
            Some(ty) => ty,
            None => unreached(),
        }
    }
}

} // verus!
