//! What renaming keeps and what it guarantees: the shape of what it renames, and that
//! no two bindings get the same identifier.

use crate::ast::pred::{PredView, Var};
use crate::ast::{
    ContDefView, ContTyView, FnBodyView, FnDeclView, FnDefView, OperandView, PlaceView,
    RefineView, RegionView, RvalueView, StatementKindView, StatementView, TyView,
};
use crate::freshen::{pop, push, FreshState, Scopes};
use crate::names::{ContId, Field, FnId, Local, Location, UniversalRegion};
use crate::scope::define;
use crate::shape::{
    body_shape, cont_def_shape, cont_ty_shape, fn_decl_shape, fn_def_shape, heap_shape,
    operand_shape, place_shape, places_shape, pred_shape, program_shape, refine_shape,
    region_shape, rvalue_shape, statement_shape, ty_shape, var_shape, vars_shape,
};
use crate::ty::Counters;
use vstd::prelude::*;

verus! {

/// Every binding of `layers` is to an identifier below `n`.
pub open spec fn layers_below(layers: Seq<Map<usize, usize>>, n: nat) -> bool {
    forall|i: int, k: usize|
        0 <= i < layers.len() && #[trigger] layers[i].contains_key(k) ==> layers[i][k] < n
}

/// No two bindings of `layers` are to the same identifier.
pub open spec fn layers_distinct(layers: Seq<Map<usize, usize>>) -> bool {
    forall|i1: int, k1: usize, i2: int, k2: usize|
        0 <= i1 < layers.len() && 0 <= i2 < layers.len() && #[trigger] layers[i1].contains_key(k1)
            && #[trigger] layers[i2].contains_key(k2) && (i1 != i2 || k1 != k2) ==> layers[i1][k1]
            != layers[i2][k2]
}

/// The scopes are in order: there is a scope to bind in, every binding is to an
/// identifier below `n`, and no two are to the same.
pub open spec fn layers_good(layers: Seq<Map<usize, usize>>, n: nat) -> bool {
    layers.len() >= 1 && layers_below(layers, n) && layers_distinct(layers)
}

/// Every binding of `m` is to an identifier below `n`, and no two are to the same.
pub open spec fn map_good(m: Map<usize, usize>, n: nat) -> bool {
    &&& forall|k: usize| #[trigger] m.contains_key(k) ==> m[k] < n
    &&& forall|k1: usize, k2: usize|
        #[trigger] m.contains_key(k1) && #[trigger] m.contains_key(k2) && k1 != k2 ==> m[k1]
            != m[k2]
}

impl Scopes {
    /// No two bindings of a family are to the same identifier, and every binding is
    /// to an identifier that the context with the counters `gen` has handed out.
    pub open spec fn good(self, gen: Counters) -> bool {
        &&& layers_good(self.conts, gen.cont)
        &&& layers_good(self.locals, gen.local)
        &&& layers_good(self.locations, gen.location)
        &&& layers_good(self.fields, gen.field)
        &&& map_good(self.regions, gen.region)
        &&& map_good(self.fns, gen.func)
    }
}

impl FreshState {
    /// The scopes are in order for the counters.
    pub open spec fn good(self) -> bool {
        self.scopes.good(self.gen)
    }

    /// What every part of the pass keeps: the scopes stay in order, the counters do
    /// not go down, and no function is bound.
    pub open spec fn kept(self, after: FreshState) -> bool {
        &&& after.good()
        &&& self.gen.le(after.gen)
        &&& after.scopes.fns == self.scopes.fns
        &&& after.gen.func == self.gen.func
    }

    /// What a part of the pass leaves of the scopes that nest: those of the families
    /// that are named may have got bindings in their innermost scope, and are as
    /// before below it; those of the other families are as before.
    pub open spec fn touches(
        self,
        after: FreshState,
        conts: bool,
        locals: bool,
        locations: bool,
        fields: bool,
    ) -> bool {
        &&& below_top(self.scopes.conts, after.scopes.conts, conts)
        &&& below_top(self.scopes.locals, after.scopes.locals, locals)
        &&& below_top(self.scopes.locations, after.scopes.locations, locations)
        &&& below_top(self.scopes.fields, after.scopes.fields, fields)
    }
}

/// Whether `after` is `before`; or, where `top` holds, has as many scopes as `before`
/// and is as `before` below the innermost.
pub open spec fn below_top(
    before: Seq<Map<usize, usize>>,
    after: Seq<Map<usize, usize>>,
    top: bool,
) -> bool {
    if top {
        after.len() == before.len() && forall|i: int|
            0 <= i < before.len() - 1 ==> before[i] == after[i]
    } else {
        after == before
    }
}

/// A scope that is opened, bound in and closed leaves the scopes as they were.
pub proof fn lemma_pop_restores(before: Seq<Map<usize, usize>>, inner: Seq<Map<usize, usize>>)
    requires
        before.len() >= 1,
        below_top(push(before), inner, true),
    ensures
        pop(inner) == before,
{
    assert(pop(inner) =~= before);
}

/// Binding a name to the next identifier keeps the scopes in order.
pub proof fn lemma_define_good(layers: Seq<Map<usize, usize>>, k: usize, n: nat)
    requires
        layers_good(layers, n),
        n < usize::MAX,
    ensures
        layers_good(define(layers, k, n as usize), n + 1),
{
    let after = define(layers, k, n as usize);
    let top = layers.len() - 1;
    assert forall|i: int, k1: usize|
        0 <= i < after.len() && #[trigger] after[i].contains_key(k1) implies after[i][k1] < n
        + 1 by {
        if i == top && k1 == k {
        } else {
            assert(layers[i].contains_key(k1));
        }
    }
    assert forall|i1: int, k1: usize, i2: int, k2: usize|
        0 <= i1 < after.len() && 0 <= i2 < after.len() && #[trigger] after[i1].contains_key(k1)
            && #[trigger] after[i2].contains_key(k2) && (i1 != i2 || k1 != k2) implies after[i1][k1]
        != after[i2][k2] by {
        if i1 == top && k1 == k {
            assert(layers[i2].contains_key(k2));
        } else if i2 == top && k2 == k {
            assert(layers[i1].contains_key(k1));
        } else {
            assert(layers[i1].contains_key(k1));
            assert(layers[i2].contains_key(k2));
        }
    }
}

/// Opening a scope keeps the scopes in order.
pub proof fn lemma_push_good(layers: Seq<Map<usize, usize>>, n: nat)
    requires
        layers_good(layers, n),
    ensures
        layers_good(push(layers), n),
{
    let after = push(layers);
    assert forall|i: int, k: usize|
        0 <= i < after.len() && #[trigger] after[i].contains_key(k) implies after[i][k] < n by {
        assert(layers[i].contains_key(k));
    }
    assert forall|i1: int, k1: usize, i2: int, k2: usize|
        0 <= i1 < after.len() && 0 <= i2 < after.len() && #[trigger] after[i1].contains_key(k1)
            && #[trigger] after[i2].contains_key(k2) && (i1 != i2 || k1 != k2) implies after[i1][k1]
        != after[i2][k2] by {
        assert(layers[i1].contains_key(k1));
        assert(layers[i2].contains_key(k2));
    }
}

/// Closing a scope keeps the scopes in order.
pub proof fn lemma_pop_good(layers: Seq<Map<usize, usize>>, n: nat)
    requires
        layers_good(layers, n),
    ensures
        layers_good(pop(layers), n),
{
    let after = pop(layers);
    assert forall|i: int, k: usize|
        0 <= i < after.len() && #[trigger] after[i].contains_key(k) implies after[i][k] < n by {
        assert(layers[i].contains_key(k));
    }
    assert forall|i1: int, k1: usize, i2: int, k2: usize|
        0 <= i1 < after.len() && 0 <= i2 < after.len() && #[trigger] after[i1].contains_key(k1)
            && #[trigger] after[i2].contains_key(k2) && (i1 != i2 || k1 != k2) implies after[i1][k1]
        != after[i2][k2] by {
        assert(layers[i1].contains_key(k1));
        assert(layers[i2].contains_key(k2));
    }
}

// Renaming keeps the shape of what binds nothing: only identifiers change.

impl Scopes {
    pub proof fn lemma_var(self, v: Var)
        ensures
            self.var(v) matches Some(r) ==> var_shape(v, r),
    {
    }

    pub proof fn lemma_vars(self, vs: Seq<Var>)
        ensures
            self.vars(vs) matches Some(rs) ==> vars_shape(vs, rs),
    {
    }

    pub proof fn lemma_pred(self, p: PredView)
        ensures
            self.pred(p) matches Some(r) ==> pred_shape(p, r),
        decreases p,
    {
        match p {
            PredView::BinaryOp(op, lhs, rhs) => {
                self.lemma_pred(*lhs);
                self.lemma_pred(*rhs);
            },
            PredView::UnaryOp(op, operand) => {
                self.lemma_pred(*operand);
            },
            PredView::Kvar(k, vars) => {
                self.lemma_vars(vars);
            },
            _ => {},
        }
    }

    pub proof fn lemma_refine(self, r: RefineView)
        ensures
            self.refine(r) matches Some(s) ==> refine_shape(r, s),
    {
        match r {
            RefineView::Pred(p) => {
                self.lemma_pred(p);
            },
            _ => {},
        }
    }

    pub proof fn lemma_place(self, p: PlaceView)
        ensures
            self.place(p) matches Some(r) ==> place_shape(p, r),
    {
    }

    pub proof fn lemma_places(self, ps: Seq<PlaceView>)
        ensures
            self.places(ps) matches Some(rs) ==> places_shape(ps, rs),
    {
    }

    pub proof fn lemma_region(self, r: RegionView)
        ensures
            self.region(r) matches Some(s) ==> region_shape(r, s),
    {
        match r {
            RegionView::Concrete(places) => {
                self.lemma_places(places);
            },
            _ => {},
        }
    }

    pub proof fn lemma_operand(self, op: OperandView)
        ensures
            self.operand(op) matches Some(r) ==> operand_shape(op, r),
    {
    }

    pub proof fn lemma_rvalue(self, rvalue: RvalueView)
        ensures
            self.rvalue(rvalue) matches Some(r) ==> rvalue_shape(rvalue, r),
    {
    }
}

impl FreshState {
    pub proof fn lemma_def_cont(self, k: ContId)
        requires
            self.good(),
            self.def_cont(k) is Some,
        ensures
            self.kept(self.def_cont(k).unwrap()),
            self.touches(self.def_cont(k).unwrap(), true, false, false, false),
    {
        lemma_define_good(self.scopes.conts, k.0, self.gen.cont);
    }

    pub proof fn lemma_def_local(self, x: Local)
        requires
            self.good(),
            self.def_local(x) is Some,
        ensures
            self.kept(self.def_local(x).unwrap()),
            self.touches(self.def_local(x).unwrap(), false, true, false, false),
    {
        lemma_define_good(self.scopes.locals, x.0, self.gen.local);
    }

    pub proof fn lemma_def_location(self, l: Location)
        requires
            self.good(),
            self.def_location(l) is Some,
        ensures
            self.kept(self.def_location(l).unwrap()),
            self.touches(self.def_location(l).unwrap(), false, false, true, false),
    {
        lemma_define_good(self.scopes.locations, l.0, self.gen.location);
    }

    pub proof fn lemma_def_field(self, f: Field)
        requires
            self.good(),
            self.def_field(f) is Some,
        ensures
            self.kept(self.def_field(f).unwrap()),
            self.touches(self.def_field(f).unwrap(), false, false, false, true),
    {
        lemma_define_good(self.scopes.fields, f.0, self.gen.field);
    }

    pub proof fn lemma_def_region(self, r: UniversalRegion)
        requires
            self.good(),
            self.def_region(r) is Some,
        ensures
            self.kept(self.def_region(r).unwrap()),
            self.touches(self.def_region(r).unwrap(), false, false, false, false),
    {
        let after = self.def_region(r).unwrap().scopes.regions;
        assert forall|k: usize| #[trigger] after.contains_key(k) implies after[k] < self.gen.region
            + 1 by {
            if k != r.0 {
                assert(self.scopes.regions.contains_key(k));
            }
        }
        assert forall|k1: usize, k2: usize|
            #[trigger] after.contains_key(k1) && #[trigger] after.contains_key(k2) && k1
                != k2 implies after[k1] != after[k2] by {
            if k1 != r.0 {
                assert(self.scopes.regions.contains_key(k1));
            }
            if k2 != r.0 {
                assert(self.scopes.regions.contains_key(k2));
            }
        }
    }

    /// A reference resolves to its binder: once a local is bound, it stands for the
    /// identifier that it was bound to, and every other local for what it stood for.
    pub proof fn lemma_local_resolves(self, x: Local, y: Local)
        requires
            self.good(),
            self.def_local(x) is Some,
        ensures
            self.def_local(x).unwrap().scopes.local(x) == Some(Local(self.gen.local as usize)),
            y != x ==> self.def_local(x).unwrap().scopes.local(y) == self.scopes.local(y),
    {
        crate::scope::lemma_lookup_define(self.scopes.locals, x.0, self.gen.local as usize, y.0);
    }

    /// A reference resolves to its binder: once a location is bound, it stands for the
    /// identifier that it was bound to, and every other location for what it stood for.
    pub proof fn lemma_location_resolves(self, l: Location, m: Location)
        requires
            self.good(),
            self.def_location(l) is Some,
        ensures
            self.def_location(l).unwrap().scopes.location(l) == Some(
                Location(self.gen.location as usize),
            ),
            m != l ==> self.def_location(l).unwrap().scopes.location(m) == self.scopes.location(m),
    {
        crate::scope::lemma_lookup_define(
            self.scopes.locations,
            l.0,
            self.gen.location as usize,
            m.0,
        );
    }

    /// A reference resolves to its binder: once a field is bound, it stands for the
    /// identifier that it was bound to, and every other field for what it stood for.
    pub proof fn lemma_field_resolves(self, f: Field, g: Field)
        requires
            self.good(),
            self.def_field(f) is Some,
        ensures
            self.def_field(f).unwrap().scopes.field(f) == Some(Field(self.gen.field as usize)),
            g != f ==> self.def_field(f).unwrap().scopes.field(g) == self.scopes.field(g),
    {
        crate::scope::lemma_lookup_define(self.scopes.fields, f.0, self.gen.field as usize, g.0);
    }

    /// A reference resolves to its binder: once a continuation is bound, it stands
    /// for the identifier that it was bound to, and every other for what it stood for.
    pub proof fn lemma_cont_resolves(self, k: ContId, j: ContId)
        requires
            self.good(),
            self.def_cont(k) is Some,
        ensures
            self.def_cont(k).unwrap().scopes.cont_id(k) == Some(ContId(self.gen.cont as usize)),
            j != k ==> self.def_cont(k).unwrap().scopes.cont_id(j) == self.scopes.cont_id(j),
    {
        crate::scope::lemma_lookup_define(self.scopes.conts, k.0, self.gen.cont as usize, j.0);
    }

    pub proof fn lemma_push_pop(self)
        requires
            self.good(),
        ensures
            self.kept(self.push_conts()),
            self.kept(self.pop_conts()),
            self.kept(self.push_locals()),
            self.kept(self.pop_locals()),
            self.kept(self.push_locations()),
            self.kept(self.pop_locations()),
            self.kept(self.push_fields()),
            self.kept(self.pop_fields()),
    {
        lemma_push_good(self.scopes.conts, self.gen.cont);
        lemma_pop_good(self.scopes.conts, self.gen.cont);
        lemma_push_good(self.scopes.locals, self.gen.local);
        lemma_pop_good(self.scopes.locals, self.gen.local);
        lemma_push_good(self.scopes.locations, self.gen.location);
        lemma_pop_good(self.scopes.locations, self.gen.location);
        lemma_push_good(self.scopes.fields, self.gen.field);
        lemma_pop_good(self.scopes.fields, self.gen.field);
    }

    pub proof fn lemma_def_locals(self, xs: Seq<Local>, i: nat)
        requires
            self.good(),
            self.def_locals(xs, i) is Some,
        ensures
            self.kept(self.def_locals(xs, i).unwrap()),
            self.touches(self.def_locals(xs, i).unwrap(), false, true, false, false),
        decreases xs.len() - i,
    {
        if i < xs.len() {
            self.lemma_def_local(xs[i as int]);
            self.def_local(xs[i as int]).unwrap().lemma_def_locals(xs, i + 1);
        }
    }

    pub proof fn lemma_def_bound_locals(self, xs: Seq<(Local, Location)>, i: nat)
        requires
            self.good(),
            self.def_bound_locals(xs, i) is Some,
        ensures
            self.kept(self.def_bound_locals(xs, i).unwrap()),
            self.touches(self.def_bound_locals(xs, i).unwrap(), false, true, false, false),
        decreases xs.len() - i,
    {
        if i < xs.len() {
            self.lemma_def_local(xs[i as int].0);
            self.def_local(xs[i as int].0).unwrap().lemma_def_bound_locals(xs, i + 1);
        }
    }

    pub proof fn lemma_def_locations(self, heap: Seq<(Location, TyView)>, i: nat)
        requires
            self.good(),
            self.def_locations(heap, i) is Some,
        ensures
            self.kept(self.def_locations(heap, i).unwrap()),
            self.touches(self.def_locations(heap, i).unwrap(), false, false, true, false),
        decreases heap.len() - i,
    {
        if i < heap.len() {
            self.lemma_def_location(heap[i as int].0);
            self.def_location(heap[i as int].0).unwrap().lemma_def_locations(heap, i + 1);
        }
    }

    pub proof fn lemma_def_fields(self, fields: Seq<(Field, TyView)>, i: nat)
        requires
            self.good(),
            self.def_fields(fields, i) is Some,
        ensures
            self.kept(self.def_fields(fields, i).unwrap()),
            self.touches(self.def_fields(fields, i).unwrap(), false, false, false, true),
        decreases fields.len() - i,
    {
        if i < fields.len() {
            self.lemma_def_field(fields[i as int].0);
            self.def_field(fields[i as int].0).unwrap().lemma_def_fields(fields, i + 1);
        }
    }

    pub proof fn lemma_def_regions(self, rs: Seq<UniversalRegion>, i: nat)
        requires
            self.good(),
            self.def_regions(rs, i) is Some,
        ensures
            self.kept(self.def_regions(rs, i).unwrap()),
            self.touches(self.def_regions(rs, i).unwrap(), false, false, false, false),
        decreases rs.len() - i,
    {
        if i < rs.len() {
            self.lemma_def_region(rs[i as int]);
            self.def_region(rs[i as int]).unwrap().lemma_def_regions(rs, i + 1);
        }
    }

    pub proof fn lemma_def_conts<I>(self, defs: Seq<ContDefView<I>>, i: nat)
        requires
            self.good(),
            self.def_conts(defs, i) is Some,
        ensures
            self.kept(self.def_conts(defs, i).unwrap()),
            self.touches(self.def_conts(defs, i).unwrap(), true, false, false, false),
        decreases defs.len() - i,
    {
        if i < defs.len() {
            self.lemma_def_cont(defs[i as int].name);
            self.def_cont(defs[i as int].name).unwrap().lemma_def_conts(defs, i + 1);
        }
    }

    /// Renaming a type keeps its shape.
    pub proof fn lemma_ty(self, t: TyView)
        requires
            self.good(),
            self.ty(t) is Some,
        ensures
            self.kept(self.ty(t).unwrap().0),
            self.touches(self.ty(t).unwrap().0, false, false, false, false),
            ty_shape(t, self.ty(t).unwrap().1),
        decreases t, 0nat,
    {
        match t {
            TyView::Ref(kind, region, l) => {
                self.scopes.lemma_region(region);
            },
            TyView::Tuple(fields) => {
                self.lemma_push_pop();
                let st = self.push_fields();
                st.lemma_def_fields(fields, 0);
                let st = st.def_fields(fields, 0).unwrap();
                st.lemma_tuple(fields, 0, Seq::empty());
                let st = st.tuple(fields, 0, Seq::empty()).unwrap().0;
                st.lemma_push_pop();
                lemma_pop_restores(self.scopes.fields, st.scopes.fields);
            },
            TyView::Refine(bty, refine) => {
                self.scopes.lemma_refine(refine);
            },
            _ => {},
        }
    }

    /// Renaming the fields of a tuple keeps their number and the shape of each.
    pub proof fn lemma_tuple(self, fields: Seq<(Field, TyView)>, i: nat, done: Seq<(Field, TyView)>)
        requires
            self.good(),
            self.tuple(fields, i, done) is Some,
            i <= fields.len(),
            done.len() == i,
            forall|j: int| 0 <= j < i ==> ty_shape((#[trigger] fields[j]).1, done[j].1),
        ensures
            self.kept(self.tuple(fields, i, done).unwrap().0),
            self.touches(self.tuple(fields, i, done).unwrap().0, false, false, false, false),
            self.tuple(fields, i, done).unwrap().1.len() == fields.len(),
            forall|j: int|
                0 <= j < fields.len() ==> ty_shape(
                    (#[trigger] fields[j]).1,
                    self.tuple(fields, i, done).unwrap().1[j].1,
                ),
        decreases fields, fields.len() - i,
    {
        if i < fields.len() {
            let f = self.scopes.field(fields[i as int].0).unwrap();
            self.lemma_ty(fields[i as int].1);
            let (st, t) = self.ty(fields[i as int].1).unwrap();
            st.lemma_tuple(fields, i + 1, done.push((f, t)));
        }
    }

    /// Renaming a heap keeps the number of its entries and the shape of each type.
    pub proof fn lemma_heap(self, heap: Seq<(Location, TyView)>, i: nat, done: Seq<(Location, TyView)>)
        requires
            self.good(),
            self.heap(heap, i, done) is Some,
            i <= heap.len(),
            done.len() == i,
            forall|j: int| 0 <= j < i ==> ty_shape((#[trigger] heap[j]).1, done[j].1),
        ensures
            self.kept(self.heap(heap, i, done).unwrap().0),
            self.touches(self.heap(heap, i, done).unwrap().0, false, false, false, false),
            heap_shape(heap, self.heap(heap, i, done).unwrap().1),
        decreases heap.len() - i,
    {
        if i < heap.len() {
            let l = self.scopes.location(heap[i as int].0).unwrap();
            self.lemma_ty(heap[i as int].1);
            let (st, t) = self.ty(heap[i as int].1).unwrap();
            st.lemma_heap(heap, i + 1, done.push((l, t)));
        }
    }

    /// Renaming the signature of a continuation keeps its shape.
    pub proof fn lemma_cont_ty(self, ty: ContTyView)
        requires
            self.good(),
            self.cont_ty(ty) is Some,
        ensures
            self.kept(self.cont_ty(ty).unwrap().0),
            self.touches(self.cont_ty(ty).unwrap().0, false, false, false, false),
            cont_ty_shape(ty, self.cont_ty(ty).unwrap().1),
    {
        self.lemma_heap(ty.heap, 0, Seq::empty());
    }

    /// Renaming the signature of a function keeps its shape.
    pub proof fn lemma_fn_ty(self, ty: FnDeclView)
        requires
            self.good(),
            self.fn_ty(ty) is Some,
        ensures
            self.kept(self.fn_ty(ty).unwrap().0),
            self.touches(self.fn_ty(ty).unwrap().0, false, false, false, false),
            fn_decl_shape(ty, self.fn_ty(ty).unwrap().1),
    {
        self.lemma_push_pop();
        let st = self.push_locals();
        st.lemma_def_bound_locals(ty.inputs, 0);
        let st = st.def_bound_locals(ty.inputs, 0).unwrap();
        st.lemma_heap(ty.in_heap, 0, Seq::empty());
        let st = st.heap(ty.in_heap, 0, Seq::empty()).unwrap().0;
        st.lemma_push_pop();
        let st = st.push_locations();
        st.lemma_def_locations(ty.out_heap, 0);
        let st = st.def_locations(ty.out_heap, 0).unwrap();
        st.lemma_heap(ty.out_heap, 0, Seq::empty());
        let st = st.heap(ty.out_heap, 0, Seq::empty()).unwrap().0;
        st.lemma_push_pop();
        st.pop_locations().lemma_push_pop();
        lemma_pop_restores(self.scopes.locations, st.scopes.locations);
        lemma_pop_restores(self.scopes.locals, st.scopes.locals);
    }

    /// Renaming a statement keeps its shape.
    pub proof fn lemma_statement<I>(self, s: StatementView<I>)
        requires
            self.good(),
            self.statement(s) is Some,
        ensures
            self.kept(self.statement(s).unwrap().0),
            self.touches(self.statement(s).unwrap().0, false, true, false, false),
            statement_shape(s, self.statement(s).unwrap().1),
    {
        match s.kind {
            StatementKindView::Let(x, layout) => {
                self.lemma_def_local(x);
            },
            StatementKindView::Assign(p, rvalue) => {
                self.scopes.lemma_rvalue(rvalue);
            },
            _ => {},
        }
    }

    /// Renaming a body keeps its shape.
    pub proof fn lemma_body<I>(self, b: FnBodyView<I>)
        requires
            self.good(),
            self.body(b) is Some,
        ensures
            self.kept(self.body(b).unwrap().0),
            self.touches(self.body(b).unwrap().0, false, false, false, false),
            body_shape(b, self.body(b).unwrap().1),
        decreases b, 0nat,
    {
        match b {
            FnBodyView::LetCont(defs, rest) => {
                self.lemma_push_pop();
                let st = self.push_conts();
                st.lemma_def_conts(defs, 0);
                let st = st.def_conts(defs, 0).unwrap();
                st.lemma_cont_defs(defs, 0, Seq::empty());
                let st = st.cont_defs(defs, 0, Seq::empty()).unwrap().0;
                st.lemma_body(*rest);
                let st = st.body(*rest).unwrap().0;
                st.lemma_push_pop();
                lemma_pop_restores(self.scopes.conts, st.scopes.conts);
            },
            FnBodyView::Ite { discr, then, else_ } => {
                self.lemma_body(*then);
                let st = self.body(*then).unwrap().0;
                st.lemma_body(*else_);
            },
            FnBodyView::Sequence(statement, rest) => {
                self.lemma_push_pop();
                let st = self.push_locals();
                st.lemma_statement(statement);
                let st = st.statement(statement).unwrap().0;
                st.lemma_body(*rest);
                let st = st.body(*rest).unwrap().0;
                st.lemma_push_pop();
                lemma_pop_restores(self.scopes.locals, st.scopes.locals);
            },
            _ => {},
        }
    }

    /// Renaming a group of continuations keeps their number and the shape of each.
    pub proof fn lemma_cont_defs<I>(self, defs: Seq<ContDefView<I>>, i: nat, done: Seq<ContDefView<I>>)
        requires
            self.good(),
            self.cont_defs(defs, i, done) is Some,
            i <= defs.len(),
            done.len() == i,
            forall|j: int| 0 <= j < i ==> cont_def_shape(#[trigger] defs[j], done[j]),
        ensures
            self.kept(self.cont_defs(defs, i, done).unwrap().0),
            self.touches(self.cont_defs(defs, i, done).unwrap().0, false, false, false, false),
            self.cont_defs(defs, i, done).unwrap().1.len() == defs.len(),
            forall|j: int|
                0 <= j < defs.len() ==> cont_def_shape(
                    #[trigger] defs[j],
                    self.cont_defs(defs, i, done).unwrap().1[j],
                ),
        decreases defs, defs.len() - i,
    {
        if i < defs.len() {
            self.lemma_cont_def(defs[i as int]);
            let (st, d) = self.cont_def(defs[i as int]).unwrap();
            st.lemma_cont_defs(defs, i + 1, done.push(d));
        }
    }

    /// Renaming a continuation keeps its shape.
    pub proof fn lemma_cont_def<I>(self, def: ContDefView<I>)
        requires
            self.good(),
            self.cont_def(def) is Some,
        ensures
            self.kept(self.cont_def(def).unwrap().0),
            self.touches(self.cont_def(def).unwrap().0, false, false, false, false),
            cont_def_shape(def, self.cont_def(def).unwrap().1),
        decreases def, 0nat,
    {
        self.lemma_push_pop();
        let st = self.push_locals();
        st.lemma_def_locals(def.params, 0);
        let st = st.def_locals(def.params, 0).unwrap();
        st.lemma_push_pop();
        let st = st.push_locations();
        st.lemma_def_locations(def.ty.heap, 0);
        let st = st.def_locations(def.ty.heap, 0).unwrap();
        st.lemma_cont_ty(def.ty);
        let st = st.cont_ty(def.ty).unwrap().0;
        st.lemma_body(*def.body);
        let st = st.body(*def.body).unwrap().0;
        st.lemma_push_pop();
        st.pop_locations().lemma_push_pop();
        lemma_pop_restores(self.scopes.locations, st.scopes.locations);
        lemma_pop_restores(self.scopes.locals, st.scopes.locals);
    }

    /// Renaming a function keeps its shape and the scopes in order.
    pub proof fn lemma_fn_def<I>(self, def: FnDefView<I>)
        requires
            self.good(),
            self.fn_def(def) is Some,
        ensures
            self.kept(self.fn_def(def).unwrap().0),
            self.touches(self.fn_def(def).unwrap().0, false, false, false, false),
            fn_def_shape(def, self.fn_def(def).unwrap().1),
    {
        self.lemma_push_pop();
        self.push_conts().lemma_push_pop();
        self.push_conts().push_locals().lemma_push_pop();
        let st = self.push_conts().push_locals().push_locations();
        st.lemma_def_cont(def.ret);
        let st = st.def_cont(def.ret).unwrap();
        st.lemma_def_locals(def.params, 0);
        let st = st.def_locals(def.params, 0).unwrap();
        st.lemma_def_locations(def.ty.in_heap, 0);
        let st = st.def_locations(def.ty.in_heap, 0).unwrap();
        st.lemma_def_regions(def.ty.regions, 0);
        let st = st.def_regions(def.ty.regions, 0).unwrap();
        st.lemma_body(def.body);
        let st = st.body(def.body).unwrap().0;
        st.lemma_fn_ty(def.ty);
        let st = st.fn_ty(def.ty).unwrap().0;
        st.lemma_push_pop();
        st.pop_locations().lemma_push_pop();
        st.pop_locations().pop_locals().lemma_push_pop();
        lemma_pop_restores(self.scopes.locations, st.scopes.locations);
        lemma_pop_restores(self.scopes.locals, st.scopes.locals);
        lemma_pop_restores(self.scopes.conts, st.scopes.conts);
    }

    /// No binder of a function is in scope after it: a continuation, a local or a
    /// location stands after the function for what it stood for before it, and for
    /// nothing if it stood for nothing.
    pub proof fn lemma_fn_def_closes_its_scopes<I>(
        self,
        def: FnDefView<I>,
        k: ContId,
        x: Local,
        l: Location,
    )
        requires
            self.good(),
            self.fn_def(def) is Some,
        ensures
            self.fn_def(def).unwrap().0.scopes.cont_id(k) == self.scopes.cont_id(k),
            self.fn_def(def).unwrap().0.scopes.local(x) == self.scopes.local(x),
            self.fn_def(def).unwrap().0.scopes.location(l) == self.scopes.location(l),
    {
        self.lemma_fn_def(def);
    }

    /// Before anything is bound, the scopes are in order.
    pub proof fn lemma_initial_good(gen: Counters)
        ensures
            FreshState::initial(gen).good(),
    {
    }

    pub proof fn lemma_def_fn(self, f: FnId)
        requires
            self.good(),
            self.def_fn(f) is Some,
        ensures
            self.def_fn(f).unwrap().good(),
            self.def_fn(f).unwrap().scopes.fns == self.scopes.fns.insert(f.0, self.gen.func as usize),
            self.def_fn(f).unwrap().gen.func == self.gen.func + 1,
    {
        let after = self.def_fn(f).unwrap().scopes.fns;
        assert forall|k: usize| #[trigger] after.contains_key(k) implies after[k] < self.gen.func
            + 1 by {
            if k != f.0 {
                assert(self.scopes.fns.contains_key(k));
            }
        }
        assert forall|k1: usize, k2: usize|
            #[trigger] after.contains_key(k1) && #[trigger] after.contains_key(k2) && k1
                != k2 implies after[k1] != after[k2] by {
            if k1 != f.0 {
                assert(self.scopes.fns.contains_key(k1));
            }
            if k2 != f.0 {
                assert(self.scopes.fns.contains_key(k2));
            }
        }
    }

    /// Binding the functions of a program, none of which is defined twice, gives the
    /// `j`-th of them the `j`-th identifier from the counter on.
    pub proof fn lemma_def_fns<I>(self, fns: Seq<(FnId, FnDefView<I>)>, i: nat)
        requires
            self.good(),
            self.def_fns(fns, i) is Some,
            i <= fns.len(),
            crate::ast::distinct_ids(fns),
            forall|j: int|
                0 <= j < i ==> self.scopes.func((#[trigger] fns[j]).0) is Some,
        ensures
            self.def_fns(fns, i).unwrap().good(),
            forall|j: int|
                0 <= j < i ==> self.def_fns(fns, i).unwrap().scopes.func((#[trigger] fns[j]).0)
                    == self.scopes.func(fns[j].0),
            forall|j: int|
                i <= j < fns.len() ==> self.def_fns(fns, i).unwrap().scopes.func(
                    (#[trigger] fns[j]).0,
                ) == Some(FnId((self.gen.func + j - i) as usize)),
            self.def_fns(fns, i).unwrap().gen.func == self.gen.func + fns.len() - i,
            self.gen.le(self.def_fns(fns, i).unwrap().gen),
        decreases fns.len() - i,
    {
        if i < fns.len() {
            self.lemma_def_fn(fns[i as int].0);
            let st = self.def_fn(fns[i as int].0).unwrap();
            assert forall|j: int| 0 <= j < i + 1 implies st.scopes.func(
                (#[trigger] fns[j]).0,
            ) is Some by {}
            st.lemma_def_fns(fns, i + 1);
        }
    }

    /// Renaming the functions of a program one after another keeps their number, the
    /// shape of each, and gives each the identifier that it was bound to.
    pub proof fn lemma_fn_defs<I>(
        self,
        fns: Seq<(FnId, FnDefView<I>)>,
        i: nat,
        done: Seq<(FnId, FnDefView<I>)>,
    )
        requires
            self.good(),
            self.fn_defs(fns, i, done) is Some,
            i <= fns.len(),
            done.len() == i,
            crate::ast::distinct_ids(fns),
            forall|j: int| 0 <= j < fns.len() ==> self.scopes.func((#[trigger] fns[j]).0) is Some,
            forall|j: int|
                0 <= j < i ==> Some((#[trigger] done[j]).0) == self.scopes.func(fns[j].0)
                    && fn_def_shape(fns[j].1, done[j].1),
        ensures
            ({
                let (st, out) = self.fn_defs(fns, i, done).unwrap();
                &&& self.kept(st)
                &&& self.touches(st, false, false, false, false)
                &&& program_shape(fns, out)
                &&& forall|j: int|
                    0 <= j < fns.len() ==> Some((#[trigger] out[j]).0) == self.scopes.func(
                        fns[j].0,
                    )
            }),
        decreases fns.len() - i,
    {
        if i < fns.len() {
            let f = self.scopes.func(fns[i as int].0).unwrap();
            self.lemma_fn_def(fns[i as int].1);
            let (st, d) = self.fn_def(fns[i as int].1).unwrap();
            assert forall|j: int| 0 <= j < i implies (#[trigger] done[j]).0 != f by {
                assert(self.scopes.func(fns[j].0) is Some);
                assert(self.scopes.fns.contains_key(fns[j].0.0));
                assert(self.scopes.fns.contains_key(fns[i as int].0.0));
            }
            lemma_fn_position_absent(done, f, 0);
            let next = crate::ast::with_fn(done, f, d);
            assert(next == done.push((f, d)));
            st.lemma_fn_defs(fns, i + 1, next);
        }
    }

    /// Freshening keeps the shape of a program and is free of collisions: a program
    /// that defines no function twice has, after it, as many functions as before, each
    /// of the shape it had, and the `j`-th under the `j`-th identifier from the counter
    /// on, so that no two of them share one. The scopes that nest are after it as
    /// before it: no binder of the program stays in scope. Whenever the pass has
    /// renamed a part of the program, no two bindings in scope are to the same
    /// identifier.
    pub proof fn lemma_program<I>(self, fns: Seq<(FnId, FnDefView<I>)>)
        requires
            self.good(),
            self.program(fns) is Some,
            crate::ast::distinct_ids(fns),
        ensures
            ({
                let (st, out) = self.program(fns).unwrap();
                &&& st.good()
                &&& self.gen.le(st.gen)
                &&& self.touches(st, false, false, false, false)
                &&& program_shape(fns, out)
                &&& forall|j: int|
                    0 <= j < fns.len() ==> (#[trigger] out[j]).0 == FnId(
                        (self.gen.func + j) as usize,
                    )
            }),
    {
        self.lemma_def_fns(fns, 0);
        let st1 = self.def_fns(fns, 0).unwrap();
        self.lemma_def_fns_touches(fns, 0);
        assert forall|j: int| 0 <= j < fns.len() implies st1.scopes.func(
            (#[trigger] fns[j]).0,
        ) is Some by {}
        st1.lemma_fn_defs(fns, 0, Seq::empty());
        let (st, out) = st1.fn_defs(fns, 0, Seq::empty()).unwrap();
        assert forall|j: int| 0 <= j < fns.len() implies (#[trigger] out[j]).0 == FnId(
            (self.gen.func + j) as usize,
        ) by {
            assert(Some(out[j].0) == st1.scopes.func(fns[j].0));
        }
    }

    /// Binding the functions of a program binds nothing in the scopes that nest.
    pub proof fn lemma_def_fns_touches<I>(self, fns: Seq<(FnId, FnDefView<I>)>, i: nat)
        requires
            self.def_fns(fns, i) is Some,
        ensures
            self.touches(self.def_fns(fns, i).unwrap(), false, false, false, false),
        decreases fns.len() - i,
    {
        if i < fns.len() {
            self.def_fn(fns[i as int].0).unwrap().lemma_def_fns_touches(fns, i + 1);
        }
    }
}

impl FreshState {
    /// The state in which the `j`-th function of a program is renamed, where the
    /// functions are renamed from the `i`-th on: its scopes that nest are those of this
    /// state.
    pub proof fn lemma_fn_defs_start_afresh<I>(
        self,
        fns: Seq<(FnId, FnDefView<I>)>,
        i: nat,
        done: Seq<(FnId, FnDefView<I>)>,
        j: int,
    ) -> (s: FreshState)
        requires
            self.good(),
            self.fn_defs(fns, i, done) is Some,
            i <= j < fns.len(),
        ensures
            s.good(),
            self.touches(s, false, false, false, false),
            s.fn_def(fns[j].1) is Some,
        decreases fns.len() - i,
    {
        if i == j {
            self
        } else {
            let f = self.scopes.func(fns[i as int].0).unwrap();
            self.lemma_fn_def(fns[i as int].1);
            let (st, d) = self.fn_def(fns[i as int].1).unwrap();
            st.lemma_fn_defs_start_afresh(fns, i + 1, crate::ast::with_fn(done, f, d), j)
        }
    }

    /// No binder of one function is in scope in another: where a program is renamed,
    /// each of its functions is renamed in a state `s` whose scopes of continuations,
    /// locals, locations and fields are those that the pass started with, whatever the
    /// functions before it have bound. So a function that uses a continuation, a local
    /// or a location that only another function binds stops the pass, wherever in the
    /// program it stands.
    pub proof fn lemma_function_sees_no_binder_of_another<I>(
        self,
        fns: Seq<(FnId, FnDefView<I>)>,
        j: int,
    ) -> (s: FreshState)
        requires
            self.good(),
            self.program(fns) is Some,
            crate::ast::distinct_ids(fns),
            0 <= j < fns.len(),
        ensures
            self.touches(s, false, false, false, false),
            s.fn_def(fns[j].1) is Some,
    {
        self.lemma_def_fns(fns, 0);
        self.lemma_def_fns_touches(fns, 0);
        let st1 = self.def_fns(fns, 0).unwrap();
        st1.lemma_fn_defs_start_afresh(fns, 0, Seq::empty(), j)
    }

    /// Before anything is bound, no name of a family that nests stands for anything.
    pub proof fn lemma_initial_binds_nothing(gen: Counters, k: ContId, x: Local, l: Location, f: Field)
        ensures
            FreshState::initial(gen).scopes.cont_id(k) is None,
            FreshState::initial(gen).scopes.local(x) is None,
            FreshState::initial(gen).scopes.location(l) is None,
            FreshState::initial(gen).scopes.field(f) is None,
    {
        let empty = seq![Map::<usize, usize>::empty()];
        assert(crate::scope::lookup_in(empty, 0, k.0) is None);
        assert(crate::scope::lookup_in(empty, 0, x.0) is None);
        assert(crate::scope::lookup_in(empty, 0, l.0) is None);
        assert(crate::scope::lookup_in(empty, 0, f.0) is None);
    }
}

impl FreshState {
    /// No two bindings of a local are to the same identifier, whenever they are made:
    /// a binding made in a state that the pass reaches after another binding, where
    /// the counters have not gone down, gives an identifier other than that one gave.
    /// The names that are bound may be the same.
    pub proof fn lemma_later_local_is_new(self, later: FreshState, x: Local, y: Local)
        requires
            self.good(),
            later.good(),
            self.def_local(x) is Some,
            self.def_local(x).unwrap().gen.le(later.gen),
            later.def_local(y) is Some,
        ensures
            self.def_local(x).unwrap().scopes.local(x) is Some,
            later.def_local(y).unwrap().scopes.local(y) is Some,
            self.def_local(x).unwrap().scopes.local(x) != later.def_local(y).unwrap().scopes.local(
                y,
            ),
    {
        self.lemma_local_resolves(x, x);
        later.lemma_local_resolves(y, y);
    }

    /// No two bindings of a location are to the same identifier, whenever they are made:
    /// a binding made in a state that the pass reaches after another binding, where
    /// the counters have not gone down, gives an identifier other than that one gave.
    /// The names that are bound may be the same.
    pub proof fn lemma_later_location_is_new(self, later: FreshState, l: Location, m: Location)
        requires
            self.good(),
            later.good(),
            self.def_location(l) is Some,
            self.def_location(l).unwrap().gen.le(later.gen),
            later.def_location(m) is Some,
        ensures
            self.def_location(l).unwrap().scopes.location(l) is Some,
            later.def_location(m).unwrap().scopes.location(m) is Some,
            self.def_location(l).unwrap().scopes.location(l) != later.def_location(m).unwrap().scopes.location(
                m,
            ),
    {
        self.lemma_location_resolves(l, l);
        later.lemma_location_resolves(m, m);
    }

    /// No two bindings of a field are to the same identifier, whenever they are made:
    /// a binding made in a state that the pass reaches after another binding, where
    /// the counters have not gone down, gives an identifier other than that one gave.
    /// The names that are bound may be the same.
    pub proof fn lemma_later_field_is_new(self, later: FreshState, f: Field, g: Field)
        requires
            self.good(),
            later.good(),
            self.def_field(f) is Some,
            self.def_field(f).unwrap().gen.le(later.gen),
            later.def_field(g) is Some,
        ensures
            self.def_field(f).unwrap().scopes.field(f) is Some,
            later.def_field(g).unwrap().scopes.field(g) is Some,
            self.def_field(f).unwrap().scopes.field(f) != later.def_field(g).unwrap().scopes.field(
                g,
            ),
    {
        self.lemma_field_resolves(f, f);
        later.lemma_field_resolves(g, g);
    }

    /// No two bindings of a continuation are to the same identifier, whenever they are made:
    /// a binding made in a state that the pass reaches after another binding, where
    /// the counters have not gone down, gives an identifier other than that one gave.
    /// The names that are bound may be the same.
    pub proof fn lemma_later_cont_is_new(self, later: FreshState, k: ContId, j: ContId)
        requires
            self.good(),
            later.good(),
            self.def_cont(k) is Some,
            self.def_cont(k).unwrap().gen.le(later.gen),
            later.def_cont(j) is Some,
        ensures
            self.def_cont(k).unwrap().scopes.cont_id(k) is Some,
            later.def_cont(j).unwrap().scopes.cont_id(j) is Some,
            self.def_cont(k).unwrap().scopes.cont_id(k) != later.def_cont(j).unwrap().scopes.cont_id(
                j,
            ),
    {
        self.lemma_cont_resolves(k, k);
        later.lemma_cont_resolves(j, j);
    }

}

impl FreshState {
    /// Binding the locals from the `i`-th on leaves a local that is none
    /// of them standing for what it stood for.
    pub proof fn lemma_def_locals_keeps(self, xs: Seq<Local>, i: nat, other: Local)
        requires
            self.good(),
            self.def_locals(xs, i) is Some,
            forall|j: int| i <= j < xs.len() ==> xs[j] != other,
        ensures
            self.def_locals(xs, i).unwrap().scopes.local(other) == self.scopes.local(other),
        decreases xs.len() - i,
    {
        if i < xs.len() {
            self.lemma_local_resolves(xs[i as int], other);
            self.lemma_def_local(xs[i as int]);
            self.def_local(xs[i as int]).unwrap().lemma_def_locals_keeps(xs, i + 1, other);
        }
    }

    /// The binding occurrences of a group get different identifiers: where the
    /// locals are bound from the `i`-th on and no two of them have the
    /// same name, the `j`-th stands after it for the identifier that the counter had
    /// when its turn came, which is another for each of them.
    pub proof fn lemma_def_locals_resolve(self, xs: Seq<Local>, i: nat, j: int)
        requires
            self.good(),
            self.def_locals(xs, i) is Some,
            i <= j < xs.len(),
            forall|a: int, b: int| 0 <= a < b < xs.len() ==> xs[a] != xs[b],
        ensures
            self.def_locals(xs, i).unwrap().scopes.local(xs[j]) == Some(
                Local((self.gen.local + j - i) as usize),
            ),
        decreases xs.len() - i,
    {
        self.lemma_local_resolves(xs[i as int], xs[i as int]);
        self.lemma_def_local(xs[i as int]);
        let st = self.def_local(xs[i as int]).unwrap();
        if i == j {
            st.lemma_def_locals_keeps(xs, i + 1, xs[j]);
        } else {
            st.lemma_def_locals_resolve(xs, i + 1, j);
        }
    }

    /// Binding the locations of a heap from the `i`-th on leaves a location that is none
    /// of them standing for what it stood for.
    pub proof fn lemma_def_locations_keeps(self, heap: Seq<(Location, TyView)>, i: nat, other: Location)
        requires
            self.good(),
            self.def_locations(heap, i) is Some,
            forall|j: int| i <= j < heap.len() ==> heap[j].0 != other,
        ensures
            self.def_locations(heap, i).unwrap().scopes.location(other) == self.scopes.location(other),
        decreases heap.len() - i,
    {
        if i < heap.len() {
            self.lemma_location_resolves(heap[i as int].0, other);
            self.lemma_def_location(heap[i as int].0);
            self.def_location(heap[i as int].0).unwrap().lemma_def_locations_keeps(heap, i + 1, other);
        }
    }

    /// The binding occurrences of a group get different identifiers: where the
    /// locations of a heap are bound from the `i`-th on and no two of them have the
    /// same name, the `j`-th stands after it for the identifier that the counter had
    /// when its turn came, which is another for each of them.
    pub proof fn lemma_def_locations_resolve(self, heap: Seq<(Location, TyView)>, i: nat, j: int)
        requires
            self.good(),
            self.def_locations(heap, i) is Some,
            i <= j < heap.len(),
            forall|a: int, b: int| 0 <= a < b < heap.len() ==> heap[a].0 != heap[b].0,
        ensures
            self.def_locations(heap, i).unwrap().scopes.location(heap[j].0) == Some(
                Location((self.gen.location + j - i) as usize),
            ),
        decreases heap.len() - i,
    {
        self.lemma_location_resolves(heap[i as int].0, heap[i as int].0);
        self.lemma_def_location(heap[i as int].0);
        let st = self.def_location(heap[i as int].0).unwrap();
        if i == j {
            st.lemma_def_locations_keeps(heap, i + 1, heap[j].0);
        } else {
            st.lemma_def_locations_resolve(heap, i + 1, j);
        }
    }

    /// Binding the fields of a tuple from the `i`-th on leaves a field that is none
    /// of them standing for what it stood for.
    pub proof fn lemma_def_fields_keeps(self, fields: Seq<(Field, TyView)>, i: nat, other: Field)
        requires
            self.good(),
            self.def_fields(fields, i) is Some,
            forall|j: int| i <= j < fields.len() ==> fields[j].0 != other,
        ensures
            self.def_fields(fields, i).unwrap().scopes.field(other) == self.scopes.field(other),
        decreases fields.len() - i,
    {
        if i < fields.len() {
            self.lemma_field_resolves(fields[i as int].0, other);
            self.lemma_def_field(fields[i as int].0);
            self.def_field(fields[i as int].0).unwrap().lemma_def_fields_keeps(fields, i + 1, other);
        }
    }

    /// The binding occurrences of a group get different identifiers: where the
    /// fields of a tuple are bound from the `i`-th on and no two of them have the
    /// same name, the `j`-th stands after it for the identifier that the counter had
    /// when its turn came, which is another for each of them.
    pub proof fn lemma_def_fields_resolve(self, fields: Seq<(Field, TyView)>, i: nat, j: int)
        requires
            self.good(),
            self.def_fields(fields, i) is Some,
            i <= j < fields.len(),
            forall|a: int, b: int| 0 <= a < b < fields.len() ==> fields[a].0 != fields[b].0,
        ensures
            self.def_fields(fields, i).unwrap().scopes.field(fields[j].0) == Some(
                Field((self.gen.field + j - i) as usize),
            ),
        decreases fields.len() - i,
    {
        self.lemma_field_resolves(fields[i as int].0, fields[i as int].0);
        self.lemma_def_field(fields[i as int].0);
        let st = self.def_field(fields[i as int].0).unwrap();
        if i == j {
            st.lemma_def_fields_keeps(fields, i + 1, fields[j].0);
        } else {
            st.lemma_def_fields_resolve(fields, i + 1, j);
        }
    }

    /// Binding the continuations of a group from the `i`-th on leaves a continuation that is none
    /// of them standing for what it stood for.
    pub proof fn lemma_def_conts_keeps<I>(self, defs: Seq<ContDefView<I>>, i: nat, other: ContId)
        requires
            self.good(),
            self.def_conts(defs, i) is Some,
            forall|j: int| i <= j < defs.len() ==> defs[j].name != other,
        ensures
            self.def_conts(defs, i).unwrap().scopes.cont_id(other) == self.scopes.cont_id(other),
        decreases defs.len() - i,
    {
        if i < defs.len() {
            self.lemma_cont_resolves(defs[i as int].name, other);
            self.lemma_def_cont(defs[i as int].name);
            self.def_cont(defs[i as int].name).unwrap().lemma_def_conts_keeps(defs, i + 1, other);
        }
    }

    /// The binding occurrences of a group get different identifiers: where the
    /// continuations of a group are bound from the `i`-th on and no two of them have the
    /// same name, the `j`-th stands after it for the identifier that the counter had
    /// when its turn came, which is another for each of them.
    pub proof fn lemma_def_conts_resolve<I>(self, defs: Seq<ContDefView<I>>, i: nat, j: int)
        requires
            self.good(),
            self.def_conts(defs, i) is Some,
            i <= j < defs.len(),
            forall|a: int, b: int| 0 <= a < b < defs.len() ==> defs[a].name != defs[b].name,
        ensures
            self.def_conts(defs, i).unwrap().scopes.cont_id(defs[j].name) == Some(
                ContId((self.gen.cont + j - i) as usize),
            ),
        decreases defs.len() - i,
    {
        self.lemma_cont_resolves(defs[i as int].name, defs[i as int].name);
        self.lemma_def_cont(defs[i as int].name);
        let st = self.def_cont(defs[i as int].name).unwrap();
        if i == j {
            st.lemma_def_conts_keeps(defs, i + 1, defs[j].name);
        } else {
            st.lemma_def_conts_resolve(defs, i + 1, j);
        }
    }

}

/// A function that `fns` does not define from `from` on has no position there.
pub proof fn lemma_fn_position_absent<I>(fns: Seq<(FnId, FnDefView<I>)>, f: FnId, from: int)
    requires
        0 <= from <= fns.len(),
        forall|j: int| from <= j < fns.len() ==> (#[trigger] fns[j]).0 != f,
    ensures
        crate::ast::fn_position(fns, f, from) == fns.len(),
    decreases fns.len() - from,
{
    if from < fns.len() {
        lemma_fn_position_absent(fns, f, from + 1);
    }
}

} // verus!
