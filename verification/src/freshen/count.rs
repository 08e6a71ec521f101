//! How many identifiers renaming draws: one for each binding occurrence, so that the
//! occurrences and the identifiers they get correspond one to one.

use crate::ast::{
    ContDefView, ContTyView, FnBodyView, FnDeclView, FnDefView, StatementKindView, StatementView,
    TyView,
};
use crate::freshen::FreshState;
use crate::names::{Field, FnId, Local, Location, UniversalRegion};
use crate::ty::Counters;
use vstd::prelude::*;

verus! {

/// No identifier of any family.
pub open spec fn nothing() -> Counters {
    Counters { local: 0, location: 0, field: 0, cont: 0, func: 0, region: 0, kvar: 0 }
}

/// The numbers of `a` and of `b` together, family by family.
pub open spec fn both(a: Counters, b: Counters) -> Counters {
    Counters {
        local: a.local + b.local,
        location: a.location + b.location,
        field: a.field + b.field,
        cont: a.cont + b.cont,
        func: a.func + b.func,
        region: a.region + b.region,
        kvar: a.kvar + b.kvar,
    }
}

/// Whether the counters `after` are the counters `before` with `by` identifiers more
/// of each family.
pub open spec fn advanced(before: Counters, after: Counters, by: Counters) -> bool {
    after == both(before, by)
}

/// The binding occurrences in a type: the fields of the tuples in it.
pub open spec fn ty_binds(t: TyView) -> Counters
    decreases t, 0nat,
{
    match t {
        TyView::Tuple(fields) => both(
            Counters { field: fields.len(), ..nothing() },
            tuple_binds(fields, 0),
        ),
        _ => nothing(),
    }
}

/// The binding occurrences in the types of the fields from the `i`-th on.
pub open spec fn tuple_binds(fields: Seq<(Field, TyView)>, i: nat) -> Counters
    decreases fields, fields.len() - i,
{
    if i >= fields.len() {
        nothing()
    } else {
        both(ty_binds(fields[i as int].1), tuple_binds(fields, i + 1))
    }
}

/// The binding occurrences in the types of the entries of a heap from the `i`-th on.
pub open spec fn heap_binds(heap: Seq<(Location, TyView)>, i: nat) -> Counters
    decreases heap.len() - i,
{
    if i >= heap.len() {
        nothing()
    } else {
        both(ty_binds(heap[i as int].1), heap_binds(heap, i + 1))
    }
}

/// The binding occurrences in the signature of a function, where it is renamed by
/// itself: its input locals, the locations of its output heap, and those in the types
/// of both heaps.
pub open spec fn fn_ty_binds(ty: FnDeclView) -> Counters {
    both(
        Counters { local: ty.inputs.len(), location: ty.out_heap.len(), ..nothing() },
        both(heap_binds(ty.in_heap, 0), heap_binds(ty.out_heap, 0)),
    )
}

/// The binding occurrences in a statement: the local of a `let`.
pub open spec fn statement_binds<I>(s: StatementView<I>) -> Counters {
    match s.kind {
        StatementKindView::Let(_, _) => Counters { local: 1, ..nothing() },
        _ => nothing(),
    }
}

/// The binding occurrences in a body.
pub open spec fn body_binds<I>(b: FnBodyView<I>) -> Counters
    decreases b, 0nat,
{
    match b {
        FnBodyView::LetCont(defs, rest) => both(
            Counters { cont: defs.len(), ..nothing() },
            both(conts_binds(defs, 0), body_binds(*rest)),
        ),
        FnBodyView::Ite { discr, then, else_ } => both(body_binds(*then), body_binds(*else_)),
        FnBodyView::Sequence(statement, rest) => both(statement_binds(statement), body_binds(*rest)),
        _ => nothing(),
    }
}

/// The binding occurrences in the continuations from the `i`-th on, their names not
/// counted.
pub open spec fn conts_binds<I>(defs: Seq<ContDefView<I>>, i: nat) -> Counters
    decreases defs, defs.len() - i,
{
    if i >= defs.len() {
        nothing()
    } else {
        both(cont_binds(defs[i as int]), conts_binds(defs, i + 1))
    }
}

/// The binding occurrences in a continuation, its name not counted: its parameters,
/// the locations of its heap, and those in the types of its heap and in its body.
pub open spec fn cont_binds<I>(def: ContDefView<I>) -> Counters
    decreases def, 0nat,
{
    both(
        Counters { local: def.params.len(), location: def.ty.heap.len(), ..nothing() },
        both(heap_binds(def.ty.heap, 0), body_binds(*def.body)),
    )
}

/// The binding occurrences in a function, its name not counted: its return
/// continuation, its parameters, the locations of its input heap, its regions, and
/// those in its body and in its signature.
pub open spec fn fn_def_binds<I>(def: FnDefView<I>) -> Counters {
    both(
        Counters {
            cont: 1,
            local: def.params.len(),
            location: def.ty.in_heap.len(),
            region: def.ty.regions.len(),
            ..nothing()
        },
        both(body_binds(def.body), fn_ty_binds(def.ty)),
    )
}

/// The binding occurrences in the functions from the `i`-th on, their names not
/// counted.
pub open spec fn fns_binds<I>(fns: Seq<(FnId, FnDefView<I>)>, i: nat) -> Counters
    decreases fns.len() - i,
{
    if i >= fns.len() {
        nothing()
    } else {
        both(fn_def_binds(fns[i as int].1), fns_binds(fns, i + 1))
    }
}

/// The binding occurrences in a program: the names of its functions, and those in
/// each of them.
pub open spec fn program_binds<I>(fns: Seq<(FnId, FnDefView<I>)>) -> Counters {
    both(Counters { func: fns.len(), ..nothing() }, fns_binds(fns, 0))
}

impl FreshState {
    pub proof fn lemma_def_locals_draws(self, xs: Seq<Local>, i: nat)
        requires
            i <= xs.len(),
        ensures
            self.def_locals(xs, i) matches Some(st) ==> advanced(
                self.gen,
                st.gen,
                Counters { local: (xs.len() - i) as nat, ..nothing() },
            ),
        decreases xs.len() - i,
    {
        if i < xs.len() {
            match self.def_local(xs[i as int]) {
                Some(st) => st.lemma_def_locals_draws(xs, i + 1),
                None => {},
            }
        }
    }

    pub proof fn lemma_def_bound_locals_draws(self, xs: Seq<(Local, Location)>, i: nat)
        requires
            i <= xs.len(),
        ensures
            self.def_bound_locals(xs, i) matches Some(st) ==> advanced(
                self.gen,
                st.gen,
                Counters { local: (xs.len() - i) as nat, ..nothing() },
            ),
        decreases xs.len() - i,
    {
        if i < xs.len() {
            match self.def_local(xs[i as int].0) {
                Some(st) => st.lemma_def_bound_locals_draws(xs, i + 1),
                None => {},
            }
        }
    }

    pub proof fn lemma_def_locations_draws(self, heap: Seq<(Location, TyView)>, i: nat)
        requires
            i <= heap.len(),
        ensures
            self.def_locations(heap, i) matches Some(st) ==> advanced(
                self.gen,
                st.gen,
                Counters { location: (heap.len() - i) as nat, ..nothing() },
            ),
        decreases heap.len() - i,
    {
        if i < heap.len() {
            match self.def_location(heap[i as int].0) {
                Some(st) => st.lemma_def_locations_draws(heap, i + 1),
                None => {},
            }
        }
    }

    pub proof fn lemma_def_fields_draws(self, fields: Seq<(Field, TyView)>, i: nat)
        requires
            i <= fields.len(),
        ensures
            self.def_fields(fields, i) matches Some(st) ==> advanced(
                self.gen,
                st.gen,
                Counters { field: (fields.len() - i) as nat, ..nothing() },
            ),
        decreases fields.len() - i,
    {
        if i < fields.len() {
            match self.def_field(fields[i as int].0) {
                Some(st) => st.lemma_def_fields_draws(fields, i + 1),
                None => {},
            }
        }
    }

    pub proof fn lemma_def_regions_draws(self, rs: Seq<UniversalRegion>, i: nat)
        requires
            i <= rs.len(),
        ensures
            self.def_regions(rs, i) matches Some(st) ==> advanced(
                self.gen,
                st.gen,
                Counters { region: (rs.len() - i) as nat, ..nothing() },
            ),
        decreases rs.len() - i,
    {
        if i < rs.len() {
            match self.def_region(rs[i as int]) {
                Some(st) => st.lemma_def_regions_draws(rs, i + 1),
                None => {},
            }
        }
    }

    pub proof fn lemma_def_conts_draws<I>(self, defs: Seq<ContDefView<I>>, i: nat)
        requires
            i <= defs.len(),
        ensures
            self.def_conts(defs, i) matches Some(st) ==> advanced(
                self.gen,
                st.gen,
                Counters { cont: (defs.len() - i) as nat, ..nothing() },
            ),
        decreases defs.len() - i,
    {
        if i < defs.len() {
            match self.def_cont(defs[i as int].name) {
                Some(st) => st.lemma_def_conts_draws(defs, i + 1),
                None => {},
            }
        }
    }

    pub proof fn lemma_def_fns_draws<I>(self, fns: Seq<(FnId, FnDefView<I>)>, i: nat)
        requires
            i <= fns.len(),
        ensures
            self.def_fns(fns, i) matches Some(st) ==> advanced(
                self.gen,
                st.gen,
                Counters { func: (fns.len() - i) as nat, ..nothing() },
            ),
        decreases fns.len() - i,
    {
        if i < fns.len() {
            match self.def_fn(fns[i as int].0) {
                Some(st) => st.lemma_def_fns_draws(fns, i + 1),
                None => {},
            }
        }
    }

    /// Renaming a type draws one identifier for each binding occurrence in it.
    pub proof fn lemma_ty_draws(self, t: TyView)
        ensures
            self.ty(t) matches Some((st, _)) ==> advanced(self.gen, st.gen, ty_binds(t)),
        decreases t, 0nat,
    {
        match t {
            TyView::Tuple(fields) => {
                let st = self.push_fields();
                st.lemma_def_fields_draws(fields, 0);
                match st.def_fields(fields, 0) {
                    Some(st) => st.lemma_tuple_draws(fields, 0, Seq::empty()),
                    None => {},
                }
            },
            _ => {},
        }
    }

    pub proof fn lemma_tuple_draws(self, fields: Seq<(Field, TyView)>, i: nat, done: Seq<(Field, TyView)>)
        ensures
            self.tuple(fields, i, done) matches Some((st, _)) ==> advanced(
                self.gen,
                st.gen,
                tuple_binds(fields, i),
            ),
        decreases fields, fields.len() - i,
    {
        if i < fields.len() {
            match self.scopes.field(fields[i as int].0) {
                Some(f) => {
                    self.lemma_ty_draws(fields[i as int].1);
                    match self.ty(fields[i as int].1) {
                        Some((st, t)) => st.lemma_tuple_draws(fields, i + 1, done.push((f, t))),
                        None => {},
                    }
                },
                None => {},
            }
        }
    }

    pub proof fn lemma_heap_draws(self, heap: Seq<(Location, TyView)>, i: nat, done: Seq<(Location, TyView)>)
        ensures
            self.heap(heap, i, done) matches Some((st, _)) ==> advanced(
                self.gen,
                st.gen,
                heap_binds(heap, i),
            ),
        decreases heap.len() - i,
    {
        if i < heap.len() {
            match self.scopes.location(heap[i as int].0) {
                Some(l) => {
                    self.lemma_ty_draws(heap[i as int].1);
                    match self.ty(heap[i as int].1) {
                        Some((st, t)) => st.lemma_heap_draws(heap, i + 1, done.push((l, t))),
                        None => {},
                    }
                },
                None => {},
            }
        }
    }

    pub proof fn lemma_cont_ty_draws(self, ty: ContTyView)
        ensures
            self.cont_ty(ty) matches Some((st, _)) ==> advanced(
                self.gen,
                st.gen,
                heap_binds(ty.heap, 0),
            ),
    {
        self.lemma_heap_draws(ty.heap, 0, Seq::empty());
    }

    /// Renaming the signature of a function draws one identifier for each binding
    /// occurrence in it.
    pub proof fn lemma_fn_ty_draws(self, ty: FnDeclView)
        ensures
            self.fn_ty(ty) matches Some((st, _)) ==> advanced(self.gen, st.gen, fn_ty_binds(ty)),
    {
        let st = self.push_locals();
        st.lemma_def_bound_locals_draws(ty.inputs, 0);
        match st.def_bound_locals(ty.inputs, 0) {
            Some(st) => {
                st.lemma_heap_draws(ty.in_heap, 0, Seq::empty());
                match st.heap(ty.in_heap, 0, Seq::empty()) {
                    Some((st, _)) => {
                        let st = st.push_locations();
                        st.lemma_def_locations_draws(ty.out_heap, 0);
                        match st.def_locations(ty.out_heap, 0) {
                            Some(st) => st.lemma_heap_draws(ty.out_heap, 0, Seq::empty()),
                            None => {},
                        }
                    },
                    None => {},
                }
            },
            None => {},
        }
    }

    pub proof fn lemma_statement_draws<I>(self, s: StatementView<I>)
        ensures
            self.statement(s) matches Some((st, _)) ==> advanced(
                self.gen,
                st.gen,
                statement_binds(s),
            ),
    {
    }

    /// Renaming a body draws one identifier for each binding occurrence in it.
    pub proof fn lemma_body_draws<I>(self, b: FnBodyView<I>)
        ensures
            self.body(b) matches Some((st, _)) ==> advanced(self.gen, st.gen, body_binds(b)),
        decreases b, 1nat,
    {
        match b {
            FnBodyView::LetCont(_, _) => self.lemma_let_cont_draws(b),
            FnBodyView::Ite { .. } => self.lemma_ite_draws(b),
            FnBodyView::Sequence(_, _) => self.lemma_sequence_draws(b),
            FnBodyView::Call { .. } => {},
            FnBodyView::Jump { .. } => {},
            FnBodyView::Abort => {},
        }
    }

    pub proof fn lemma_let_cont_draws<I>(self, b: FnBodyView<I>)
        requires
            b is LetCont,
        ensures
            self.body(b) matches Some((st, _)) ==> advanced(self.gen, st.gen, body_binds(b)),
        decreases b, 0nat,
    {
        let defs = b->LetCont_0;
        let rest = b->LetCont_1;
        let st = self.push_conts();
        st.lemma_def_conts_draws(defs, 0);
        match st.def_conts(defs, 0) {
            Some(st) => {
                st.lemma_cont_defs_draws(defs, 0, Seq::empty());
                match st.cont_defs(defs, 0, Seq::empty()) {
                    Some((st, _)) => st.lemma_body_draws(*rest),
                    None => {},
                }
            },
            None => {},
        }
    }

    pub proof fn lemma_ite_draws<I>(self, b: FnBodyView<I>)
        requires
            b is Ite,
        ensures
            self.body(b) matches Some((st, _)) ==> advanced(self.gen, st.gen, body_binds(b)),
        decreases b, 0nat,
    {
        let then = b->then;
        let else_ = b->else_;
        self.lemma_body_draws(*then);
        match self.body(*then) {
            Some((st, _)) => st.lemma_body_draws(*else_),
            None => {},
        }
    }

    pub proof fn lemma_sequence_draws<I>(self, b: FnBodyView<I>)
        requires
            b is Sequence,
        ensures
            self.body(b) matches Some((st, _)) ==> advanced(self.gen, st.gen, body_binds(b)),
        decreases b, 0nat,
    {
        let statement = b->Sequence_0;
        let rest = b->Sequence_1;
        let st = self.push_locals();
        st.lemma_statement_draws(statement);
        match st.statement(statement) {
            Some((st, _)) => st.lemma_body_draws(*rest),
            None => {},
        }
    }

    pub proof fn lemma_cont_defs_draws<I>(
        self,
        defs: Seq<ContDefView<I>>,
        i: nat,
        done: Seq<ContDefView<I>>,
    )
        ensures
            self.cont_defs(defs, i, done) matches Some((st, _)) ==> advanced(
                self.gen,
                st.gen,
                conts_binds(defs, i),
            ),
        decreases defs, defs.len() - i,
    {
        if i < defs.len() {
            self.lemma_cont_def_draws(defs[i as int]);
            match self.cont_def(defs[i as int]) {
                Some((st, d)) => st.lemma_cont_defs_draws(defs, i + 1, done.push(d)),
                None => {},
            }
        }
    }

    /// Renaming a continuation draws one identifier for each binding occurrence in
    /// it.
    pub proof fn lemma_cont_def_draws<I>(self, def: ContDefView<I>)
        ensures
            self.cont_def(def) matches Some((st, _)) ==> advanced(
                self.gen,
                st.gen,
                cont_binds(def),
            ),
        decreases def, 0nat,
    {
        let st = self.push_locals();
        st.lemma_def_locals_draws(def.params, 0);
        match st.def_locals(def.params, 0) {
            Some(st) => {
                let st = st.push_locations();
                st.lemma_def_locations_draws(def.ty.heap, 0);
                match st.def_locations(def.ty.heap, 0) {
                    Some(st) => {
                        st.lemma_cont_ty_draws(def.ty);
                        match st.cont_ty(def.ty) {
                            Some((st, _)) => st.lemma_body_draws(*def.body),
                            None => {},
                        }
                    },
                    None => {},
                }
            },
            None => {},
        }
    }

    /// Renaming a function draws one identifier for each binding occurrence in it.
    pub proof fn lemma_fn_def_draws<I>(self, def: FnDefView<I>)
        ensures
            self.fn_def(def) matches Some((st, _)) ==> advanced(
                self.gen,
                st.gen,
                fn_def_binds(def),
            ),
    {
        match self.push_conts().push_locals().push_locations().def_cont(def.ret) {
            Some(st) => {
                st.lemma_def_locals_draws(def.params, 0);
                match st.def_locals(def.params, 0) {
                    Some(st) => {
                        st.lemma_def_locations_draws(def.ty.in_heap, 0);
                        match st.def_locations(def.ty.in_heap, 0) {
                            Some(st) => {
                                st.lemma_def_regions_draws(def.ty.regions, 0);
                                match st.def_regions(def.ty.regions, 0) {
                                    Some(st) => {
                                        st.lemma_body_draws(def.body);
                                        match st.body(def.body) {
                                            Some((st, _)) => st.lemma_fn_ty_draws(def.ty),
                                            None => {},
                                        }
                                    },
                                    None => {},
                                }
                            },
                            None => {},
                        }
                    },
                    None => {},
                }
            },
            None => {},
        }
    }

    pub proof fn lemma_fn_defs_draws<I>(
        self,
        fns: Seq<(FnId, FnDefView<I>)>,
        i: nat,
        done: Seq<(FnId, FnDefView<I>)>,
    )
        ensures
            self.fn_defs(fns, i, done) matches Some((st, _)) ==> advanced(
                self.gen,
                st.gen,
                fns_binds(fns, i),
            ),
        decreases fns.len() - i,
    {
        if i < fns.len() {
            match self.scopes.func(fns[i as int].0) {
                Some(f) => {
                    self.lemma_fn_def_draws(fns[i as int].1);
                    match self.fn_def(fns[i as int].1) {
                        Some((st, d)) => st.lemma_fn_defs_draws(
                            fns,
                            i + 1,
                            crate::ast::with_fn(done, f, d),
                        ),
                        None => {},
                    }
                },
                None => {},
            }
        }
    }

    /// Renaming a program draws exactly one identifier for each binding occurrence in
    /// it, family by family: the counters go up by the number of binding occurrences.
    /// Each binding takes the value of its counter, which then goes up, so the
    /// occurrences and the identifiers drawn correspond one to one, whether or not two
    /// occurrences bind the same name.
    pub proof fn lemma_program_draws<I>(self, fns: Seq<(FnId, FnDefView<I>)>)
        ensures
            self.program(fns) matches Some((st, _)) ==> advanced(
                self.gen,
                st.gen,
                program_binds(fns),
            ),
    {
        self.lemma_def_fns_draws(fns, 0);
        match self.def_fns(fns, 0) {
            Some(st) => st.lemma_fn_defs_draws(fns, 0, Seq::empty()),
            None => {},
        }
    }
}

} // verus!
