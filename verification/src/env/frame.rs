//! What a strong update leaves alone, and what the end of a borrow leaves at the places
//! that the borrow may alias.

use crate::ast::{heap_get, heap_index_in, PlaceView, Proj, RegionView, TyView};
use crate::ast::pred::Var;
use crate::env::{locals_get_in, EnvView};
use crate::names::{Local, Location};
use crate::ty::Counters;
use vstd::prelude::*;

verus! {

/// Whether `after` is `before` with entries added for locations that the context with
/// the counters `gen` had yet to hand out.
pub open spec fn heap_extended(
    before: Seq<(Location, TyView)>,
    after: Seq<(Location, TyView)>,
    gen: Counters,
) -> bool {
    &&& before.is_prefix_of(after)
    &&& forall|i: int| before.len() <= i < after.len() ==> (#[trigger] after[i]).0.0 >= gen.location
}

/// A lookup finds an entry of the heap.
pub proof fn lemma_heap_index_found(heap: Seq<(Location, TyView)>, n: nat, l: Location)
    ensures
        heap_index_in(heap, n, l) matches Some(i) ==> 0 <= i < n && i < heap.len() && heap[i].0
            == l,
    decreases n,
{
    if n == 0 || n > heap.len() {
    } else if heap[n - 1].0 != l {
        lemma_heap_index_found(heap, (n - 1) as nat, l);
    }
}

/// Entries for other locations, added at the end, hide nothing: among the first `n`
/// entries of the longer heap a location that is not one of the new ones is found
/// where it was.
pub proof fn lemma_heap_index_extended(
    before: Seq<(Location, TyView)>,
    after: Seq<(Location, TyView)>,
    gen: Counters,
    n: nat,
    l: Location,
)
    requires
        heap_extended(before, after, gen),
        l.0 < gen.location,
        before.len() <= n <= after.len(),
    ensures
        heap_index_in(after, n, l) == heap_index_in(before, before.len(), l),
    decreases n,
{
    if n > before.len() {
        lemma_heap_index_extended(before, after, gen, (n - 1) as nat, l);
    } else {
        lemma_heap_index_prefix(before, after, n, l);
    }
}

/// Heaps that agree on their first `n` entries find a location at the same place among
/// them.
pub proof fn lemma_heap_index_prefix(
    before: Seq<(Location, TyView)>,
    after: Seq<(Location, TyView)>,
    n: nat,
    l: Location,
)
    requires
        before.is_prefix_of(after),
        n <= before.len(),
    ensures
        heap_index_in(after, n, l) == heap_index_in(before, n, l),
    decreases n,
{
    if n > 0 {
        lemma_heap_index_prefix(before, after, (n - 1) as nat, l);
    }
}

/// Bindings that agree on their first `n` entries bind a local alike among them.
pub proof fn lemma_locals_get_prefix(
    before: Seq<(Local, Location)>,
    after: Seq<(Local, Location)>,
    n: nat,
    x: Local,
)
    requires
        before.is_prefix_of(after),
        n <= before.len(),
    ensures
        locals_get_in(after, n, x) == locals_get_in(before, n, x),
    decreases n,
{
    if n > 0 {
        lemma_locals_get_prefix(before, after, (n - 1) as nat, x);
    }
}

impl EnvView {
    /// What a location held it holds still, after the heap has got entries for
    /// locations that were yet to be handed out.
    pub proof fn lemma_location_kept(self, after: EnvView, gen: Counters, l: Location)
        requires
            self.below(gen),
            heap_extended(self.heap, after.heap, gen),
            self.lookup_location(l) is Some,
        ensures
            after.lookup_location(l) == self.lookup_location(l),
    {
        lemma_heap_index_found(self.heap, self.heap.len(), l);
        lemma_heap_index_extended(self.heap, after.heap, gen, after.heap.len(), l);
    }

    /// Where projections led they lead still, after the heap has got entries for
    /// locations that were yet to be handed out.
    pub proof fn lemma_walk_kept(self, after: EnvView, gen: Counters, ty: TyView, projs: Seq<Proj>, i: nat)
        requires
            self.below(gen),
            heap_extended(self.heap, after.heap, gen),
            self.walk(ty, projs, i) is Some,
        ensures
            after.walk(ty, projs, i) == self.walk(ty, projs, i),
        decreases projs.len() - i,
    {
        if i < projs.len() {
            match (ty, projs[i as int]) {
                (TyView::Tuple(fields), Proj::Field(n)) => {
                    self.lemma_walk_kept(after, gen, fields[n as int].1, projs, i + 1);
                },
                (TyView::Ref(_, _, l), Proj::Deref) => {
                    self.lemma_location_kept(after, gen, l);
                    self.lemma_walk_kept(after, gen, self.lookup_location(l).unwrap(), projs, i + 1);
                },
                (TyView::OwnRef(l), Proj::Deref) => {
                    self.lemma_location_kept(after, gen, l);
                    self.lemma_walk_kept(after, gen, self.lookup_location(l).unwrap(), projs, i + 1);
                },
                _ => {},
            }
        }
    }

    /// Updating a type adds entries to the heap only for locations that were yet to be
    /// handed out.
    pub proof fn lemma_update_ty_extends(
        self,
        gen: Counters,
        root: TyView,
        projs: Seq<Proj>,
        i: nat,
        ty: TyView,
    )
        ensures
            self.update_ty(gen, root, projs, i, ty) matches Some((env, g, t)) ==> heap_extended(
                self.heap,
                env.heap,
                gen,
            ),
        decreases projs.len() - i,
    {
        if i < projs.len() {
            match (root, projs[i as int]) {
                (TyView::Tuple(fields), Proj::Field(n)) => {
                    if n < fields.len() {
                        self.lemma_update_ty_extends(gen, fields[n as int].1, projs, i + 1, ty);
                    }
                },
                (TyView::Ref(kind, region, l), Proj::Deref) => {
                    self.lemma_update_pointee_extends(gen, l, projs, i, ty);
                },
                (TyView::OwnRef(l), Proj::Deref) => {
                    self.lemma_update_pointee_extends(gen, l, projs, i, ty);
                },
                _ => {},
            }
        }
    }

    /// Updating what a pointer points to adds entries to the heap only for locations
    /// that were yet to be handed out.
    pub proof fn lemma_update_pointee_extends(
        self,
        gen: Counters,
        l: Location,
        projs: Seq<Proj>,
        i: nat,
        ty: TyView,
    )
        requires
            i < projs.len(),
        ensures
            self.update_pointee(gen, l, projs, i, ty) matches Some((env, g, fresh))
                ==> heap_extended(self.heap, env.heap, gen),
        decreases projs.len() - i, 0nat,
    {
        match self.lookup_location(l) {
            Some(pointee) => {
                if gen.location < usize::MAX {
                    self.lemma_update_ty_extends(
                        Counters { location: gen.location + 1, ..gen },
                        pointee.selfify(Self::at(l)),
                        projs,
                        i + 1,
                        ty,
                    );
                }
            },
            None => {},
        }
    }

    /// A strong update of a place leaves the places of every other local alone: what
    /// such a place held it holds still.
    pub proof fn lemma_update_keeps_other_locals(
        self,
        gen: Counters,
        place: PlaceView,
        ty: TyView,
        other: PlaceView,
    )
        requires
            self.wf(),
            self.below(gen),
            self.update(gen, place, ty) is Some,
            other.base != place.base,
            self.lookup(other) is Some,
        ensures
            self.update(gen, place, ty).unwrap().0.lookup(other) == self.lookup(other),
    {
        let l = self.lookup_local(place.base).unwrap();
        let held = self.lookup_location(l).unwrap();
        let fresh = Location(gen.location as usize);
        let g1 = Counters { location: gen.location + 1, ..gen };
        let root = held.selfify(Self::at(l));
        let (env, g, t) = self.update_ty(g1, root, place.projs, 0, ty).unwrap();
        let after = self.update(gen, place, ty).unwrap().0;
        self.lemma_update_ty_scopes(g1, root, place.projs, 0, ty);
        self.lemma_update_ty_extends(g1, root, place.projs, 0, ty);
        assert(heap_extended(self.heap, after.heap, gen));
        let top = self.locals.last();
        assert(after.locals.last() == top.push((place.base, fresh)));
        lemma_locals_get_prefix(top, after.locals.last(), top.len(), other.base);
        let at = self.lookup_local(other.base).unwrap();
        assert(after.lookup_local(other.base) == Some(at));
        self.lemma_location_kept(after, gen, at);
        self.lemma_walk_kept(after, gen, self.lookup_location(at).unwrap(), other.projs, 0);
    }

    /// Strong updates of places in turn leave the places of every other local alone.
    pub proof fn lemma_update_all_keeps_other_locals(
        self,
        gen: Counters,
        places: Seq<PlaceView>,
        ty: TyView,
        i: nat,
        other: PlaceView,
    )
        requires
            self.wf(),
            self.below(gen),
            self.update_all(gen, places, ty, i) is Some,
            forall|j: int| i <= j < places.len() ==> (#[trigger] places[j]).base != other.base,
            self.lookup(other) is Some,
        ensures
            self.update_all(gen, places, ty, i).unwrap().0.lookup(other) == self.lookup(other),
        decreases places.len() - i,
    {
        if i < places.len() {
            let (env, g) = self.update(gen, places[i as int], ty).unwrap();
            self.lemma_update_keeps_other_locals(gen, places[i as int], ty, other);
            self.lemma_update_below(gen, places[i as int], ty);
            self.lemma_update_wf(gen, places[i as int], ty);
            env.lemma_update_all_keeps_other_locals(g, places, ty, i + 1, other);
        }
    }

    /// A strong update closes no scope.
    pub proof fn lemma_update_wf(self, gen: Counters, place: PlaceView, ty: TyView)
        requires
            self.wf(),
            self.update(gen, place, ty) is Some,
        ensures
            self.update(gen, place, ty).unwrap().0.wf(),
    {
        let l = self.lookup_local(place.base).unwrap();
        let held = self.lookup_location(l).unwrap();
        let g1 = Counters { location: gen.location + 1, ..gen };
        self.lemma_update_ty_scopes(g1, held.selfify(Self::at(l)), place.projs, 0, ty);
    }

    /// After strong updates in turn of places of different locals to one type, each of
    /// the places holds that type.
    pub proof fn lemma_update_all_then_lookup(
        self,
        gen: Counters,
        places: Seq<PlaceView>,
        ty: TyView,
        i: nat,
        k: int,
    )
        requires
            self.wf(),
            self.below(gen),
            self.update_all(gen, places, ty, i) is Some,
            forall|a: int, b: int|
                0 <= a < b < places.len() ==> (#[trigger] places[a]).base != (
                #[trigger] places[b]).base,
            i <= k < places.len(),
        ensures
            self.update_all(gen, places, ty, i).unwrap().0.lookup(places[k]) == Some(ty),
        decreases places.len() - i,
    {
        let (env, g) = self.update(gen, places[i as int], ty).unwrap();
        self.lemma_update_below(gen, places[i as int], ty);
        self.lemma_update_wf(gen, places[i as int], ty);
        if i == k {
            self.lemma_update_then_lookup(gen, places[k], ty);
            env.lemma_update_all_keeps_other_locals(g, places, ty, i + 1, places[k]);
        } else {
            env.lemma_update_all_then_lookup(g, places, ty, i + 1, k);
        }
    }

    /// The end of a mutable borrow that may alias several places, each of a local of
    /// its own, leaves every one of them holding the join type: what the borrow pointed
    /// to with a predicate variable in place of every refinement.
    pub proof fn lemma_join_reaches_every_place(
        self,
        gen: Counters,
        places: Seq<PlaceView>,
        l: Location,
        vars: Seq<Var>,
        k: int,
    )
        requires
            self.wf(),
            self.below(gen),
            places.len() >= 2,
            forall|a: int, b: int|
                0 <= a < b < places.len() ==> (#[trigger] places[a]).base != (
                #[trigger] places[b]).base,
            self.drop_ref(gen, RegionView::Concrete(places), l, vars) is Some,
            0 <= k < places.len(),
        ensures
            self.lookup_location(l) matches Some(pointee) && pointee.with_kvars(
                true,
                gen.kvar,
                vars,
            ) matches Some((_, join)) && self.drop_ref(
                gen,
                RegionView::Concrete(places),
                l,
                vars,
            ).unwrap().0.lookup(places[k]) == Some(join),
    {
        let pointee = self.lookup_location(l).unwrap();
        let (n, join) = pointee.with_kvars(true, gen.kvar, vars).unwrap();
        self.lemma_update_all_then_lookup(Counters { kvar: n, ..gen }, places, join, 0, k);
    }

    /// The end of a mutable borrow that may alias one place leaves that place holding
    /// what the borrow pointed to.
    pub proof fn lemma_end_of_borrow_writes_back(
        self,
        gen: Counters,
        place: PlaceView,
        l: Location,
        vars: Seq<Var>,
    )
        requires
            self.wf(),
            self.drop_ref(gen, RegionView::Concrete(seq![place]), l, vars) is Some,
        ensures
            self.drop_ref(gen, RegionView::Concrete(seq![place]), l, vars).unwrap().0.lookup(place)
                == self.lookup_location(l),
    {
        let pointee = self.lookup_location(l).unwrap();
        self.lemma_update_then_lookup(gen, place, pointee);
    }
}

} // verus!
