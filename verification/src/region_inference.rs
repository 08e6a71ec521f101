//! Region inference: where the signature of a continuation leaves open which places a
//! borrow may alias, the body tells.
//!
//! A region variable is a heap entry of a continuation's signature that holds a borrow
//! whose region is yet to be inferred; it is known by the location of the entry. The
//! body is walked as the checker walks it, and wherever control passes to a
//! continuation (a jump, or the return of a call), the places that the borrow passed
//! for the entry may alias are added to what the variable stands for. The walk is
//! repeated, each time with what was found so far in place of the variables, until it
//! finds nothing new. A region only grows.

use crate::ast::{
    conts_view, heap_get, lemma_let_cont_view, places_view, BaseTy, ContDef, ContDefView, ContTy,
    ContTyView, FnBody, FnBodyView, FnDecl, FnDeclView, FnDef, FnDefView, Heap, Place, PlaceView,
    Region, RegionView, Ty, TyView,
};
use crate::env::{ContEnv, ContEnvView, Env, EnvView};
use crate::names::{ContId, FnId, Local, Location};
use crate::refineck::{
    find_sig, firsts, fn_sig, instantiate, instantiate_ty, locations_of, locations_of_in, seconds,
    sigs_view, zipped, CheckState, RefineChecker,
};
use crate::ty::{heap_with_kvars, Counters, TyCtxt, TypeLowerer};
use vstd::prelude::*;

verus! {

/// A region variable with the places that it is known to stand for.
#[derive(Debug, PartialEq, Eq)]
pub struct RegionVar {
    pub location: Location,
    pub places: Vec<Place>,
}

impl View for RegionVar {
    type V = (Location, Seq<PlaceView>);

    open spec fn view(&self) -> (Location, Seq<PlaceView>) {
        (self.location, places_view(self.places@))
    }
}

/// The region variables of a list, each by what it denotes.
pub open spec fn vars_view(vars: Seq<RegionVar>) -> Seq<(Location, Seq<PlaceView>)> {
    Seq::new(vars.len(), |i: int| vars[i]@)
}

/// The position of the variable for `l` among `sol`, from the `i`-th on.
pub open spec fn var_index(sol: Seq<(Location, Seq<PlaceView>)>, l: Location, i: nat) -> Option<
    int,
>
    decreases sol.len() - i,
{
    if i >= sol.len() {
        None
    } else if sol[i as int].0 == l {
        Some(i as int)
    } else {
        var_index(sol, l, i + 1)
    }
}

/// `have` with those of the places `ps`, from the `i`-th on, that it lacks, in order.
pub open spec fn add_places(have: Seq<PlaceView>, ps: Seq<PlaceView>, i: nat) -> Seq<PlaceView>
    decreases ps.len() - i,
{
    if i >= ps.len() {
        have
    } else if have.contains(ps[i as int]) {
        add_places(have, ps, i + 1)
    } else {
        add_places(have.push(ps[i as int]), ps, i + 1)
    }
}

/// `sol` with the places `ps` added to what the variable for `l` stands for.
pub open spec fn add_to_var(sol: Seq<(Location, Seq<PlaceView>)>, l: Location, ps: Seq<PlaceView>)
    -> Seq<(Location, Seq<PlaceView>)> {
    match var_index(sol, l, 0) {
        Some(k) => sol.update(k, (l, add_places(sol[k].1, ps, 0))),
        None => sol,
    }
}

/// Adding places keeps those that were there, in their order.
pub proof fn lemma_add_places_grows(have: Seq<PlaceView>, ps: Seq<PlaceView>, i: nat)
    ensures
        have.is_prefix_of(add_places(have, ps, i)),
        forall|j: int| i <= j < ps.len() ==> add_places(have, ps, i).contains(#[trigger] ps[j]),
    decreases ps.len() - i,
{
    if i < ps.len() {
        let next = if have.contains(ps[i as int]) {
            have
        } else {
            have.push(ps[i as int])
        };
        lemma_add_places_grows(next, ps, i + 1);
        let all = add_places(have, ps, i);
        assert(next.contains(ps[i as int])) by {
            if !have.contains(ps[i as int]) {
                assert(next[have.len() as int] == ps[i as int]);
            }
        }
        let k = choose|k: int| 0 <= k < next.len() && next[k] == ps[i as int];
        assert(all[k] == ps[i as int]);
    }
}

/// The variables of `heap`, from the `i`-th entry on, after `done`: one for each entry
/// that holds a borrow whose region is yet to be inferred, standing for no place.
pub open spec fn heap_vars(
    heap: Seq<(Location, TyView)>,
    i: nat,
    done: Seq<(Location, Seq<PlaceView>)>,
) -> Seq<(Location, Seq<PlaceView>)>
    decreases heap.len() - i,
{
    if i >= heap.len() {
        done
    } else {
        match heap[i as int].1 {
            TyView::Ref(_, RegionView::Infer, _) => heap_vars(
                heap,
                i + 1,
                done.push((heap[i as int].0, Seq::empty())),
            ),
            _ => heap_vars(heap, i + 1, done),
        }
    }
}

/// The variables of the continuations of `b`, after `done`, in the order of the body.
pub open spec fn body_vars<I>(b: FnBodyView<I>, done: Seq<(Location, Seq<PlaceView>)>) -> Seq<
    (Location, Seq<PlaceView>),
>
    decreases b, 0nat,
{
    match b {
        FnBodyView::LetCont(defs, rest) => body_vars(*rest, conts_vars(defs, 0, done)),
        FnBodyView::Ite { discr, then, else_ } => body_vars(*else_, body_vars(*then, done)),
        FnBodyView::Sequence(_, rest) => body_vars(*rest, done),
        _ => done,
    }
}

/// The variables of the continuations `defs`, from the `i`-th on, after `done`.
pub open spec fn conts_vars<I>(
    defs: Seq<ContDefView<I>>,
    i: nat,
    done: Seq<(Location, Seq<PlaceView>)>,
) -> Seq<(Location, Seq<PlaceView>)>
    decreases defs, defs.len() - i,
{
    if i >= defs.len() {
        done
    } else {
        conts_vars(
            defs,
            i + 1,
            body_vars(*defs[i as int].body, heap_vars(defs[i as int].ty.heap, 0, done)),
        )
    }
}

/// `ty`, which the location `l` holds, with what the variable for `l` stands for in
/// place of a region that is yet to be inferred.
pub open spec fn resolve_ty(ty: TyView, l: Location, sol: Seq<(Location, Seq<PlaceView>)>)
    -> TyView {
    match ty {
        TyView::Ref(kind, RegionView::Infer, p) => match var_index(sol, l, 0) {
            Some(k) => TyView::Ref(kind, RegionView::Concrete(sol[k].1), p),
            None => ty,
        },
        _ => ty,
    }
}

/// `heap` with what the variables stand for in place of the regions that are yet to be
/// inferred.
pub open spec fn resolve_heap(heap: Seq<(Location, TyView)>, sol: Seq<(Location, Seq<PlaceView>)>)
    -> Seq<(Location, TyView)> {
    Seq::new(heap.len(), |i: int| (heap[i].0, resolve_ty(heap[i].1, heap[i].0, sol)))
}

/// The signature with what the variables stand for in place of the regions that are
/// yet to be inferred.
pub open spec fn resolve_cont_ty(ty: ContTyView, sol: Seq<(Location, Seq<PlaceView>)>)
    -> ContTyView {
    ContTyView { heap: resolve_heap(ty.heap, sol), ..ty }
}

/// The body with what the variables stand for in place of the regions of its
/// continuations that are yet to be inferred.
pub open spec fn resolve_body<I>(b: FnBodyView<I>, sol: Seq<(Location, Seq<PlaceView>)>)
    -> FnBodyView<I>
    decreases b, 0nat,
{
    match b {
        FnBodyView::LetCont(defs, rest) => FnBodyView::LetCont(
            Seq::new(
                defs.len(),
                |i: int|
                    if 0 <= i < defs.len() {
                        resolve_cont(defs[i], sol)
                    } else {
                        arbitrary()
                    },
            ),
            Box::new(resolve_body(*rest, sol)),
        ),
        FnBodyView::Ite { discr, then, else_ } => FnBodyView::Ite {
            discr,
            then: Box::new(resolve_body(*then, sol)),
            else_: Box::new(resolve_body(*else_, sol)),
        },
        FnBodyView::Sequence(s, rest) => FnBodyView::Sequence(
            s,
            Box::new(resolve_body(*rest, sol)),
        ),
        _ => b,
    }
}

/// The continuation with what the variables stand for in place of the regions that
/// are yet to be inferred.
pub open spec fn resolve_cont<I>(def: ContDefView<I>, sol: Seq<(Location, Seq<PlaceView>)>)
    -> ContDefView<I>
    decreases def, 1nat,
{
    ContDefView {
        name: def.name,
        params: def.params,
        body: Box::new(resolve_body(*def.body, sol)),
        ty: resolve_cont_ty(def.ty, sol),
    }
}

/// What a borrow that is passed for the entry at `l` of a signature adds to `sol`:
/// where `l` is a variable, the places that the borrow may alias. There is nothing
/// where what is passed for a variable is no borrow of the kind of the entry with a
/// region of places.
pub open spec fn collect(
    actual: TyView,
    formal: TyView,
    l: Location,
    sol: Seq<(Location, Seq<PlaceView>)>,
) -> Option<Seq<(Location, Seq<PlaceView>)>> {
    match (var_index(sol, l, 0), formal) {
        (Some(_), TyView::Ref(k2, _, _)) => match actual {
            TyView::Ref(k1, RegionView::Concrete(ps), _) => if k1 == k2 {
                Some(add_to_var(sol, l, ps))
            } else {
                None
            },
            _ => None,
        },
        _ => Some(sol),
    }
}

/// What passing what the environment holds at the locations `to`, from the `i`-th on,
/// for what the signature heap `sig` holds at the locations `from` adds to `sol`.
pub open spec fn collect_all(
    env: EnvView,
    sig: Seq<(Location, TyView)>,
    from: Seq<Location>,
    to: Seq<Location>,
    i: nat,
    sol: Seq<(Location, Seq<PlaceView>)>,
) -> Option<Seq<(Location, Seq<PlaceView>)>>
    decreases from.len() - i,
{
    if i >= from.len() || i >= to.len() {
        Some(sol)
    } else {
        match (env.lookup_location(to[i as int]), heap_get(sig, from[i as int])) {
            (Some(actual), Some(formal)) => match collect(actual, formal, from[i as int], sol) {
                Some(sol) => collect_all(env, sig, from, to, i + 1, sol),
                None => None,
            },
            (Some(_), None) => if to[i as int] == from[i as int] {
                collect_all(env, sig, from, to, i + 1, sol)
            } else {
                None
            },
            _ => None,
        }
    }
}

/// What a jump to `target` with the arguments `args` adds to `sol`.
#[verifier::opaque]
pub open spec fn jump_regions(
    st: CheckState,
    sol: Seq<(Location, Seq<PlaceView>)>,
    target: ContId,
    args: Seq<Local>,
) -> Option<Seq<(Location, Seq<PlaceView>)>> {
    match st.conts.get_ty(target) {
        Some(ty) => if args.len() == ty.inputs.len() {
            match locations_of(st.env, args + firsts(ty.locals), 0, Seq::empty()) {
                Some(to) => collect_all(
                    st.env,
                    ty.heap,
                    ty.inputs + seconds(ty.locals),
                    to,
                    0,
                    sol,
                ),
                None => None,
            }
        } else {
            None
        },
        None => None,
    }
}

/// What a call does to the state, and what its return adds to `sol`.
#[verifier::opaque]
pub open spec fn call_regions(
    st: CheckState,
    sol: Seq<(Location, Seq<PlaceView>)>,
    fns: Seq<(FnId, FnDeclView)>,
    func: FnId,
    args: Seq<Local>,
    destination: Option<(PlaceView, ContId)>,
) -> Option<(CheckState, Seq<(Location, Seq<PlaceView>)>)> {
    match fn_sig(fns, func, 0) {
        Some(sig) => if args.len() == sig.inputs.len() {
            match locations_of(st.env, args, 0, Seq::empty()) {
                Some(to) => match destination {
                    None => Some((st, sol)),
                    Some((place, ret)) => match heap_get(sig.out_heap, sig.output) {
                        Some(out) => match st.env.update(
                            st.gen,
                            place,
                            instantiate(out, seconds(sig.inputs), to, 0),
                        ) {
                            Some((env, gen)) => {
                                let st = CheckState { env, gen, ..st };
                                match jump_regions(st, sol, ret, Seq::empty()) {
                                    Some(sol) => Some((st, sol)),
                                    None => None,
                                }
                            },
                            None => None,
                        },
                        None => None,
                    },
                },
                None => None,
            }
        } else {
            None
        },
        None => None,
    }
}

/// The state after the signatures of `defs`, from the `i`-th on, have been defined,
/// with what the variables stand for in place of the regions that are yet to be
/// inferred.
pub open spec fn define_resolved<I>(
    st: CheckState,
    sol: Seq<(Location, Seq<PlaceView>)>,
    defs: Seq<ContDefView<I>>,
    i: nat,
) -> Option<CheckState>
    decreases defs.len() - i,
{
    if i >= defs.len() {
        Some(st)
    } else {
        let def = defs[i as int];
        match heap_with_kvars(
            resolve_heap(def.ty.heap, sol),
            st.gen.kvar,
            st.env.vars_in_scope(),
            0,
            Seq::empty(),
        ) {
            Some((k, heap)) => define_resolved(
                CheckState {
                    conts: st.conts.define(
                        def.name,
                        ContTyView { heap, locals: def.ty.locals, inputs: def.ty.inputs },
                    ),
                    gen: Counters { kvar: k, ..st.gen },
                    ..st
                },
                sol,
                defs,
                i + 1,
            ),
            None => None,
        }
    }
}

/// What the walk of a body adds to `sol`, and the state that it leaves. The walk goes
/// as the check goes; where the check asks that one type pass for another, the
/// walk adds to the variables.
pub open spec fn walk<I>(
    st: CheckState,
    sol: Seq<(Location, Seq<PlaceView>)>,
    fns: Seq<(FnId, FnDeclView)>,
    b: FnBodyView<I>,
) -> Option<(CheckState, Seq<(Location, Seq<PlaceView>)>)>
    decreases b, 1nat,
{
    match b {
        FnBodyView::LetCont(_, _) => walk_let_cont(st, sol, fns, b),
        FnBodyView::Ite { .. } => walk_ite(st, sol, fns, b),
        FnBodyView::Call { func, args, destination } => call_regions(
            st,
            sol,
            fns,
            func,
            args,
            destination,
        ),
        FnBodyView::Jump { target, args } => match jump_regions(st, sol, target, args) {
            Some(sol) => Some((st, sol)),
            None => None,
        },
        FnBodyView::Sequence(_, _) => walk_sequence(st, sol, fns, b),
        FnBodyView::Abort => Some((st, sol)),
    }
}

pub open spec fn walk_let_cont<I>(
    st: CheckState,
    sol: Seq<(Location, Seq<PlaceView>)>,
    fns: Seq<(FnId, FnDeclView)>,
    b: FnBodyView<I>,
) -> Option<(CheckState, Seq<(Location, Seq<PlaceView>)>)>
    decreases b, 0nat,
{
    match b {
        FnBodyView::LetCont(defs, rest) => match define_resolved(st, sol, defs, 0) {
            Some(st) => match walk_conts(st, sol, fns, defs, 0) {
                Some((st, sol)) => walk(st, sol, fns, *rest),
                None => None,
            },
            None => None,
        },
        _ => None,
    }
}

pub open spec fn walk_ite<I>(
    st: CheckState,
    sol: Seq<(Location, Seq<PlaceView>)>,
    fns: Seq<(FnId, FnDeclView)>,
    b: FnBodyView<I>,
) -> Option<(CheckState, Seq<(Location, Seq<PlaceView>)>)>
    decreases b, 0nat,
{
    match b {
        FnBodyView::Ite { discr, then, else_ } => match st.env.lookup(discr) {
            Some(TyView::Refine(BaseTy::Bool, _)) => match walk_arm(st, sol, fns, *then) {
                Some((st, sol)) => walk_arm(st, sol, fns, *else_),
                None => None,
            },
            _ => None,
        },
        _ => None,
    }
}

/// The walk of `b` in a scope of its own, after which the state is as before it.
pub open spec fn walk_arm<I>(
    st: CheckState,
    sol: Seq<(Location, Seq<PlaceView>)>,
    fns: Seq<(FnId, FnDeclView)>,
    b: FnBodyView<I>,
) -> Option<(CheckState, Seq<(Location, Seq<PlaceView>)>)>
    decreases b, 2nat,
{
    match walk(CheckState { env: st.env.snapshot(), ..st }, sol, fns, b) {
        Some((after, sol)) => Some(
            (
                CheckState {
                    env: after.env.rollback(st.env.heap.len(), st.env.locals.len()),
                    ..after
                },
                sol,
            ),
        ),
        None => None,
    }
}

pub open spec fn walk_sequence<I>(
    st: CheckState,
    sol: Seq<(Location, Seq<PlaceView>)>,
    fns: Seq<(FnId, FnDeclView)>,
    b: FnBodyView<I>,
) -> Option<(CheckState, Seq<(Location, Seq<PlaceView>)>)>
    decreases b, 0nat,
{
    match b {
        FnBodyView::Sequence(statement, rest) => match st.statement(statement.kind) {
            Some((st, _)) => walk(st, sol, fns, *rest),
            None => None,
        },
        _ => None,
    }
}

/// The walk of the bodies of the continuations `defs`, from the `i`-th on.
pub open spec fn walk_conts<I>(
    st: CheckState,
    sol: Seq<(Location, Seq<PlaceView>)>,
    fns: Seq<(FnId, FnDeclView)>,
    defs: Seq<ContDefView<I>>,
    i: nat,
) -> Option<(CheckState, Seq<(Location, Seq<PlaceView>)>)>
    decreases defs, defs.len() - i,
{
    if i >= defs.len() {
        Some((st, sol))
    } else {
        match walk_cont(st, sol, fns, defs[i as int]) {
            Some((st, sol)) => walk_conts(st, sol, fns, defs, i + 1),
            None => None,
        }
    }
}

/// The walk of the body of a continuation, in a scope of its own, over the heap that
/// the continuation requires.
pub open spec fn walk_cont<I>(
    st: CheckState,
    sol: Seq<(Location, Seq<PlaceView>)>,
    fns: Seq<(FnId, FnDeclView)>,
    def: ContDefView<I>,
) -> Option<(CheckState, Seq<(Location, Seq<PlaceView>)>)>
    decreases def, 0nat,
{
    match st.conts.get_ty(def.name) {
        Some(ty) => if def.params.len() == ty.inputs.len() {
            let env = EnvView {
                locals: st.env.locals.push(ty.locals + zipped(def.params, ty.inputs)),
                heap: st.env.heap + ty.heap,
            };
            match walk(CheckState { env, ..st }, sol, fns, *def.body) {
                Some((after, sol)) => Some(
                    (
                        CheckState {
                            env: after.env.rollback(st.env.heap.len(), st.env.locals.len()),
                            ..after
                        },
                        sol,
                    ),
                ),
                None => None,
            }
        } else {
            None
        },
        None => None,
    }
}

/// What one walk of a function adds to `sol`. The walk starts as the check starts:
/// with the parameters bound over the input heap, and the return continuation
/// defined.
pub open spec fn walk_fn<I>(
    gen: Counters,
    fns: Seq<(FnId, FnDeclView)>,
    def: FnDefView<I>,
    sol: Seq<(Location, Seq<PlaceView>)>,
) -> Option<Seq<(Location, Seq<PlaceView>)>> {
    if def.params.len() != def.ty.inputs.len() {
        None
    } else {
        match heap_with_kvars(def.ty.in_heap, gen.kvar, Seq::empty(), 0, Seq::empty()) {
            Some((k, in_heap)) => {
                let env = EnvView {
                    locals: seq![zipped(def.params, seconds(def.ty.inputs))],
                    heap: in_heap,
                };
                match heap_with_kvars(def.ty.out_heap, k, env.vars_in_scope(), 0, Seq::empty()) {
                    Some((k, out_heap)) => {
                        let conts = (ContEnvView { layers: seq![Map::empty()], tys: Seq::empty() }).define(
                            def.ret,
                            ContTyView {
                                heap: out_heap,
                                locals: Seq::empty(),
                                inputs: seq![def.ty.output],
                            },
                        );
                        let st = CheckState { env, conts, gen: Counters { kvar: k, ..gen } };
                        match walk(st, sol, fns, def.body) {
                            Some((_, sol)) => Some(sol),
                            None => None,
                        }
                    },
                    None => None,
                }
            },
            None => None,
        }
    }
}

/// What the variables stand for when a walk of the function finds nothing new, if
/// that is so within `rounds` walks from `sol`.
pub open spec fn solve<I>(
    gen: Counters,
    fns: Seq<(FnId, FnDeclView)>,
    def: FnDefView<I>,
    sol: Seq<(Location, Seq<PlaceView>)>,
    rounds: nat,
) -> Option<Seq<(Location, Seq<PlaceView>)>>
    decreases rounds,
{
    if rounds == 0 {
        None
    } else {
        match walk_fn(gen, fns, def, sol) {
            Some(next) => if next == sol {
                Some(sol)
            } else {
                solve(gen, fns, def, next, (rounds - 1) as nat)
            },
            None => None,
        }
    }
}

/// The function with the regions of its continuations inferred, if the walks find
/// nothing new within `rounds` of them.
pub open spec fn inferred<I>(
    gen: Counters,
    fns: Seq<(FnId, FnDeclView)>,
    def: FnDefView<I>,
    rounds: nat,
) -> Option<FnDefView<I>> {
    match solve(gen, fns, def, body_vars(def.body, Seq::empty()), rounds) {
        Some(sol) => Some(FnDefView { body: resolve_body(def.body, sol), ..def }),
        None => None,
    }
}

/// Whether `later` has the variables of `sol`, each standing for what it stood for and
/// maybe more.
pub open spec fn grows(sol: Seq<(Location, Seq<PlaceView>)>, later: Seq<(Location, Seq<PlaceView>)>)
    -> bool {
    &&& sol.len() == later.len()
    &&& forall|k: int|
        0 <= k < sol.len() ==> (#[trigger] later[k]).0 == sol[k].0 && sol[k].1.is_prefix_of(
            later[k].1,
        )
}

/// The position that `var_index` gives is one of the variable.
pub proof fn lemma_var_index(sol: Seq<(Location, Seq<PlaceView>)>, l: Location, i: nat)
    ensures
        var_index(sol, l, i) matches Some(k) ==> i <= k < sol.len() && sol[k].0 == l,
    decreases sol.len() - i,
{
    if i < sol.len() && sol[i as int].0 != l {
        lemma_var_index(sol, l, i + 1);
    }
}

/// A region only grows when places are added to a variable.
pub proof fn lemma_add_to_var_grows(sol: Seq<(Location, Seq<PlaceView>)>, l: Location, ps: Seq<PlaceView>)
    ensures
        grows(sol, add_to_var(sol, l, ps)),
{
    lemma_var_index(sol, l, 0);
    match var_index(sol, l, 0) {
        Some(k) => {
            lemma_add_places_grows(sol[k].1, ps, 0);
        },
        None => {},
    }
}

/// A region only grows when what is passed to a continuation is collected.
pub proof fn lemma_collect_all_grows(
    env: EnvView,
    sig: Seq<(Location, TyView)>,
    from: Seq<Location>,
    to: Seq<Location>,
    i: nat,
    sol: Seq<(Location, Seq<PlaceView>)>,
)
    ensures
        collect_all(env, sig, from, to, i, sol) matches Some(later) ==> grows(sol, later),
    decreases from.len() - i,
{
    if i >= from.len() || i >= to.len() {
    } else {
        match (env.lookup_location(to[i as int]), heap_get(sig, from[i as int])) {
            (Some(actual), Some(formal)) => {
                match collect(actual, formal, from[i as int], sol) {
                    Some(next) => {
                        match actual {
                            TyView::Ref(_, RegionView::Concrete(ps), _) => {
                                lemma_add_to_var_grows(sol, from[i as int], ps);
                            },
                            _ => {},
                        }
                        lemma_collect_all_grows(env, sig, from, to, i + 1, next);
                    },
                    None => {},
                }
            },
            (Some(_), None) => {
                lemma_collect_all_grows(env, sig, from, to, i + 1, sol);
            },
            _ => {},
        }
    }
}

/// A region only grows at a jump.
pub proof fn lemma_jump_grows(
    st: CheckState,
    sol: Seq<(Location, Seq<PlaceView>)>,
    target: ContId,
    args: Seq<Local>,
)
    ensures
        jump_regions(st, sol, target, args) matches Some(later) ==> grows(sol, later),
{
    reveal(jump_regions);
    match st.conts.get_ty(target) {
        Some(ty) => {
            match locations_of(st.env, args + firsts(ty.locals), 0, Seq::empty()) {
                Some(to) => {
                    lemma_collect_all_grows(
                        st.env,
                        ty.heap,
                        ty.inputs + seconds(ty.locals),
                        to,
                        0,
                        sol,
                    );
                },
                None => {},
            }
        },
        None => {},
    }
}

/// A region only grows at a call.
pub proof fn lemma_call_grows(
    st: CheckState,
    sol: Seq<(Location, Seq<PlaceView>)>,
    fns: Seq<(FnId, FnDeclView)>,
    func: FnId,
    args: Seq<Local>,
    destination: Option<(PlaceView, ContId)>,
)
    ensures
        call_regions(st, sol, fns, func, args, destination) matches Some((_, later)) ==> grows(
            sol,
            later,
        ),
{
    reveal(call_regions);
    match call_regions(st, sol, fns, func, args, destination) {
        Some((after, later)) => {
            match destination {
                Some((place, ret)) => {
                    lemma_jump_grows(after, sol, ret, Seq::empty());
                },
                None => {},
            }
        },
        None => {},
    }
}

/// Regions only grow: what a walk of a body leaves the variables standing for
/// includes what they stood for before it.
pub proof fn lemma_walk_grows<I>(
    st: CheckState,
    sol: Seq<(Location, Seq<PlaceView>)>,
    fns: Seq<(FnId, FnDeclView)>,
    b: FnBodyView<I>,
)
    ensures
        walk(st, sol, fns, b) matches Some((_, later)) ==> grows(sol, later),
    decreases b, 3nat,
{
    match b {
        FnBodyView::LetCont(defs, rest) => {
            match define_resolved(st, sol, defs, 0) {
                Some(st1) => {
                    lemma_walk_conts_grows(st1, sol, fns, defs, 0);
                    match walk_conts(st1, sol, fns, defs, 0) {
                        Some((st2, sol2)) => {
                            lemma_walk_grows(st2, sol2, fns, *rest);
                        },
                        None => {},
                    }
                },
                None => {},
            }
        },
        FnBodyView::Ite { discr, then, else_ } => {
            lemma_walk_arm_grows(st, sol, fns, *then);
            match walk_arm(st, sol, fns, *then) {
                Some((st1, sol1)) => {
                    lemma_walk_arm_grows(st1, sol1, fns, *else_);
                },
                None => {},
            }
        },
        FnBodyView::Call { func, args, destination } => {
            lemma_call_grows(st, sol, fns, func, args, destination);
        },
        FnBodyView::Jump { target, args } => {
            lemma_jump_grows(st, sol, target, args);
        },
        FnBodyView::Sequence(statement, rest) => {
            match st.statement(statement.kind) {
                Some((st1, _)) => {
                    lemma_walk_grows(st1, sol, fns, *rest);
                },
                None => {},
            }
        },
        FnBodyView::Abort => {},
    }
}

/// Regions only grow over the walk of an arm.
pub proof fn lemma_walk_arm_grows<I>(
    st: CheckState,
    sol: Seq<(Location, Seq<PlaceView>)>,
    fns: Seq<(FnId, FnDeclView)>,
    b: FnBodyView<I>,
)
    ensures
        walk_arm(st, sol, fns, b) matches Some((_, later)) ==> grows(sol, later),
    decreases b, 4nat,
{
    lemma_walk_grows(CheckState { env: st.env.snapshot(), ..st }, sol, fns, b);
}

/// Regions only grow over the walks of the continuations of a group.
pub proof fn lemma_walk_conts_grows<I>(
    st: CheckState,
    sol: Seq<(Location, Seq<PlaceView>)>,
    fns: Seq<(FnId, FnDeclView)>,
    defs: Seq<ContDefView<I>>,
    i: nat,
)
    ensures
        walk_conts(st, sol, fns, defs, i) matches Some((_, later)) ==> grows(sol, later),
    decreases defs, defs.len() - i,
{
    if i < defs.len() {
        let def = defs[i as int];
        match st.conts.get_ty(def.name) {
            Some(ty) => {
                let env = EnvView {
                    locals: st.env.locals.push(ty.locals + zipped(def.params, ty.inputs)),
                    heap: st.env.heap + ty.heap,
                };
                lemma_walk_grows(CheckState { env, ..st }, sol, fns, *def.body);
            },
            None => {},
        }
        match walk_cont(st, sol, fns, def) {
            Some((st1, sol1)) => {
                lemma_walk_conts_grows(st1, sol1, fns, defs, i + 1);
            },
            None => {},
        }
    }
}

fn contains_place(have: &Vec<Place>, p: &Place) -> (b: bool)
    ensures
        b == places_view(have@).contains(p@),
{
    let mut i: usize = 0;
    while i < have.len()
        invariant
            i <= have.len(),
            forall|j: int| 0 <= j < i ==> places_view(have@)[j] != p@,
        decreases have.len() - i,
    {
        if have[i].same(p) {
            assert(places_view(have@)[i as int] == p@);
            return true;
        }
        i += 1;
    }
    false
}

fn add_places_to(have: Vec<Place>, ps: &Vec<Place>) -> (r: Vec<Place>)
    ensures
        places_view(r@) == add_places(places_view(have@), places_view(ps@), 0),
{
    let ghost start = places_view(have@);
    let mut have = have;
    let mut i: usize = 0;
    while i < ps.len()
        invariant
            i <= ps.len(),
            add_places(places_view(have@), places_view(ps@), i as nat) == add_places(
                start,
                places_view(ps@),
                0,
            ),
        decreases ps.len() - i,
    {
        if !contains_place(&have, &ps[i]) {
            let p = ps[i].clone();
            proof {
                assert(places_view(have@.push(p)) =~= places_view(have@).push(p@));
            }
            have.push(p);
        }
        i += 1;
    }
    have
}

fn find_var(sol: &Vec<RegionVar>, l: Location) -> (k: Option<usize>)
    ensures
        match k {
            Some(k) => var_index(vars_view(sol@), l, 0) == Some(k as int) && k < sol.len(),
            None => var_index(vars_view(sol@), l, 0) is None,
        },
{
    let mut i: usize = 0;
    while i < sol.len()
        invariant
            i <= sol.len(),
            var_index(vars_view(sol@), l, i as nat) == var_index(vars_view(sol@), l, 0),
        decreases sol.len() - i,
    {
        if sol[i].location == l {
            return Some(i);
        }
        i += 1;
    }
    None
}

fn add_to_var_in(sol: &mut Vec<RegionVar>, l: Location, ps: &Vec<Place>)
    ensures
        vars_view(final(sol)@) == add_to_var(vars_view(old(sol)@), l, places_view(ps@)),
{
    match find_var(sol, l) {
        Some(k) => {
            let have = crate::ast::clone_places(&sol[k].places);
            let places = add_places_to(have, ps);
            sol[k] = RegionVar { location: l, places };
            assert(vars_view(sol@) =~= add_to_var(vars_view(old(sol)@), l, places_view(ps@)));
        },
        None => {},
    }
}

fn heap_vars_of(heap: &Heap, sol: &mut Vec<RegionVar>)
    ensures
        vars_view(final(sol)@) == heap_vars(heap@, 0, vars_view(old(sol)@)),
{
    let mut i: usize = 0;
    while i < heap.0.len()
        invariant
            i <= heap.0.len(),
            heap@.len() == heap.0.len(),
            heap_vars(heap@, i as nat, vars_view(sol@)) == heap_vars(
                heap@,
                0,
                vars_view(old(sol)@),
            ),
        decreases heap.0.len() - i,
    {
        match &heap.0[i].1 {
            Ty::Ref(_, Region::Infer, _) => {
                let var = RegionVar { location: heap.0[i].0, places: Vec::new() };
                proof {
                    assert(places_view(var.places@) =~= Seq::empty());
                    assert(vars_view(sol@.push(var)) =~= vars_view(sol@).push(
                        (heap@[i as int].0, Seq::empty()),
                    ));
                }
                sol.push(var);
            },
            _ => {},
        }
        i += 1;
    }
}

#[verifier::loop_isolation(false)]
fn body_vars_of<I>(body: &FnBody<I>, sol: &mut Vec<RegionVar>)
    ensures
        vars_view(final(sol)@) == body_vars(body@, vars_view(old(sol)@)),
    decreases body,
{
    match body {
        FnBody::LetCont(defs, rest) => {
            let ghost ds = conts_view(defs@);
            proof {
                lemma_let_cont_view(*defs, *rest);
            }
            let mut i: usize = 0;
            while i < defs.len()
                invariant
                    i <= defs.len(),
                    conts_vars(ds, i as nat, vars_view(sol@)) == conts_vars(
                        ds,
                        0,
                        vars_view(old(sol)@),
                    ),
                decreases defs.len() - i,
            {
                heap_vars_of(&defs[i].ty.heap, sol);
                body_vars_of(&defs[i].body, sol);
                i += 1;
            }
            body_vars_of(rest, sol);
        },
        FnBody::Ite { discr, then, else_ } => {
            body_vars_of(then, sol);
            body_vars_of(else_, sol);
        },
        FnBody::Sequence(_, rest) => {
            body_vars_of(rest, sol);
        },
        _ => {},
    }
}

fn resolve_ty_of(ty: &Ty, l: Location, sol: &Vec<RegionVar>) -> (r: Ty)
    ensures
        r@ == resolve_ty(ty@, l, vars_view(sol@)),
{
    match ty {
        Ty::Ref(kind, Region::Infer, p) => match find_var(sol, l) {
            Some(k) => Ty::Ref(*kind, Region::Concrete(crate::ast::clone_places(&sol[k].places)), *p),
            None => ty.clone(),
        },
        _ => ty.clone(),
    }
}

fn resolve_heap_of(heap: &Heap, sol: &Vec<RegionVar>) -> (r: Heap)
    ensures
        r@ == resolve_heap(heap@, vars_view(sol@)),
{
    let mut out = Heap::new();
    let mut i: usize = 0;
    while i < heap.0.len()
        invariant
            i <= heap.0.len(),
            heap@.len() == heap.0.len(),
            out@.len() == i,
            forall|j: int|
                0 <= j < i ==> out@[j] == (
                    heap@[j].0,
                    resolve_ty(heap@[j].1, heap@[j].0, vars_view(sol@)),
                ),
        decreases heap.0.len() - i,
    {
        let l = heap.0[i].0;
        let t = resolve_ty_of(&heap.0[i].1, l, sol);
        out.insert(l, t);
        i += 1;
    }
    assert(out@ =~= resolve_heap(heap@, vars_view(sol@)));
    out
}

fn resolve_cont_ty_of(ty: &ContTy, sol: &Vec<RegionVar>) -> (r: ContTy)
    ensures
        r@ == resolve_cont_ty(ty@, vars_view(sol@)),
{
    ContTy {
        heap: resolve_heap_of(&ty.heap, sol),
        locals: crate::ast::clone_copies(&ty.locals),
        inputs: crate::ast::clone_copies(&ty.inputs),
    }
}

#[verifier::loop_isolation(false)]
fn resolve_body_of<I>(body: FnBody<I>, sol: &Vec<RegionVar>) -> (r: FnBody<I>)
    ensures
        r@ == resolve_body(body@, vars_view(sol@)),
    decreases body,
{
    match body {
        FnBody::LetCont(defs, rest) => {
            let ghost ds = conts_view(defs@);
            let ghost defs0 = defs@;
            proof {
                lemma_let_cont_view(defs, rest);
            }
            let mut pending = crate::ast::reversed(defs);
            let mut out: Vec<ContDef<I>> = Vec::new();
            while pending.len() > 0
                invariant
                    pending@.len() + out@.len() == defs0.len(),
                    forall|j: int|
                        0 <= j < pending@.len() ==> pending@[j] == defs0[defs0.len() - 1 - j],
                    forall|j: int|
                        0 <= j < out@.len() ==> (#[trigger] out@[j])@ == resolve_cont(
                            ds[j],
                            vars_view(sol@),
                        ),
                decreases pending.len(),
            {
                let ghost k = out@.len() as int;
                let def = pending.pop().unwrap();
                assert(def == defs0[k]);
                assert(decreases_to!(body => body->LetCont_0));
                assert(decreases_to!(body->LetCont_0 => body->LetCont_0[k]));
                let ty = resolve_cont_ty_of(&def.ty, sol);
                let inner = resolve_body_of(*def.body, sol);
                out.push(ContDef { name: def.name, params: def.params, body: Box::new(inner), ty });
            }
            let rest = resolve_body_of(*rest, sol);
            proof {
                lemma_let_cont_view(out, Box::new(rest));
                assert(conts_view(out@) =~= resolve_body(body@, vars_view(sol@))->LetCont_0);
            }
            FnBody::LetCont(out, Box::new(rest))
        },
        FnBody::Ite { discr, then, else_ } => {
            let then = resolve_body_of(*then, sol);
            let else_ = resolve_body_of(*else_, sol);
            FnBody::Ite { discr, then: Box::new(then), else_: Box::new(else_) }
        },
        FnBody::Sequence(s, rest) => {
            let rest = resolve_body_of(*rest, sol);
            FnBody::Sequence(s, Box::new(rest))
        },
        FnBody::Call { func, args, destination } => FnBody::Call { func, args, destination },
        FnBody::Jump { target, args } => FnBody::Jump { target, args },
        FnBody::Abort => FnBody::Abort,
    }
}

fn collect_in(actual: &Ty, formal: &Ty, l: Location, sol: &mut Vec<RegionVar>) -> (ok: bool)
    ensures
        ok ==> collect(actual@, formal@, l, vars_view(old(sol)@)) == Some(vars_view(final(sol)@)),
        !ok ==> collect(actual@, formal@, l, vars_view(old(sol)@)) is None,
{
    match (find_var(sol, l), formal) {
        (Some(_), Ty::Ref(k2, _, _)) => match actual {
            Ty::Ref(k1, Region::Concrete(ps), _) => {
                if *k1 == *k2 {
                    add_to_var_in(sol, l, ps);
                    true
                } else {
                    false
                }
            },
            _ => false,
        },
        _ => true,
    }
}

#[verifier::loop_isolation(false)]
fn collect_all_in(env: &Env, sig: &Heap, from: &Vec<Location>, to: &Vec<Location>, sol: &mut Vec<
    RegionVar,
>) -> (ok: bool)
    ensures
        ok ==> collect_all(env@, sig@, from@, to@, 0, vars_view(old(sol)@)) == Some(
            vars_view(final(sol)@),
        ),
        !ok ==> collect_all(env@, sig@, from@, to@, 0, vars_view(old(sol)@)) is None,
{
    let mut i: usize = 0;
    while i < from.len() && i < to.len()
        invariant
            i <= from.len(),
            i <= to.len(),
            collect_all(env@, sig@, from@, to@, i as nat, vars_view(sol@)) == collect_all(
                env@,
                sig@,
                from@,
                to@,
                0,
                vars_view(old(sol)@),
            ),
        decreases from.len() - i,
    {
        match (env.heap().get(&to[i]), sig.get(&from[i])) {
            (Some(actual), Some(formal)) => {
                if !collect_in(actual, formal, from[i], sol) {
                    return false;
                }
            },
            (Some(_), None) => {
                if to[i] != from[i] {
                    return false;
                }
            },
            _ => return false,
        }
        i += 1;
    }
    true
}

impl RefineChecker {
    fn jump_regions_in(&self, sol: &mut Vec<RegionVar>, target: ContId, args: &Vec<Local>) -> (ok:
        bool)
        ensures
            forall|gen: Counters|
                ok ==> jump_regions(
                    #[trigger] self.state(gen),
                    vars_view(old(sol)@),
                    target,
                    args@,
                ) == Some(vars_view(final(sol)@)),
            forall|gen: Counters|
                !ok ==> jump_regions(
                    #[trigger] self.state(gen),
                    vars_view(old(sol)@),
                    target,
                    args@,
                ) is None,
    {
        reveal(jump_regions);
        let ty = match self.conts.get_ty(&target) {
            Some(ty) => ty,
            None => return false,
        };
        if args.len() != ty.inputs.len() {
            return false;
        }
        let mut xs: Vec<Local> = Vec::new();
        let mut from: Vec<Location> = Vec::new();
        let mut i: usize = 0;
        while i < args.len()
            invariant
                i <= args.len(),
                args.len() == ty.inputs.len(),
                xs@ == args@.take(i as int),
                from@ == ty.inputs@.take(i as int),
            decreases args.len() - i,
        {
            xs.push(args[i]);
            from.push(ty.inputs[i]);
            i += 1;
        }
        let mut j: usize = 0;
        while j < ty.locals.len()
            invariant
                j <= ty.locals.len(),
                xs@ == args@ + firsts(ty.locals@).take(j as int),
                from@ == ty.inputs@ + seconds(ty.locals@).take(j as int),
            decreases ty.locals.len() - j,
        {
            xs.push(ty.locals[j].0);
            from.push(ty.locals[j].1);
            assert(xs@ =~= args@ + firsts(ty.locals@).take(j + 1));
            assert(from@ =~= ty.inputs@ + seconds(ty.locals@).take(j + 1));
            j += 1;
        }
        assert(xs@ =~= args@ + firsts(ty@.locals));
        assert(from@ =~= ty@.inputs + seconds(ty@.locals));
        let to = match locations_of_in(&self.env, &xs) {
            Some(to) => to,
            None => return false,
        };
        collect_all_in(&self.env, &ty.heap, &from, &to, sol)
    }

    fn call_regions_in(
        &mut self,
        tcx: &mut TyCtxt,
        sol: &mut Vec<RegionVar>,
        fns: &Vec<(FnId, FnDecl)>,
        func: FnId,
        args: &Vec<Local>,
        destination: &Option<(Place, ContId)>,
    ) -> (ok: bool)
        ensures
            ok ==> call_regions(
                old(self).state(old(tcx)@),
                vars_view(old(sol)@),
                sigs_view(fns@),
                func,
                args@,
                crate::refineck::destination_view(*destination),
            ) == Some((final(self).state(final(tcx)@), vars_view(final(sol)@))),
            !ok ==> call_regions(
                old(self).state(old(tcx)@),
                vars_view(old(sol)@),
                sigs_view(fns@),
                func,
                args@,
                crate::refineck::destination_view(*destination),
            ) is None,
    {
        reveal(call_regions);
        let sig = match find_sig(fns, func) {
            Some(sig) => sig,
            None => return false,
        };
        if args.len() != sig.inputs.len() {
            return false;
        }
        let mut from: Vec<Location> = Vec::new();
        let mut i: usize = 0;
        while i < sig.inputs.len()
            invariant
                i <= sig.inputs.len(),
                from@ == seconds(sig.inputs@).take(i as int),
            decreases sig.inputs.len() - i,
        {
            from.push(sig.inputs[i].1);
            assert(from@ =~= seconds(sig.inputs@).take(i + 1));
            i += 1;
        }
        assert(from@ =~= seconds(sig@.inputs));
        let to = match locations_of_in(&self.env, args) {
            Some(to) => to,
            None => return false,
        };
        match destination {
            None => true,
            Some((place, ret)) => {
                let out = match sig.out_heap.get(&sig.output) {
                    Some(out) => instantiate_ty(out, &from, &to),
                    None => return false,
                };
                if !self.env.try_update(tcx, place, out) {
                    return false;
                }
                let no_args: Vec<Local> = Vec::new();
                let ghost before = vars_view(sol@);
                let ok = self.jump_regions_in(sol, *ret, &no_args);
                assert(ok ==> jump_regions(self.state(tcx@), before, *ret, no_args@) == Some(
                    vars_view(sol@),
                ));
                assert(!ok ==> jump_regions(self.state(tcx@), before, *ret, no_args@) is None);
                ok
            },
        }
    }

    #[verifier::loop_isolation(false)]
    fn define_resolved_in<I>(&mut self, tcx: &mut TyCtxt, sol: &Vec<RegionVar>, defs: &Vec<
        ContDef<I>,
    >) -> (ok: bool)
        ensures
            ok ==> define_resolved(
                old(self).state(old(tcx)@),
                vars_view(sol@),
                conts_view(defs@),
                0,
            ) == Some(final(self).state(final(tcx)@)),
            !ok ==> define_resolved(
                old(self).state(old(tcx)@),
                vars_view(sol@),
                conts_view(defs@),
                0,
            ) is None,
    {
        let ghost ds = conts_view(defs@);
        let mut i: usize = 0;
        while i < defs.len()
            invariant
                i <= defs.len(),
                define_resolved(self.state(tcx@), vars_view(sol@), ds, i as nat) == define_resolved(
                    old(self).state(old(tcx)@),
                    vars_view(sol@),
                    ds,
                    0,
                ),
            decreases defs.len() - i,
        {
            let vars = self.env.vars_in_scope();
            let ty = resolve_cont_ty_of(&defs[i].ty, sol);
            if !self.conts.try_define_cont(tcx, defs[i].name, &ty, vars) {
                return false;
            }
            i += 1;
        }
        true
    }

    fn walk_body<I>(
        &mut self,
        tcx: &mut TyCtxt,
        sol: &mut Vec<RegionVar>,
        fns: &Vec<(FnId, FnDecl)>,
        body: &FnBody<I>,
    ) -> (ok: bool)
        ensures
            ok ==> walk(
                old(self).state(old(tcx)@),
                vars_view(old(sol)@),
                sigs_view(fns@),
                body@,
            ) == Some((final(self).state(final(tcx)@), vars_view(final(sol)@))),
            !ok ==> walk(
                old(self).state(old(tcx)@),
                vars_view(old(sol)@),
                sigs_view(fns@),
                body@,
            ) is None,
        decreases body, 3nat,
    {
        match body {
            FnBody::LetCont(_, _) => self.walk_let_cont_in(tcx, sol, fns, body),
            FnBody::Ite { .. } => self.walk_ite_in(tcx, sol, fns, body),
            FnBody::Call { func, args, destination } => self.call_regions_in(
                tcx,
                sol,
                fns,
                *func,
                args,
                destination,
            ),
            FnBody::Jump { target, args } => {
                let ghost before = vars_view(sol@);
                let ok = self.jump_regions_in(sol, *target, args);
                assert(ok ==> jump_regions(self.state(tcx@), before, *target, args@) == Some(
                    vars_view(sol@),
                ));
                assert(!ok ==> jump_regions(self.state(tcx@), before, *target, args@) is None);
                ok
            },
            FnBody::Sequence(_, _) => self.walk_sequence_in(tcx, sol, fns, body),
            FnBody::Abort => true,
        }
    }

    #[verifier::loop_isolation(false)]
    fn walk_let_cont_in<I>(
        &mut self,
        tcx: &mut TyCtxt,
        sol: &mut Vec<RegionVar>,
        fns: &Vec<(FnId, FnDecl)>,
        body: &FnBody<I>,
    ) -> (ok: bool)
        requires
            body is LetCont,
        ensures
            ok ==> walk(
                old(self).state(old(tcx)@),
                vars_view(old(sol)@),
                sigs_view(fns@),
                body@,
            ) == Some((final(self).state(final(tcx)@), vars_view(final(sol)@))),
            !ok ==> walk(
                old(self).state(old(tcx)@),
                vars_view(old(sol)@),
                sigs_view(fns@),
                body@,
            ) is None,
        decreases body, 0nat,
    {
        match body {
            FnBody::LetCont(defs, rest) => {
                let ghost ds = conts_view(defs@);
                proof {
                    lemma_let_cont_view(*defs, *rest);
                }
                if !self.define_resolved_in(tcx, sol, defs) {
                    return false;
                }
                let ghost st1 = self.state(tcx@);
                let ghost sol1 = vars_view(sol@);
                let mut i: usize = 0;
                while i < defs.len()
                    invariant
                        i <= defs.len(),
                        walk_conts(self.state(tcx@), vars_view(sol@), sigs_view(fns@), ds, i as nat)
                            == walk_conts(st1, sol1, sigs_view(fns@), ds, 0),
                    decreases defs.len() - i,
                {
                    if !self.walk_cont_in(tcx, sol, fns, &defs[i]) {
                        return false;
                    }
                    i += 1;
                }
                self.walk_body(tcx, sol, fns, rest)
            },
            _ => false,
        }
    }

    fn walk_ite_in<I>(
        &mut self,
        tcx: &mut TyCtxt,
        sol: &mut Vec<RegionVar>,
        fns: &Vec<(FnId, FnDecl)>,
        body: &FnBody<I>,
    ) -> (ok: bool)
        requires
            body is Ite,
        ensures
            ok ==> walk(
                old(self).state(old(tcx)@),
                vars_view(old(sol)@),
                sigs_view(fns@),
                body@,
            ) == Some((final(self).state(final(tcx)@), vars_view(final(sol)@))),
            !ok ==> walk(
                old(self).state(old(tcx)@),
                vars_view(old(sol)@),
                sigs_view(fns@),
                body@,
            ) is None,
        decreases body, 0nat,
    {
        match body {
            FnBody::Ite { discr, then, else_ } => {
                match self.env.try_lookup(discr) {
                    Some(Ty::Refine(BaseTy::Bool, _)) => {},
                    _ => return false,
                }
                if !self.walk_arm_in(tcx, sol, fns, then) {
                    return false;
                }
                self.walk_arm_in(tcx, sol, fns, else_)
            },
            _ => false,
        }
    }

    fn walk_arm_in<I>(
        &mut self,
        tcx: &mut TyCtxt,
        sol: &mut Vec<RegionVar>,
        fns: &Vec<(FnId, FnDecl)>,
        body: &FnBody<I>,
    ) -> (ok: bool)
        ensures
            ok ==> walk_arm(
                old(self).state(old(tcx)@),
                vars_view(old(sol)@),
                sigs_view(fns@),
                body@,
            ) == Some((final(self).state(final(tcx)@), vars_view(final(sol)@))),
            !ok ==> walk_arm(
                old(self).state(old(tcx)@),
                vars_view(old(sol)@),
                sigs_view(fns@),
                body@,
            ) is None,
        decreases body, 4nat,
    {
        let snapshot = self.env.snapshot();
        if !self.walk_body(tcx, sol, fns, body) {
            return false;
        }
        let ghost st = self.state(tcx@);
        self.env.rollback_to(snapshot);
        assert(self.env@ == st.env.rollback(old(self).env@.heap.len(), old(self).env@.locals.len()));
        true
    }

    fn walk_sequence_in<I>(
        &mut self,
        tcx: &mut TyCtxt,
        sol: &mut Vec<RegionVar>,
        fns: &Vec<(FnId, FnDecl)>,
        body: &FnBody<I>,
    ) -> (ok: bool)
        requires
            body is Sequence,
        ensures
            ok ==> walk(
                old(self).state(old(tcx)@),
                vars_view(old(sol)@),
                sigs_view(fns@),
                body@,
            ) == Some((final(self).state(final(tcx)@), vars_view(final(sol)@))),
            !ok ==> walk(
                old(self).state(old(tcx)@),
                vars_view(old(sol)@),
                sigs_view(fns@),
                body@,
            ) is None,
        decreases body, 0nat,
    {
        match body {
            FnBody::Sequence(statement, rest) => {
                match self.check_statement(tcx, &statement.kind) {
                    Some(_) => {},
                    None => return false,
                }
                self.walk_body(tcx, sol, fns, rest)
            },
            _ => false,
        }
    }

    fn walk_cont_in<I>(
        &mut self,
        tcx: &mut TyCtxt,
        sol: &mut Vec<RegionVar>,
        fns: &Vec<(FnId, FnDecl)>,
        def: &ContDef<I>,
    ) -> (ok: bool)
        ensures
            ok ==> walk_cont(
                old(self).state(old(tcx)@),
                vars_view(old(sol)@),
                sigs_view(fns@),
                def@,
            ) == Some((final(self).state(final(tcx)@), vars_view(final(sol)@))),
            !ok ==> walk_cont(
                old(self).state(old(tcx)@),
                vars_view(old(sol)@),
                sigs_view(fns@),
                def@,
            ) is None,
        decreases def, 0nat,
    {
        let ty = match self.conts.get_ty(&def.name) {
            Some(ty) => ty,
            None => return false,
        };
        if def.params.len() != ty.inputs.len() {
            return false;
        }
        let mut params: Vec<(Local, Location)> = Vec::new();
        let mut i: usize = 0;
        while i < def.params.len()
            invariant
                i <= def.params.len(),
                def.params.len() == ty.inputs.len(),
                params@ == zipped(def.params@, ty.inputs@).take(i as int),
            decreases def.params.len() - i,
        {
            params.push((def.params[i], ty.inputs[i]));
            assert(params@ =~= zipped(def.params@, ty.inputs@).take(i + 1));
            i += 1;
        }
        assert(params@ =~= zipped(def.params@, ty.inputs@));
        let ghost st0 = self.state(tcx@);
        let snapshot = self.env.snapshot_without_locals();
        self.env.extend_heap(&ty.heap);
        self.env.insert_locals(&ty.locals);
        self.env.insert_locals(&params);
        assert(self.env@.locals =~= st0.env.locals.push(ty@.locals + zipped(def@.params, ty@.inputs)));
        if !self.walk_body(tcx, sol, fns, &def.body) {
            return false;
        }
        let ghost st1 = self.state(tcx@);
        self.env.rollback_to(snapshot);
        assert(self.env@ == st1.env.rollback(st0.env.heap.len(), st0.env.locals.len()));
        true
    }
}

/// A copy of a list of region variables.
fn clone_region_vars(sol: &Vec<RegionVar>) -> (r: Vec<RegionVar>)
    ensures
        vars_view(r@) == vars_view(sol@),
{
    let mut out: Vec<RegionVar> = Vec::new();
    let mut i: usize = 0;
    while i < sol.len()
        invariant
            i <= sol.len(),
            out@.len() == i,
            forall|j: int| 0 <= j < i ==> (#[trigger] out@[j])@ == sol@[j]@,
        decreases sol.len() - i,
    {
        out.push(
            RegionVar {
                location: sol[i].location,
                places: crate::ast::clone_places(&sol[i].places),
            },
        );
        i += 1;
    }
    assert(vars_view(out@) =~= vars_view(sol@));
    out
}

/// Whether the two lists of places are the same.
fn same_places(a: &Vec<Place>, b: &Vec<Place>) -> (same: bool)
    ensures
        same == (places_view(a@) == places_view(b@)),
{
    if a.len() != b.len() {
        assert(places_view(a@).len() != places_view(b@).len());
        return false;
    }
    let mut i: usize = 0;
    while i < a.len()
        invariant
            i <= a.len(),
            a.len() == b.len(),
            forall|j: int| 0 <= j < i ==> (#[trigger] a@[j])@ == b@[j]@,
        decreases a.len() - i,
    {
        if !a[i].same(&b[i]) {
            assert(places_view(a@)[i as int] != places_view(b@)[i as int]);
            return false;
        }
        i += 1;
    }
    assert(places_view(a@) =~= places_view(b@));
    true
}

/// Whether the two lists of region variables are the same.
fn same_vars(a: &Vec<RegionVar>, b: &Vec<RegionVar>) -> (same: bool)
    ensures
        same == (vars_view(a@) == vars_view(b@)),
{
    if a.len() != b.len() {
        assert(vars_view(a@).len() != vars_view(b@).len());
        return false;
    }
    let mut i: usize = 0;
    while i < a.len()
        invariant
            i <= a.len(),
            a.len() == b.len(),
            forall|j: int| 0 <= j < i ==> (#[trigger] a@[j])@ == b@[j]@,
        decreases a.len() - i,
    {
        if a[i].location != b[i].location || !same_places(&a[i].places, &b[i].places) {
            assert(vars_view(a@)[i as int] != vars_view(b@)[i as int]);
            return false;
        }
        i += 1;
    }
    assert(vars_view(a@) =~= vars_view(b@));
    true
}

/// One walk of the function from `sol`; the identifiers that it draws are thrown
/// away.
fn walk_fn_in<I>(tcx: &TyCtxt, fns: &Vec<(FnId, FnDecl)>, def: &FnDef<I>, sol: &Vec<RegionVar>)
    -> (r: Option<Vec<RegionVar>>)
    ensures
        match r {
            Some(r) => walk_fn(tcx@, sigs_view(fns@), def@, vars_view(sol@)) == Some(vars_view(r@)),
            None => walk_fn(tcx@, sigs_view(fns@), def@, vars_view(sol@)) is None,
        },
{
    if def.params.len() != def.ty.inputs.len() {
        return None;
    }
    let mut tcx = tcx.scratch();
    let in_heap = match TypeLowerer::new(Vec::new()).try_lower_heap(&mut tcx, &def.ty.in_heap) {
        Some(heap) => heap,
        None => return None,
    };
    let mut params: Vec<(Local, Location)> = Vec::new();
    let mut i: usize = 0;
    while i < def.params.len()
        invariant
            i <= def.params.len(),
            def.params.len() == def.ty.inputs.len(),
            params@ == zipped(def.params@, seconds(def.ty.inputs@)).take(i as int),
        decreases def.params.len() - i,
    {
        params.push((def.params[i], def.ty.inputs[i].1));
        assert(params@ =~= zipped(def.params@, seconds(def.ty.inputs@)).take(i + 1));
        i += 1;
    }
    assert(params@ =~= zipped(def.params@, seconds(def.ty.inputs@)));
    let mut checker = RefineChecker { env: Env::new(), conts: ContEnv::new() };
    checker.env.extend_heap(&in_heap);
    checker.env.insert_locals(&params);
    assert(checker.env@.heap =~= in_heap@);
    assert(checker.env@.locals =~= seq![zipped(def@.params, seconds(def@.ty.inputs))]);
    let vars = checker.env.vars_in_scope();
    if !checker.conts.try_define_ret_cont(&mut tcx, def.ret, &def.ty, vars) {
        return None;
    }
    let mut next = clone_region_vars(sol);
    if !checker.walk_body(&mut tcx, &mut next, fns, &def.body) {
        return None;
    }
    Some(next)
}

/// Why the regions of a function were not inferred.
#[derive(Clone, Copy, Debug, PartialEq, Eq, Structural)]
pub enum InferError {
    /// A walk of the function did not go through: the function is not well formed, or
    /// what is passed for a region variable is no borrow of its kind with a region of
    /// places.
    Stuck,
    /// Every walk went through, and the last one that was allowed still found
    /// something new.
    Unsettled,
}

/// Why the walks from `sol` do not settle within `rounds` of them, if they do not.
pub open spec fn unsolved<I>(
    gen: Counters,
    fns: Seq<(FnId, FnDeclView)>,
    def: FnDefView<I>,
    sol: Seq<(Location, Seq<PlaceView>)>,
    rounds: nat,
) -> Option<InferError>
    decreases rounds,
{
    if rounds == 0 {
        Some(InferError::Unsettled)
    } else {
        match walk_fn(gen, fns, def, sol) {
            Some(next) => if next == sol {
                None
            } else {
                unsolved(gen, fns, def, next, (rounds - 1) as nat)
            },
            None => Some(InferError::Stuck),
        }
    }
}

/// The walks settle exactly when there is no reason why they do not.
pub proof fn lemma_unsolved<I>(
    gen: Counters,
    fns: Seq<(FnId, FnDeclView)>,
    def: FnDefView<I>,
    sol: Seq<(Location, Seq<PlaceView>)>,
    rounds: nat,
)
    ensures
        solve(gen, fns, def, sol, rounds) is None <==> unsolved(gen, fns, def, sol, rounds) is Some,
    decreases rounds,
{
    if rounds > 0 {
        match walk_fn(gen, fns, def, sol) {
            Some(next) => {
                if next != sol {
                    lemma_unsolved(gen, fns, def, next, (rounds - 1) as nat);
                }
            },
            None => {},
        }
    }
}

/// Infers the regions of the continuations of `def` that are yet to be inferred: each
/// stands for the places that the borrows passed for it may alias, wherever control
/// passes to its continuation. The function is walked until a walk finds nothing new.
/// Where there is no result, the error says whether a walk did not go through or the
/// walks did not settle within `rounds` of them. `tcx` is not drawn from.
#[verifier::loop_isolation(false)]
pub fn infer_regions_or_error<I>(
    tcx: &TyCtxt,
    fns: &Vec<(FnId, FnDecl)>,
    def: FnDef<I>,
    rounds: usize,
) -> (r: Result<FnDef<I>, InferError>)
    ensures
        match r {
            Ok(r) => inferred(tcx@, sigs_view(fns@), def@, rounds as nat) == Some(r@),
            Err(e) => inferred(tcx@, sigs_view(fns@), def@, rounds as nat) is None && unsolved(
                tcx@,
                sigs_view(fns@),
                def@,
                body_vars(def@.body, Seq::empty()),
                rounds as nat,
            ) == Some(e),
        },
{
    let mut sol: Vec<RegionVar> = Vec::new();
    assert(vars_view(sol@) =~= Seq::empty());
    body_vars_of(&def.body, &mut sol);
    let ghost start = vars_view(sol@);
    let mut left = rounds;
    while left > 0
        invariant
            solve(tcx@, sigs_view(fns@), def@, vars_view(sol@), left as nat) == solve(
                tcx@,
                sigs_view(fns@),
                def@,
                start,
                rounds as nat,
            ),
            unsolved(tcx@, sigs_view(fns@), def@, vars_view(sol@), left as nat) == unsolved(
                tcx@,
                sigs_view(fns@),
                def@,
                start,
                rounds as nat,
            ),
        decreases left,
    {
        let next = match walk_fn_in(tcx, fns, &def, &sol) {
            Some(next) => next,
            None => return Err(InferError::Stuck),
        };
        if same_vars(&next, &sol) {
            let body = resolve_body_of(def.body, &sol);
            return Ok(FnDef { ty: def.ty, params: def.params, body, ret: def.ret });
        }
        sol = next;
        left -= 1;
    }
    Err(InferError::Unsettled)
}

/// Infers the regions of the continuations of `def` that are yet to be inferred: each
/// stands for the places that the borrows passed for it may alias, wherever control
/// passes to its continuation. The function is walked until a walk finds nothing new;
/// there is no result where that takes more than `rounds` walks, where the function is
/// not well formed, or where what is passed for a region variable is no borrow of its
/// kind with a region of places. `tcx` is not drawn from.
pub fn infer_regions<I>(tcx: &TyCtxt, fns: &Vec<(FnId, FnDecl)>, def: FnDef<I>, rounds: usize)
    -> (r: Option<FnDef<I>>)
    ensures
        match r {
            Some(r) => inferred(tcx@, sigs_view(fns@), def@, rounds as nat) == Some(r@),
            None => inferred(tcx@, sigs_view(fns@), def@, rounds as nat) is None,
        },
{
    match infer_regions_or_error(tcx, fns, def, rounds) {
        Ok(r) => Some(r),
        Err(_) => None,
    }
}

} // verus!
