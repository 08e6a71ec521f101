//! What the check gives for a function that hands back what it was given.

use crate::ast::pred::{PredView, Var};
use crate::ast::{
    heap_index_in, BaseTy, ContTyView, FnBodyView, FnDeclView, FnDefView, RefineView, TyView,
};
use crate::constraint::{bind, ConstraintView, Solution, Valuation, Value};
use crate::env::{locals_get_in, ContEnvView, EnvView};
use crate::names::{FnId, Local, Location};
use crate::refineck::{
    bind_heap, firsts, fn_def_constraint, instantiate, locations_of, passing, seconds, zipped,
    CheckState,
};
use crate::ty::{heap_with_kvars, Counters};
use vstd::prelude::*;

verus! {

/// A function that hands back what it was given is safe: where a function takes one
/// argument of a refined base type and returns, unchanged, to its return continuation,
/// which takes a value of that type, the check gives an obligation, draws nothing from
/// the counters, and the obligation is met whatever the variables and the predicate
/// variables stand for. The refinement does not speak of the location of the result,
/// unless that is the location of the argument.
pub proof fn lemma_handing_back_is_safe<I>(
    gen: Counters,
    fns: Seq<(FnId, FnDeclView)>,
    def: FnDefView<I>,
    x: Local,
    l: Location,
    o: Location,
    bty: BaseTy,
    p: PredView,
)
    requires
        def.params == seq![x],
        def.ty.in_heap == seq![(l, TyView::Refine(bty, RefineView::Pred(p)))],
        seconds(def.ty.inputs) == seq![l],
        def.ty.out_heap == seq![(o, TyView::Refine(bty, RefineView::Pred(p)))],
        def.ty.output == o,
        def.body == (FnBodyView::<I>::Jump { target: def.ret, args: seq![x] }),
        o == l || !p.mentions(Var::Location(o)),
    ensures
        fn_def_constraint(gen, fns, def) matches Some((g, c)) && g == gen && c.tautology(),
{
    let t = TyView::Refine(bty, RefineView::Pred(p));
    let in_heap = def.ty.in_heap;
    let out_heap = def.ty.out_heap;
    let none = Seq::<(Location, TyView)>::empty();
    reveal_with_fuel(heap_with_kvars, 3);
    assert(none.push((l, t)) =~= in_heap);
    assert(heap_with_kvars(in_heap, gen.kvar, Seq::empty(), 0, none) == Some((gen.kvar, in_heap)));
    let env = EnvView { locals: seq![zipped(def.params, seconds(def.ty.inputs))], heap: in_heap };
    assert(none.push((o, t)) =~= out_heap);
    assert(heap_with_kvars(out_heap, gen.kvar, env.vars_in_scope(), 0, none) == Some(
        (gen.kvar, out_heap),
    ));
    let ret_ty = ContTyView { heap: out_heap, locals: Seq::empty(), inputs: seq![o] };
    let start = ContEnvView { layers: seq![Map::empty()], tys: Seq::empty() };
    let conts = start.define(def.ret, ret_ty);
    crate::scope::lemma_lookup_define(start.layers, def.ret.0, 0, def.ret.0);
    assert(conts.get_ty(def.ret) == Some(ret_ty));
    let st = CheckState { env, conts, gen: Counters { kvar: gen.kvar, ..gen } };
    assert(st.gen == gen);

    // The jump.
    reveal(CheckState::jump);
    reveal_with_fuel(locals_get_in, 3);
    reveal_with_fuel(locations_of, 3);
    reveal_with_fuel(heap_index_in, 3);
    reveal_with_fuel(instantiate, 3);
    reveal_with_fuel(passing, 3);
    reveal_with_fuel(bind_heap, 3);
    let args = seq![x];
    assert(args + firsts(ret_ty.locals) =~= args);
    assert(zipped(def.params, seconds(def.ty.inputs)) =~= seq![(x, l)]);
    assert(env.lookup_local(x) == Some(l));
    assert(Seq::<Location>::empty().push(l) =~= seq![l]);
    assert(locations_of(env, args, 0, Seq::empty()) == Some(seq![l]));
    assert(ret_ty.inputs + seconds(ret_ty.locals) =~= seq![o]);
    assert(env.lookup_location(l) == Some(t));
    assert(crate::ast::heap_get(out_heap, o) == Some(t));
    let renamed = p.rename(Var::Location(o), Var::Location(l));
    assert(instantiate(t, seq![o], seq![l], 0) == TyView::Refine(bty, RefineView::Pred(renamed)));
    let same = PredView::nu_eq(EnvView::at(l));
    let sub = ConstraintView::Forall {
        bind: Var::Nu,
        ty: bty,
        hyp: same,
        body: Box::new(ConstraintView::Pred(renamed)),
    };
    assert(Seq::<ConstraintView>::empty().push(sub) =~= seq![sub]);
    assert(passing(env, out_heap, seq![o], seq![l], 0, Seq::empty()) == Some(seq![sub]));
    let within = ConstraintView::Conj(seq![sub]);
    assert(st.jump(def.ret, args) == Some(within));
    assert(st.body(fns, def.body) == Some((st, within)));
    let hyp = p.rename(Var::Nu, Var::Location(l));
    let c = ConstraintView::Forall {
        bind: Var::Location(l),
        ty: bty,
        hyp,
        body: Box::new(within),
    };
    assert(bind_heap(in_heap, 0, within) == c);
    assert(fn_def_constraint(gen, fns, def) == Some((gen, c)));

    // What the obligation says.
    assert forall|sigma: Solution| #[trigger] c.valid(sigma) by {
        assert forall|rho: Valuation| #[trigger] c.holds(rho, sigma) by {
            reveal_with_fuel(ConstraintView::holds, 4);
            assert forall|v: Value|
                #![trigger bind(rho, Var::Location(l), v)]
                v.has_type(bty) && hyp.holds(
                    bind(rho, Var::Location(l), v),
                    sigma,
                ) implies within.holds(bind(rho, Var::Location(l), v), sigma) by {
                let r1 = bind(rho, Var::Location(l), v);
                assert forall|w: Value|
                    #![trigger bind(r1, Var::Nu, w)]
                    w.has_type(bty) && same.holds(bind(r1, Var::Nu, w), sigma) implies renamed.holds(
                        bind(r1, Var::Nu, w),
                        sigma,
                    ) by {
                    let r2 = bind(r1, Var::Nu, w);
                    reveal_with_fuel(PredView::eval, 3);
                    reveal_with_fuel(Value::project, 2);
                    assert(r2(Var::Nu) == w);
                    assert(r2(Var::Location(l)) == v);
                    assert(same.eval(r2, sigma) == Value::Bool(w == v));
                    assert(w == v);
                    assert forall|u: Var| u != Var::Nu && #[trigger] p.mentions(u) implies r1(u)
                        == r2(u) by {}
                    p.lemma_rename_eval(Var::Nu, Var::Location(l), r1, r2, sigma);
                    p.lemma_rename_eval(Var::Location(o), Var::Location(l), r2, r2, sigma);
                }
                assert(sub.holds(r1, sigma));
                assert(within->Conj_0 =~= seq![sub]);
            }
        }
    }
}

} // verus!
