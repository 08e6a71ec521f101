//! The refinement checker: a walk over the body of a function that keeps track of the
//! type of every place and emits what must hold for the function to be safe.
//!
//! A failure of the program to meet its contract is no failure of the check: the
//! check then gives an obligation that does not hold. The check itself gives nothing
//! only where the program is not well formed: where a name, a place or a pointer does
//! not resolve, where two types that must agree in shape do not, or where the
//! generation context runs out of identifiers.

pub mod laws;

use crate::ast::pred::{
    BinOp as PredBinOp, Constant as PredConstant, Place as PredPlace, PlaceView as PredPlaceView,
    Pred, PredView, UnOp as PredUnOp, Var,
};
use crate::ast::{
    conts_view, fields_view, heap_get, lemma_let_cont_view, lemma_tuple_view, BaseTy, BinOp,
    ContDef, ContDefView, ContTyView, FnBody, FnBodyView, FnDecl, FnDeclView, FnDef, FnDefView,
    Heap, Operand, OperandView, Place, PlaceView, Refine, RefineView, Region, RegionView, Rvalue,
    RvalueView, StatementKind, StatementKindView, Ty, TyView, TypeLayout, TypeLayoutView, UnOp,
};
use crate::constraint::{constraints_view, lemma_conj_view, Constraint, ConstraintView};
use crate::env::{constant_of, ContEnv, ContEnvView, Env, EnvView};
use crate::names::{ContId, Field, FnId, Local, Location};
use crate::subtyping::{subtype, try_subtyping};
use crate::ty::{heap_with_kvars, selfified, Counters, TyCtxt, TypeLowerer};
use vstd::prelude::*;

verus! {

/// The state of the check: the environment, the signatures of the continuations that
/// have been defined, and the counters of the generation context.
pub struct CheckState {
    pub env: EnvView,
    pub conts: ContEnvView,
    pub gen: Counters,
}

/// The signature under which `fns` declares `f`: that of its first declaration from
/// the `i`-th on.
pub open spec fn fn_sig(fns: Seq<(FnId, FnDeclView)>, f: FnId, i: nat) -> Option<FnDeclView>
    decreases fns.len() - i,
{
    if i >= fns.len() {
        None
    } else if fns[i as int].0 == f {
        Some(fns[i as int].1)
    } else {
        fn_sig(fns, f, i + 1)
    }
}

/// The value being refined, as a predicate.
pub open spec fn nu() -> PredView {
    PredView::Place(PredPlaceView { base: Var::Nu, projs: Seq::empty() })
}

/// The type of the values of base type `bty` that equal `p`.
pub open spec fn refine_eq(bty: BaseTy, p: PredView) -> TyView {
    TyView::Refine(
        bty,
        RefineView::Pred(PredView::BinaryOp(PredBinOp::Eq, Box::new(nu()), Box::new(p))),
    )
}

/// The type of the booleans that are true exactly when `p` holds.
pub open spec fn refine_iff(p: PredView) -> TyView {
    TyView::Refine(
        BaseTy::Bool,
        RefineView::Pred(PredView::BinaryOp(PredBinOp::Iff, Box::new(nu()), Box::new(p))),
    )
}

/// The type of the result of a binary operator: a number that equals the sum or the
/// difference of the operands, or a boolean that is true exactly when the comparison
/// holds. The numbers are the integers: no operation overflows.
pub open spec fn bin_op_ty(op: BinOp, l: PredView, r: PredView) -> TyView {
    match op {
        BinOp::Add => refine_eq(
            BaseTy::Int,
            PredView::BinaryOp(PredBinOp::Add, Box::new(l), Box::new(r)),
        ),
        BinOp::Sub => refine_eq(
            BaseTy::Int,
            PredView::BinaryOp(PredBinOp::Sub, Box::new(l), Box::new(r)),
        ),
        BinOp::Lt => refine_iff(PredView::BinaryOp(PredBinOp::Lt, Box::new(l), Box::new(r))),
        BinOp::Le => refine_iff(PredView::BinaryOp(PredBinOp::Le, Box::new(l), Box::new(r))),
        BinOp::Eq => refine_iff(PredView::BinaryOp(PredBinOp::Eq, Box::new(l), Box::new(r))),
        BinOp::Ge => refine_iff(PredView::BinaryOp(PredBinOp::Ge, Box::new(l), Box::new(r))),
        BinOp::Gt => refine_iff(PredView::BinaryOp(PredBinOp::Gt, Box::new(l), Box::new(r))),
    }
}

/// The type of the result of a unary operator: a boolean that is true exactly when
/// the operand is not, or a number that equals zero less the operand.
pub open spec fn un_op_ty(op: UnOp, p: PredView) -> TyView {
    match op {
        UnOp::Not => refine_iff(PredView::UnaryOp(PredUnOp::Not, Box::new(p))),
        UnOp::Neg => refine_eq(
            BaseTy::Int,
            PredView::BinaryOp(
                PredBinOp::Sub,
                Box::new(PredView::Constant(PredConstant::Int(0))),
                Box::new(p),
            ),
        ),
    }
}

/// The type of an operand: for a literal, the values of its base type that equal it;
/// for a place of a refined base type, the values that equal what the place holds; for
/// any other place, the type that it holds.
pub open spec fn operand_ty(env: EnvView, op: OperandView) -> Option<TyView> {
    match op {
        OperandView::Constant(c) => Some(
            refine_eq(c.spec_base_ty(), PredView::Constant(constant_of(c))),
        ),
        OperandView::Copy(p) => place_ty(env, p),
        OperandView::Move(p) => place_ty(env, p),
    }
}

/// The type of what is read from a place.
pub open spec fn place_ty(env: EnvView, p: PlaceView) -> Option<TyView> {
    match env.lookup(p) {
        Some(TyView::Refine(bty, _)) => match env.resolve_place(p) {
            Some(place) => Some(refine_eq(bty, PredView::Place(place))),
            None => None,
        },
        Some(ty) => Some(ty),
        None => None,
    }
}

/// The type of uninitialised memory of the shape `layout`: a block is uninitialised
/// memory of its size, a tuple has a field for each part. The fields are numbered from
/// `k` on; with the type comes the next free number.
///
/// A layout gives the size of a block and no base type, so there is no refinement to
/// leave open for a block that nothing has been written to: the location gets its first
/// refined type, with what there is to infer in it, from the assignment that fills it.
pub open spec fn layout_ty(layout: TypeLayoutView, k: nat) -> Option<(nat, TyView)>
    decreases layout, 0nat,
{
    match layout {
        TypeLayoutView::Block(n) => Some((k, TyView::Uninit(n))),
        TypeLayoutView::Tuple(layouts) => match layout_fields(layouts, k, 0, Seq::empty()) {
            Some((k, fields)) => Some((k, TyView::Tuple(fields))),
            None => None,
        },
    }
}

/// The fields for the parts of a tuple from the `i`-th on, after `done`.
pub open spec fn layout_fields(
    layouts: Seq<TypeLayoutView>,
    k: nat,
    i: nat,
    done: Seq<(Field, TyView)>,
) -> Option<(nat, Seq<(Field, TyView)>)>
    decreases layouts, layouts.len() - i,
{
    if i >= layouts.len() {
        Some((k, done))
    } else if k >= usize::MAX {
        None
    } else {
        match layout_ty(layouts[i as int], k + 1) {
            Some((k1, ty)) => layout_fields(layouts, k1, i + 1, done.push((Field(k as usize), ty))),
            None => None,
        }
    }
}

/// `ty` with each location of `from`, from the `i`-th on, renamed to the location of
/// `to` at the same position.
pub open spec fn instantiate(ty: TyView, from: Seq<Location>, to: Seq<Location>, i: nat) -> TyView
    decreases from.len() - i,
{
    if i >= from.len() || i >= to.len() {
        ty
    } else {
        instantiate(
            ty.rename(Var::Location(from[i as int]), Var::Location(to[i as int])),
            from,
            to,
            i + 1,
        )
    }
}

/// `c` under the assumption that the location `l` holds a value of type `ty`: where
/// `ty` is a refined base type, `l` is bound to any value that meets the refinement.
pub open spec fn bind_location(l: Location, ty: TyView, c: ConstraintView) -> ConstraintView {
    match ty {
        TyView::Refine(bty, RefineView::Pred(p)) => ConstraintView::Forall {
            bind: Var::Location(l),
            ty: bty,
            hyp: p.rename(Var::Nu, Var::Location(l)),
            body: Box::new(c),
        },
        _ => c,
    }
}

/// `c` under the assumption that each location of `heap`, from the `i`-th entry on,
/// holds a value of its type. The binding of an entry stands under those of the
/// entries before it.
pub open spec fn bind_heap(heap: Seq<(Location, TyView)>, i: nat, c: ConstraintView)
    -> ConstraintView
    decreases heap.len() - i,
{
    if i >= heap.len() {
        c
    } else {
        bind_location(heap[i as int].0, heap[i as int].1, bind_heap(heap, i + 1, c))
    }
}

/// The locations that the locals `xs` are bound to, from the `i`-th on, after `done`.
pub open spec fn locations_of(env: EnvView, xs: Seq<Local>, i: nat, done: Seq<Location>) -> Option<
    Seq<Location>,
>
    decreases xs.len() - i,
{
    if i >= xs.len() {
        Some(done)
    } else {
        match env.lookup_local(xs[i as int]) {
            Some(l) => locations_of(env, xs, i + 1, done.push(l)),
            None => None,
        }
    }
}

/// The obligations under which what the environment holds at each location of `to`,
/// from the `i`-th on, passes for what the signature heap `sig` holds at the location
/// of `from` at the same position, after `done`. What the environment holds is taken
/// as equal to itself, so that what is known of the location carries over. The
/// signature speaks of its own locations; they are renamed to those of `to`. A location of `from` that the
/// signature heap does not bind is one of the environment: it asks for nothing but to
/// be the location of `to` at its position.
pub open spec fn passing(
    env: EnvView,
    sig: Seq<(Location, TyView)>,
    from: Seq<Location>,
    to: Seq<Location>,
    i: nat,
    done: Seq<ConstraintView>,
) -> Option<Seq<ConstraintView>>
    decreases from.len() - i,
{
    if i >= from.len() || i >= to.len() {
        Some(done)
    } else {
        match (env.lookup_location(to[i as int]), heap_get(sig, from[i as int])) {
            (Some(actual), Some(formal)) => match subtype(
                env.heap,
                env.heap.len(),
                actual.selfify(EnvView::at(to[i as int])),
                sig,
                sig.len(),
                instantiate(formal, from, to, 0),
            ) {
                Some(c) => passing(env, sig, from, to, i + 1, done.push(c)),
                None => None,
            },
            (Some(_), None) => if to[i as int] == from[i as int] {
                passing(env, sig, from, to, i + 1, done)
            } else {
                None
            },
            _ => None,
        }
    }
}

/// The second components of the pairs.
pub open spec fn seconds(pairs: Seq<(Local, Location)>) -> Seq<Location> {
    Seq::new(pairs.len(), |i: int| pairs[i].1)
}

/// The first components of the pairs.
pub open spec fn firsts(pairs: Seq<(Local, Location)>) -> Seq<Local> {
    Seq::new(pairs.len(), |i: int| pairs[i].0)
}

/// Each local of `xs` with the location of `ls` at the same position.
pub open spec fn zipped(xs: Seq<Local>, ls: Seq<Location>) -> Seq<(Local, Location)> {
    Seq::new(xs.len(), |i: int| (xs[i], ls[i]))
}

impl EnvView {
    /// The environment with a scope opened that starts with the bindings of the scope
    /// around it.
    pub open spec fn snapshot(self) -> EnvView {
        EnvView { locals: self.locals.push(self.locals.last()), ..self }
    }

    /// The environment as it was when it had `heap_len` heap entries and
    /// `locals_depth` scopes.
    pub open spec fn rollback(self, heap_len: nat, locals_depth: nat) -> EnvView {
        EnvView {
            heap: if heap_len <= self.heap.len() {
                self.heap.take(heap_len as int)
            } else {
                self.heap
            },
            locals: if locals_depth <= self.locals.len() {
                self.locals.take(locals_depth as int)
            } else {
                self.locals
            },
        }
    }
}

/// What must hold for the two arms of a branch on `p`: the one if `p` holds, the other
/// if it does not.
pub open spec fn branches(p: PredView, c1: ConstraintView, c2: ConstraintView) -> ConstraintView {
    ConstraintView::Conj(
        seq![
            ConstraintView::Guard(p, Box::new(c1)),
            ConstraintView::Guard(PredView::UnaryOp(PredUnOp::Not, Box::new(p)), Box::new(c2)),
        ],
    )
}

impl CheckState {
    /// The type of an rvalue. A borrow copies what the place holds to a fresh
    /// location, and may alias the place alone. An operation that checks for overflow
    /// gives a pair of the result and of whether it overflowed, which it never does.
    #[verifier::opaque]
    pub open spec fn rvalue_ty(self, rvalue: RvalueView) -> Option<(CheckState, TyView)> {
        match rvalue {
            RvalueView::Use(op) => match operand_ty(self.env, op) {
                Some(ty) => Some((self, ty)),
                None => None,
            },
            RvalueView::Ref(kind, p) => match self.env.lookup(p) {
                Some(held) => if self.gen.location < usize::MAX {
                    let l = Location(self.gen.location as usize);
                    Some(
                        (
                            CheckState {
                                env: self.env.insert_heap(l, held),
                                gen: Counters { location: self.gen.location + 1, ..self.gen },
                                ..self
                            },
                            TyView::Ref(kind, RegionView::Concrete(seq![p]), l),
                        ),
                    )
                } else {
                    None
                },
                None => None,
            },
            RvalueView::BinaryOp(op, lhs, rhs) => match (
                self.env.resolve_operand(lhs),
                self.env.resolve_operand(rhs),
            ) {
                (Some(l), Some(r)) => Some((self, bin_op_ty(op, l, r))),
                _ => None,
            },
            RvalueView::CheckedBinaryOp(op, lhs, rhs) => match (
                self.env.resolve_operand(lhs),
                self.env.resolve_operand(rhs),
            ) {
                (Some(l), Some(r)) => if self.gen.field + 1 < usize::MAX {
                    Some(
                        (
                            CheckState {
                                gen: Counters { field: self.gen.field + 2, ..self.gen },
                                ..self
                            },
                            TyView::Tuple(
                                seq![
                                    (Field(self.gen.field as usize), bin_op_ty(op, l, r)),
                                    (
                                        Field((self.gen.field + 1) as usize),
                                        refine_iff(PredView::Constant(PredConstant::Bool(false))),
                                    ),
                                ],
                            ),
                        ),
                    )
                } else {
                    None
                },
                _ => None,
            },
            RvalueView::UnaryOp(op, operand) => match self.env.resolve_operand(operand) {
                Some(p) => Some((self, un_op_ty(op, p))),
                None => None,
            },
        }
    }

    /// What a statement does to the state, and what must hold for it to be safe.
    ///
    /// - A `let` binds the local to a fresh location that holds uninitialised memory
    ///   of the given shape.
    /// - An assignment updates the place to the type of the rvalue.
    /// - A drop of a local ends the borrows in what it holds; a drop of anything but a
    ///   whole local is not well formed.
    #[verifier::opaque]
    pub open spec fn statement(self, kind: StatementKindView) -> Option<
        (CheckState, ConstraintView),
    > {
        match kind {
            StatementKindView::Let(x, layout) => match layout_ty(layout, self.gen.field) {
                Some((k, ty)) => if self.gen.location < usize::MAX {
                    let l = Location(self.gen.location as usize);
                    Some(
                        (
                            CheckState {
                                env: self.env.insert_local(x, l).insert_heap(l, ty),
                                gen: Counters {
                                    field: k,
                                    location: self.gen.location + 1,
                                    ..self.gen
                                },
                                ..self
                            },
                            ConstraintView::tt(),
                        ),
                    )
                } else {
                    None
                },
                None => None,
            },
            StatementKindView::Assign(p, rvalue) => match self.rvalue_ty(rvalue) {
                Some((st, ty)) => match st.env.update(st.gen, p, ty) {
                    Some((env, gen)) => Some((CheckState { env, gen, ..st }, ConstraintView::tt())),
                    None => None,
                },
                None => None,
            },
            StatementKindView::Drop(p) => if p.projs.len() == 0 {
                match self.env.drop_local(self.gen, p.base) {
                    Some((env, gen, c)) => Some((CheckState { env, gen, ..self }, c)),
                    None => None,
                }
            } else {
                None
            },
            StatementKindView::Nop => Some((self, ConstraintView::tt())),
        }
    }

    /// What must hold for a jump to `target` with the arguments `args`: what each
    /// argument holds must pass for what the continuation takes at that position, and
    /// what each local that the continuation expects holds must pass for what the
    /// continuation requires of it.
    #[verifier::opaque]
    pub open spec fn jump(self, target: ContId, args: Seq<Local>) -> Option<ConstraintView> {
        match self.conts.get_ty(target) {
            Some(ty) => if args.len() == ty.inputs.len() {
                match locations_of(self.env, args + firsts(ty.locals), 0, Seq::empty()) {
                    Some(to) => match passing(
                        self.env,
                        ty.heap,
                        ty.inputs + seconds(ty.locals),
                        to,
                        0,
                        Seq::empty(),
                    ) {
                        Some(cs) => Some(ConstraintView::Conj(cs)),
                        None => None,
                    },
                    None => None,
                }
            } else {
                None
            },
            None => None,
        }
    }

    /// What a call does to the state, and what must hold for it to be safe: what each
    /// argument holds must pass for what the function takes at that position. Where
    /// the call returns, the destination is updated to what the function returns, and
    /// the continuation is jumped to without arguments; where it does not, nothing
    /// more is asked.
    #[verifier::opaque]
    pub open spec fn call(
        self,
        fns: Seq<(FnId, FnDeclView)>,
        func: FnId,
        args: Seq<Local>,
        destination: Option<(PlaceView, ContId)>,
    ) -> Option<(CheckState, ConstraintView)> {
        match fn_sig(fns, func, 0) {
            Some(sig) => if args.len() == sig.inputs.len() {
                let from = seconds(sig.inputs);
                match locations_of(self.env, args, 0, Seq::empty()) {
                    Some(to) => match passing(self.env, sig.in_heap, from, to, 0, Seq::empty()) {
                        Some(cs) => match destination {
                            None => Some((self, ConstraintView::Conj(cs))),
                            Some((place, ret)) => match heap_get(sig.out_heap, sig.output) {
                                Some(out) => match self.env.update(
                                    self.gen,
                                    place,
                                    instantiate(out, from, to, 0),
                                ) {
                                    Some((env, gen)) => {
                                        let st = CheckState { env, gen, ..self };
                                        match st.jump(ret, Seq::empty()) {
                                            Some(c) => Some(
                                                (
                                                    st,
                                                    ConstraintView::Conj(
                                                        seq![
                                                            ConstraintView::Conj(cs),
                                                            bind_heap(env.heap, self.env.heap.len(), c),
                                                        ],
                                                    ),
                                                ),
                                            ),
                                            None => None,
                                        }
                                    },
                                    None => None,
                                },
                                None => None,
                            },
                        },
                        None => None,
                    },
                    None => None,
                }
            } else {
                None
            },
            None => None,
        }
    }

    /// The state after the signatures of `defs`, from the `i`-th on, have been
    /// defined: each with a predicate variable over the heap of the environment in
    /// place of every refinement that is yet to be inferred.
    pub open spec fn define_conts<I>(self, defs: Seq<ContDefView<I>>, i: nat) -> Option<CheckState>
        decreases defs.len() - i,
    {
        if i >= defs.len() {
            Some(self)
        } else {
            let def = defs[i as int];
            match heap_with_kvars(
                def.ty.heap,
                self.gen.kvar,
                self.env.vars_in_scope(),
                0,
                Seq::empty(),
            ) {
                Some((k, heap)) => CheckState {
                    conts: self.conts.define(
                        def.name,
                        ContTyView { heap, locals: def.ty.locals, inputs: def.ty.inputs },
                    ),
                    gen: Counters { kvar: k, ..self.gen },
                    ..self
                }.define_conts(defs, i + 1),
                None => None,
            }
        }
    }

    /// What must hold for a body to be safe, and the state that the check leaves.
    ///
    /// - A group of continuations: see [`let_cont`](CheckState::let_cont).
    /// - A branch: see [`ite`](CheckState::ite).
    /// - A call and a jump: see [`call`](CheckState::call) and
    ///   [`jump`](CheckState::jump).
    /// - A statement and what follows it: see [`sequence`](CheckState::sequence).
    /// - An abort: nothing.
    pub open spec fn body<I>(self, fns: Seq<(FnId, FnDeclView)>, b: FnBodyView<I>) -> Option<
        (CheckState, ConstraintView),
    >
        decreases b, 1nat,
    {
        match b {
            FnBodyView::LetCont(_, _) => self.let_cont(fns, b),
            FnBodyView::Ite { .. } => self.ite(fns, b),
            FnBodyView::Call { func, args, destination } => self.call(fns, func, args, destination),
            FnBodyView::Jump { target, args } => match self.jump(target, args) {
                Some(c) => Some((self, c)),
                None => None,
            },
            FnBodyView::Sequence(_, _) => self.sequence(fns, b),
            FnBodyView::Abort => Some((self, ConstraintView::tt())),
        }
    }

    /// What must hold for a group of continuations and what follows it: the signature
    /// of each is defined, so that each may jump to any; then each body is checked in
    /// a scope of its own; then the rest is checked. All of it must hold.
    pub open spec fn let_cont<I>(self, fns: Seq<(FnId, FnDeclView)>, b: FnBodyView<I>) -> Option<
        (CheckState, ConstraintView),
    >
        decreases b, 0nat,
    {
        match b {
            FnBodyView::LetCont(defs, rest) => match self.define_conts(defs, 0) {
                Some(st) => match st.cont_bodies(fns, defs, 0, Seq::empty()) {
                    Some((st, cs)) => match st.body(fns, *rest) {
                        Some((st, c)) => Some((st, ConstraintView::Conj(cs.push(c)))),
                        None => None,
                    },
                    None => None,
                },
                None => None,
            },
            _ => None,
        }
    }

    /// What must hold for a branch on a place, which holds a boolean: each arm is
    /// checked in a scope of its own, from the same heap; the one under the assumption
    /// that the place holds true, the other that it does not.
    pub open spec fn ite<I>(self, fns: Seq<(FnId, FnDeclView)>, b: FnBodyView<I>) -> Option<
        (CheckState, ConstraintView),
    >
        decreases b, 0nat,
    {
        match b {
            FnBodyView::Ite { discr, then, else_ } => match (
                self.env.lookup(discr),
                self.env.resolve_place(discr),
            ) {
                (Some(TyView::Refine(BaseTy::Bool, _)), Some(place)) => {
                    match (CheckState { env: self.env.snapshot(), ..self }).body(fns, *then) {
                        Some((st, c1)) => {
                            let env = st.env.rollback(
                                self.env.heap.len(),
                                self.env.locals.len(),
                            );
                            match (CheckState { env: env.snapshot(), ..st }).body(fns, *else_) {
                                Some((st, c2)) => Some(
                                    (
                                        CheckState {
                                            env: st.env.rollback(env.heap.len(), env.locals.len()),
                                            ..st
                                        },
                                        branches(PredView::Place(place), c1, c2),
                                    ),
                                ),
                                None => None,
                            }
                        },
                        None => None,
                    }
                },
                _ => None,
            },
            _ => None,
        }
    }

    /// What must hold for a statement and what follows it: what follows is checked in
    /// the state that the statement leaves, under the assumption that the locations
    /// that the statement bound hold values of their types.
    pub open spec fn sequence<I>(self, fns: Seq<(FnId, FnDeclView)>, b: FnBodyView<I>) -> Option<
        (CheckState, ConstraintView),
    >
        decreases b, 0nat,
    {
        match b {
            FnBodyView::Sequence(statement, rest) => match self.statement(statement.kind) {
                Some((st, c)) => match st.body(fns, *rest) {
                    Some((after, cr)) => Some(
                        (
                            after,
                            ConstraintView::Conj(
                                seq![c, bind_heap(st.env.heap, self.env.heap.len(), cr)],
                            ),
                        ),
                    ),
                    None => None,
                },
                None => None,
            },
            _ => None,
        }
    }

    /// What must hold for the bodies of the continuations `defs`, from the `i`-th on,
    /// to be safe, after `done`.
    pub open spec fn cont_bodies<I>(
        self,
        fns: Seq<(FnId, FnDeclView)>,
        defs: Seq<ContDefView<I>>,
        i: nat,
        done: Seq<ConstraintView>,
    ) -> Option<(CheckState, Seq<ConstraintView>)>
        decreases defs, defs.len() - i,
    {
        if i >= defs.len() {
            Some((self, done))
        } else {
            match self.cont_body(fns, defs[i as int]) {
                Some((st, c)) => st.cont_bodies(fns, defs, i + 1, done.push(c)),
                None => None,
            }
        }
    }

    /// What must hold for the body of a continuation to be safe: the body is checked
    /// in a scope of its own, which binds the locals that the continuation expects and
    /// its parameters, over the heap that it requires; under the assumption that the
    /// locations of that heap hold values of their types.
    pub open spec fn cont_body<I>(self, fns: Seq<(FnId, FnDeclView)>, def: ContDefView<I>)
        -> Option<(CheckState, ConstraintView)>
        decreases def, 2nat,
    {
        match self.conts.get_ty(def.name) {
            Some(ty) => if def.params.len() == ty.inputs.len() {
                let heap_len = self.env.heap.len();
                let depth = self.env.locals.len();
                let env = EnvView {
                    locals: self.env.locals.push(ty.locals + zipped(def.params, ty.inputs)),
                    heap: self.env.heap + ty.heap,
                };
                match (CheckState { env, ..self }).body(fns, *def.body) {
                    Some((st, c)) => Some(
                        (
                            CheckState { env: st.env.rollback(heap_len, depth), ..st },
                            bind_heap(ty.heap, 0, c),
                        ),
                    ),
                    None => None,
                }
            } else {
                None
            },
            None => None,
        }
    }
}

/// What must hold for a function to be safe. The body is checked with each parameter
/// bound to the location that the signature gives it, over the input heap, and with
/// the return continuation defined to require the output heap; under the assumption
/// that the locations of the input heap hold values of their types. Refinements of the
/// signature that are yet to be inferred get predicate variables. With the obligation
/// come the counters that the check leaves.
pub open spec fn fn_def_constraint<I>(gen: Counters, fns: Seq<(FnId, FnDeclView)>, def: FnDefView<I>)
    -> Option<(Counters, ConstraintView)> {
    if def.params.len() != def.ty.inputs.len() {
        None
    } else {
        match heap_with_kvars(def.ty.in_heap, gen.kvar, Seq::empty(), 0, Seq::empty()) {
            Some((k, in_heap)) => {
                let env = EnvView {
                    locals: seq![zipped(def.params, seconds(def.ty.inputs))],
                    heap: in_heap,
                };
                match heap_with_kvars(def.ty.out_heap, k, env.vars_in_scope(), 0, Seq::empty()) {
                    Some((k, out_heap)) => {
                        let conts = (ContEnvView { layers: seq![Map::empty()], tys: Seq::empty() }).define(
                            def.ret,
                            ContTyView {
                                heap: out_heap,
                                locals: Seq::empty(),
                                inputs: seq![def.ty.output],
                            },
                        );
                        let st = CheckState { env, conts, gen: Counters { kvar: k, ..gen } };
                        match st.body(fns, def.body) {
                            Some((st, c)) => Some((st.gen, bind_heap(in_heap, 0, c))),
                            None => None,
                        }
                    },
                    None => None,
                }
            },
            None => None,
        }
    }
}

/// The signatures of a list, each by what it denotes.
pub open spec fn sigs_view(fns: Seq<(FnId, FnDecl)>) -> Seq<(FnId, FnDeclView)> {
    Seq::new(fns.len(), |i: int| (fns[i].0, fns[i].1@))
}

pub(crate) fn find_sig(fns: &Vec<(FnId, FnDecl)>, f: FnId) -> (sig: Option<&FnDecl>)
    ensures
        match sig {
            Some(sig) => fn_sig(sigs_view(fns@), f, 0) == Some(sig@),
            None => fn_sig(sigs_view(fns@), f, 0) is None,
        },
{
    let mut i: usize = 0;
    while i < fns.len()
        invariant
            i <= fns.len(),
            fn_sig(sigs_view(fns@), f, i as nat) == fn_sig(sigs_view(fns@), f, 0),
        decreases fns.len() - i,
    {
        if fns[i].0 == f {
            return Some(&fns[i].1);
        }
        i += 1;
    }
    None
}

fn nu_pred() -> (p: Pred)
    ensures
        p@ == nu(),
{
    Pred::Place(PredPlace::from_var(Var::Nu))
}

fn binary(op: PredBinOp, l: Pred, r: Pred) -> (p: Pred)
    ensures
        p@ == PredView::BinaryOp(op, Box::new(l@), Box::new(r@)),
{
    Pred::BinaryOp(op, Box::new(l), Box::new(r))
}

fn refine_eq_of(bty: BaseTy, p: Pred) -> (ty: Ty)
    ensures
        ty@ == refine_eq(bty, p@),
{
    Ty::Refine(bty, Refine::Pred(binary(PredBinOp::Eq, nu_pred(), p)))
}

fn refine_iff_of(p: Pred) -> (ty: Ty)
    ensures
        ty@ == refine_iff(p@),
{
    Ty::Refine(BaseTy::Bool, Refine::Pred(binary(PredBinOp::Iff, nu_pred(), p)))
}

fn bin_op_ty_of(op: BinOp, l: Pred, r: Pred) -> (ty: Ty)
    ensures
        ty@ == bin_op_ty(op, l@, r@),
{
    match op {
        BinOp::Add => refine_eq_of(BaseTy::Int, binary(PredBinOp::Add, l, r)),
        BinOp::Sub => refine_eq_of(BaseTy::Int, binary(PredBinOp::Sub, l, r)),
        BinOp::Lt => refine_iff_of(binary(PredBinOp::Lt, l, r)),
        BinOp::Le => refine_iff_of(binary(PredBinOp::Le, l, r)),
        BinOp::Eq => refine_iff_of(binary(PredBinOp::Eq, l, r)),
        BinOp::Ge => refine_iff_of(binary(PredBinOp::Ge, l, r)),
        BinOp::Gt => refine_iff_of(binary(PredBinOp::Gt, l, r)),
    }
}

fn un_op_ty_of(op: UnOp, p: Pred) -> (ty: Ty)
    ensures
        ty@ == un_op_ty(op, p@),
{
    match op {
        UnOp::Not => {
            let not = Pred::UnaryOp(PredUnOp::Not, Box::new(p));
            assert(not@ == PredView::UnaryOp(PredUnOp::Not, Box::new(p@)));
            refine_iff_of(not)
        },
        UnOp::Neg => refine_eq_of(
            BaseTy::Int,
            binary(PredBinOp::Sub, Pred::Constant(PredConstant::Int(0)), p),
        ),
    }
}

fn place_ty_of(env: &Env, p: &Place) -> (ty: Option<Ty>)
    ensures
        match ty {
            Some(ty) => place_ty(env@, p@) == Some(ty@),
            None => place_ty(env@, p@) is None,
        },
{
    match env.try_lookup(p) {
        Some(Ty::Refine(bty, _)) => match env.try_resolve_place(p) {
            Some(place) => Some(refine_eq_of(*bty, Pred::Place(place))),
            None => None,
        },
        Some(ty) => Some(ty.clone()),
        None => None,
    }
}

fn operand_ty_of(env: &Env, op: &Operand) -> (ty: Option<Ty>)
    ensures
        match ty {
            Some(ty) => operand_ty(env@, op@) == Some(ty@),
            None => operand_ty(env@, op@) is None,
        },
{
    match op {
        Operand::Constant(c) => {
            let lit = match *c {
                crate::ast::Constant::Bool(b) => PredConstant::Bool(b),
                crate::ast::Constant::Int(n) => PredConstant::Int(n),
                crate::ast::Constant::Unit => PredConstant::Unit,
            };
            Some(refine_eq_of(c.base_ty(), Pred::Constant(lit)))
        },
        Operand::Copy(p) => place_ty_of(env, p),
        Operand::Move(p) => place_ty_of(env, p),
    }
}

#[verifier::loop_isolation(false)]
fn layout_ty_of(tcx: &mut TyCtxt, layout: &TypeLayout) -> (ty: Option<Ty>)
    ensures
        match ty {
            Some(ty) => layout_ty(layout@, old(tcx)@.field) == Some((final(tcx)@.field, ty@)),
            None => layout_ty(layout@, old(tcx)@.field) is None,
        },
        final(tcx)@ == (Counters { field: final(tcx)@.field, ..old(tcx)@ }),
    decreases layout,
{
    match layout {
        TypeLayout::Block(n) => Some(Ty::Uninit(*n)),
        TypeLayout::Tuple(layouts) => {
            let ghost ls = layouts_view(layouts@);
            let ghost k0 = tcx@.field;
            proof {
                lemma_layouts_view(*layouts);
            }
            let mut out: Vec<(Field, Ty)> = Vec::new();
            assert(fields_view(out@) =~= Seq::empty());
            let mut i: usize = 0;
            while i < layouts.len()
                invariant
                    i <= layouts.len(),
                    tcx@ == (Counters { field: tcx@.field, ..old(tcx)@ }),
                    layout_fields(ls, tcx@.field, i as nat, fields_view(out@)) == layout_fields(
                        ls,
                        k0,
                        0,
                        Seq::empty(),
                    ),
                decreases layouts.len() - i,
            {
                if !tcx.has_field() {
                    proof {
                        tcx.lemma_bounded();
                    }
                    return None;
                }
                let f = tcx.fresh_field();
                let t = match layout_ty_of(tcx, &layouts[i]) {
                    Some(t) => t,
                    None => return None,
                };
                proof {
                    assert(fields_view(out@.push((f, t))) =~= fields_view(out@).push((f, t@)));
                }
                out.push((f, t));
                i += 1;
            }
            proof {
                lemma_tuple_view(out);
            }
            Some(Ty::Tuple(out))
        },
    }
}

/// The layouts of a list, each by what it denotes.
pub open spec fn layouts_view(layouts: Seq<TypeLayout>) -> Seq<TypeLayoutView> {
    Seq::new(layouts.len(), |i: int| layouts[i]@)
}

/// The view of a tuple layout is that of its parts.
pub proof fn lemma_layouts_view(layouts: Vec<TypeLayout>)
    ensures
        TypeLayout::Tuple(layouts)@ == TypeLayoutView::Tuple(layouts_view(layouts@)),
{
    assert(TypeLayout::Tuple(layouts)@->Tuple_0 =~= layouts_view(layouts@));
}

pub(crate) fn instantiate_ty(ty: &Ty, from: &Vec<Location>, to: &Vec<Location>) -> (r: Ty)
    ensures
        r@ == instantiate(ty@, from@, to@, 0),
{
    let mut cur = ty.clone();
    let mut i: usize = 0;
    while i < from.len() && i < to.len()
        invariant
            i <= from.len(),
            i <= to.len(),
            instantiate(cur@, from@, to@, i as nat) == instantiate(ty@, from@, to@, 0),
        decreases from.len() - i,
    {
        cur = cur.rename(Var::Location(from[i]), Var::Location(to[i]));
        i += 1;
    }
    cur
}

fn bind_location_in(l: Location, ty: &Ty, c: Constraint) -> (r: Constraint)
    ensures
        r@ == bind_location(l, ty@, c@),
{
    match ty {
        Ty::Refine(bty, Refine::Pred(p)) => Constraint::Forall {
            bind: Var::Location(l),
            ty: *bty,
            hyp: p.rename(Var::Nu, Var::Location(l)),
            body: Box::new(c),
        },
        Ty::Refine(bty, Refine::Infer) => c,
        Ty::OwnRef(_) => c,
        Ty::Ref(_, _, _) => c,
        Ty::Tuple(_) => c,
        Ty::Uninit(_) => c,
    }
}

fn bind_heap_in(heap: &Heap, from: usize, c: Constraint) -> (r: Constraint)
    ensures
        r@ == bind_heap(heap@, from as nat, c@),
{
    let ghost c0 = c@;
    let mut acc = c;
    let mut i: usize = heap.len();
    while i > from
        invariant
            i <= heap@.len(),
            i == heap@.len() || i >= from,
            heap@.len() == heap.0.len(),
            acc@ == bind_heap(heap@, i as nat, c0),
        decreases i,
    {
        i -= 1;
        acc = bind_location_in(heap.0[i].0, &heap.0[i].1, acc);
    }
    assert(bind_heap(heap@, i as nat, c0) == bind_heap(heap@, from as nat, c0));
    acc
}

pub(crate) fn locations_of_in(env: &Env, xs: &Vec<Local>) -> (r: Option<Vec<Location>>)
    ensures
        match r {
            Some(r) => locations_of(env@, xs@, 0, Seq::empty()) == Some(r@),
            None => locations_of(env@, xs@, 0, Seq::empty()) is None,
        },
{
    let mut out: Vec<Location> = Vec::new();
    let mut i: usize = 0;
    while i < xs.len()
        invariant
            i <= xs.len(),
            locations_of(env@, xs@, i as nat, out@) == locations_of(env@, xs@, 0, Seq::empty()),
        decreases xs.len() - i,
    {
        match env.locals().get(&xs[i]) {
            Some(l) => out.push(*l),
            None => return None,
        }
        i += 1;
    }
    Some(out)
}

fn passing_in(env: &Env, sig: &Heap, from: &Vec<Location>, to: &Vec<Location>) -> (r: Option<
    Vec<Constraint>,
>)
    ensures
        match r {
            Some(r) => passing(env@, sig@, from@, to@, 0, Seq::empty()) == Some(
                constraints_view(r@),
            ),
            None => passing(env@, sig@, from@, to@, 0, Seq::empty()) is None,
        },
{
    let mut out: Vec<Constraint> = Vec::new();
    assert(constraints_view(out@) =~= Seq::empty());
    let mut i: usize = 0;
    while i < from.len() && i < to.len()
        invariant
            i <= from.len(),
            i <= to.len(),
            passing(env@, sig@, from@, to@, i as nat, constraints_view(out@)) == passing(
                env@,
                sig@,
                from@,
                to@,
                0,
                Seq::empty(),
            ),
        decreases from.len() - i,
    {
        match (env.heap().get(&to[i]), sig.get(&from[i])) {
            (Some(actual), Some(formal)) => {
                let expected = instantiate_ty(formal, from, to);
                let own = selfified(actual, PredPlace::from_var(Var::Location(to[i])));
                let c = match try_subtyping(env.heap(), &own, sig, &expected) {
                    Some(c) => c,
                    None => return None,
                };
                proof {
                    assert(constraints_view(out@.push(c)) =~= constraints_view(out@).push(c@));
                }
                out.push(c);
            },
            (Some(_), None) => {
                if to[i] != from[i] {
                    return None;
                }
            },
            _ => return None,
        }
        i += 1;
    }
    Some(out)
}

/// The refinement checker.
pub struct RefineChecker {
    pub(crate) env: Env,
    pub(crate) conts: ContEnv,
}

impl RefineChecker {
    /// The state of the check when its context has the counters `gen`.
    pub open(crate) spec fn state(&self, gen: Counters) -> CheckState {
        CheckState { env: self.env@, conts: self.conts@, gen }
    }

    fn rvalue_ty(&mut self, tcx: &mut TyCtxt, rvalue: &Rvalue) -> (ty: Option<Ty>)
        ensures
            match ty {
                Some(ty) => old(self).state(old(tcx)@).rvalue_ty(rvalue@) == Some(
                    (final(self).state(final(tcx)@), ty@),
                ),
                None => old(self).state(old(tcx)@).rvalue_ty(rvalue@) is None,
            },
    {
        reveal(CheckState::rvalue_ty);
        match rvalue {
            Rvalue::Use(op) => operand_ty_of(&self.env, op),
            Rvalue::Ref(kind, place) => match self.env.try_borrow(tcx, place) {
                Some(l) => {
                    let mut places: Vec<Place> = Vec::new();
                    places.push(place.clone());
                    assert(crate::ast::places_view(places@) =~= seq![place@]);
                    let ty = Ty::Ref(*kind, Region::Concrete(places), l);
                    assert(ty@ == TyView::Ref(*kind, RegionView::Concrete(seq![place@]), l));
                    Some(ty)
                },
                None => {
                    proof {
                        tcx.lemma_bounded();
                    }
                    None
                },
            },
            Rvalue::BinaryOp(op, lhs, rhs) => {
                match (self.env.try_resolve_operand(lhs), self.env.try_resolve_operand(rhs)) {
                    (Some(l), Some(r)) => Some(bin_op_ty_of(*op, l, r)),
                    _ => None,
                }
            },
            Rvalue::CheckedBinaryOp(op, lhs, rhs) => {
                match (self.env.try_resolve_operand(lhs), self.env.try_resolve_operand(rhs)) {
                    (Some(l), Some(r)) => {
                        if !tcx.has_field() {
                            proof {
                                tcx.lemma_bounded();
                            }
                            return None;
                        }
                        let ghost before = tcx@;
                        let f0 = tcx.fresh_field();
                        if !tcx.has_field() {
                            proof {
                                tcx.lemma_bounded();
                            }
                            return None;
                        }
                        let f1 = tcx.fresh_field();
                        let mut fields: Vec<(Field, Ty)> = Vec::new();
                        fields.push((f0, bin_op_ty_of(*op, l, r)));
                        fields.push(
                            (f1, refine_iff_of(Pred::Constant(PredConstant::Bool(false)))),
                        );
                        proof {
                            lemma_tuple_view(fields);
                            assert(fields_view(fields@) =~= seq![
                                (Field(before.field as usize), bin_op_ty(*op, l@, r@)),
                                (
                                    Field((before.field + 1) as usize),
                                    refine_iff(PredView::Constant(PredConstant::Bool(false))),
                                ),
                            ]);
                        }
                        Some(Ty::Tuple(fields))
                    },
                    _ => None,
                }
            },
            Rvalue::UnaryOp(op, operand) => match self.env.try_resolve_operand(operand) {
                Some(p) => Some(un_op_ty_of(*op, p)),
                None => None,
            },
        }
    }

    pub(crate) fn check_statement(&mut self, tcx: &mut TyCtxt, kind: &StatementKind) -> (c: Option<Constraint>)
        ensures
            match c {
                Some(c) => old(self).state(old(tcx)@).statement(kind@) == Some(
                    (final(self).state(final(tcx)@), c@),
                ),
                None => old(self).state(old(tcx)@).statement(kind@) is None,
            },
    {
        reveal(CheckState::statement);
        match kind {
            StatementKind::Let(x, layout) => {
                let ty = match layout_ty_of(tcx, layout) {
                    Some(ty) => ty,
                    None => return None,
                };
                if !self.env.try_allocate(tcx, *x, ty) {
                    proof {
                        tcx.lemma_bounded();
                    }
                    return None;
                }
                Some(Constraint::tt())
            },
            StatementKind::Assign(place, rvalue) => {
                let ty = match self.rvalue_ty(tcx, rvalue) {
                    Some(ty) => ty,
                    None => return None,
                };
                if !self.env.try_update(tcx, place, ty) {
                    return None;
                }
                Some(Constraint::tt())
            },
            StatementKind::Drop(place) => {
                if place.projs.len() != 0 {
                    return None;
                }
                self.env.try_drop(tcx, &place.base)
            },
            StatementKind::Nop => Some(Constraint::tt()),
        }
    }

    fn check_jump(&self, target: ContId, args: &Vec<Local>) -> (c: Option<Constraint>)
        ensures
            forall|gen: Counters|
                match c {
                    Some(c) => (#[trigger] self.state(gen)).jump(target, args@) == Some(c@),
                    None => (#[trigger] self.state(gen)).jump(target, args@) is None,
                },
    {
        reveal(CheckState::jump);
        let ty = match self.conts.get_ty(&target) {
            Some(ty) => ty,
            None => return None,
        };
        if args.len() != ty.inputs.len() {
            return None;
        }
        let mut xs: Vec<Local> = Vec::new();
        let mut from: Vec<Location> = Vec::new();
        let mut i: usize = 0;
        while i < args.len()
            invariant
                i <= args.len(),
                args.len() == ty.inputs.len(),
                xs@ == args@.take(i as int),
                from@ == ty.inputs@.take(i as int),
            decreases args.len() - i,
        {
            xs.push(args[i]);
            from.push(ty.inputs[i]);
            i += 1;
        }
        let mut j: usize = 0;
        while j < ty.locals.len()
            invariant
                j <= ty.locals.len(),
                xs@ == args@ + firsts(ty.locals@).take(j as int),
                from@ == ty.inputs@ + seconds(ty.locals@).take(j as int),
            decreases ty.locals.len() - j,
        {
            xs.push(ty.locals[j].0);
            from.push(ty.locals[j].1);
            assert(xs@ =~= args@ + firsts(ty.locals@).take(j + 1));
            assert(from@ =~= ty.inputs@ + seconds(ty.locals@).take(j + 1));
            j += 1;
        }
        assert(xs@ =~= args@ + firsts(ty@.locals));
        assert(from@ =~= ty@.inputs + seconds(ty@.locals));
        let to = match locations_of_in(&self.env, &xs) {
            Some(to) => to,
            None => return None,
        };
        match passing_in(&self.env, &ty.heap, &from, &to) {
            Some(cs) => {
                proof {
                    lemma_conj_view(cs);
                }
                Some(Constraint::Conj(cs))
            },
            None => None,
        }
    }

    fn check_call(
        &mut self,
        tcx: &mut TyCtxt,
        fns: &Vec<(FnId, FnDecl)>,
        func: FnId,
        args: &Vec<Local>,
        destination: &Option<(Place, ContId)>,
    ) -> (c: Option<Constraint>)
        ensures
            match c {
                Some(c) => old(self).state(old(tcx)@).call(
                    sigs_view(fns@),
                    func,
                    args@,
                    destination_view(*destination),
                ) == Some((final(self).state(final(tcx)@), c@)),
                None => old(self).state(old(tcx)@).call(
                    sigs_view(fns@),
                    func,
                    args@,
                    destination_view(*destination),
                ) is None,
            },
    {
        reveal(CheckState::call);
        let sig = match find_sig(fns, func) {
            Some(sig) => sig,
            None => return None,
        };
        if args.len() != sig.inputs.len() {
            return None;
        }
        let mut from: Vec<Location> = Vec::new();
        let mut i: usize = 0;
        while i < sig.inputs.len()
            invariant
                i <= sig.inputs.len(),
                from@ == seconds(sig.inputs@).take(i as int),
            decreases sig.inputs.len() - i,
        {
            from.push(sig.inputs[i].1);
            assert(from@ =~= seconds(sig.inputs@).take(i + 1));
            i += 1;
        }
        assert(from@ =~= seconds(sig@.inputs));
        let to = match locations_of_in(&self.env, args) {
            Some(to) => to,
            None => return None,
        };
        let cs = match passing_in(&self.env, &sig.in_heap, &from, &to) {
            Some(cs) => cs,
            None => return None,
        };
        proof {
            lemma_conj_view(cs);
        }
        let passed = Constraint::Conj(cs);
        match destination {
            None => Some(passed),
            Some((place, ret)) => {
                let out = match sig.out_heap.get(&sig.output) {
                    Some(out) => instantiate_ty(out, &from, &to),
                    None => return None,
                };
                let before = self.env.heap().len();
                if !self.env.try_update(tcx, place, out) {
                    return None;
                }
                let no_args: Vec<Local> = Vec::new();
                let c = match self.check_jump(*ret, &no_args) {
                    Some(c) => c,
                    None => {
                        assert(self.state(tcx@).jump(*ret, no_args@) is None);
                        return None;
                    },
                };
                assert(self.state(tcx@).jump(*ret, no_args@) == Some(c@));
                let bound = bind_heap_in(self.env.heap(), before, c);
                Some(Constraint::and(passed, bound))
            },
        }
    }

    #[verifier::loop_isolation(false)]
    fn define_conts<I>(&mut self, tcx: &mut TyCtxt, defs: &Vec<ContDef<I>>) -> (ok: bool)
        ensures
            ok ==> old(self).state(old(tcx)@).define_conts(conts_view(defs@), 0) == Some(
                final(self).state(final(tcx)@),
            ),
            !ok ==> old(self).state(old(tcx)@).define_conts(conts_view(defs@), 0) is None,
    {
        let ghost ds = conts_view(defs@);
        let mut i: usize = 0;
        while i < defs.len()
            invariant
                i <= defs.len(),
                self.state(tcx@).define_conts(ds, i as nat) == old(self).state(
                    old(tcx)@,
                ).define_conts(ds, 0),
            decreases defs.len() - i,
        {
            let vars = self.env.vars_in_scope();
            if !self.conts.try_define_cont(tcx, defs[i].name, &defs[i].ty, vars) {
                return false;
            }
            i += 1;
        }
        true
    }

    fn check_body<I>(&mut self, tcx: &mut TyCtxt, fns: &Vec<(FnId, FnDecl)>, body: &FnBody<I>) -> (c:
        Option<Constraint>)
        ensures
            match c {
                Some(c) => old(self).state(old(tcx)@).body(sigs_view(fns@), body@) == Some(
                    (final(self).state(final(tcx)@), c@),
                ),
                None => old(self).state(old(tcx)@).body(sigs_view(fns@), body@) is None,
            },
        decreases body, 3nat,
    {
        match body {
            FnBody::LetCont(_, _) => self.check_let_cont(tcx, fns, body),
            FnBody::Ite { .. } => self.check_ite(tcx, fns, body),
            FnBody::Call { func, args, destination } => self.check_call(
                tcx,
                fns,
                *func,
                args,
                destination,
            ),
            FnBody::Jump { target, args } => {
                let c = self.check_jump(*target, args);
                assert(match c {
                    Some(c) => self.state(tcx@).jump(*target, args@) == Some(c@),
                    None => self.state(tcx@).jump(*target, args@) is None,
                });
                c
            },
            FnBody::Sequence(_, _) => self.check_sequence(tcx, fns, body),
            FnBody::Abort => Some(Constraint::tt()),
        }
    }

    #[verifier::loop_isolation(false)]
    fn check_let_cont<I>(&mut self, tcx: &mut TyCtxt, fns: &Vec<(FnId, FnDecl)>, body: &FnBody<I>)
        -> (c: Option<Constraint>)
        requires
            body is LetCont,
        ensures
            match c {
                Some(c) => old(self).state(old(tcx)@).body(sigs_view(fns@), body@) == Some(
                    (final(self).state(final(tcx)@), c@),
                ),
                None => old(self).state(old(tcx)@).body(sigs_view(fns@), body@) is None,
            },
        decreases body, 0nat,
    {
        match body {
            FnBody::LetCont(defs, rest) => {
                let ghost ds = conts_view(defs@);
                proof {
                    lemma_let_cont_view(*defs, *rest);
                }
                if !self.define_conts(tcx, defs) {
                    return None;
                }
                let ghost st1 = self.state(tcx@);
                let mut cs: Vec<Constraint> = Vec::new();
                assert(constraints_view(cs@) =~= Seq::empty());
                let mut i: usize = 0;
                while i < defs.len()
                    invariant
                        i <= defs.len(),
                        self.state(tcx@).cont_bodies(
                            sigs_view(fns@),
                            ds,
                            i as nat,
                            constraints_view(cs@),
                        ) == st1.cont_bodies(sigs_view(fns@), ds, 0, Seq::empty()),
                    decreases defs.len() - i,
                {
                    let c = match self.check_cont_body(tcx, fns, &defs[i]) {
                        Some(c) => c,
                        None => return None,
                    };
                    proof {
                        assert(constraints_view(cs@.push(c)) =~= constraints_view(cs@).push(c@));
                    }
                    cs.push(c);
                    i += 1;
                }
                let c = match self.check_body(tcx, fns, rest) {
                    Some(c) => c,
                    None => return None,
                };
                proof {
                    assert(constraints_view(cs@.push(c)) =~= constraints_view(cs@).push(c@));
                }
                cs.push(c);
                proof {
                    lemma_conj_view(cs);
                }
                Some(Constraint::Conj(cs))
            },
            _ => None,
        }
    }

    fn check_ite<I>(&mut self, tcx: &mut TyCtxt, fns: &Vec<(FnId, FnDecl)>, body: &FnBody<I>) -> (c:
        Option<Constraint>)
        requires
            body is Ite,
        ensures
            match c {
                Some(c) => old(self).state(old(tcx)@).body(sigs_view(fns@), body@) == Some(
                    (final(self).state(final(tcx)@), c@),
                ),
                None => old(self).state(old(tcx)@).body(sigs_view(fns@), body@) is None,
            },
        decreases body, 0nat,
    {
        match body {
            FnBody::Ite { discr, then, else_ } => {
                match self.env.try_lookup(discr) {
                    Some(Ty::Refine(BaseTy::Bool, _)) => {},
                    _ => return None,
                }
                let place = match self.env.try_resolve_place(discr) {
                    Some(place) => place,
                    None => return None,
                };
                let c1 = match self.check_arm(tcx, fns, then) {
                    Some(c1) => c1,
                    None => return None,
                };
                let c2 = match self.check_arm(tcx, fns, else_) {
                    Some(c2) => c2,
                    None => return None,
                };
                Some(branches_of(Pred::Place(place), c1, c2))
            },
            _ => None,
        }
    }

    /// Checks `body` in a scope of its own, and goes back to the state before it.
    fn check_arm<I>(&mut self, tcx: &mut TyCtxt, fns: &Vec<(FnId, FnDecl)>, body: &FnBody<I>) -> (c:
        Option<Constraint>)
        ensures
            arm_checked(
                c,
                old(self).state(old(tcx)@),
                sigs_view(fns@),
                body@,
                final(self).state(final(tcx)@),
            ),
        decreases body, 4nat,
    {
        let snapshot = self.env.snapshot();
        let c = match self.check_body(tcx, fns, body) {
            Some(c) => c,
            None => return None,
        };
        let ghost st = self.state(tcx@);
        self.env.rollback_to(snapshot);
        assert(self.env@ == st.env.rollback(old(self).env@.heap.len(), old(self).env@.locals.len()));
        Some(c)
    }

    fn check_sequence<I>(&mut self, tcx: &mut TyCtxt, fns: &Vec<(FnId, FnDecl)>, body: &FnBody<I>)
        -> (c: Option<Constraint>)
        requires
            body is Sequence,
        ensures
            match c {
                Some(c) => old(self).state(old(tcx)@).body(sigs_view(fns@), body@) == Some(
                    (final(self).state(final(tcx)@), c@),
                ),
                None => old(self).state(old(tcx)@).body(sigs_view(fns@), body@) is None,
            },
        decreases body, 0nat,
    {
        match body {
            FnBody::Sequence(statement, rest) => {
                let before = self.env.heap().len();
                let c = match self.check_statement(tcx, &statement.kind) {
                    Some(c) => c,
                    None => return None,
                };
                let bound = self.env.heap().clone();
                let cr = match self.check_body(tcx, fns, rest) {
                    Some(cr) => cr,
                    None => return None,
                };
                Some(Constraint::and(c, bind_heap_in(&bound, before, cr)))
            },
            _ => None,
        }
    }

    fn check_cont_body<I>(&mut self, tcx: &mut TyCtxt, fns: &Vec<(FnId, FnDecl)>, def: &ContDef<I>)
        -> (c: Option<Constraint>)
        ensures
            match c {
                Some(c) => old(self).state(old(tcx)@).cont_body(sigs_view(fns@), def@) == Some(
                    (final(self).state(final(tcx)@), c@),
                ),
                None => old(self).state(old(tcx)@).cont_body(sigs_view(fns@), def@) is None,
            },
        decreases def, 0nat,
    {
        let ty = match self.conts.get_ty(&def.name) {
            Some(ty) => ty,
            None => return None,
        };
        if def.params.len() != ty.inputs.len() {
            return None;
        }
        let mut params: Vec<(Local, Location)> = Vec::new();
        let mut i: usize = 0;
        while i < def.params.len()
            invariant
                i <= def.params.len(),
                def.params.len() == ty.inputs.len(),
                params@ == zipped(def.params@, ty.inputs@).take(i as int),
            decreases def.params.len() - i,
        {
            params.push((def.params[i], ty.inputs[i]));
            assert(params@ =~= zipped(def.params@, ty.inputs@).take(i + 1));
            i += 1;
        }
        assert(params@ =~= zipped(def.params@, ty.inputs@));
        let required = ty.heap.clone();
        let ghost st0 = self.state(tcx@);
        let snapshot = self.env.snapshot_without_locals();
        self.env.extend_heap(&ty.heap);
        self.env.insert_locals(&ty.locals);
        self.env.insert_locals(&params);
        assert(self.env@.locals =~= st0.env.locals.push(ty@.locals + zipped(def@.params, ty@.inputs)));
        let c = match self.check_body(tcx, fns, &def.body) {
            Some(c) => c,
            None => return None,
        };
        let ghost st1 = self.state(tcx@);
        self.env.rollback_to(snapshot);
        assert(self.env@ == st1.env.rollback(st0.env.heap.len(), st0.env.locals.len()));
        Some(bind_heap_in(&required, 0, c))
    }
}

/// Whether `c` and the state `after` are what the check of `b` in a scope of its own
/// gives from the state `before`.
pub open spec fn arm_checked<I>(
    c: Option<Constraint>,
    before: CheckState,
    fns: Seq<(FnId, FnDeclView)>,
    b: FnBodyView<I>,
    after: CheckState,
) -> bool {
    let checked = (CheckState { env: before.env.snapshot(), ..before }).body(fns, b);
    match c {
        Some(c) => checked matches Some((st, c1)) && c1 == c@ && after == (CheckState {
            env: st.env.rollback(before.env.heap.len(), before.env.locals.len()),
            ..st
        }),
        None => checked is None,
    }
}

fn branches_of(p: Pred, c1: Constraint, c2: Constraint) -> (c: Constraint)
    ensures
        c@ == branches(p@, c1@, c2@),
{
    let not = Pred::UnaryOp(PredUnOp::Not, Box::new(p.clone()));
    assert(not@ == PredView::UnaryOp(PredUnOp::Not, Box::new(p@)));
    let g1 = Constraint::Guard(p, Box::new(c1));
    assert(g1@ == ConstraintView::Guard(p@, Box::new(c1@)));
    let g2 = Constraint::Guard(not, Box::new(c2));
    assert(g2@ == ConstraintView::Guard(not@, Box::new(c2@)));
    Constraint::and(g1, g2)
}

/// The destination of a call, by what it denotes.
pub open spec fn destination_view(destination: Option<(Place, ContId)>) -> Option<
    (PlaceView, ContId),
> {
    match destination {
        Some((place, ret)) => Some((place@, ret)),
        None => None,
    }
}

/// What must hold for `def` to be safe, where it may call the functions that `fns`
/// declares. Whether it holds is for a solver to say: a function that is not safe has
/// an obligation too, one that does not hold.
///
/// There is no obligation where the function is not well formed (a name is not bound,
/// a projection or an operand does not fit the type it meets, a jump or a call does
/// not fit the signature) or where `tcx` runs out of identifiers. The check covers
/// every construct of the IR, so that there is none never means that a construct is
/// yet to be implemented: what the logic lacks is found when the annotations are
/// lowered.
pub fn check_fn_def<I>(tcx: &mut TyCtxt, fns: &Vec<(FnId, FnDecl)>, def: &FnDef<I>) -> (c: Option<
    Constraint,
>)
    ensures
        match c {
            Some(c) => fn_def_constraint(old(tcx)@, sigs_view(fns@), def@) == Some(
                (final(tcx)@, c@),
            ),
            None => fn_def_constraint(old(tcx)@, sigs_view(fns@), def@) is None,
        },
{
    if def.params.len() != def.ty.inputs.len() {
        return None;
    }
    let in_heap = match TypeLowerer::new(Vec::new()).try_lower_heap(tcx, &def.ty.in_heap) {
        Some(heap) => heap,
        None => return None,
    };
    let mut params: Vec<(Local, Location)> = Vec::new();
    let mut i: usize = 0;
    while i < def.params.len()
        invariant
            i <= def.params.len(),
            def.params.len() == def.ty.inputs.len(),
            params@ == zipped(def.params@, seconds(def.ty.inputs@)).take(i as int),
        decreases def.params.len() - i,
    {
        params.push((def.params[i], def.ty.inputs[i].1));
        assert(params@ =~= zipped(def.params@, seconds(def.ty.inputs@)).take(i + 1));
        i += 1;
    }
    assert(params@ =~= zipped(def.params@, seconds(def.ty.inputs@)));
    let mut checker = RefineChecker { env: Env::new(), conts: ContEnv::new() };
    checker.env.extend_heap(&in_heap);
    checker.env.insert_locals(&params);
    assert(checker.env@.heap =~= in_heap@);
    assert(checker.env@.locals =~= seq![zipped(def@.params, seconds(def@.ty.inputs))]);
    let vars = checker.env.vars_in_scope();
    if !checker.conts.try_define_ret_cont(tcx, def.ret, &def.ty, vars) {
        return None;
    }
    let c = match checker.check_body(tcx, fns, &def.body) {
        Some(c) => c,
        None => return None,
    };
    Some(bind_heap_in(&in_heap, 0, c))
}

} // verus!
