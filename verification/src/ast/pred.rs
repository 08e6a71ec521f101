//! The refinement logic: predicates over the value being refined, heap locations and
//! tuple fields.

use crate::ast::BaseTy;
use crate::names::{Field, Location};
use vstd::prelude::*;
use vstd::std_specs::convert::FromSpecImpl;

verus! {

/// A literal of the logic.
#[derive(Debug, PartialEq, Eq, Hash, Clone, Copy, Structural)]
pub enum Constant {
    Bool(bool),
    Int(u128),
    Unit,
}

impl Constant {
    /// The base type that the literal inhabits.
    pub open spec fn spec_base_ty(&self) -> BaseTy {
        match self {
            Constant::Bool(_) => BaseTy::Bool,
            Constant::Int(_) => BaseTy::Int,
            Constant::Unit => BaseTy::Unit,
        }
    }

    /// The base type that the literal inhabits.
    #[verifier::when_used_as_spec(spec_base_ty)]
    pub fn base_ty(&self) -> (ty: BaseTy)
        ensures
            ty == self.spec_base_ty(),
    {
        match self {
            Constant::Bool(_) => BaseTy::Bool,
            Constant::Int(_) => BaseTy::Int,
            Constant::Unit => BaseTy::Unit,
        }
    }
}

/// A variable of the logic.
#[derive(PartialEq, Eq, Copy, Clone, Debug, Hash, Structural)]
pub enum Var {
    /// The value being refined.
    Nu,
    /// The value stored at a heap location.
    Location(Location),
    /// The value of an earlier field of the enclosing tuple.
    Field(Field),
}

impl From<Location> for Var {
    fn from(v: Location) -> (var: Var) {
        Var::Location(v)
    }
}

impl FromSpecImpl<Location> for Var {
    open spec fn obeys_from_spec() -> bool {
        true
    }

    open spec fn from_spec(v: Location) -> Var {
        Var::Location(v)
    }
}

impl From<Field> for Var {
    fn from(v: Field) -> (var: Var) {
        Var::Field(v)
    }
}

impl FromSpecImpl<Field> for Var {
    open spec fn obeys_from_spec() -> bool {
        true
    }

    open spec fn from_spec(v: Field) -> Var {
        Var::Field(v)
    }
}

/// A binary operator of the logic.
#[derive(Copy, Clone, Eq, PartialEq, Debug, Hash, Structural)]
pub enum BinOp {
    Add,
    Sub,
    Lt,
    Le,
    Eq,
    Ge,
    Gt,
    Iff,
}

/// A unary operator of the logic.
#[derive(Copy, Clone, Eq, PartialEq, Debug, Hash, Structural)]
pub enum UnOp {
    Not,
}

/// A variable followed by tuple projections.
#[derive(Eq, PartialEq, Hash, Debug)]
pub struct Place {
    pub base: Var,
    pub projs: Vec<usize>,
}

/// What a [`Place`] denotes.
pub struct PlaceView {
    pub base: Var,
    pub projs: Seq<usize>,
}

impl View for Place {
    type V = PlaceView;

    open spec fn view(&self) -> PlaceView {
        PlaceView { base: self.base, projs: self.projs@ }
    }
}

impl Clone for Place {
    fn clone(&self) -> (r: Place)
        ensures
            r@ == self@,
    {
        Place { base: self.base, projs: clone_indices(&self.projs) }
    }
}

/// A copy of a list of indices.
pub fn clone_indices(v: &Vec<usize>) -> (r: Vec<usize>)
    ensures
        r@ == v@,
{
    let mut out: Vec<usize> = Vec::new();
    let mut i: usize = 0;
    while i < v.len()
        invariant
            i <= v.len(),
            out@ == v@.take(i as int),
        decreases v.len() - i,
    {
        out.push(v[i]);
        i += 1;
    }
    out
}

impl Place {
    /// The place that is the variable itself.
    pub fn from_var(base: Var) -> (r: Place)
        ensures
            r@ == (PlaceView { base, projs: Seq::empty() }),
    {
        Place { base, projs: Vec::new() }
    }

    /// The place one projection further down.
    pub fn extend_path(&self, n: usize) -> (r: Place)
        ensures
            r@ == (PlaceView { base: self.base, projs: self.projs@.push(n) }),
    {
        let mut projs = clone_indices(&self.projs);
        projs.push(n);
        Place { base: self.base, projs }
    }
}

/// A predicate of the logic.
#[derive(Debug, PartialEq, Eq)]
pub enum Pred {
    Constant(Constant),
    Place(Place),
    BinaryOp(BinOp, Box<Pred>, Box<Pred>),
    UnaryOp(UnOp, Box<Pred>),
    /// A predicate yet to be solved for, applied to the variables it may mention.
    Kvar(usize, Vec<Var>),
}

/// What a [`Pred`] denotes.
pub enum PredView {
    Constant(Constant),
    Place(PlaceView),
    BinaryOp(BinOp, Box<PredView>, Box<PredView>),
    UnaryOp(UnOp, Box<PredView>),
    Kvar(usize, Seq<Var>),
}

impl Pred {
    /// What the predicate denotes.
    pub open spec fn model(&self) -> PredView
        decreases self,
    {
        match self {
            Pred::Constant(c) => PredView::Constant(*c),
            Pred::Place(p) => PredView::Place(p@),
            Pred::BinaryOp(op, lhs, rhs) => PredView::BinaryOp(
                *op,
                Box::new(lhs.model()),
                Box::new(rhs.model()),
            ),
            Pred::UnaryOp(op, operand) => PredView::UnaryOp(*op, Box::new(operand.model())),
            Pred::Kvar(k, vars) => PredView::Kvar(*k, vars@),
        }
    }
}

impl View for Pred {
    type V = PredView;

    open spec fn view(&self) -> PredView {
        self.model()
    }
}

/// A copy of a list of variables.
pub fn clone_vars(v: &Vec<Var>) -> (r: Vec<Var>)
    ensures
        r@ == v@,
{
    let mut out: Vec<Var> = Vec::new();
    let mut i: usize = 0;
    while i < v.len()
        invariant
            i <= v.len(),
            out@ == v@.take(i as int),
        decreases v.len() - i,
    {
        out.push(v[i]);
        i += 1;
    }
    out
}

impl Clone for Pred {
    fn clone(&self) -> (r: Pred)
        ensures
            r@ == self@,
        decreases self,
    {
        match self {
            Pred::Constant(c) => Pred::Constant(*c),
            Pred::Place(p) => Pred::Place(p.clone()),
            Pred::BinaryOp(op, lhs, rhs) => {
                let l = (**lhs).clone();
                let r = (**rhs).clone();
                Pred::BinaryOp(*op, Box::new(l), Box::new(r))
            },
            Pred::UnaryOp(op, operand) => {
                let o = (**operand).clone();
                Pred::UnaryOp(*op, Box::new(o))
            },
            Pred::Kvar(k, vars) => Pred::Kvar(*k, clone_vars(vars)),
        }
    }
}

impl PredView {
    /// The predicate `true`.
    pub open spec fn tt() -> PredView {
        PredView::Constant(Constant::Bool(true))
    }

    /// The predicate that the value being refined equals what `place` holds.
    pub open spec fn nu_eq(place: PlaceView) -> PredView {
        PredView::BinaryOp(
            BinOp::Eq,
            Box::new(PredView::Place(PlaceView { base: Var::Nu, projs: Seq::empty() })),
            Box::new(PredView::Place(place)),
        )
    }

    /// The predicate with the variable `to` in place of `from`.
    pub open spec fn rename(self, from: Var, to: Var) -> PredView
        decreases self,
    {
        match self {
            PredView::Constant(c) => self,
            PredView::Place(p) => PredView::Place(
                PlaceView { base: rename_var(p.base, from, to), projs: p.projs },
            ),
            PredView::BinaryOp(op, lhs, rhs) => PredView::BinaryOp(
                op,
                Box::new(lhs.rename(from, to)),
                Box::new(rhs.rename(from, to)),
            ),
            PredView::UnaryOp(op, operand) => PredView::UnaryOp(
                op,
                Box::new(operand.rename(from, to)),
            ),
            PredView::Kvar(k, vars) => PredView::Kvar(k, rename_vars(vars, from, to)),
        }
    }

    /// Renaming a variable to itself changes nothing.
    pub proof fn lemma_rename_same(self, v: Var)
        ensures
            self.rename(v, v) == self,
        decreases self,
    {
        match self {
            PredView::Constant(c) => {},
            PredView::Place(p) => {},
            PredView::BinaryOp(op, lhs, rhs) => {
                lhs.lemma_rename_same(v);
                rhs.lemma_rename_same(v);
            },
            PredView::UnaryOp(op, operand) => {
                operand.lemma_rename_same(v);
            },
            PredView::Kvar(k, vars) => {
                assert(rename_vars(vars, v, v) =~= vars);
            },
        }
    }
}

/// `v`, or `to` where `v` is `from`.
pub open spec fn rename_var(v: Var, from: Var, to: Var) -> Var {
    if v == from {
        to
    } else {
        v
    }
}

/// The variables of `vars`, with `to` in place of `from`.
pub open spec fn rename_vars(vars: Seq<Var>, from: Var, to: Var) -> Seq<Var> {
    Seq::new(vars.len(), |i: int| rename_var(vars[i], from, to))
}

impl Pred {
    /// The predicate `true`.
    pub fn tt() -> (p: Pred)
        ensures
            p@ == PredView::tt(),
    {
        Pred::Constant(Constant::Bool(true))
    }

    /// The predicate that the value being refined equals what `place` holds.
    pub fn nu_eq(place: Place) -> (p: Pred)
        ensures
            p@ == PredView::nu_eq(place@),
    {
        let lhs = Pred::Place(Place::from_var(Var::Nu));
        let rhs = Pred::Place(place);
        assert(lhs@ == PredView::Place(PlaceView { base: Var::Nu, projs: Seq::empty() }));
        assert(rhs@ == PredView::Place(place@));
        Pred::BinaryOp(BinOp::Eq, Box::new(lhs), Box::new(rhs))
    }

    /// The predicate with the variable `to` in place of `from`.
    pub fn rename(&self, from: Var, to: Var) -> (p: Pred)
        ensures
            p@ == self@.rename(from, to),
        decreases self,
    {
        match self {
            Pred::Constant(c) => Pred::Constant(*c),
            Pred::Place(place) => {
                let copy = place.clone();
                let base = if place.base == from {
                    to
                } else {
                    place.base
                };
                Pred::Place(Place { base, projs: copy.projs })
            },
            Pred::BinaryOp(op, lhs, rhs) => {
                let l = lhs.rename(from, to);
                let r = rhs.rename(from, to);
                Pred::BinaryOp(*op, Box::new(l), Box::new(r))
            },
            Pred::UnaryOp(op, operand) => {
                let o = operand.rename(from, to);
                Pred::UnaryOp(*op, Box::new(o))
            },
            Pred::Kvar(k, vars) => {
                let mut out: Vec<Var> = Vec::new();
                let mut i: usize = 0;
                while i < vars.len()
                    invariant
                        i <= vars.len(),
                        out@.len() == i,
                        forall|j: int| 0 <= j < i ==> out@[j] == rename_var(vars@[j], from, to),
                    decreases vars.len() - i,
                {
                    let v = if vars[i] == from {
                        to
                    } else {
                        vars[i]
                    };
                    out.push(v);
                    i += 1;
                }
                assert(out@ =~= rename_vars(vars@, from, to));
                Pred::Kvar(*k, out)
            },
        }
    }
}

} // verus!
