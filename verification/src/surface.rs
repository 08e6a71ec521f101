//! The syntax of annotations as the parser hands it over: types and predicates whose
//! binders are source names.

use crate::ast::pred::Constant;
use crate::ast::BaseTy;
use vstd::prelude::*;

verus! {

/// A source name, interned: two identifiers are equal exactly when they spell the same
/// name.
#[derive(Clone, Copy, Debug, PartialEq, Eq, Hash, Structural)]
pub struct Ident(pub usize);

#[derive(Clone, Copy, Debug, PartialEq, Eq, Structural)]
pub enum UnOpKind {
    Not,
    Neg,
}

/// A unary operator.
#[derive(Clone, Copy, Debug, PartialEq, Eq, Structural)]
pub struct UnOp {
    pub kind: UnOpKind,
}

#[derive(Clone, Copy, Debug, PartialEq, Eq, Structural)]
pub enum BinOpKind {
    Add,
    Sub,
    Mul,
    Div,
    Rem,
    And,
    Or,
    Eq,
    Neq,
    Lt,
    Gt,
    Le,
    Ge,
}

/// A binary operator.
#[derive(Clone, Copy, Debug, PartialEq, Eq, Structural)]
pub struct BinOp {
    pub kind: BinOpKind,
}

/// A variable of a predicate, by its source name.
#[derive(Clone, Copy, Debug, PartialEq, Eq, Hash, Structural)]
pub enum Var {
    /// The value being refined.
    Nu,
    /// An argument, which names the location that holds it.
    Location(Ident),
    /// An earlier field of the enclosing tuple.
    Field(Ident),
}

/// A variable followed by tuple projections.
#[derive(Debug)]
pub struct Place {
    pub base: Var,
    pub projs: Vec<usize>,
}

#[derive(Debug)]
pub enum PredicateKind {
    Lit(Constant),
    Place(Place),
    UnaryOp(UnOp, Box<Predicate>),
    BinaryOp(BinOp, Box<Predicate>, Box<Predicate>),
}

/// A predicate.
#[derive(Debug)]
pub struct Predicate {
    pub kind: PredicateKind,
}

#[derive(Debug)]
pub enum TyKind {
    /// A base type without a refinement.
    Base(BaseTy),
    /// A base type refined by a predicate over the named value.
    Refined(Option<Ident>, BaseTy, Predicate),
    /// A tuple of named fields.
    Tuple(Vec<(Ident, Ty)>),
}

/// A type.
#[derive(Debug)]
pub struct Ty {
    pub kind: TyKind,
}

#[derive(Debug)]
pub struct FnTyKind {
    pub args: Vec<(Ident, Ty)>,
    pub output: Box<Ty>,
}

/// The type of a function.
#[derive(Debug)]
pub struct FnTy {
    pub kind: FnTyKind,
}

/// What a [`Predicate`] denotes.
pub enum PredicateView {
    Lit(Constant),
    Place(Var, Seq<usize>),
    UnaryOp(UnOpKind, Box<PredicateView>),
    BinaryOp(BinOpKind, Box<PredicateView>, Box<PredicateView>),
}

/// What a [`Ty`] denotes.
pub enum TyView {
    Base(BaseTy),
    Refined(Option<Ident>, BaseTy, PredicateView),
    Tuple(Seq<(Ident, TyView)>),
}

/// What a [`FnTy`] denotes.
pub struct FnTyView {
    pub args: Seq<(Ident, TyView)>,
    pub output: TyView,
}

impl Predicate {
    /// What the predicate denotes.
    pub open spec fn model(&self) -> PredicateView
        decreases self,
    {
        match self.kind {
            PredicateKind::Lit(c) => PredicateView::Lit(c),
            PredicateKind::Place(p) => PredicateView::Place(p.base, p.projs@),
            PredicateKind::UnaryOp(op, operand) => PredicateView::UnaryOp(
                op.kind,
                Box::new(operand.model()),
            ),
            PredicateKind::BinaryOp(op, lhs, rhs) => PredicateView::BinaryOp(
                op.kind,
                Box::new(lhs.model()),
                Box::new(rhs.model()),
            ),
        }
    }
}

impl View for Predicate {
    type V = PredicateView;

    open spec fn view(&self) -> PredicateView {
        self.model()
    }
}

impl Ty {
    /// What the type denotes.
    pub open spec fn model(&self) -> TyView
        decreases self,
    {
        match self.kind {
            TyKind::Base(b) => TyView::Base(b),
            TyKind::Refined(i, b, p) => TyView::Refined(i, b, p@),
            TyKind::Tuple(fields) => TyView::Tuple(
                Seq::new(
                    fields@.len(),
                    |i: int|
                        if 0 <= i < fields@.len() {
                            (fields@[i].0, fields@[i].1.model())
                        } else {
                            arbitrary()
                        },
                ),
            ),
        }
    }
}

impl View for Ty {
    type V = TyView;

    open spec fn view(&self) -> TyView {
        self.model()
    }
}

/// The named types of a list, each by what it denotes.
pub open spec fn named_view(fields: Seq<(Ident, Ty)>) -> Seq<(Ident, TyView)> {
    Seq::new(fields.len(), |i: int| (fields[i].0, fields[i].1@))
}

/// The view of a tuple is that of its fields.
pub proof fn lemma_tuple_view(ty: Ty)
    requires
        ty.kind is Tuple,
    ensures
        ty@ == TyView::Tuple(named_view(ty.kind->Tuple_0@)),
{
    assert(ty@->Tuple_0 =~= named_view(ty.kind->Tuple_0@));
}

impl View for FnTy {
    type V = FnTyView;

    open spec fn view(&self) -> FnTyView {
        FnTyView { args: named_view(self.kind.args@), output: self.kind.output@ }
    }
}

} // verus!
