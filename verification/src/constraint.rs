//! The logical obligations that checking produces, and what it means for one to hold.

use crate::ast::pred::{rename_vars, BinOp, Constant, Pred, PredView, UnOp, Var};
use crate::ast::BaseTy;
use vstd::prelude::*;

verus! {

/// An obligation: a tree of conjunctions and implications under bound variables.
#[derive(Debug, PartialEq, Eq)]
pub enum Constraint {
    /// The predicate holds.
    Pred(Pred),
    /// Every member holds.
    Conj(Vec<Constraint>),
    /// Whatever value of type `ty` the variable `bind` takes, if `hyp` holds of it then
    /// `body` does.
    Forall { bind: Var, ty: BaseTy, hyp: Pred, body: Box<Constraint> },
    /// If the predicate holds, then the obligation does.
    Guard(Pred, Box<Constraint>),
}

/// What a [`Constraint`] denotes.
pub enum ConstraintView {
    Pred(PredView),
    Conj(Seq<ConstraintView>),
    Forall { bind: Var, ty: BaseTy, hyp: PredView, body: Box<ConstraintView> },
    Guard(PredView, Box<ConstraintView>),
}

impl Constraint {
    /// What the constraint denotes.
    pub open spec fn model(&self) -> ConstraintView
        decreases self,
    {
        match self {
            Constraint::Pred(p) => ConstraintView::Pred(p@),
            Constraint::Conj(cs) => ConstraintView::Conj(
                Seq::new(
                    cs@.len(),
                    |i: int|
                        if 0 <= i < cs@.len() {
                            cs@[i].model()
                        } else {
                            arbitrary()
                        },
                ),
            ),
            Constraint::Forall { bind, ty, hyp, body } => ConstraintView::Forall {
                bind: *bind,
                ty: *ty,
                hyp: hyp@,
                body: Box::new(body.model()),
            },
            Constraint::Guard(p, body) => ConstraintView::Guard(p@, Box::new(body.model())),
        }
    }

    /// The obligation that nothing needs proving.
    pub fn tt() -> (c: Constraint)
        ensures
            c@ == ConstraintView::tt(),
    {
        let c = Constraint::Conj(Vec::new());
        assert(c@->Conj_0 =~= Seq::empty());
        c
    }

    /// The conjunction of the two.
    pub fn and(a: Constraint, b: Constraint) -> (c: Constraint)
        ensures
            c@ == ConstraintView::Conj(seq![a@, b@]),
    {
        let mut cs: Vec<Constraint> = Vec::new();
        cs.push(a);
        cs.push(b);
        proof {
            lemma_conj_view(cs);
            assert(constraints_view(cs@) =~= seq![a@, b@]);
        }
        Constraint::Conj(cs)
    }
}

impl View for Constraint {
    type V = ConstraintView;

    open spec fn view(&self) -> ConstraintView {
        self.model()
    }
}

/// The constraints of a list, each by what it denotes.
pub open spec fn constraints_view(cs: Seq<Constraint>) -> Seq<ConstraintView> {
    Seq::new(cs.len(), |i: int| cs[i]@)
}

/// The view of a conjunction is that of its members.
pub proof fn lemma_conj_view(cs: Vec<Constraint>)
    ensures
        Constraint::Conj(cs)@ == ConstraintView::Conj(constraints_view(cs@)),
{
    assert(Constraint::Conj(cs)@->Conj_0 =~= constraints_view(cs@));
}

/// A value that a predicate can speak of.
pub enum Value {
    Unit,
    Bool(bool),
    Int(int),
    Tuple(Seq<Value>),
}

impl Value {
    /// Whether the value is one of the base type.
    pub open spec fn has_type(self, ty: BaseTy) -> bool {
        match ty {
            BaseTy::Unit => self is Unit,
            BaseTy::Bool => self is Bool,
            BaseTy::Int => self is Int,
        }
    }

    /// The part of the value that the projections lead to, from the `i`-th on.
    pub open spec fn project(self, projs: Seq<usize>, i: nat) -> Value
        decreases projs.len() - i,
    {
        if i >= projs.len() {
            self
        } else {
            match self {
                Value::Tuple(vs) => if projs[i as int] < vs.len() {
                    vs[projs[i as int] as int].project(projs, i + 1)
                } else {
                    Value::Unit
                },
                _ => Value::Unit,
            }
        }
    }
}

/// What each variable stands for.
pub type Valuation = spec_fn(Var) -> Value;

/// What each predicate variable stands for: a relation on the values of its arguments.
pub type Solution = spec_fn(usize, Seq<Value>) -> bool;

/// `rho`, but with `v` standing for `value`.
pub open spec fn bind(rho: Valuation, v: Var, value: Value) -> Valuation {
    |x: Var|
        if x == v {
            value
        } else {
            rho(x)
        }
}

impl PredView {
    /// The value of the predicate. An operator applied to a value that it is not
    /// defined on gives `false`, or zero where it gives a number.
    pub open spec fn eval(self, rho: Valuation, sigma: Solution) -> Value
        decreases self,
    {
        match self {
            PredView::Constant(Constant::Bool(b)) => Value::Bool(b),
            PredView::Constant(Constant::Int(n)) => Value::Int(n as int),
            PredView::Constant(Constant::Unit) => Value::Unit,
            PredView::Place(p) => rho(p.base).project(p.projs, 0),
            PredView::BinaryOp(op, lhs, rhs) => {
                let l = lhs.eval(rho, sigma);
                let r = rhs.eval(rho, sigma);
                match op {
                    BinOp::Eq => Value::Bool(l == r),
                    BinOp::Iff => Value::Bool(l == Value::Bool(true) <==> r == Value::Bool(true)),
                    BinOp::Add => match (l, r) {
                        (Value::Int(a), Value::Int(b)) => Value::Int(a + b),
                        _ => Value::Int(0),
                    },
                    BinOp::Sub => match (l, r) {
                        (Value::Int(a), Value::Int(b)) => Value::Int(a - b),
                        _ => Value::Int(0),
                    },
                    BinOp::Lt => match (l, r) {
                        (Value::Int(a), Value::Int(b)) => Value::Bool(a < b),
                        _ => Value::Bool(false),
                    },
                    BinOp::Le => match (l, r) {
                        (Value::Int(a), Value::Int(b)) => Value::Bool(a <= b),
                        _ => Value::Bool(false),
                    },
                    BinOp::Ge => match (l, r) {
                        (Value::Int(a), Value::Int(b)) => Value::Bool(a >= b),
                        _ => Value::Bool(false),
                    },
                    BinOp::Gt => match (l, r) {
                        (Value::Int(a), Value::Int(b)) => Value::Bool(a > b),
                        _ => Value::Bool(false),
                    },
                }
            },
            PredView::UnaryOp(UnOp::Not, operand) => Value::Bool(
                operand.eval(rho, sigma) != Value::Bool(true),
            ),
            PredView::Kvar(k, vars) => Value::Bool(
                sigma(k, Seq::new(vars.len(), |i: int| rho(vars[i]))),
            ),
        }
    }

    /// Whether the predicate is true.
    pub open spec fn holds(self, rho: Valuation, sigma: Solution) -> bool {
        self.eval(rho, sigma) == Value::Bool(true)
    }
}

impl PredView {
    /// Whether the variable occurs in the predicate.
    pub open spec fn mentions(self, v: Var) -> bool
        decreases self,
    {
        match self {
            PredView::Constant(_) => false,
            PredView::Place(p) => p.base == v,
            PredView::BinaryOp(_, lhs, rhs) => lhs.mentions(v) || rhs.mentions(v),
            PredView::UnaryOp(_, operand) => operand.mentions(v),
            PredView::Kvar(_, vars) => vars.contains(v),
        }
    }

    /// Renaming is substitution: the predicate with `to` in place of `from` has under
    /// `ra` the value that the predicate itself has under `rb`, where `from` stands in
    /// `rb` for what `to` stands for in `ra`, and the two agree on every other variable
    /// of the predicate.
    pub proof fn lemma_rename_eval(self, from: Var, to: Var, ra: Valuation, rb: Valuation, sigma: Solution)
        requires
            self.mentions(from) ==> rb(from) == ra(to),
            forall|v: Var| v != from && #[trigger] self.mentions(v) ==> ra(v) == rb(v),
        ensures
            self.rename(from, to).eval(ra, sigma) == self.eval(rb, sigma),
        decreases self,
    {
        match self {
            PredView::Constant(_) => {},
            PredView::Place(p) => {
                assert(self.mentions(p.base));
            },
            PredView::BinaryOp(_, lhs, rhs) => {
                assert forall|v: Var| v != from && #[trigger] lhs.mentions(v) implies ra(v) == rb(
                    v,
                ) by {
                    assert(self.mentions(v));
                }
                assert forall|v: Var| v != from && #[trigger] rhs.mentions(v) implies ra(v) == rb(
                    v,
                ) by {
                    assert(self.mentions(v));
                }
                lhs.lemma_rename_eval(from, to, ra, rb, sigma);
                rhs.lemma_rename_eval(from, to, ra, rb, sigma);
            },
            PredView::UnaryOp(_, operand) => {
                assert forall|v: Var| v != from && #[trigger] operand.mentions(v) implies ra(v)
                    == rb(v) by {
                    assert(self.mentions(v));
                }
                operand.lemma_rename_eval(from, to, ra, rb, sigma);
            },
            PredView::Kvar(k, vars) => {
                let renamed = rename_vars(vars, from, to);
                let a = Seq::new(renamed.len(), |i: int| ra(renamed[i]));
                let b = Seq::new(vars.len(), |i: int| rb(vars[i]));
                assert forall|i: int| 0 <= i < vars.len() implies a[i] == b[i] by {
                    assert(vars.contains(vars[i]));
                    assert(self.mentions(vars[i]));
                }
                assert(a =~= b);
            },
        }
    }
}

impl ConstraintView {
    /// The obligation that nothing needs proving.
    pub open spec fn tt() -> ConstraintView {
        ConstraintView::Conj(Seq::empty())
    }

    /// Whether the obligation is met when the free variables stand for what `rho`
    /// says and the predicate variables for what `sigma` says.
    pub open spec fn holds(self, rho: Valuation, sigma: Solution) -> bool
        decreases self,
    {
        match self {
            ConstraintView::Pred(p) => p.holds(rho, sigma),
            ConstraintView::Conj(cs) => forall|i: int|
                0 <= i < cs.len() ==> (#[trigger] cs[i]).holds(rho, sigma),
            ConstraintView::Forall { bind: v, ty, hyp, body } => forall|value: Value|
                #![trigger bind(rho, v, value)]
                value.has_type(ty) && hyp.holds(bind(rho, v, value), sigma) ==> body.holds(
                    bind(rho, v, value),
                    sigma,
                ),
            ConstraintView::Guard(p, body) => p.holds(rho, sigma) ==> body.holds(rho, sigma),
        }
    }

    /// Whether the obligation is met under `sigma` whatever the free variables stand
    /// for.
    pub open spec fn valid(self, sigma: Solution) -> bool {
        forall|rho: Valuation| #[trigger] self.holds(rho, sigma)
    }

    /// Whether the obligation is met whatever the variables of either kind stand for.
    pub open spec fn tautology(self) -> bool {
        forall|sigma: Solution| #[trigger] self.valid(sigma)
    }
}

/// A conjunction is valid exactly when each member is.
pub proof fn lemma_conj_valid(cs: Seq<ConstraintView>, sigma: Solution)
    ensures
        ConstraintView::Conj(cs).valid(sigma) <==> forall|i: int|
            0 <= i < cs.len() ==> (#[trigger] cs[i]).valid(sigma),
{
    let c = ConstraintView::Conj(cs);
    if c.valid(sigma) {
        assert forall|i: int| 0 <= i < cs.len() implies (#[trigger] cs[i]).valid(sigma) by {
            assert forall|rho: Valuation| #[trigger] cs[i].holds(rho, sigma) by {
                assert(c.holds(rho, sigma));
                assert(c->Conj_0 == cs);
                assert(cs[i].holds(rho, sigma));
            }
            assert(cs[i].valid(sigma));
        }
    }
    if forall|i: int| 0 <= i < cs.len() ==> (#[trigger] cs[i]).valid(sigma) {
        assert forall|rho: Valuation| #[trigger] c.holds(rho, sigma) by {
            assert forall|i: int| 0 <= i < cs.len() implies (#[trigger] cs[i]).holds(
                rho,
                sigma,
            ) by {
                assert(cs[i].valid(sigma));
            }
        }
    }
}

} // verus!
