//! How the parts of the IR with references are written out.
//!
//! A name is written as the table of names has it; a symbol that the table lacks is
//! written as `#` and its number, so that everything can be written out.

use crate::cps_ref::{
    BasicType, BinOp, BorrowKind, Constant, Field, Local, Location, Place, PlaceView, PredS,
    Projection, Region, TyS, UnOp, Var,
};
use crate::names::{Interner, Symbol};
use crate::pretty::{decimal, decimal_string};
use vstd::prelude::*;
use vstd::string::*;

verus! {

/// How a symbol is written: by its name.
pub open spec fn symbol_text(names: Seq<Seq<char>>, sym: Symbol) -> Seq<char> {
    if sym.0 < names.len() {
        names[sym.0 as int]
    } else {
        "#"@ + decimal(sym.0 as nat)
    }
}

/// The symbol, written out.
pub fn symbol_string(names: &Interner, sym: Symbol) -> (s: String)
    ensures
        s@ == symbol_text(names@, sym),
{
    if (sym.0 as usize) < names.len() {
        String::from_str(names.name(sym))
    } else {
        let mut s = String::from_str("#");
        s.append(decimal_string(sym.0 as u128).as_str());
        s
    }
}

impl Local {
    /// How the local is written: by its name.
    pub open spec fn text(self, names: Seq<Seq<char>>) -> Seq<char> {
        symbol_text(names, self.0)
    }

    /// The local, written out.
    pub fn to_string(&self, names: &Interner) -> (s: String)
        ensures
            s@ == self.text(names@),
    {
        symbol_string(names, self.0)
    }
}

impl Location {
    /// How the location is written: by its name.
    pub open spec fn text(self, names: Seq<Seq<char>>) -> Seq<char> {
        symbol_text(names, self.0)
    }

    /// The location, written out.
    pub fn to_string(&self, names: &Interner) -> (s: String)
        ensures
            s@ == self.text(names@),
    {
        symbol_string(names, self.0)
    }
}

impl Field {
    /// How the field is written: its name after `@`.
    pub open spec fn text(self, names: Seq<Seq<char>>) -> Seq<char> {
        "@"@ + symbol_text(names, self.0)
    }

    /// The field, written out.
    pub fn to_string(&self, names: &Interner) -> (s: String)
        ensures
            s@ == self.text(names@),
    {
        let mut s = String::from_str("@");
        s.append(symbol_string(names, self.0).as_str());
        s
    }
}

impl Constant {
    /// How the literal is written.
    pub open spec fn text(self) -> Seq<char> {
        match self {
            Constant::Bool(true) => "true"@,
            Constant::Bool(false) => "false"@,
            Constant::Int(n) => decimal(n as nat),
        }
    }

    /// The literal, written out.
    pub fn to_string(&self) -> (s: String)
        ensures
            s@ == self.text(),
    {
        match self {
            Constant::Bool(true) => String::from_str("true"),
            Constant::Bool(false) => String::from_str("false"),
            Constant::Int(n) => decimal_string(*n),
        }
    }
}

impl BinOp {
    /// How the operator is written.
    pub open spec fn text(self) -> Seq<char> {
        match self {
            BinOp::Add => "+"@,
            BinOp::Sub => "-"@,
            BinOp::Lt => "<"@,
            BinOp::Le => "<="@,
            BinOp::Eq => "="@,
            BinOp::Ge => ">="@,
            BinOp::Gt => ">"@,
        }
    }

    /// The operator, written out.
    pub fn to_string(&self) -> (s: String)
        ensures
            s@ == self.text(),
    {
        match self {
            BinOp::Add => String::from_str("+"),
            BinOp::Sub => String::from_str("-"),
            BinOp::Lt => String::from_str("<"),
            BinOp::Le => String::from_str("<="),
            BinOp::Eq => String::from_str("="),
            BinOp::Ge => String::from_str(">="),
            BinOp::Gt => String::from_str(">"),
        }
    }
}

impl UnOp {
    /// How the operator is written.
    pub open spec fn text(self) -> Seq<char> {
        match self {
            UnOp::Not => "\u{ac}"@,
        }
    }

    /// The operator, written out.
    pub fn to_string(&self) -> (s: String)
        ensures
            s@ == self.text(),
    {
        match self {
            UnOp::Not => String::from_str("\u{ac}"),
        }
    }
}

impl BasicType {
    /// How the basic type is written.
    pub open spec fn text(self) -> Seq<char> {
        match self {
            BasicType::Bool => "Bool"@,
            BasicType::Int => "Int"@,
        }
    }

    /// The basic type, written out.
    pub fn to_string(&self) -> (s: String)
        ensures
            s@ == self.text(),
    {
        match self {
            BasicType::Bool => String::from_str("Bool"),
            BasicType::Int => String::from_str("Int"),
        }
    }
}

impl Var {
    /// How the variable is written: the value being refined as `_v`, a location and a
    /// field by their names, after `l$` and `f$`.
    pub open spec fn text(self, names: Seq<Seq<char>>) -> Seq<char> {
        match self {
            Var::Nu => "_v"@,
            Var::Location(l) => "l$"@ + symbol_text(names, l.0),
            Var::Field(f) => "f$"@ + symbol_text(names, f.0),
        }
    }

    /// The variable, written out.
    pub fn to_string(&self, names: &Interner) -> (s: String)
        ensures
            s@ == self.text(names@),
    {
        match self {
            Var::Nu => String::from_str("_v"),
            Var::Location(l) => {
                let mut s = String::from_str("l$");
                s.append(symbol_string(names, l.0).as_str());
                s
            },
            Var::Field(f) => {
                let mut s = String::from_str("f$");
                s.append(symbol_string(names, f.0).as_str());
                s
            },
        }
    }
}

/// How the first `n` of the variables are written: one after another, with a comma and
/// a blank between two.
pub open spec fn vars_text(names: Seq<Seq<char>>, vars: Seq<Var>, n: nat) -> Seq<char>
    decreases n,
{
    if n == 0 || n > vars.len() {
        Seq::empty()
    } else if n == 1 {
        vars[0].text(names)
    } else {
        vars_text(names, vars, (n - 1) as nat) + ", "@ + vars[n - 1].text(names)
    }
}

/// How `text` goes on with the first `n` of the field numbers, each after a dot.
pub open spec fn numbers_text(text: Seq<char>, numbers: Seq<u32>, n: nat) -> Seq<char>
    decreases n,
{
    if n == 0 || n > numbers.len() {
        text
    } else {
        numbers_text(text, numbers, (n - 1) as nat) + "."@ + decimal(numbers[n - 1] as nat)
    }
}

/// How a place is written up to the first `n` of its projections: the local, then
/// each projection after a dot, a field as its number and a dereference as a star.
pub open spec fn place_text(names: Seq<Seq<char>>, place: PlaceView, n: nat) -> Seq<char>
    decreases n,
{
    if n == 0 || n > place.projection.len() {
        place.local.text(names)
    } else {
        match place.projection[n - 1] {
            Projection::Field(f) => place_text(names, place, (n - 1) as nat) + "."@ + decimal(
                f as nat,
            ),
            Projection::Deref => place_text(names, place, (n - 1) as nat) + ".*"@,
        }
    }
}

impl PlaceView {
    /// How the place is written.
    pub open spec fn text(self, names: Seq<Seq<char>>) -> Seq<char> {
        place_text(names, self, self.projection.len())
    }
}

impl Place {
    /// The place, written out.
    pub fn to_string(&self, names: &Interner) -> (s: String)
        ensures
            s@ == self@.text(names@),
    {
        let mut s = self.local.to_string(names);
        let mut i: usize = 0;
        while i < self.projection.len()
            invariant
                i <= self.projection.len(),
                s@ == place_text(names@, self@, i as nat),
            decreases self.projection.len() - i,
        {
            match self.projection[i] {
                Projection::Field(f) => {
                    s.append(".");
                    s.append(decimal_string(f as u128).as_str());
                },
                Projection::Deref => {
                    s.append(".*");
                },
            }
            i += 1;
        }
        s
    }
}

/// How the first `n` of the places are written: one after another, with a comma and a
/// blank between two.
pub open spec fn places_text(names: Seq<Seq<char>>, places: Seq<PlaceView>, n: nat) -> Seq<char>
    decreases n,
{
    if n == 0 || n > places.len() {
        Seq::empty()
    } else if n == 1 {
        places[0].text(names)
    } else {
        places_text(names, places, (n - 1) as nat) + ", "@ + places[n - 1].text(names)
    }
}

impl Region {
    /// How the region is written: its places in square brackets, after its name.
    pub open spec fn text(&self, names: Seq<Seq<char>>) -> Seq<char> {
        "Region(["@ + places_text(names, self@, self@.len()) + "])"@
    }

    /// The region, written out.
    pub fn to_string(&self, names: &Interner) -> (s: String)
        ensures
            s@ == self.text(names@),
    {
        let mut t = String::new();
        let mut i: usize = 0;
        while i < self.len()
            invariant
                i <= self@.len(),
                t@ == places_text(names@, self@, i as nat),
            decreases self@.len() - i,
        {
            if i > 0 {
                t.append(", ");
            }
            t.append(self.index(i).to_string(names).as_str());
            assert(t@ =~= places_text(names@, self@, (i + 1) as nat));
            i += 1;
        }
        let mut s = String::from_str("Region([");
        s.append(t.as_str());
        s.append("])");
        s
    }
}

impl PredS {
    /// How the predicate is written: an operation in parentheses, between its
    /// operands or before its operand; a predicate that is yet to be found as `$k`,
    /// its number and its variables in square brackets.
    pub open spec fn text(&self, names: Seq<Seq<char>>) -> Seq<char>
        decreases self,
    {
        match self {
            PredS::Constant(c) => c.text(),
            PredS::Place { var, projection } => numbers_text(
                var.text(names),
                projection@,
                projection@.len(),
            ),
            PredS::BinaryOp(op, lhs, rhs) => "("@ + lhs.text(names) + " "@ + op.text() + " "@
                + rhs.text(names) + ")"@,
            PredS::UnaryOp(op, operand) => op.text() + "("@ + operand.text(names) + ")"@,
            PredS::Iff(lhs, rhs) => "("@ + lhs.text(names) + " <=> "@ + rhs.text(names) + ")"@,
            PredS::Kvar(n, vars) => "$k"@ + decimal(*n as nat) + "["@ + vars_text(
                names,
                vars@,
                vars@.len(),
            ) + "]"@,
        }
    }

    /// The predicate, written out.
    pub fn to_string(&self, names: &Interner) -> (s: String)
        ensures
            s@ == self.text(names@),
        decreases self,
    {
        match self {
            PredS::Constant(c) => c.to_string(),
            PredS::Place { var, projection } => {
                let mut s = var.to_string(names);
                let mut i: usize = 0;
                while i < projection.len()
                    invariant
                        i <= projection.len(),
                        s@ == numbers_text(var.text(names@), projection@, i as nat),
                    decreases projection.len() - i,
                {
                    s.append(".");
                    s.append(decimal_string(projection[i] as u128).as_str());
                    i += 1;
                }
                s
            },
            PredS::BinaryOp(op, lhs, rhs) => {
                let mut s = String::from_str("(");
                s.append(lhs.to_string(names).as_str());
                s.append(" ");
                s.append(op.to_string().as_str());
                s.append(" ");
                s.append(rhs.to_string(names).as_str());
                s.append(")");
                s
            },
            PredS::UnaryOp(op, operand) => {
                let mut s = op.to_string();
                s.append("(");
                s.append(operand.to_string(names).as_str());
                s.append(")");
                s
            },
            PredS::Iff(lhs, rhs) => {
                let mut s = String::from_str("(");
                s.append(lhs.to_string(names).as_str());
                s.append(" <=> ");
                s.append(rhs.to_string(names).as_str());
                s.append(")");
                s
            },
            PredS::Kvar(n, vars) => {
                let mut t = String::new();
                let mut i: usize = 0;
                while i < vars.len()
                    invariant
                        i <= vars.len(),
                        t@ == vars_text(names@, vars@, i as nat),
                    decreases vars.len() - i,
                {
                    if i > 0 {
                        t.append(", ");
                    }
                    t.append(vars[i].to_string(names).as_str());
                    assert(t@ =~= vars_text(names@, vars@, (i + 1) as nat));
                    i += 1;
                }
                let mut s = String::from_str("$k");
                s.append(decimal_string(*n as u128).as_str());
                s.append("[");
                s.append(t.as_str());
                s.append("]");
                s
            },
        }
    }
}

impl TyS {
    /// How the type is written: a refinement in braces, the predicate after a bar, and
    /// `_` for one that is yet to be found; a tuple as its fields in square brackets,
    /// each a pair of the field and its type; a reference with its region and the
    /// location it points to.
    pub open spec fn text(&self, names: Seq<Seq<char>>) -> Seq<char>
        decreases self,
    {
        match self {
            TyS::Fn { .. } => "function"@,
            TyS::OwnRef(l) => "OwnRef("@ + l.text(names) + ")"@,
            TyS::Refine { ty, pred } => "{ "@ + ty.text() + " | "@ + pred.text(names) + " }"@,
            TyS::Tuple(fields) => "["@ + Self::fields_text(names, fields@, fields@.len()) + "]"@,
            TyS::Uninit(size) => "Uninit("@ + decimal(*size as nat) + ")"@,
            TyS::RefineHole { ty, .. } => "{ "@ + ty.text() + " | _ }"@,
            TyS::Ref(BorrowKind::Mut, r, l) => "&mut("@ + r.text(names) + ", "@ + l.text(names)
                + ")"@,
            TyS::Ref(BorrowKind::Shared, r, l) => "&("@ + r.text(names) + ", "@ + l.text(names)
                + ")"@,
        }
    }

    /// How a field of a tuple is written with its type.
    pub open spec fn field_text(names: Seq<Seq<char>>, fields: Seq<(Field, Box<TyS>)>, k: int)
        -> Seq<char>
        decreases fields, 0nat, 0nat,
    {
        if 0 <= k < fields.len() {
            "("@ + fields[k].0.text(names) + ", "@ + fields[k].1.text(names) + ")"@
        } else {
            Seq::empty()
        }
    }

    /// How the first `n` of the fields are written: one after another, with a comma
    /// and a blank between two.
    pub open spec fn fields_text(names: Seq<Seq<char>>, fields: Seq<(Field, Box<TyS>)>, n: nat)
        -> Seq<char>
        decreases fields, 1nat, n,
    {
        if n == 0 || n > fields.len() {
            Seq::empty()
        } else if n == 1 {
            Self::field_text(names, fields, 0)
        } else {
            Self::fields_text(names, fields, (n - 1) as nat) + ", "@ + Self::field_text(
                names,
                fields,
                n - 1,
            )
        }
    }

    /// The type, written out.
    pub fn to_string(&self, names: &Interner) -> (s: String)
        ensures
            s@ == self.text(names@),
        decreases self,
    {
        match self {
            TyS::Fn { .. } => String::from_str("function"),
            TyS::OwnRef(l) => {
                let mut s = String::from_str("OwnRef(");
                s.append(l.to_string(names).as_str());
                s.append(")");
                s
            },
            TyS::Refine { ty, pred } => {
                let mut s = String::from_str("{ ");
                s.append(ty.to_string().as_str());
                s.append(" | ");
                s.append(pred.to_string(names).as_str());
                s.append(" }");
                s
            },
            TyS::Tuple(fields) => {
                let mut t = String::new();
                let mut i: usize = 0;
                while i < fields.len()
                    invariant
                        self is Tuple,
                        self->Tuple_0 == *fields,
                        i <= fields.len(),
                        t@ == Self::fields_text(names@, fields@, i as nat),
                    decreases fields.len() - i,
                {
                    if i > 0 {
                        t.append(", ");
                    }
                    let mut f = String::from_str("(");
                    f.append(fields[i].0.to_string(names).as_str());
                    f.append(", ");
                    f.append(fields[i].1.to_string(names).as_str());
                    f.append(")");
                    assert(f@ == Self::field_text(names@, fields@, i as int));
                    t.append(f.as_str());
                    assert(t@ =~= Self::fields_text(names@, fields@, (i + 1) as nat));
                    i += 1;
                }
                let mut s = String::from_str("[");
                s.append(t.as_str());
                s.append("]");
                s
            },
            TyS::Uninit(size) => {
                let mut s = String::from_str("Uninit(");
                s.append(decimal_string(*size as u128).as_str());
                s.append(")");
                s
            },
            TyS::RefineHole { ty, .. } => {
                let mut s = String::from_str("{ ");
                s.append(ty.to_string().as_str());
                s.append(" | _ }");
                s
            },
            TyS::Ref(kind, r, l) => {
                let mut s = match kind {
                    BorrowKind::Mut => String::from_str("&mut("),
                    BorrowKind::Shared => String::from_str("&("),
                };
                s.append(r.to_string(names).as_str());
                s.append(", ");
                s.append(l.to_string(names).as_str());
                s.append(")");
                s
            },
        }
    }
}

} // verus!
