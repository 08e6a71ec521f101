//! How the parts of the IR are written out.

use crate::ast::pred::{BinOp, Constant, UnOp, Var};
use crate::ast::{BaseTy, Place, Proj};
use crate::names::Local;
use vstd::prelude::*;
use vstd::string::*;

verus! {

/// The character of a decimal digit.
pub open spec fn digit(d: nat) -> char {
    if d == 0 {
        '0'
    } else if d == 1 {
        '1'
    } else if d == 2 {
        '2'
    } else if d == 3 {
        '3'
    } else if d == 4 {
        '4'
    } else if d == 5 {
        '5'
    } else if d == 6 {
        '6'
    } else if d == 7 {
        '7'
    } else if d == 8 {
        '8'
    } else {
        '9'
    }
}

/// The decimal numeral of `n`, without leading zeros.
pub open spec fn decimal(n: nat) -> Seq<char>
    decreases n,
{
    if n < 10 {
        seq![digit(n)]
    } else {
        decimal(n / 10).push(digit(n % 10))
    }
}

fn digit_str(d: u8) -> (s: &'static str)
    requires
        d < 10,
    ensures
        s@ == seq![digit(d as nat)],
{
    proof {
        reveal_strlit("0");
        reveal_strlit("1");
        reveal_strlit("2");
        reveal_strlit("3");
        reveal_strlit("4");
        reveal_strlit("5");
        reveal_strlit("6");
        reveal_strlit("7");
        reveal_strlit("8");
        reveal_strlit("9");
    }
    let s = match d {
        0 => "0",
        1 => "1",
        2 => "2",
        3 => "3",
        4 => "4",
        5 => "5",
        6 => "6",
        7 => "7",
        8 => "8",
        _ => "9",
    };
    assert(s@ =~= seq![digit(d as nat)]);
    s
}

/// The decimal numeral of `n`.
pub fn decimal_string(n: u128) -> (s: String)
    ensures
        s@ == decimal(n as nat),
    decreases n,
{
    if n < 10 {
        String::from_str(digit_str(n as u8))
    } else {
        let mut s = decimal_string(n / 10);
        s.append(digit_str((n % 10) as u8));
        assert(s@ =~= decimal(n as nat));
        s
    }
}

impl BaseTy {
    /// How the base type is written.
    pub open spec fn text(self) -> Seq<char> {
        match self {
            BaseTy::Unit => "()"@,
            BaseTy::Bool => "bool"@,
            BaseTy::Int => "int"@,
        }
    }

    /// The base type, written out.
    pub fn to_string(&self) -> (s: String)
        ensures
            s@ == self.text(),
    {
        match self {
            BaseTy::Unit => String::from_str("()"),
            BaseTy::Bool => String::from_str("bool"),
            BaseTy::Int => String::from_str("int"),
        }
    }
}

impl Constant {
    /// How the literal is written.
    pub open spec fn text(self) -> Seq<char> {
        match self {
            Constant::Bool(true) => "true"@,
            Constant::Bool(false) => "false"@,
            Constant::Int(n) => decimal(n as nat),
            Constant::Unit => "()"@,
        }
    }

    /// The literal, written out.
    pub fn to_string(&self) -> (s: String)
        ensures
            s@ == self.text(),
    {
        match self {
            Constant::Bool(true) => String::from_str("true"),
            Constant::Bool(false) => String::from_str("false"),
            Constant::Int(n) => decimal_string(*n),
            Constant::Unit => String::from_str("()"),
        }
    }
}

impl Var {
    /// How the variable is written.
    pub open spec fn text(self) -> Seq<char> {
        match self {
            Var::Nu => "v"@,
            Var::Location(l) => "l$"@ + decimal(l.0 as nat),
            Var::Field(f) => "f$"@ + decimal(f.0 as nat),
        }
    }

    /// The variable, written out.
    pub fn to_string(&self) -> (s: String)
        ensures
            s@ == self.text(),
    {
        match self {
            Var::Nu => String::from_str("v"),
            Var::Location(l) => {
                let mut s = String::from_str("l$");
                s.append(decimal_string(l.0 as u128).as_str());
                s
            },
            Var::Field(f) => {
                let mut s = String::from_str("f$");
                s.append(decimal_string(f.0 as u128).as_str());
                s
            },
        }
    }
}

impl BinOp {
    /// How the operator is written.
    pub open spec fn text(self) -> Seq<char> {
        match self {
            BinOp::Add => "+"@,
            BinOp::Sub => "-"@,
            BinOp::Lt => "<"@,
            BinOp::Le => "<="@,
            BinOp::Eq => "="@,
            BinOp::Ge => ">="@,
            BinOp::Gt => ">"@,
            BinOp::Iff => "<=>"@,
        }
    }

    /// The operator, written out.
    pub fn to_string(&self) -> (s: String)
        ensures
            s@ == self.text(),
    {
        match self {
            BinOp::Add => String::from_str("+"),
            BinOp::Sub => String::from_str("-"),
            BinOp::Lt => String::from_str("<"),
            BinOp::Le => String::from_str("<="),
            BinOp::Eq => String::from_str("="),
            BinOp::Ge => String::from_str(">="),
            BinOp::Gt => String::from_str(">"),
            BinOp::Iff => String::from_str("<=>"),
        }
    }
}

impl UnOp {
    /// How the operator is written.
    pub open spec fn text(self) -> Seq<char> {
        match self {
            UnOp::Not => "!"@,
        }
    }

    /// The operator, written out.
    pub fn to_string(&self) -> (s: String)
        ensures
            s@ == self.text(),
    {
        match self {
            UnOp::Not => String::from_str("!"),
        }
    }
}

/// How a place is written after the first `n` of its projections, and whether what
/// is written needs parentheses before a field can be projected from it: a field goes
/// after a dot, a dereference before, as a star.
pub open spec fn place_text(base: Local, projs: Seq<Proj>, n: nat) -> (Seq<char>, bool)
    decreases n,
{
    if n == 0 || n > projs.len() {
        ("_"@ + decimal(base.0 as nat), false)
    } else {
        let (s, need_parens) = place_text(base, projs, (n - 1) as nat);
        match projs[n - 1] {
            Proj::Field(f) => if need_parens {
                ("("@ + s + ")."@ + decimal(f as nat), false)
            } else {
                (s + "."@ + decimal(f as nat), false)
            },
            Proj::Deref => ("*"@ + s, true),
        }
    }
}

impl Place {
    /// The place, written out.
    pub fn to_string(&self) -> (s: String)
        ensures
            s@ == place_text(self@.base, self@.projs, self@.projs.len()).0,
    {
        let mut s = String::from_str("_");
        s.append(decimal_string(self.base.0 as u128).as_str());
        let mut need_parens = false;
        let mut i: usize = 0;
        while i < self.projs.len()
            invariant
                i <= self.projs.len(),
                (s@, need_parens) == place_text(self@.base, self@.projs, i as nat),
            decreases self.projs.len() - i,
        {
            match self.projs[i] {
                Proj::Field(n) => {
                    if need_parens {
                        let mut t = String::from_str("(");
                        t.append(s.as_str());
                        t.append(").");
                        t.append(decimal_string(n as u128).as_str());
                        s = t;
                        need_parens = false;
                    } else {
                        s.append(".");
                        s.append(decimal_string(n as u128).as_str());
                    }
                },
                Proj::Deref => {
                    let mut t = String::from_str("*");
                    t.append(s.as_str());
                    s = t;
                    need_parens = true;
                },
            }
            i += 1;
        }
        s
    }
}

} // verus!
