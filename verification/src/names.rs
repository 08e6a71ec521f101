//! Identifier families and the context that generates them.

use vstd::prelude::*;
use vstd::string::*;

verus! {

/// A local variable.
#[derive(Clone, Copy, Debug, PartialEq, Eq, PartialOrd, Ord, Hash, Structural)]
pub struct Local(pub usize);

/// A heap location.
#[derive(Clone, Copy, Debug, PartialEq, Eq, PartialOrd, Ord, Hash, Structural)]
pub struct Location(pub usize);

/// A tuple field.
#[derive(Clone, Copy, Debug, PartialEq, Eq, PartialOrd, Ord, Hash, Structural)]
pub struct Field(pub usize);

/// A continuation.
#[derive(Clone, Copy, Debug, PartialEq, Eq, PartialOrd, Ord, Hash, Structural)]
pub struct ContId(pub usize);

/// A function.
#[derive(Clone, Copy, Debug, PartialEq, Eq, PartialOrd, Ord, Hash, Structural)]
pub struct FnId(pub usize);

/// A region bound by a function signature.
#[derive(Clone, Copy, Debug, PartialEq, Eq, PartialOrd, Ord, Hash, Structural)]
pub struct UniversalRegion(pub usize);

/// An interned name: two symbols are equal exactly when they stand for the same name.
#[derive(Clone, Copy, Debug, PartialEq, Eq, PartialOrd, Ord, Hash, Structural)]
pub struct Symbol(pub u32);

/// The table of interned names: the symbol of a name is its position in the table, and
/// no name is in the table twice.
pub struct Interner {
    names: Vec<String>,
}

/// The strings of a list, each as its characters.
pub open spec fn names_view(names: Seq<String>) -> Seq<Seq<char>> {
    Seq::new(names.len(), |i: int| names[i]@)
}

impl View for Interner {
    type V = Seq<Seq<char>>;

    closed spec fn view(&self) -> Seq<Seq<char>> {
        names_view(self.names@)
    }
}

impl Interner {
    /// No name is in the table twice, and every name has a symbol.
    pub open spec fn wf(&self) -> bool {
        &&& self@.len() <= u32::MAX + 1
        &&& forall|i: int, j: int|
            0 <= i < j < self@.len() ==> #[trigger] self@[i] != #[trigger] self@[j]
    }

    /// The table without names.
    pub fn new() -> (names: Interner)
        ensures
            names@ == Seq::<Seq<char>>::empty(),
            names.wf(),
    {
        let names = Interner { names: Vec::new() };
        assert(names@ =~= Seq::<Seq<char>>::empty());
        names
    }

    /// No name is in the table twice: two symbols of the table are equal exactly when
    /// they stand for the same name.
    pub proof fn lemma_distinct(&self, a: Symbol, b: Symbol)
        requires
            self.wf(),
            a.0 < self@.len(),
            b.0 < self@.len(),
        ensures
            (a == b) == (self@[a.0 as int] == self@[b.0 as int]),
    {
        if a.0 < b.0 {
            assert(self@[a.0 as int] != self@[b.0 as int]);
        } else if b.0 < a.0 {
            assert(self@[b.0 as int] != self@[a.0 as int]);
        }
    }

    /// The symbol of `name`, if it is in the table.
    pub fn lookup(&self, name: &str) -> (sym: Option<Symbol>)
        requires
            self.wf(),
        ensures
            match sym {
                Some(sym) => sym.0 < self@.len() && self@[sym.0 as int] == name@,
                None => !self@.contains(name@),
            },
    {
        let wanted = String::from_str(name);
        let mut i: usize = 0;
        while i < self.names.len()
            invariant
                i <= self.names.len(),
                self@.len() == self.names.len(),
                self@.len() <= u32::MAX + 1,
                wanted@ == name@,
                forall|j: int| 0 <= j < i ==> self@[j] != name@,
            decreases self.names.len() - i,
        {
            if self.names[i] == wanted {
                return Some(Symbol(i as u32));
            }
            i += 1;
        }
        proof {
            if self@.contains(name@) {
                let k = choose|k: int| 0 <= k < self@.len() && self@[k] == name@;
                assert(self@[k] == name@);
            }
        }
        None
    }

    /// The symbol of `name`, which is added to the table unless it is there; none
    /// where the table is full.
    pub fn intern(&mut self, name: &str) -> (sym: Option<Symbol>)
        requires
            old(self).wf(),
        ensures
            final(self).wf(),
            match sym {
                Some(sym) => {
                    &&& sym.0 < final(self)@.len()
                    &&& final(self)@[sym.0 as int] == name@
                    &&& final(self)@ == if old(self)@.contains(name@) {
                        old(self)@
                    } else {
                        old(self)@.push(name@)
                    }
                },
                None => !old(self)@.contains(name@) && old(self)@.len() == u32::MAX + 1
                    && final(self)@ == old(self)@,
            },
    {
        match self.lookup(name) {
            Some(sym) => {
                assert(self@.contains(name@));
                Some(sym)
            },
            None => {
                let at = self.names.len();
                if at > u32::MAX as usize {
                    return None;
                }
                self.names.push(String::from_str(name));
                assert(self@ =~= old(self)@.push(name@));
                Some(Symbol(at as u32))
            },
        }
    }

    /// The name that `sym` stands for.
    pub fn name(&self, sym: Symbol) -> (name: &str)
        requires
            sym.0 < self@.len(),
        ensures
            name@ == self@[sym.0 as int],
    {
        self.names[sym.0 as usize].as_str()
    }

    /// The number of names in the table.
    pub fn len(&self) -> (n: usize)
        ensures
            n == self@.len(),
    {
        self.names.len()
    }
}

impl Local {
    pub fn inner(self) -> (n: usize)
        ensures
            n == self.0,
    {
        self.0
    }
}

impl Location {
    pub fn inner(self) -> (n: usize)
        ensures
            n == self.0,
    {
        self.0
    }
}

impl Field {
    pub fn inner(self) -> (n: usize)
        ensures
            n == self.0,
    {
        self.0
    }
}

} // verus!
