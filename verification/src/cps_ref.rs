//! The continuation-passing IR with references: places, regions and types over
//! interned names.

pub mod text;

use crate::names::{Interner, Symbol};
use crate::pretty::{decimal, decimal_string};
use vstd::prelude::*;

verus! {

/// A local variable introduced with a let statement.
#[derive(Debug, Eq, PartialEq, Hash, Copy, Clone, Structural)]
pub struct Local(pub Symbol);

/// A location into a block of memory in the heap.
#[derive(Debug, Eq, PartialEq, Hash, Copy, Clone, Structural)]
pub struct Location(pub Symbol);

/// An owned reference to a location.
#[derive(Copy, Clone, Debug, Eq, PartialEq, Hash, Structural)]
pub struct OwnRef(pub Location);

/// A field of a tuple.
#[derive(Debug, Copy, Clone, Eq, PartialEq, Hash, Structural)]
pub struct Field(pub Symbol);

/// One step of a path to a value.
#[derive(Debug, Eq, PartialEq, Hash, Clone, Copy, Structural)]
pub enum Projection {
    Field(u32),
    Deref,
}

#[derive(Debug, Copy, Clone, Eq, PartialEq, Hash, Structural)]
pub enum Constant {
    Bool(bool),
    Int(u128),
}

#[derive(Debug, Copy, Clone, Eq, PartialEq, Hash, Structural)]
pub enum BinOp {
    Add,
    Sub,
    Lt,
    Le,
    Eq,
    Ge,
    Gt,
}

#[derive(Debug, Copy, Clone, Eq, PartialEq, Hash, Structural)]
pub enum UnOp {
    Not,
}

#[derive(Eq, PartialEq, Hash, Copy, Clone, Debug, PartialOrd, Structural)]
pub enum BorrowKind {
    Shared,
    Mut,
}

#[derive(Debug, Copy, Clone, Eq, PartialEq, Hash, Structural)]
pub enum BasicType {
    Bool,
    Int,
}

#[derive(Debug, Copy, Clone, Eq, PartialEq, Hash, Structural)]
pub enum Var {
    Nu,
    Location(Location),
    Field(Field),
}

impl BorrowKind {
    /// Whether the borrow is a mutable one.
    pub fn is_mut(&self) -> (b: bool)
        ensures
            b == (*self == BorrowKind::Mut),
    {
        match self {
            BorrowKind::Shared => false,
            BorrowKind::Mut => true,
        }
    }
}

impl Constant {
    /// The basic type that the literal inhabits.
    pub fn ty(&self) -> (ty: BasicType)
        ensures
            ty == match self {
                Constant::Bool(_) => BasicType::Bool,
                Constant::Int(_) => BasicType::Int,
            },
    {
        match self {
            Constant::Bool(_) => BasicType::Bool,
            Constant::Int(_) => BasicType::Int,
        }
    }
}

/// A path to a value.
#[derive(Debug, Eq, PartialEq, Hash)]
pub struct Place {
    pub local: Local,
    pub projection: Vec<Projection>,
}

/// What a [`Place`] denotes.
pub struct PlaceView {
    pub local: Local,
    pub projection: Seq<Projection>,
}

impl View for Place {
    type V = PlaceView;

    open spec fn view(&self) -> PlaceView {
        PlaceView { local: self.local, projection: self.projection@ }
    }
}

impl PlaceView {
    /// Whether the two paths start at the same local and agree on every projection
    /// that both have.
    pub open spec fn overlaps(self, other: PlaceView) -> bool {
        &&& self.local == other.local
        &&& forall|i: int|
            0 <= i < self.projection.len() && i < other.projection.len() ==> self.projection[i]
                == other.projection[i]
    }
}

impl Clone for Place {
    fn clone(&self) -> (r: Place)
        ensures
            r@ == self@,
    {
        let empty: Vec<Projection> = Vec::new();
        let r = self.extend(&empty);
        assert(r@.projection =~= self@.projection);
        r
    }
}

impl Place {
    pub fn new(local: Local, projection: Vec<Projection>) -> (r: Place)
        ensures
            r@ == (PlaceView { local, projection: projection@ }),
    {
        Place { local, projection }
    }

    /// The place that is the local itself.
    pub fn from_local(local: Local) -> (r: Place)
        ensures
            r@ == (PlaceView { local, projection: Seq::empty() }),
    {
        Place { local, projection: Vec::new() }
    }

    /// The place that `rhs` leads to from this one.
    pub fn extend(&self, rhs: &Vec<Projection>) -> (r: Place)
        ensures
            r@ == (PlaceView { local: self.local, projection: self.projection@ + rhs@ }),
    {
        let mut projection: Vec<Projection> = Vec::new();
        let mut i: usize = 0;
        while i < self.projection.len()
            invariant
                i <= self.projection.len(),
                projection@ == self.projection@.take(i as int),
            decreases self.projection.len() - i,
        {
            projection.push(self.projection[i]);
            i += 1;
        }
        assert(projection@ =~= self.projection@);
        let mut j: usize = 0;
        while j < rhs.len()
            invariant
                j <= rhs.len(),
                projection@ == self.projection@ + rhs@.take(j as int),
            decreases rhs.len() - j,
        {
            projection.push(rhs[j]);
            assert(projection@ =~= self.projection@ + rhs@.take(j + 1));
            j += 1;
        }
        assert(rhs@.take(rhs@.len() as int) =~= rhs@);
        Place { local: self.local, projection }
    }

    /// Whether the two places may name overlapping memory.
    pub fn overlaps(&self, rhs: &Place) -> (b: bool)
        ensures
            b == self@.overlaps(rhs@),
    {
        if self.local != rhs.local {
            return false;
        }
        let mut i: usize = 0;
        while i < self.projection.len() && i < rhs.projection.len()
            invariant
                i <= self.projection.len(),
                i <= rhs.projection.len(),
                forall|j: int| 0 <= j < i ==> self.projection[j] == rhs.projection[j],
            decreases self.projection.len() - i,
        {
            if self.projection[i] != rhs.projection[i] {
                assert(self@.projection[i as int] != rhs@.projection[i as int]);
                return false;
            }
            i += 1;
        }
        true
    }

    /// Whether the two places are the same path.
    pub fn same(&self, rhs: &Place) -> (b: bool)
        ensures
            b == (self@ == rhs@),
    {
        if self.local != rhs.local || self.projection.len() != rhs.projection.len() {
            return false;
        }
        let mut i: usize = 0;
        while i < self.projection.len()
            invariant
                i <= self.projection.len(),
                self.projection.len() == rhs.projection.len(),
                forall|j: int| 0 <= j < i ==> self.projection[j] == rhs.projection[j],
            decreases self.projection.len() - i,
        {
            if self.projection[i] != rhs.projection[i] {
                return false;
            }
            i += 1;
        }
        assert(self.projection@ =~= rhs.projection@);
        true
    }
}

/// The indices of the fields that lead to a part of a type.
#[derive(Debug)]
pub struct Path(pub Vec<u32>);

impl View for Path {
    type V = Seq<u32>;

    open spec fn view(&self) -> Seq<u32> {
        self.0@
    }
}

impl Path {
    /// The path to the whole.
    pub fn empty() -> (p: Path)
        ensures
            p@ == Seq::<u32>::empty(),
    {
        Path(Vec::new())
    }

    /// The path one field further down.
    pub fn append(&self, i: u32) -> (p: Path)
        ensures
            p@ == self@.push(i),
    {
        let mut v: Vec<u32> = Vec::new();
        let mut j: usize = 0;
        while j < self.0.len()
            invariant
                j <= self.0.len(),
                v@ == self.0@.take(j as int),
            decreases self.0.len() - j,
        {
            v.push(self.0[j]);
            j += 1;
        }
        assert(v@ =~= self.0@);
        v.push(i);
        Path(v)
    }
}

/// The places that a reference may alias.
#[derive(Eq, PartialEq, Hash, Debug)]
pub struct Region(Vec<Place>);

/// The places of a list, each by what it denotes.
pub open spec fn places_view(places: Seq<Place>) -> Seq<PlaceView> {
    Seq::new(places.len(), |i: int| places[i]@)
}

impl View for Region {
    type V = Seq<PlaceView>;

    closed spec fn view(&self) -> Seq<PlaceView> {
        places_view(self.0@)
    }
}

impl Region {
    /// The region of one place.
    pub fn new(place: Place) -> (r: Region)
        ensures
            r@ == seq![place@],
    {
        let mut v: Vec<Place> = Vec::new();
        v.push(place);
        let r = Region(v);
        assert(r@ =~= seq![place@]);
        r
    }

    /// The region of the given places.
    pub fn from_places(v: Vec<Place>) -> (r: Region)
        ensures
            r@ == places_view(v@),
    {
        Region(v)
    }

    /// The number of places.
    pub fn len(&self) -> (n: usize)
        ensures
            n == self@.len(),
    {
        self.0.len()
    }

    /// The `index`-th place.
    pub fn index(&self, index: usize) -> (place: &Place)
        requires
            index < self@.len(),
        ensures
            place@ == self@[index as int],
    {
        &self.0[index]
    }

    /// The places, in order.
    pub fn iter(&self) -> (places: Vec<&Place>)
        ensures
            places@.len() == self@.len(),
            forall|i: int| 0 <= i < places@.len() ==> (#[trigger] places@[i])@ == self@[i],
    {
        let mut out: Vec<&Place> = Vec::new();
        let mut i: usize = 0;
        while i < self.0.len()
            invariant
                i <= self.0.len(),
                out@.len() == i,
                forall|j: int| 0 <= j < i ==> (#[trigger] out@[j])@ == self@[j],
            decreases self.0.len() - i,
        {
            out.push(&self.0[i]);
            i += 1;
        }
        out
    }

    /// Whether every place of this region is a place of `rhs`.
    pub fn subset_of(&self, rhs: &Region) -> (b: bool)
        ensures
            b == (forall|i: int| 0 <= i < self@.len() ==> rhs@.contains(#[trigger] self@[i])),
    {
        let mut i: usize = 0;
        while i < self.0.len()
            invariant
                i <= self.0.len(),
                forall|k: int| 0 <= k < i ==> rhs@.contains(#[trigger] self@[k]),
            decreases self.0.len() - i,
        {
            let mut found = false;
            let mut j: usize = 0;
            while j < rhs.0.len() && !found
                invariant
                    j <= rhs.0.len(),
                    i < self.0.len(),
                    found ==> rhs@.contains(self@[i as int]),
                    !found ==> forall|k: int| 0 <= k < j ==> rhs@[k] != self@[i as int],
                decreases rhs.0.len() - j,
            {
                if self.0[i].same(&rhs.0[j]) {
                    assert(rhs@[j as int] == self@[i as int]);
                    found = true;
                }
                j += 1;
            }
            if !found {
                assert(!rhs@.contains(self@[i as int]));
                return false;
            }
            i += 1;
        }
        true
    }
}

/// The recursive shape of a block of memory.
#[derive(Debug)]
pub enum TypeLayout {
    /// Tuples decompose memory recursively.
    Tuple(Vec<TypeLayout>),
    /// A block of memory that cannot be decomposed further.
    Block(u32),
}

/// A refinement predicate.
#[derive(Debug, Eq, PartialEq, Hash)]
pub enum PredS {
    Constant(Constant),
    Place { var: Var, projection: Vec<u32> },
    BinaryOp(BinOp, Box<PredS>, Box<PredS>),
    UnaryOp(UnOp, Box<PredS>),
    Iff(Box<PredS>, Box<PredS>),
    Kvar(u32, Vec<Var>),
}

pub type Pred = Box<PredS>;

/// A type.
#[derive(Debug, Eq, PartialEq, Hash)]
pub enum TyS {
    /// A function type.
    Fn { in_heap: Vec<(Location, Ty)>, params: Vec<OwnRef>, out_heap: Vec<(Location, Ty)>, ret: OwnRef },
    /// An owned reference.
    OwnRef(Location),
    /// A borrowed reference.
    Ref(BorrowKind, Region, Location),
    /// A refinement type.
    Refine { ty: BasicType, pred: Pred },
    /// A dependent tuple.
    Tuple(Vec<(Field, Box<TyS>)>),
    /// Uninitialised memory.
    Uninit(u32),
    /// A refinement that needs to be inferred.
    RefineHole { ty: BasicType, n: u32 },
}

pub type Ty = Box<TyS>;

/// The heap: a mapping from locations to types.
pub type Heap = Vec<(Location, Ty)>;

/// An environment: a mapping from locals to owned references.
pub type Env = Vec<(Local, OwnRef)>;

impl TyS {
    /// The number of memory cells that a value of the type takes: the size of
    /// uninitialised memory, the sum over the fields for a tuple, and one for
    /// anything else.
    pub open spec fn spec_size(&self) -> nat
        decreases self,
    {
        match self {
            TyS::Tuple(fields) => Self::size_of_fields(fields@, fields@.len()),
            TyS::Uninit(size) => *size as nat,
            _ => 1,
        }
    }

    /// The size of the first `n` of `fields` together.
    pub open spec fn size_of_fields(fields: Seq<(Field, Box<TyS>)>, n: nat) -> nat
        decreases fields, n,
    {
        if n == 0 || n > fields.len() {
            0
        } else {
            Self::size_of_fields(fields, (n - 1) as nat) + fields[n - 1].1.spec_size()
        }
    }

    /// Every field is at most as large as the fields up to it together, and those at
    /// most as large as all of them.
    pub proof fn lemma_size_of_fields(fields: Seq<(Field, Box<TyS>)>, i: nat, n: nat)
        requires
            i <= n <= fields.len(),
        ensures
            Self::size_of_fields(fields, i) <= Self::size_of_fields(fields, n),
            i < n ==> Self::size_of_fields(fields, i) + fields[i as int].1.spec_size()
                <= Self::size_of_fields(fields, n),
        decreases n,
    {
        if i < n {
            Self::lemma_size_of_fields(fields, i, (n - 1) as nat);
        }
    }

    /// Whether the type is a refinement of the integers.
    pub fn is_int(&self) -> (b: bool)
        ensures
            b == (self matches TyS::Refine { ty: BasicType::Int, .. }),
    {
        match self {
            TyS::Refine { ty: BasicType::Int, .. } => true,
            _ => false,
        }
    }

    /// Whether a value of the type is copied rather than moved: every one is.
    pub fn is_copy(&self) -> (b: bool)
        ensures
            b,
    {
        true
    }

    /// The number of memory cells that a value of the type takes.
    pub fn size(&self) -> (n: u32)
        requires
            self.spec_size() <= u32::MAX,
        ensures
            n == self.spec_size(),
        decreases self,
    {
        match self {
            TyS::Tuple(fields) => {
                let mut total: u32 = 0;
                let mut i: usize = 0;
                while i < fields.len()
                    invariant
                        self is Tuple,
                        self->Tuple_0 == *fields,
                        i <= fields.len(),
                        total == Self::size_of_fields(fields@, i as nat),
                        Self::size_of_fields(fields@, fields@.len()) <= u32::MAX,
                    decreases fields.len() - i,
                {
                    proof {
                        Self::lemma_size_of_fields(fields@, i as nat, fields@.len());
                    }
                    let n = fields[i].1.size();
                    total = total + n;
                    i += 1;
                }
                total
            },
            TyS::Uninit(size) => *size,
            _ => 1,
        }
    }

    /// The borrows in the type, each with the path of fields that leads to it, from
    /// the left: the type itself where it is a borrow, those of the fields where it is
    /// a tuple.
    pub open spec fn spec_borrows(&self, path: Seq<u32>) -> Seq<(Seq<u32>, BorrowKind, Region)>
        decreases self,
    {
        match self {
            TyS::Ref(kind, r, _) => seq![(path, *kind, *r)],
            TyS::Tuple(fields) => Self::borrows_of_fields(fields@, path, fields@.len()),
            _ => Seq::empty(),
        }
    }

    /// The borrows in the first `n` of `fields`.
    pub open spec fn borrows_of_fields(fields: Seq<(Field, Box<TyS>)>, path: Seq<u32>, n: nat) -> Seq<
        (Seq<u32>, BorrowKind, Region),
    >
        decreases fields, n,
    {
        if n == 0 || n > fields.len() {
            Seq::empty()
        } else {
            Self::borrows_of_fields(fields, path, (n - 1) as nat) + fields[n - 1].1.spec_borrows(
                path.push((n - 1) as u32),
            )
        }
    }

    /// The borrows in the type, each with the path of fields that leads to it.
    pub fn borrows(&self) -> (r: Vec<(Path, BorrowKind, &Region)>)
        requires
            self.fits(),
        ensures
            borrows_view(r@) == self.spec_borrows(Seq::empty()),
    {
        self.borrows_(Path::empty())
    }

    /// Whether no tuple in the type has more fields than a field index can count.
    pub open spec fn fits(&self) -> bool
        decreases self,
    {
        match self {
            TyS::Tuple(fields) => fields@.len() <= u32::MAX && forall|i: int|
                0 <= i < fields@.len() ==> (#[trigger] fields@[i]).1.fits(),
            _ => true,
        }
    }

    fn borrows_(&self, path: Path) -> (r: Vec<(Path, BorrowKind, &Region)>)
        requires
            self.fits(),
        ensures
            borrows_view(r@) == self.spec_borrows(path@),
        decreases self,
    {
        match self {
            TyS::Ref(kind, r, _) => {
                let mut out: Vec<(Path, BorrowKind, &Region)> = Vec::new();
                out.push((path, *kind, r));
                assert(borrows_view(out@) =~= seq![(path@, *kind, *r)]);
                out
            },
            TyS::Tuple(fields) => {
                let mut out: Vec<(Path, BorrowKind, &Region)> = Vec::new();
                assert(borrows_view(out@) =~= Seq::empty());
                let mut i: usize = 0;
                while i < fields.len()
                    invariant
                        self is Tuple,
                        self->Tuple_0 == *fields,
                        self.fits(),
                        i <= fields.len(),
                        borrows_view(out@) == Self::borrows_of_fields(fields@, path@, i as nat),
                    decreases fields.len() - i,
                {
                    assert(fields@[i as int].1.fits());
                    let mut inner = fields[i].1.borrows_(path.append(i as u32));
                    proof {
                        assert(borrows_view(out@ + inner@) =~= borrows_view(out@) + borrows_view(
                            inner@,
                        ));
                    }
                    out.append(&mut inner);
                    i += 1;
                }
                out
            },
            _ => {
                let out: Vec<(Path, BorrowKind, &Region)> = Vec::new();
                assert(borrows_view(out@) =~= Seq::empty());
                out
            },
        }
    }
}

/// The borrows of a list, each path by what it denotes.
pub open spec fn borrows_view(borrows: Seq<(Path, BorrowKind, &Region)>) -> Seq<
    (Seq<u32>, BorrowKind, Region),
> {
    Seq::new(borrows.len(), |i: int| (borrows[i].0@, borrows[i].1, *borrows[i].2))
}

impl Field {
    /// The field of the name `string`, which is added to `names` unless it is there;
    /// none where `names` is full.
    pub fn intern(names: &mut Interner, string: &str) -> (field: Option<Field>)
        requires
            old(names).wf(),
        ensures
            final(names).wf(),
            match field {
                Some(field) => {
                    &&& field.0.0 < final(names)@.len()
                    &&& final(names)@[field.0.0 as int] == string@
                    &&& final(names)@ == if old(names)@.contains(string@) {
                        old(names)@
                    } else {
                        old(names)@.push(string@)
                    }
                },
                None => !old(names)@.contains(string@) && old(names)@.len() == u32::MAX + 1
                    && final(names)@ == old(names)@,
            },
    {
        match names.intern(string) {
            Some(symbol) => Some(Field(symbol)),
            None => None,
        }
    }

    /// The field whose name is the decimal numeral of `n`.
    pub fn nth(names: &mut Interner, n: u32) -> (field: Option<Field>)
        requires
            old(names).wf(),
        ensures
            final(names).wf(),
            match field {
                Some(field) => {
                    &&& field.0.0 < final(names)@.len()
                    &&& final(names)@[field.0.0 as int] == decimal(n as nat)
                    &&& final(names)@ == if old(names)@.contains(decimal(n as nat)) {
                        old(names)@
                    } else {
                        old(names)@.push(decimal(n as nat))
                    }
                },
                None => !old(names)@.contains(decimal(n as nat)) && old(names)@.len() == u32::MAX
                    + 1 && final(names)@ == old(names)@,
            },
    {
        let numeral = decimal_string(n as u128);
        Field::intern(names, numeral.as_str())
    }
}

impl OwnRef {
    /// The type of the owned reference.
    pub fn into_ty(self) -> (ty: TyS)
        ensures
            ty == TyS::OwnRef(self.0),
    {
        TyS::OwnRef(self.0)
    }
}

/// A value that can appear inside an rvalue.
#[derive(Debug)]
pub enum Operand {
    /// A place dereference, which moves or copies depending on the type of the place.
    Deref(Place),
    Constant(Constant),
}

/// The right-hand side of an assignment.
#[derive(Debug)]
pub enum Rvalue {
    Use(Operand),
    Ref(BorrowKind, Place),
    BinaryOp(BinOp, Operand, Operand),
    CheckedBinaryOp(BinOp, Operand, Operand),
    UnaryOp(UnOp, Operand),
}

/// A statement.
#[derive(Debug)]
pub enum Statement {
    /// Allocates a block of memory and binds the result to a local.
    Let(Local, TypeLayout),
    /// Moves or copies the rvalue to a place.
    Assign(Place, Rvalue),
    Drop(Local),
}

/// A function definition.
#[derive(Debug)]
pub struct FnDef {
    pub name: Symbol,
    /// The input heap.
    pub heap: Heap,
    /// The formal arguments, each an owned reference.
    pub args: Vec<(Local, OwnRef)>,
    /// The return continuation.
    pub ret: Symbol,
    pub out_heap: Heap,
    /// The returned owned reference.
    pub out_ty: OwnRef,
    pub body: Box<FnBody>,
}

/// A continuation definition.
#[derive(Debug)]
pub struct ContDef {
    pub name: Symbol,
    /// The heap required to call the continuation.
    pub heap: Heap,
    /// The environment required to call the continuation.
    pub env: Env,
    /// Additional parameters of the continuation.
    pub params: Vec<(Local, OwnRef)>,
    pub body: Box<FnBody>,
}

/// A function body.
#[derive(Debug)]
pub enum FnBody {
    LetCont { def: ContDef, rest: Box<FnBody> },
    Ite { discr: Place, then: Box<FnBody>, else_: Box<FnBody> },
    Call { func: Place, args: Vec<Local>, ret: Symbol },
    Jump { target: Symbol, args: Vec<Local> },
    /// A statement, then the rest of the body.
    Sequence(Statement, Box<FnBody>),
    Abort,
}

} // verus!
