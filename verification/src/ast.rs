//! The continuation-passing IR: functions, continuations, statements and types.

pub mod pred;

use crate::ast::pred::{Pred, PredView};
use crate::names::{ContId, Field, FnId, Local, Location, UniversalRegion};
use vstd::prelude::*;

verus! {

/// The type of a value without its refinement.
#[derive(Debug, Copy, Clone, Eq, PartialEq, Hash, Structural)]
pub enum BaseTy {
    Unit,
    Bool,
    Int,
}

/// Whether a borrow permits writes.
#[derive(Eq, PartialEq, Copy, Clone, Debug, Hash, PartialOrd, Structural)]
pub enum BorrowKind {
    Shared,
    Mut,
}

impl BorrowKind {
    pub open spec fn spec_is_mut(self) -> bool {
        self == BorrowKind::Mut
    }

    /// Whether the borrow is a mutable one.
    #[verifier::when_used_as_spec(spec_is_mut)]
    pub fn is_mut(self) -> (b: bool)
        ensures
            b == (self == BorrowKind::Mut),
    {
        match self {
            BorrowKind::Shared => false,
            BorrowKind::Mut => true,
        }
    }
}

/// A literal of the IR.
#[derive(Debug, Copy, Clone, Eq, PartialEq, Structural)]
pub enum Constant {
    Bool(bool),
    Int(u128),
    Unit,
}

impl Constant {
    pub open spec fn spec_base_ty(&self) -> BaseTy {
        match self {
            Constant::Bool(_) => BaseTy::Bool,
            Constant::Int(_) => BaseTy::Int,
            Constant::Unit => BaseTy::Unit,
        }
    }

    /// The base type that the literal inhabits.
    #[verifier::when_used_as_spec(spec_base_ty)]
    pub fn base_ty(&self) -> (ty: BaseTy)
        ensures
            ty == self.spec_base_ty(),
    {
        match self {
            Constant::Bool(_) => BaseTy::Bool,
            Constant::Int(_) => BaseTy::Int,
            Constant::Unit => BaseTy::Unit,
        }
    }
}

/// A binary operator of the IR.
#[derive(Copy, Clone, Eq, PartialEq, Debug, Structural)]
pub enum BinOp {
    Add,
    Sub,
    Lt,
    Le,
    Eq,
    Ge,
    Gt,
}

/// A unary operator of the IR.
#[derive(Copy, Clone, Eq, PartialEq, Debug, Structural)]
pub enum UnOp {
    Not,
    Neg,
}

/// One step of a path into memory.
#[derive(PartialEq, Eq, Clone, Copy, Debug, Hash, Structural)]
pub enum Proj {
    Field(usize),
    Deref,
}

/// A path into memory: a local and the projections applied to it.
#[derive(Eq, PartialEq, Debug, Hash)]
pub struct Place {
    pub base: Local,
    pub projs: Vec<Proj>,
}

/// What a [`Place`] denotes.
pub struct PlaceView {
    pub base: Local,
    pub projs: Seq<Proj>,
}

impl View for Place {
    type V = PlaceView;

    open spec fn view(&self) -> PlaceView {
        PlaceView { base: self.base, projs: self.projs@ }
    }
}

impl PlaceView {
    /// Whether the two paths start at the same local and agree on every projection
    /// that both have.
    pub open spec fn overlaps(self, other: PlaceView) -> bool {
        &&& self.base == other.base
        &&& forall|i: int|
            0 <= i < self.projs.len() && i < other.projs.len() ==> self.projs[i] == other.projs[i]
    }
}

impl Clone for Place {
    fn clone(&self) -> (r: Place)
        ensures
            r@ == self@,
    {
        let mut projs: Vec<Proj> = Vec::new();
        let mut i: usize = 0;
        while i < self.projs.len()
            invariant
                i <= self.projs.len(),
                projs@ == self.projs@.take(i as int),
            decreases self.projs.len() - i,
        {
            projs.push(self.projs[i]);
            i += 1;
        }
        assert(projs@ =~= self.projs@);
        Place { base: self.base, projs }
    }
}

impl Place {
    pub fn new(base: Local, projs: Vec<Proj>) -> (r: Place)
        ensures
            r@ == (PlaceView { base, projs: projs@ }),
    {
        Place { base, projs }
    }

    /// The place that is the local itself.
    pub fn from_local(base: Local) -> (r: Place)
        ensures
            r@ == (PlaceView { base, projs: Seq::empty() }),
    {
        Place { base, projs: Vec::new() }
    }

    /// Whether the two places may name overlapping memory.
    pub fn overlaps(&self, place: &Place) -> (b: bool)
        ensures
            b == self@.overlaps(place@),
    {
        if self.base != place.base {
            return false;
        }
        let mut i: usize = 0;
        while i < self.projs.len() && i < place.projs.len()
            invariant
                i <= self.projs.len(),
                i <= place.projs.len(),
                forall|j: int| 0 <= j < i ==> self.projs[j] == place.projs[j],
            decreases self.projs.len() - i,
        {
            if self.projs[i] != place.projs[i] {
                assert(self@.projs[i as int] != place@.projs[i as int]);
                return false;
            }
            i += 1;
        }
        true
    }

    /// Whether the two places are the same path.
    pub fn same(&self, place: &Place) -> (b: bool)
        ensures
            b == (self@ == place@),
    {
        if self.base != place.base || self.projs.len() != place.projs.len() {
            return false;
        }
        let mut i: usize = 0;
        while i < self.projs.len()
            invariant
                i <= self.projs.len(),
                self.projs.len() == place.projs.len(),
                forall|j: int| 0 <= j < i ==> self.projs[j] == place.projs[j],
            decreases self.projs.len() - i,
        {
            if self.projs[i] != place.projs[i] {
                return false;
            }
            i += 1;
        }
        assert(self.projs@ =~= place.projs@);
        true
    }
}

/// The places that a borrow may alias.
#[derive(Eq, PartialEq, Debug)]
pub enum Region {
    Concrete(Vec<Place>),
    /// Yet to be inferred.
    Infer,
    Universal(UniversalRegion),
}

/// What a [`Region`] denotes.
pub enum RegionView {
    Concrete(Seq<PlaceView>),
    Infer,
    Universal(UniversalRegion),
}

/// The places of a list, each by what it denotes.
pub open spec fn places_view(places: Seq<Place>) -> Seq<PlaceView> {
    Seq::new(places.len(), |i: int| places[i]@)
}

impl View for Region {
    type V = RegionView;

    open spec fn view(&self) -> RegionView {
        match self {
            Region::Concrete(places) => RegionView::Concrete(places_view(places@)),
            Region::Infer => RegionView::Infer,
            Region::Universal(r) => RegionView::Universal(*r),
        }
    }
}

/// A copy of a list of places.
pub fn clone_places(places: &Vec<Place>) -> (r: Vec<Place>)
    ensures
        places_view(r@) == places_view(places@),
{
    let mut out: Vec<Place> = Vec::new();
    let mut i: usize = 0;
    while i < places.len()
        invariant
            i <= places.len(),
            out.len() == i,
            forall|j: int| 0 <= j < i ==> out[j]@ == places[j]@,
        decreases places.len() - i,
    {
        out.push(places[i].clone());
        i += 1;
    }
    assert(places_view(out@) =~= places_view(places@));
    out
}

impl Clone for Region {
    fn clone(&self) -> (r: Region)
        ensures
            r@ == self@,
    {
        match self {
            Region::Concrete(places) => Region::Concrete(clone_places(places)),
            Region::Infer => Region::Infer,
            Region::Universal(r) => Region::Universal(*r),
        }
    }
}

impl Region {
    /// The region of the given places.
    pub fn from_places(v: Vec<Place>) -> (r: Region)
        ensures
            r@ == RegionView::Concrete(places_view(v@)),
    {
        Region::Concrete(v)
    }
}

/// The refinement of a base type.
#[derive(Debug, PartialEq, Eq)]
pub enum Refine {
    /// Yet to be inferred.
    Infer,
    Pred(Pred),
}

/// What a [`Refine`] denotes.
pub enum RefineView {
    Infer,
    Pred(PredView),
}

impl View for Refine {
    type V = RefineView;

    open spec fn view(&self) -> RefineView {
        match self {
            Refine::Infer => RefineView::Infer,
            Refine::Pred(p) => RefineView::Pred(p@),
        }
    }
}

impl Clone for Refine {
    fn clone(&self) -> (r: Refine)
        ensures
            r@ == self@,
    {
        match self {
            Refine::Infer => Refine::Infer,
            Refine::Pred(p) => Refine::Pred(p.clone()),
        }
    }
}

/// A type of the IR.
#[derive(Debug, PartialEq, Eq)]
pub enum Ty {
    /// An owned pointer to a heap location.
    OwnRef(Location),
    /// A borrowed pointer to a heap location.
    Ref(BorrowKind, Region, Location),
    /// A dependent tuple: the predicate of a field may mention the fields before it.
    Tuple(Vec<(Field, Ty)>),
    /// Uninitialised memory of the given size.
    Uninit(usize),
    Refine(BaseTy, Refine),
}

/// What a [`Ty`] denotes.
pub enum TyView {
    OwnRef(Location),
    Ref(BorrowKind, RegionView, Location),
    Tuple(Seq<(Field, TyView)>),
    Uninit(usize),
    Refine(BaseTy, RefineView),
}

impl Ty {
    /// What the type denotes.
    pub open spec fn model(&self) -> TyView
        decreases self,
    {
        match self {
            Ty::OwnRef(l) => TyView::OwnRef(*l),
            Ty::Ref(kind, region, l) => TyView::Ref(*kind, region@, *l),
            Ty::Tuple(fields) => TyView::Tuple(
                Seq::new(
                    fields@.len(),
                    |i: int|
                        if 0 <= i < fields@.len() {
                            (fields@[i].0, fields@[i].1.model())
                        } else {
                            arbitrary()
                        },
                ),
            ),
            Ty::Uninit(n) => TyView::Uninit(*n),
            Ty::Refine(bty, refine) => TyView::Refine(*bty, refine@),
        }
    }
}

impl View for Ty {
    type V = TyView;

    open spec fn view(&self) -> TyView {
        self.model()
    }
}

/// The fields of a tuple type, each by what it denotes.
pub open spec fn fields_view(fields: Seq<(Field, Ty)>) -> Seq<(Field, TyView)> {
    Seq::new(fields.len(), |i: int| (fields[i].0, fields[i].1@))
}

/// The view of a tuple type is that of its fields.
pub proof fn lemma_tuple_view(fields: Vec<(Field, Ty)>)
    ensures
        Ty::Tuple(fields)@ == TyView::Tuple(fields_view(fields@)),
{
    assert(Ty::Tuple(fields)@->Tuple_0 =~= fields_view(fields@));
}

impl Clone for Ty {
    fn clone(&self) -> (r: Ty)
        ensures
            r@ == self@,
        decreases self,
    {
        match self {
            Ty::OwnRef(l) => Ty::OwnRef(*l),
            Ty::Ref(kind, region, l) => Ty::Ref(*kind, region.clone(), *l),
            Ty::Tuple(fields) => {
                let mut out: Vec<(Field, Ty)> = Vec::new();
                let mut i: usize = 0;
                while i < fields.len()
                    invariant
                        self is Tuple,
                        self->Tuple_0 == *fields,
                        i <= fields.len(),
                        out.len() == i,
                        forall|j: int|
                            0 <= j < i ==> out[j].0 == fields[j].0 && out[j].1@ == fields[j].1@,
                    decreases fields.len() - i,
                {
                    let f = fields[i].0;
                    let t = fields[i].1.clone();
                    out.push((f, t));
                    i += 1;
                }
                proof {
                    lemma_tuple_view(out);
                    lemma_tuple_view(*fields);
                    assert(fields_view(out@) =~= fields_view(fields@));
                }
                Ty::Tuple(out)
            },
            Ty::Uninit(n) => Ty::Uninit(*n),
            Ty::Refine(bty, refine) => Ty::Refine(*bty, refine.clone()),
        }
    }
}

impl TyView {
    /// The unit type with the trivial refinement.
    pub open spec fn unit() -> TyView {
        TyView::Refine(BaseTy::Unit, RefineView::Pred(PredView::tt()))
    }

    /// The number of memory cells that a value of the type takes: one for a scalar or
    /// a pointer, the sum over the fields for a tuple.
    pub open spec fn size(self) -> nat
        decreases self,
    {
        match self {
            TyView::Tuple(fields) => Self::size_of_fields(fields, fields.len()),
            TyView::Uninit(n) => n as nat,
            _ => 1,
        }
    }

    /// The size of the first `n` of `fields` together.
    pub open spec fn size_of_fields(fields: Seq<(Field, TyView)>, n: nat) -> nat
        decreases fields, n,
    {
        if n == 0 || n > fields.len() {
            0
        } else {
            Self::size_of_fields(fields, (n - 1) as nat) + fields[n - 1].1.size()
        }
    }
}

impl Ty {
    /// The unit type with the trivial refinement.
    pub fn unit() -> (ty: Ty)
        ensures
            ty@ == TyView::unit(),
    {
        Ty::Refine(BaseTy::Unit, Refine::Pred(Pred::Constant(pred::Constant::Bool(true))))
    }
}

/// A mapping from locations to types, kept in the order in which the locations were
/// bound.
#[derive(Debug, PartialEq, Eq)]
pub struct Heap(pub Vec<(Location, Ty)>);

/// The entries of a heap, each type by what it denotes.
pub open spec fn heap_view(entries: Seq<(Location, Ty)>) -> Seq<(Location, TyView)> {
    fields_view_of(entries)
}

/// The pairs of a list, each type by what it denotes.
pub open spec fn fields_view_of<A>(entries: Seq<(A, Ty)>) -> Seq<(A, TyView)> {
    Seq::new(entries.len(), |i: int| (entries[i].0, entries[i].1@))
}

impl View for Heap {
    type V = Seq<(Location, TyView)>;

    open spec fn view(&self) -> Seq<(Location, TyView)> {
        heap_view(self.0@)
    }
}

/// The position of the last entry for `l` among the first `n` of `heap`, if there is one.
pub open spec fn heap_index_in(heap: Seq<(Location, TyView)>, n: nat, l: Location) -> Option<int>
    decreases n,
{
    if n == 0 || n > heap.len() {
        None
    } else if heap[n - 1].0 == l {
        Some(n - 1)
    } else {
        heap_index_in(heap, (n - 1) as nat, l)
    }
}

/// The position of the last entry for `l` in `heap`, if there is one.
pub open spec fn heap_index(heap: Seq<(Location, TyView)>, l: Location) -> Option<int> {
    heap_index_in(heap, heap.len(), l)
}

/// The type that `heap` holds at `l`, if it binds `l`.
pub open spec fn heap_get(heap: Seq<(Location, TyView)>, l: Location) -> Option<TyView> {
    match heap_index(heap, l) {
        Some(i) => Some(heap[i].1),
        None => None,
    }
}

/// Where the entry at `at` is the last one for `l` among the first `n`, it is the one
/// that a lookup of `l` among them finds.
pub proof fn lemma_heap_index_last(heap: Seq<(Location, TyView)>, n: nat, l: Location, at: int)
    requires
        0 <= at < n <= heap.len(),
        heap[at].0 == l,
        forall|j: int| at < j < n ==> (#[trigger] heap[j]).0 != l,
    ensures
        heap_index_in(heap, n, l) == Some(at),
    decreases n,
{
    if heap[n - 1].0 == l {
    } else {
        lemma_heap_index_last(heap, (n - 1) as nat, l, at);
    }
}

impl Heap {
    /// The empty heap.
    pub fn new() -> (heap: Heap)
        ensures
            heap@ == Seq::<(Location, TyView)>::empty(),
    {
        let heap = Heap(Vec::new());
        assert(heap@ =~= Seq::<(Location, TyView)>::empty());
        heap
    }

    /// The number of entries.
    pub fn len(&self) -> (n: usize)
        ensures
            n == self@.len(),
    {
        self.0.len()
    }

    /// Binds `l` to `ty`, after all earlier entries.
    pub fn insert(&mut self, l: Location, ty: Ty)
        ensures
            final(self)@ == old(self)@.push((l, ty@)),
    {
        self.0.push((l, ty));
        assert(self@ =~= old(self)@.push((l, ty@)));
    }

    /// The type bound to `l`: that of its last entry.
    pub fn get(&self, l: &Location) -> (ty: Option<&Ty>)
        ensures
            ty matches Some(t) ==> heap_get(self@, *l) == Some(t@),
            ty is None ==> heap_get(self@, *l) is None,
    {
        let mut i: usize = self.0.len();
        while i > 0
            invariant
                i <= self.0.len(),
                heap_index(self@, *l) == heap_index_in(self@, i as nat, *l),
            decreases i,
        {
            i -= 1;
            if self.0[i].0 == *l {
                return Some(&self.0[i].1);
            }
        }
        None
    }

    /// The position of the last entry for `l` among the first `n`, if there is one.
    pub fn index_before(&self, n: usize, l: Location) -> (at: Option<usize>)
        requires
            n <= self@.len(),
        ensures
            match at {
                Some(i) => heap_index_in(self@, n as nat, l) == Some(i as int) && i < n,
                None => heap_index_in(self@, n as nat, l) is None,
            },
    {
        let mut i: usize = n;
        while i > 0
            invariant
                i <= n <= self.0.len(),
                self@.len() == self.0.len(),
                heap_index_in(self@, n as nat, l) == heap_index_in(self@, i as nat, l),
            decreases i,
        {
            i -= 1;
            if self.0[i].0 == l {
                return Some(i);
            }
        }
        None
    }

    /// The type of the `i`-th entry.
    pub fn ty_at(&self, i: usize) -> (ty: &Ty)
        requires
            i < self@.len(),
        ensures
            ty@ == self@[i as int].1,
    {
        &self.0[i].1
    }

    /// Forgets every entry but the first `len`.
    pub fn truncate(&mut self, len: usize)
        ensures
            final(self)@ == if len <= old(self)@.len() {
                old(self)@.take(len as int)
            } else {
                old(self)@
            },
    {
        self.0.truncate(len);
        assert(self@ =~= if len <= old(self)@.len() {
            old(self)@.take(len as int)
        } else {
            old(self)@
        });
    }
}

impl Clone for Heap {
    fn clone(&self) -> (r: Heap)
        ensures
            r@ == self@,
    {
        let mut out: Vec<(Location, Ty)> = Vec::new();
        let mut i: usize = 0;
        while i < self.0.len()
            invariant
                i <= self.0.len(),
                out.len() == i,
                forall|j: int| 0 <= j < i ==> out[j].0 == self.0[j].0 && out[j].1@ == self.0[j].1@,
            decreases self.0.len() - i,
        {
            let l = self.0[i].0;
            let t = self.0[i].1.clone();
            out.push((l, t));
            i += 1;
        }
        let r = Heap(out);
        assert(r@ =~= self@);
        r
    }
}

/// The signature of a function.
#[derive(Debug, PartialEq, Eq)]
pub struct FnDecl {
    pub regions: Vec<UniversalRegion>,
    pub in_heap: Heap,
    pub inputs: Vec<(Local, Location)>,
    pub out_heap: Heap,
    pub outputs: Vec<(Local, Location)>,
    pub output: Location,
}

/// What a [`FnDecl`] denotes.
pub struct FnDeclView {
    pub regions: Seq<UniversalRegion>,
    pub in_heap: Seq<(Location, TyView)>,
    pub inputs: Seq<(Local, Location)>,
    pub out_heap: Seq<(Location, TyView)>,
    pub outputs: Seq<(Local, Location)>,
    pub output: Location,
}

impl View for FnDecl {
    type V = FnDeclView;

    open spec fn view(&self) -> FnDeclView {
        FnDeclView {
            regions: self.regions@,
            in_heap: self.in_heap@,
            inputs: self.inputs@,
            out_heap: self.out_heap@,
            outputs: self.outputs@,
            output: self.output,
        }
    }
}

impl Clone for FnDecl {
    fn clone(&self) -> (r: FnDecl)
        ensures
            r@ == self@,
    {
        FnDecl {
            regions: clone_copies(&self.regions),
            in_heap: self.in_heap.clone(),
            inputs: clone_copies(&self.inputs),
            out_heap: self.out_heap.clone(),
            outputs: clone_copies(&self.outputs),
            output: self.output,
        }
    }
}

/// A copy of a list of values that are copied as they are.
pub fn clone_copies<T: Copy>(v: &Vec<T>) -> (r: Vec<T>)
    ensures
        r@ == v@,
{
    let mut out: Vec<T> = Vec::new();
    let mut i: usize = 0;
    while i < v.len()
        invariant
            i <= v.len(),
            out@ == v@.take(i as int),
        decreases v.len() - i,
    {
        out.push(v[i]);
        i += 1;
    }
    assert(v@.take(v@.len() as int) =~= v@);
    out
}

/// The type of a function as its annotation gives it: the heap it takes with the
/// locations of its arguments, and the heap it leaves with the location of its result.
#[derive(Debug, PartialEq, Eq)]
pub struct FnTy {
    pub in_heap: Heap,
    pub inputs: Vec<Location>,
    pub out_heap: Heap,
    pub output: Location,
}

/// What a [`FnTy`] denotes.
pub struct FnTyView {
    pub in_heap: Seq<(Location, TyView)>,
    pub inputs: Seq<Location>,
    pub out_heap: Seq<(Location, TyView)>,
    pub output: Location,
}

impl View for FnTy {
    type V = FnTyView;

    open spec fn view(&self) -> FnTyView {
        FnTyView {
            in_heap: self.in_heap@,
            inputs: self.inputs@,
            out_heap: self.out_heap@,
            output: self.output,
        }
    }
}

/// The signature of a continuation: the heap it requires, the locals it expects bound,
/// and the locations of its parameters.
#[derive(Debug, PartialEq, Eq)]
pub struct ContTy {
    pub heap: Heap,
    pub locals: Vec<(Local, Location)>,
    pub inputs: Vec<Location>,
}

/// What a [`ContTy`] denotes.
pub struct ContTyView {
    pub heap: Seq<(Location, TyView)>,
    pub locals: Seq<(Local, Location)>,
    pub inputs: Seq<Location>,
}

impl View for ContTy {
    type V = ContTyView;

    open spec fn view(&self) -> ContTyView {
        ContTyView { heap: self.heap@, locals: self.locals@, inputs: self.inputs@ }
    }
}

impl Clone for ContTy {
    fn clone(&self) -> (r: ContTy)
        ensures
            r@ == self@,
    {
        ContTy {
            heap: self.heap.clone(),
            locals: clone_copies(&self.locals),
            inputs: clone_copies(&self.inputs),
        }
    }
}

/// The recursive shape of a block of memory.
#[derive(Debug, PartialEq, Eq)]
pub enum TypeLayout {
    Tuple(Vec<TypeLayout>),
    Block(usize),
}

/// What a [`TypeLayout`] denotes.
pub enum TypeLayoutView {
    Tuple(Seq<TypeLayoutView>),
    Block(usize),
}

impl TypeLayout {
    /// What the layout denotes.
    pub open spec fn model(&self) -> TypeLayoutView
        decreases self,
    {
        match self {
            TypeLayout::Tuple(layouts) => TypeLayoutView::Tuple(
                Seq::new(
                    layouts@.len(),
                    |i: int|
                        if 0 <= i < layouts@.len() {
                            layouts@[i].model()
                        } else {
                            arbitrary()
                        },
                ),
            ),
            TypeLayout::Block(n) => TypeLayoutView::Block(*n),
        }
    }
}

impl View for TypeLayout {
    type V = TypeLayoutView;

    open spec fn view(&self) -> TypeLayoutView {
        self.model()
    }
}

/// What an rvalue reads.
#[derive(Debug, PartialEq, Eq)]
pub enum Operand {
    Copy(Place),
    Move(Place),
    Constant(Constant),
}

/// What an [`Operand`] denotes.
pub enum OperandView {
    Copy(PlaceView),
    Move(PlaceView),
    Constant(Constant),
}

impl View for Operand {
    type V = OperandView;

    open spec fn view(&self) -> OperandView {
        match self {
            Operand::Copy(p) => OperandView::Copy(p@),
            Operand::Move(p) => OperandView::Move(p@),
            Operand::Constant(c) => OperandView::Constant(*c),
        }
    }
}

/// The right-hand side of an assignment.
#[derive(Debug, PartialEq, Eq)]
pub enum Rvalue {
    Use(Operand),
    Ref(BorrowKind, Place),
    BinaryOp(BinOp, Operand, Operand),
    CheckedBinaryOp(BinOp, Operand, Operand),
    UnaryOp(UnOp, Operand),
}

/// What an [`Rvalue`] denotes.
pub enum RvalueView {
    Use(OperandView),
    Ref(BorrowKind, PlaceView),
    BinaryOp(BinOp, OperandView, OperandView),
    CheckedBinaryOp(BinOp, OperandView, OperandView),
    UnaryOp(UnOp, OperandView),
}

impl View for Rvalue {
    type V = RvalueView;

    open spec fn view(&self) -> RvalueView {
        match self {
            Rvalue::Use(op) => RvalueView::Use(op@),
            Rvalue::Ref(kind, p) => RvalueView::Ref(*kind, p@),
            Rvalue::BinaryOp(op, lhs, rhs) => RvalueView::BinaryOp(*op, lhs@, rhs@),
            Rvalue::CheckedBinaryOp(op, lhs, rhs) => RvalueView::CheckedBinaryOp(*op, lhs@, rhs@),
            Rvalue::UnaryOp(op, operand) => RvalueView::UnaryOp(*op, operand@),
        }
    }
}

/// What a statement does.
#[derive(Debug, PartialEq, Eq)]
pub enum StatementKind {
    Let(Local, TypeLayout),
    Assign(Place, Rvalue),
    Drop(Place),
    Nop,
}

/// What a [`StatementKind`] denotes.
pub enum StatementKindView {
    Let(Local, TypeLayoutView),
    Assign(PlaceView, RvalueView),
    Drop(PlaceView),
    Nop,
}

impl View for StatementKind {
    type V = StatementKindView;

    open spec fn view(&self) -> StatementKindView {
        match self {
            StatementKind::Let(x, layout) => StatementKindView::Let(*x, layout@),
            StatementKind::Assign(p, rvalue) => StatementKindView::Assign(p@, rvalue@),
            StatementKind::Drop(p) => StatementKindView::Drop(p@),
            StatementKind::Nop => StatementKindView::Nop,
        }
    }
}

/// A statement, with what the front end recorded of its origin.
#[derive(Debug, PartialEq, Eq)]
pub struct Statement<I> {
    pub source_info: I,
    pub kind: StatementKind,
}

/// What a [`Statement`] denotes.
pub struct StatementView<I> {
    pub source_info: I,
    pub kind: StatementKindView,
}

impl<I> View for Statement<I> {
    type V = StatementView<I>;

    open spec fn view(&self) -> StatementView<I> {
        StatementView { source_info: self.source_info, kind: self.kind@ }
    }
}

/// The body of a function or of a continuation.
#[derive(Debug, PartialEq, Eq)]
pub enum FnBody<I> {
    /// Defines mutually visible continuations for the rest of the body.
    LetCont(Vec<ContDef<I>>, Box<FnBody<I>>),
    Ite { discr: Place, then: Box<FnBody<I>>, else_: Box<FnBody<I>> },
    Call { func: FnId, args: Vec<Local>, destination: Option<(Place, ContId)> },
    Jump { target: ContId, args: Vec<Local> },
    /// A statement, then the rest of the body.
    Sequence(Statement<I>, Box<FnBody<I>>),
    Abort,
}

/// A continuation: a control-flow target with an entry contract.
#[derive(Debug, PartialEq, Eq)]
pub struct ContDef<I> {
    pub name: ContId,
    pub params: Vec<Local>,
    pub body: Box<FnBody<I>>,
    pub ty: ContTy,
}

/// What a [`FnBody`] denotes.
pub enum FnBodyView<I> {
    LetCont(Seq<ContDefView<I>>, Box<FnBodyView<I>>),
    Ite { discr: PlaceView, then: Box<FnBodyView<I>>, else_: Box<FnBodyView<I>> },
    Call { func: FnId, args: Seq<Local>, destination: Option<(PlaceView, ContId)> },
    Jump { target: ContId, args: Seq<Local> },
    Sequence(StatementView<I>, Box<FnBodyView<I>>),
    Abort,
}

/// What a [`ContDef`] denotes.
pub struct ContDefView<I> {
    pub name: ContId,
    pub params: Seq<Local>,
    pub body: Box<FnBodyView<I>>,
    pub ty: ContTyView,
}

impl<I> FnBody<I> {
    /// What the body denotes.
    pub open spec fn model(&self) -> FnBodyView<I>
        decreases self,
    {
        match self {
            FnBody::LetCont(defs, rest) => FnBodyView::LetCont(
                Seq::new(
                    defs@.len(),
                    |i: int|
                        if 0 <= i < defs@.len() {
                            defs@[i].model()
                        } else {
                            arbitrary()
                        },
                ),
                Box::new(rest.model()),
            ),
            FnBody::Ite { discr, then, else_ } => FnBodyView::Ite {
                discr: discr@,
                then: Box::new(then.model()),
                else_: Box::new(else_.model()),
            },
            FnBody::Call { func, args, destination } => FnBodyView::Call {
                func: *func,
                args: args@,
                destination: match destination {
                    Some((place, ret)) => Some((place@, *ret)),
                    None => None,
                },
            },
            FnBody::Jump { target, args } => FnBodyView::Jump { target: *target, args: args@ },
            FnBody::Sequence(statement, rest) => FnBodyView::Sequence(
                statement@,
                Box::new(rest.model()),
            ),
            FnBody::Abort => FnBodyView::Abort,
        }
    }
}

impl<I> ContDef<I> {
    /// What the continuation denotes.
    pub open spec fn model(&self) -> ContDefView<I>
        decreases self,
    {
        ContDefView {
            name: self.name,
            params: self.params@,
            body: Box::new(self.body.model()),
            ty: self.ty@,
        }
    }
}

impl<I> View for FnBody<I> {
    type V = FnBodyView<I>;

    open spec fn view(&self) -> FnBodyView<I> {
        self.model()
    }
}

impl<I> View for ContDef<I> {
    type V = ContDefView<I>;

    open spec fn view(&self) -> ContDefView<I> {
        self.model()
    }
}

/// The continuations of a list, each by what it denotes.
pub open spec fn conts_view<I>(defs: Seq<ContDef<I>>) -> Seq<ContDefView<I>> {
    Seq::new(defs.len(), |i: int| defs[i]@)
}

/// The view of a group of continuations is that of its members.
pub proof fn lemma_let_cont_view<I>(defs: Vec<ContDef<I>>, rest: Box<FnBody<I>>)
    ensures
        FnBody::LetCont(defs, rest)@ == FnBodyView::LetCont(conts_view(defs@), Box::new(rest@)),
{
    assert(FnBody::LetCont(defs, rest)@->LetCont_0 =~= conts_view(defs@));
}

/// The items of `v` in the opposite order.
pub fn reversed<T>(v: Vec<T>) -> (r: Vec<T>)
    ensures
        r@ == v@.reverse(),
{
    let mut v = v;
    let ghost all = v@;
    let mut out: Vec<T> = Vec::new();
    while v.len() > 0
        invariant
            v@.len() + out@.len() == all.len(),
            v@ == all.take(v@.len() as int),
            forall|j: int| 0 <= j < out@.len() ==> out@[j] == all[all.len() - 1 - j],
        decreases v.len(),
    {
        let x = v.pop().unwrap();
        out.push(x);
    }
    assert(out@ =~= all.reverse());
    out
}

/// A function: its signature, its parameters, its body, and the continuation that it
/// returns to.
#[derive(Debug, PartialEq, Eq)]
pub struct FnDef<I> {
    pub ty: FnDecl,
    pub params: Vec<Local>,
    pub body: FnBody<I>,
    pub ret: ContId,
}

/// What a [`FnDef`] denotes.
pub struct FnDefView<I> {
    pub ty: FnDeclView,
    pub params: Seq<Local>,
    pub body: FnBodyView<I>,
    pub ret: ContId,
}

impl<I> View for FnDef<I> {
    type V = FnDefView<I>;

    open spec fn view(&self) -> FnDefView<I> {
        FnDefView { ty: self.ty@, params: self.params@, body: self.body@, ret: self.ret }
    }
}

/// The functions of a program, each under its identifier.
pub struct Program<I> {
    functions: Vec<(FnId, FnDef<I>)>,
}

/// The functions of a list, each by what it denotes.
pub open spec fn fns_view<I>(fns: Seq<(FnId, FnDef<I>)>) -> Seq<(FnId, FnDefView<I>)> {
    Seq::new(fns.len(), |i: int| (fns[i].0, fns[i].1@))
}

/// The position at which `fns` holds `fn_id`, or its length if it does not.
pub open spec fn fn_position<I>(fns: Seq<(FnId, FnDefView<I>)>, fn_id: FnId, from: int) -> int
    decreases fns.len() - from,
{
    if from < 0 || from >= fns.len() {
        fns.len() as int
    } else if fns[from].0 == fn_id {
        from
    } else {
        fn_position(fns, fn_id, from + 1)
    }
}

/// `fns` with `fn_id` defined as `def`: in place of its earlier definition, or else
/// after all the others.
pub open spec fn with_fn<I>(fns: Seq<(FnId, FnDefView<I>)>, fn_id: FnId, def: FnDefView<I>) -> Seq<
    (FnId, FnDefView<I>),
> {
    let at = fn_position(fns, fn_id, 0);
    if at < fns.len() {
        fns.update(at, (fn_id, def))
    } else {
        fns.push((fn_id, def))
    }
}

impl<I> View for Program<I> {
    type V = Seq<(FnId, FnDefView<I>)>;

    closed spec fn view(&self) -> Seq<(FnId, FnDefView<I>)> {
        fns_view(self.functions@)
    }
}

/// Whether no two of the functions have the same identifier.
pub open spec fn distinct_ids<I>(fns: Seq<(FnId, FnDefView<I>)>) -> bool {
    forall|j: int, k: int| 0 <= j < k < fns.len() ==> fns[j].0 != fns[k].0
}

/// A position that `fn_position` gives is the first one of the function from `from`
/// on.
pub proof fn lemma_fn_position<I>(fns: Seq<(FnId, FnDefView<I>)>, fn_id: FnId, from: int)
    requires
        0 <= from <= fns.len(),
    ensures
        from <= fn_position(fns, fn_id, from) <= fns.len(),
        fn_position(fns, fn_id, from) < fns.len() ==> fns[fn_position(fns, fn_id, from)].0
            == fn_id,
        forall|j: int| from <= j < fn_position(fns, fn_id, from) ==> (#[trigger] fns[j]).0 != fn_id,
    decreases fns.len() - from,
{
    if from < fns.len() && fns[from].0 != fn_id {
        lemma_fn_position(fns, fn_id, from + 1);
    }
}

/// Defining a function keeps the identifiers distinct.
pub proof fn lemma_with_fn_distinct<I>(fns: Seq<(FnId, FnDefView<I>)>, fn_id: FnId, def: FnDefView<I>)
    requires
        distinct_ids(fns),
    ensures
        distinct_ids(with_fn(fns, fn_id, def)),
{
    lemma_fn_position(fns, fn_id, 0);
}

impl<I> Program<I> {
    /// No function is defined twice.
    #[verifier::type_invariant]
    spec fn inv(&self) -> bool {
        distinct_ids(fns_view(self.functions@))
    }

    /// The program without functions.
    pub fn new() -> (program: Program<I>)
        ensures
            program@ == Seq::<(FnId, FnDefView<I>)>::empty(),
    {
        let program = Program { functions: Vec::new() };
        assert(program@ =~= Seq::<(FnId, FnDefView<I>)>::empty());
        program
    }

    /// The definitions, in the order of the program.
    pub fn functions(&self) -> (defs: Vec<&FnDef<I>>)
        ensures
            defs@.len() == self@.len(),
            forall|i: int| 0 <= i < defs@.len() ==> (#[trigger] defs@[i])@ == self@[i].1,
    {
        let mut out: Vec<&FnDef<I>> = Vec::new();
        let mut i: usize = 0;
        while i < self.functions.len()
            invariant
                i <= self.functions.len(),
                out@.len() == i,
                forall|j: int| 0 <= j < i ==> (#[trigger] out@[j])@ == self@[j].1,
            decreases self.functions.len() - i,
        {
            out.push(&self.functions[i].1);
            i += 1;
        }
        out
    }

    /// Defines `fn_id` as `def`, in place of an earlier definition of `fn_id` if there
    /// is one.
    #[verifier::loop_isolation(false)]
    pub fn add_fn(&mut self, fn_id: FnId, def: FnDef<I>)
        ensures
            final(self)@ == with_fn(old(self)@, fn_id, def@),
            distinct_ids(final(self)@),
    {
        let mut taken = Program { functions: Vec::new() };
        std::mem::swap(self, &mut taken);
        proof {
            use_type_invariant(&taken);
            lemma_with_fn_distinct(old(self)@, fn_id, def@);
            lemma_fn_position(old(self)@, fn_id, 0);
        }
        let mut fns = taken.functions;
        let ghost before = fns_view(fns@);
        let mut i: usize = 0;
        while i < fns.len()
            invariant
                i <= fns.len(),
                before == fns_view(fns@),
                fn_position(before, fn_id, 0) == fn_position(before, fn_id, i as int),
            decreases fns.len() - i,
        {
            if fns[i].0 == fn_id {
                fns[i] = (fn_id, def);
                assert(fns_view(fns@) =~= with_fn(before, fn_id, def@));
                *self = Program { functions: fns };
                return ;
            }
            i += 1;
        }
        fns.push((fn_id, def));
        assert(fns_view(fns@) =~= with_fn(before, fn_id, def@));
        *self = Program { functions: fns };
    }

    /// The identifiers with their definitions, in the order of the program.
    pub fn iter(&self) -> (pairs: Vec<(&FnId, &FnDef<I>)>)
        ensures
            pairs@.len() == self@.len(),
            forall|i: int|
                0 <= i < pairs@.len() ==> *(#[trigger] pairs@[i]).0 == self@[i].0 && pairs@[i].1@
                    == self@[i].1,
    {
        let mut out: Vec<(&FnId, &FnDef<I>)> = Vec::new();
        let mut i: usize = 0;
        while i < self.functions.len()
            invariant
                i <= self.functions.len(),
                out@.len() == i,
                forall|j: int|
                    0 <= j < i ==> *(#[trigger] out@[j]).0 == self@[j].0 && out@[j].1@ == self@[j].1,
            decreases self.functions.len() - i,
        {
            out.push((&self.functions[i].0, &self.functions[i].1));
            i += 1;
        }
        out
    }

    /// The identifiers with their definitions, in the order of the program.
    pub fn into_vec(self) -> (fns: Vec<(FnId, FnDef<I>)>)
        ensures
            fns_view(fns@) == self@,
            distinct_ids(self@),
    {
        proof {
            use_type_invariant(&self);
        }
        self.functions
    }

    /// The number of functions; no two of them have the same identifier.
    pub fn len(&self) -> (n: usize)
        ensures
            n == self@.len(),
            distinct_ids(self@),
    {
        proof {
            use_type_invariant(self);
        }
        self.functions.len()
    }
}

} // verus!
