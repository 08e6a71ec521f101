//! The context that generates identifiers, and the operations on types that draw on it.

use crate::ast::pred::{Place, PlaceView, Pred, PredView, Var};
use crate::ast::{fields_view, lemma_tuple_view, ContTy, Heap, Refine, RefineView, Ty, TyView};
use crate::names::{ContId, Field, FnId, Local, Location, UniversalRegion};
use vstd::pervasive::unreached;
use vstd::prelude::*;

verus! {

/// How many identifiers of each family a context has handed out.
pub struct Counters {
    pub local: nat,
    pub location: nat,
    pub field: nat,
    pub cont: nat,
    pub func: nat,
    pub region: nat,
    pub kvar: nat,
}

/// The generation context: one counter for each family of identifiers. Every
/// identifier it hands out is the family's counter, which then goes up by one, so no
/// two identifiers of a family that one context made are equal.
pub struct TyCtxt {
    local: usize,
    location: usize,
    field: usize,
    cont: usize,
    func: usize,
    region: usize,
    kvar: usize,
}

impl View for TyCtxt {
    type V = Counters;

    closed spec fn view(&self) -> Counters {
        Counters {
            local: self.local as nat,
            location: self.location as nat,
            field: self.field as nat,
            cont: self.cont as nat,
            func: self.func as nat,
            region: self.region as nat,
            kvar: self.kvar as nat,
        }
    }
}

impl Counters {
    /// The counters of a context that has handed out nothing.
    pub open spec fn zero() -> Counters {
        Counters { local: 0, location: 0, field: 0, cont: 0, func: 0, region: 0, kvar: 0 }
    }

    /// Whether no counter has gone down from `self` to `later`.
    pub open spec fn le(self, later: Counters) -> bool {
        &&& self.local <= later.local
        &&& self.location <= later.location
        &&& self.field <= later.field
        &&& self.cont <= later.cont
        &&& self.func <= later.func
        &&& self.region <= later.region
        &&& self.kvar <= later.kvar
    }
}

impl TyCtxt {
    /// A context that has handed out nothing.
    pub fn new() -> (tcx: TyCtxt)
        ensures
            tcx@ == Counters::zero(),
    {
        TyCtxt { local: 0, location: 0, field: 0, cont: 0, func: 0, region: 0, kvar: 0 }
    }

    /// A context that hands out what this one would: for work whose identifiers are
    /// thrown away.
    pub fn scratch(&self) -> (tcx: TyCtxt)
        ensures
            tcx@ == self@,
    {
        TyCtxt {
            local: self.local,
            location: self.location,
            field: self.field,
            cont: self.cont,
            func: self.func,
            region: self.region,
            kvar: self.kvar,
        }
    }

    /// Every counter counts what fits a machine word.
    pub proof fn lemma_bounded(&self)
        ensures
            self@.local <= usize::MAX,
            self@.location <= usize::MAX,
            self@.field <= usize::MAX,
            self@.cont <= usize::MAX,
            self@.func <= usize::MAX,
            self@.region <= usize::MAX,
            self@.kvar <= usize::MAX,
    {
    }

    /// Whether the context can still hand out a local.
    pub fn has_local(&self) -> (b: bool)
        ensures
            b == (self@.local < usize::MAX),
    {
        self.local < usize::MAX
    }

    /// A local that this context has not handed out before.
    pub fn fresh_local(&mut self) -> (x: Local)
        requires
            old(self)@.local < usize::MAX,
        ensures
            x.0 == old(self)@.local,
            final(self)@ == (Counters { local: old(self)@.local + 1, ..old(self)@ }),
    {
        let x = Local(self.local);
        self.local = self.local + 1;
        x
    }

    /// Whether the context can still hand out a location.
    pub fn has_location(&self) -> (b: bool)
        ensures
            b == (self@.location < usize::MAX),
    {
        self.location < usize::MAX
    }

    /// A location that this context has not handed out before.
    pub fn fresh_location(&mut self) -> (l: Location)
        requires
            old(self)@.location < usize::MAX,
        ensures
            l.0 == old(self)@.location,
            final(self)@ == (Counters { location: old(self)@.location + 1, ..old(self)@ }),
    {
        let l = Location(self.location);
        self.location = self.location + 1;
        l
    }

    /// Whether the context can still hand out a field.
    pub fn has_field(&self) -> (b: bool)
        ensures
            b == (self@.field < usize::MAX),
    {
        self.field < usize::MAX
    }

    /// A field that this context has not handed out before.
    pub fn fresh_field(&mut self) -> (f: Field)
        requires
            old(self)@.field < usize::MAX,
        ensures
            f.0 == old(self)@.field,
            final(self)@ == (Counters { field: old(self)@.field + 1, ..old(self)@ }),
    {
        let f = Field(self.field);
        self.field = self.field + 1;
        f
    }

    /// Whether the context can still hand out a continuation.
    pub fn has_cont(&self) -> (b: bool)
        ensures
            b == (self@.cont < usize::MAX),
    {
        self.cont < usize::MAX
    }

    /// A continuation that this context has not handed out before.
    pub fn fresh_cont(&mut self) -> (k: ContId)
        requires
            old(self)@.cont < usize::MAX,
        ensures
            k.0 == old(self)@.cont,
            final(self)@ == (Counters { cont: old(self)@.cont + 1, ..old(self)@ }),
    {
        let k = ContId(self.cont);
        self.cont = self.cont + 1;
        k
    }

    /// Whether the context can still hand out a function.
    pub fn has_fn(&self) -> (b: bool)
        ensures
            b == (self@.func < usize::MAX),
    {
        self.func < usize::MAX
    }

    /// A function identifier that this context has not handed out before.
    pub fn fresh_fn(&mut self) -> (f: FnId)
        requires
            old(self)@.func < usize::MAX,
        ensures
            f.0 == old(self)@.func,
            final(self)@ == (Counters { func: old(self)@.func + 1, ..old(self)@ }),
    {
        let f = FnId(self.func);
        self.func = self.func + 1;
        f
    }

    /// Whether the context can still hand out a region.
    pub fn has_region(&self) -> (b: bool)
        ensures
            b == (self@.region < usize::MAX),
    {
        self.region < usize::MAX
    }

    /// A universal region that this context has not handed out before.
    pub fn fresh_region(&mut self) -> (r: UniversalRegion)
        requires
            old(self)@.region < usize::MAX,
        ensures
            r.0 == old(self)@.region,
            final(self)@ == (Counters { region: old(self)@.region + 1, ..old(self)@ }),
    {
        let r = UniversalRegion(self.region);
        self.region = self.region + 1;
        r
    }

    /// Whether the context can still hand out a predicate variable.
    pub fn has_kvar(&self) -> (b: bool)
        ensures
            b == (self@.kvar < usize::MAX),
    {
        self.kvar < usize::MAX
    }

    /// The number of a predicate variable that this context has not handed out before.
    pub fn fresh_kvar(&mut self) -> (k: usize)
        requires
            old(self)@.kvar < usize::MAX,
        ensures
            k == old(self)@.kvar,
            final(self)@ == (Counters { kvar: old(self)@.kvar + 1, ..old(self)@ }),
    {
        let k = self.kvar;
        self.kvar = self.kvar + 1;
        k
    }
}

impl TyView {
    /// The type re-expressed as "equal to what `place` holds": every refinement in it
    /// becomes the equation of the value with the part of `place` that it refines.
    /// Pointers and uninitialised memory stay as they are.
    pub open spec fn selfify(self, place: PlaceView) -> TyView
        decreases self,
    {
        match self {
            TyView::Tuple(fields) => TyView::Tuple(
                Seq::new(
                    fields.len(),
                    |i: int|
                        if 0 <= i < fields.len() {
                            (
                                fields[i].0,
                                fields[i].1.selfify(
                                    PlaceView {
                                        base: place.base,
                                        projs: place.projs.push(i as usize),
                                    },
                                ),
                            )
                        } else {
                            arbitrary()
                        },
                ),
            ),
            TyView::Refine(bty, _) => TyView::Refine(
                bty,
                RefineView::Pred(PredView::nu_eq(place)),
            ),
            _ => self,
        }
    }

    /// Whether a refinement of the type is yet to be inferred.
    pub open spec fn has_hole(self) -> bool
        decreases self,
    {
        match self {
            TyView::Tuple(fields) => exists|i: int|
                0 <= i < fields.len() && (#[trigger] fields[i]).1.has_hole(),
            TyView::Refine(_, RefineView::Infer) => true,
            _ => false,
        }
    }

    /// The type with a predicate variable in place of refinements: of every one where
    /// `all` holds, else of those yet to be inferred. The variables are numbered from
    /// `k` on, in the order of the fields; each is applied to the value, to `vars`, and
    /// to the fields before it in the tuples around it. With the type comes the next
    /// free number.
    pub open spec fn with_kvars(self, all: bool, k: nat, vars: Seq<Var>) -> Option<(nat, TyView)>
        decreases self, 0nat,
    {
        match self {
            TyView::Tuple(fields) => match Self::fields_with_kvars(
                fields,
                all,
                k,
                vars,
                0,
                Seq::empty(),
            ) {
                Some((k, fs)) => Some((k, TyView::Tuple(fs))),
                None => None,
            },
            TyView::Refine(bty, refine) => if all || refine is Infer {
                if k < usize::MAX {
                    Some(
                        (
                            k + 1,
                            TyView::Refine(
                                bty,
                                RefineView::Pred(PredView::Kvar(k as usize, seq![Var::Nu] + vars)),
                            ),
                        ),
                    )
                } else {
                    None
                }
            } else {
                Some((k, self))
            },
            _ => Some((k, self)),
        }
    }

    /// The fields of a tuple from the `i`-th on, with predicate variables as
    /// [`with_kvars`](TyView::with_kvars) puts them, after `done`.
    pub open spec fn fields_with_kvars(
        fields: Seq<(Field, TyView)>,
        all: bool,
        k: nat,
        vars: Seq<Var>,
        i: nat,
        done: Seq<(Field, TyView)>,
    ) -> Option<(nat, Seq<(Field, TyView)>)>
        decreases fields, fields.len() - i,
    {
        if i >= fields.len() {
            Some((k, done))
        } else {
            match fields[i as int].1.with_kvars(all, k, vars) {
                Some((k, t)) => Self::fields_with_kvars(
                    fields,
                    all,
                    k,
                    vars.push(Var::Field(fields[i as int].0)),
                    i + 1,
                    done.push((fields[i as int].0, t)),
                ),
                None => None,
            }
        }
    }

    /// Predicate variables are numbered upwards.
    pub proof fn lemma_with_kvars_grows(self, all: bool, k: nat, vars: Seq<Var>)
        ensures
            self.with_kvars(all, k, vars) matches Some((next, _)) ==> k <= next,
        decreases self, 1nat,
    {
        match self {
            TyView::Tuple(fields) => {
                Self::lemma_fields_with_kvars_grow(fields, all, k, vars, 0, Seq::empty());
            },
            _ => {},
        }
    }

    /// Predicate variables are numbered upwards over the fields of a tuple.
    pub proof fn lemma_fields_with_kvars_grow(
        fields: Seq<(Field, TyView)>,
        all: bool,
        k: nat,
        vars: Seq<Var>,
        i: nat,
        done: Seq<(Field, TyView)>,
    )
        ensures
            Self::fields_with_kvars(fields, all, k, vars, i, done) matches Some((next, _)) ==> k
                <= next,
        decreases fields, fields.len() - i,
    {
        if i < fields.len() {
            fields[i as int].1.lemma_with_kvars_grows(all, k, vars);
            match fields[i as int].1.with_kvars(all, k, vars) {
                Some((k1, t)) => {
                    Self::lemma_fields_with_kvars_grow(
                        fields,
                        all,
                        k1,
                        vars.push(Var::Field(fields[i as int].0)),
                        i + 1,
                        done.push((fields[i as int].0, t)),
                    );
                },
                None => {},
            }
        }
    }

    /// Every field is at most as large as the fields up to it together, and those at
    /// most as large as all of them.
    pub proof fn lemma_size_of_fields(fields: Seq<(Field, TyView)>, i: nat, n: nat)
        requires
            i <= n <= fields.len(),
        ensures
            Self::size_of_fields(fields, i) <= Self::size_of_fields(fields, n),
            i < n ==> Self::size_of_fields(fields, i) + fields[i as int].1.size()
                <= Self::size_of_fields(fields, n),
        decreases n,
    {
        if i < n {
            Self::lemma_size_of_fields(fields, i, (n - 1) as nat);
        }
    }
}

impl Ty {
    /// The number of memory cells that a value of the type takes.
    pub fn size(&self) -> (n: usize)
        requires
            self@.size() <= usize::MAX,
        ensures
            n == self@.size(),
        decreases self,
    {
        match self {
            Ty::Tuple(fields) => {
                let ghost fs = fields_view(fields@);
                proof {
                    lemma_tuple_view(*fields);
                }
                let mut total: usize = 0;
                let mut i: usize = 0;
                while i < fields.len()
                    invariant
                        self is Tuple,
                        self->Tuple_0 == *fields,
                        fs == fields_view(fields@),
                        i <= fields.len(),
                        total == TyView::size_of_fields(fs, i as nat),
                        TyView::size_of_fields(fs, fs.len()) <= usize::MAX,
                    decreases fields.len() - i,
                {
                    proof {
                        TyView::lemma_size_of_fields(fs, i as nat, fs.len());
                    }
                    let n = fields[i].1.size();
                    total = total + n;
                    i += 1;
                }
                total
            },
            Ty::Uninit(n) => *n,
            _ => 1,
        }
    }

    /// The number of memory cells that a value of the type takes, if a machine word
    /// can hold it.
    pub fn checked_size(&self) -> (n: Option<usize>)
        ensures
            match n {
                Some(n) => n == self@.size(),
                None => self@.size() > usize::MAX,
            },
        decreases self,
    {
        match self {
            Ty::Tuple(fields) => {
                let ghost fs = fields_view(fields@);
                proof {
                    lemma_tuple_view(*fields);
                }
                let mut total: usize = 0;
                let mut i: usize = 0;
                while i < fields.len()
                    invariant
                        self is Tuple,
                        self->Tuple_0 == *fields,
                        self@ == TyView::Tuple(fs),
                        fs == fields_view(fields@),
                        i <= fields.len(),
                        total == TyView::size_of_fields(fs, i as nat),
                    decreases fields.len() - i,
                {
                    proof {
                        TyView::lemma_size_of_fields(fs, i as nat, fs.len());
                    }
                    let n = match fields[i].1.checked_size() {
                        Some(n) => n,
                        None => return None,
                    };
                    total = match total.checked_add(n) {
                        Some(total) => total,
                        None => return None,
                    };
                    i += 1;
                }
                Some(total)
            },
            Ty::Uninit(n) => Some(*n),
            _ => Some(1),
        }
    }

    /// The type with the variable `to` in place of `from` in its refinements.
    pub fn rename(&self, from: Var, to: Var) -> (r: Ty)
        ensures
            r@ == self@.rename(from, to),
        decreases self,
    {
        match self {
            Ty::Tuple(fields) => {
                let mut out: Vec<(Field, Ty)> = Vec::new();
                let mut i: usize = 0;
                while i < fields.len()
                    invariant
                        self is Tuple,
                        self->Tuple_0 == *fields,
                        i <= fields.len(),
                        out@.len() == i,
                        forall|j: int|
                            0 <= j < i ==> out@[j].0 == fields@[j].0 && out@[j].1@
                                == fields@[j].1@.rename(from, to),
                    decreases fields.len() - i,
                {
                    let f = fields[i].0;
                    let t = fields[i].1.rename(from, to);
                    out.push((f, t));
                    i += 1;
                }
                proof {
                    lemma_tuple_view(*fields);
                    lemma_tuple_view(out);
                    assert(fields_view(out@) =~= self@.rename(from, to)->Tuple_0);
                }
                Ty::Tuple(out)
            },
            Ty::Refine(bty, Refine::Pred(p)) => Ty::Refine(*bty, Refine::Pred(p.rename(from, to))),
            _ => self.clone(),
        }
    }
}

impl TyView {
    /// The type with the variable `to` in place of `from` in its refinements.
    pub open spec fn rename(self, from: Var, to: Var) -> TyView
        decreases self,
    {
        match self {
            TyView::Tuple(fields) => TyView::Tuple(
                Seq::new(
                    fields.len(),
                    |i: int|
                        if 0 <= i < fields.len() {
                            (fields[i].0, fields[i].1.rename(from, to))
                        } else {
                            arbitrary()
                        },
                ),
            ),
            TyView::Refine(bty, RefineView::Pred(p)) => TyView::Refine(
                bty,
                RefineView::Pred(p.rename(from, to)),
            ),
            _ => self,
        }
    }

    /// Renaming a variable to itself changes nothing.
    pub proof fn lemma_rename_same(self, v: Var)
        ensures
            self.rename(v, v) == self,
        decreases self,
    {
        match self {
            TyView::Tuple(fields) => {
                assert forall|i: int| 0 <= i < fields.len() implies (#[trigger] fields[i]).1.rename(
                    v,
                    v,
                ) == fields[i].1 by {
                    fields[i].1.lemma_rename_same(v);
                }
                assert(self.rename(v, v)->Tuple_0 =~= fields);
            },
            TyView::Refine(bty, RefineView::Pred(p)) => {
                p.lemma_rename_same(v);
            },
            _ => {},
        }
    }
}

/// The type re-expressed as "equal to what `place` holds".
pub fn selfified(ty: &Ty, place: Place) -> (r: Ty)
    ensures
        r@ == ty@.selfify(place@),
    decreases ty,
{
    match ty {
        Ty::Tuple(fields) => {
            let mut out: Vec<(Field, Ty)> = Vec::new();
            let mut i: usize = 0;
            while i < fields.len()
                invariant
                    ty is Tuple,
                    ty->Tuple_0 == *fields,
                    i <= fields.len(),
                    out@.len() == i,
                    forall|j: int|
                        0 <= j < i ==> out@[j].0 == fields@[j].0 && out@[j].1@
                            == fields@[j].1@.selfify(
                            PlaceView { base: place@.base, projs: place@.projs.push(j as usize) },
                        ),
                decreases fields.len() - i,
            {
                let f = fields[i].0;
                let t = selfified(&fields[i].1, place.extend_path(i));
                out.push((f, t));
                i += 1;
            }
            proof {
                lemma_tuple_view(*fields);
                lemma_tuple_view(out);
                assert(fields_view(out@) =~= ty@.selfify(place@)->Tuple_0);
            }
            Ty::Tuple(out)
        },
        Ty::Refine(bty, _) => Ty::Refine(*bty, Refine::Pred(Pred::nu_eq(place))),
        _ => ty.clone(),
    }
}

impl TyCtxt {
    /// The type re-expressed as "equal to what `place` holds".
    pub fn selfify(&self, ty: &Ty, place: Place) -> (r: Ty)
        ensures
            r@ == ty@.selfify(place@),
    {
        selfified(ty, place)
    }

    /// The type with a fresh predicate variable in place of refinements: of every one
    /// where `all` holds, else of those yet to be inferred; if the context has the
    /// predicate variables that it takes. Where it does not, some are used up all the
    /// same.
    #[verifier::loop_isolation(false)]
    pub fn try_with_kvars(&mut self, ty: &Ty, all: bool, vars_in_scope: &Vec<Var>) -> (r: Option<Ty>)
        ensures
            match r {
                Some(r) => ty@.with_kvars(all, old(self)@.kvar, vars_in_scope@) == Some(
                    (final(self)@.kvar, r@),
                ),
                None => ty@.with_kvars(all, old(self)@.kvar, vars_in_scope@) is None,
            },
            final(self)@ == (Counters { kvar: final(self)@.kvar, ..old(self)@ }),
        decreases ty,
    {
        match ty {
            Ty::Tuple(fields) => {
                let ghost fs = fields_view(fields@);
                let ghost k0 = self@.kvar;
                proof {
                    lemma_tuple_view(*fields);
                }
                let mut vars = crate::ast::pred::clone_vars(vars_in_scope);
                let mut out: Vec<(Field, Ty)> = Vec::new();
                assert(fields_view(out@) =~= Seq::empty());
                let mut i: usize = 0;
                while i < fields.len()
                    invariant
                        i <= fields.len(),
                        self@ == (Counters { kvar: self@.kvar, ..old(self)@ }),
                        TyView::fields_with_kvars(
                            fs,
                            all,
                            self@.kvar,
                            vars@,
                            i as nat,
                            fields_view(out@),
                        ) == TyView::fields_with_kvars(
                            fs,
                            all,
                            k0,
                            vars_in_scope@,
                            0,
                            Seq::empty(),
                        ),
                    decreases fields.len() - i,
                {
                    let f = fields[i].0;
                    let t = match self.try_with_kvars(&fields[i].1, all, &vars) {
                        Some(t) => t,
                        None => return None,
                    };
                    proof {
                        assert(fields_view(out@.push((f, t))) =~= fields_view(out@).push((f, t@)));
                    }
                    vars.push(Var::Field(f));
                    out.push((f, t));
                    i += 1;
                }
                proof {
                    lemma_tuple_view(out);
                }
                Some(Ty::Tuple(out))
            },
            Ty::Refine(bty, refine) => {
                let hole = match refine {
                    Refine::Infer => true,
                    Refine::Pred(_) => false,
                };
                if all || hole {
                    if !self.has_kvar() {
                        return None;
                    }
                    let k = self.fresh_kvar();
                    let mut args: Vec<Var> = Vec::new();
                    args.push(Var::Nu);
                    let mut i: usize = 0;
                    while i < vars_in_scope.len()
                        invariant
                            i <= vars_in_scope.len(),
                            args@ == seq![Var::Nu] + vars_in_scope@.take(i as int),
                        decreases vars_in_scope.len() - i,
                    {
                        args.push(vars_in_scope[i]);
                        i += 1;
                    }
                    assert(args@ =~= seq![Var::Nu] + vars_in_scope@);
                    Some(Ty::Refine(*bty, Refine::Pred(Pred::Kvar(k, args))))
                } else {
                    Some(ty.clone())
                }
            },
            _ => Some(ty.clone()),
        }
    }

    /// The type with a fresh predicate variable in place of refinements: of every one
    /// where `all` holds, else of those yet to be inferred.
    pub fn with_kvars(&mut self, ty: &Ty, all: bool, vars_in_scope: &Vec<Var>) -> (r: Ty)
        requires
            ty@.with_kvars(all, old(self)@.kvar, vars_in_scope@) is Some,
        ensures
            ty@.with_kvars(all, old(self)@.kvar, vars_in_scope@) == Some((final(self)@.kvar, r@)),
            final(self)@ == (Counters { kvar: final(self)@.kvar, ..old(self)@ }),
    {
        match self.try_with_kvars(ty, all, vars_in_scope) {
            Some(r) => r,
            None => unreached(),
        }
    }

    /// The type with a fresh predicate variable in place of every refinement.
    pub fn replace_refines_with_kvars(&mut self, ty: &Ty, vars_in_scope: &Vec<Var>) -> (r: Ty)
        requires
            ty@.with_kvars(true, old(self)@.kvar, vars_in_scope@) is Some,
        ensures
            ty@.with_kvars(true, old(self)@.kvar, vars_in_scope@) == Some((final(self)@.kvar, r@)),
            final(self)@ == (Counters { kvar: final(self)@.kvar, ..old(self)@ }),
    {
        self.with_kvars(ty, true, vars_in_scope)
    }

    /// Uninitialised memory of `size` cells.
    pub fn mk_uninit(&self, size: usize) -> (r: Ty)
        ensures
            r@ == TyView::Uninit(size),
    {
        Ty::Uninit(size)
    }
}

/// The entries of a heap from the `i`-th on, with a predicate variable in place of
/// every refinement that is yet to be inferred, after `done`. The variables are
/// numbered from `k` on; those of an entry are applied to the value, to `vars`, and to
/// the locations of the entries before it.
pub open spec fn heap_with_kvars(
    heap: Seq<(Location, TyView)>,
    k: nat,
    vars: Seq<Var>,
    i: nat,
    done: Seq<(Location, TyView)>,
) -> Option<(nat, Seq<(Location, TyView)>)>
    decreases heap.len() - i,
{
    if i >= heap.len() {
        Some((k, done))
    } else {
        match heap[i as int].1.with_kvars(false, k, vars) {
            Some((k, t)) => heap_with_kvars(
                heap,
                k,
                vars.push(Var::Location(heap[i as int].0)),
                i + 1,
                done.push((heap[i as int].0, t)),
            ),
            None => None,
        }
    }
}

/// Puts predicate variables in place of the refinements that are yet to be inferred.
pub struct TypeLowerer {
    vars_in_scope: Vec<Var>,
}

impl View for TypeLowerer {
    type V = Seq<Var>;

    closed spec fn view(&self) -> Seq<Var> {
        self.vars_in_scope@
    }
}

impl TypeLowerer {
    /// A lowerer whose predicate variables may mention `vars_in_scope`.
    pub fn new(vars_in_scope: Vec<Var>) -> (lowerer: TypeLowerer)
        ensures
            lowerer@ == vars_in_scope@,
    {
        TypeLowerer { vars_in_scope }
    }

    /// The type with a fresh predicate variable in place of every refinement that is
    /// yet to be inferred, if `tcx` has the predicate variables that it takes.
    pub fn try_lower_ty(&self, tcx: &mut TyCtxt, ty: &Ty) -> (r: Option<Ty>)
        ensures
            match r {
                Some(r) => ty@.with_kvars(false, old(tcx)@.kvar, self@) == Some(
                    (final(tcx)@.kvar, r@),
                ),
                None => ty@.with_kvars(false, old(tcx)@.kvar, self@) is None,
            },
            final(tcx)@ == (Counters { kvar: final(tcx)@.kvar, ..old(tcx)@ }),
    {
        tcx.try_with_kvars(ty, false, &self.vars_in_scope)
    }

    /// The type with a fresh predicate variable in place of every refinement that is
    /// yet to be inferred.
    pub fn lower_ty(&self, tcx: &mut TyCtxt, ty: &Ty) -> (r: Ty)
        requires
            ty@.with_kvars(false, old(tcx)@.kvar, self@) is Some,
        ensures
            ty@.with_kvars(false, old(tcx)@.kvar, self@) == Some((final(tcx)@.kvar, r@)),
            final(tcx)@ == (Counters { kvar: final(tcx)@.kvar, ..old(tcx)@ }),
    {
        tcx.with_kvars(ty, false, &self.vars_in_scope)
    }

    /// The heap with a fresh predicate variable in place of every refinement that is
    /// yet to be inferred, if `tcx` has the predicate variables that it takes.
    #[verifier::loop_isolation(false)]
    pub fn try_lower_heap(&self, tcx: &mut TyCtxt, heap: &Heap) -> (r: Option<Heap>)
        ensures
            match r {
                Some(r) => heap_with_kvars(heap@, old(tcx)@.kvar, self@, 0, Seq::empty()) == Some(
                    (final(tcx)@.kvar, r@),
                ),
                None => heap_with_kvars(heap@, old(tcx)@.kvar, self@, 0, Seq::empty()) is None,
            },
            final(tcx)@ == (Counters { kvar: final(tcx)@.kvar, ..old(tcx)@ }),
    {
        let ghost k0 = tcx@.kvar;
        let mut vars = crate::ast::pred::clone_vars(&self.vars_in_scope);
        let mut out = Heap::new();
        let mut i: usize = 0;
        while i < heap.0.len()
            invariant
                i <= heap.0.len(),
                heap@.len() == heap.0.len(),
                tcx@ == (Counters { kvar: tcx@.kvar, ..old(tcx)@ }),
                heap_with_kvars(heap@, tcx@.kvar, vars@, i as nat, out@) == heap_with_kvars(
                    heap@,
                    k0,
                    self@,
                    0,
                    Seq::empty(),
                ),
            decreases heap.0.len() - i,
        {
            let l = heap.0[i].0;
            let t = match tcx.try_with_kvars(&heap.0[i].1, false, &vars) {
                Some(t) => t,
                None => return None,
            };
            vars.push(Var::Location(l));
            out.insert(l, t);
            i += 1;
        }
        Some(out)
    }

    /// The heap with a fresh predicate variable in place of every refinement that is
    /// yet to be inferred.
    pub fn lower_heap(&self, tcx: &mut TyCtxt, heap: &Heap) -> (r: Heap)
        requires
            heap_with_kvars(heap@, old(tcx)@.kvar, self@, 0, Seq::empty()) is Some,
        ensures
            heap_with_kvars(heap@, old(tcx)@.kvar, self@, 0, Seq::empty()) == Some(
                (final(tcx)@.kvar, r@),
            ),
            final(tcx)@ == (Counters { kvar: final(tcx)@.kvar, ..old(tcx)@ }),
    {
        match self.try_lower_heap(tcx, heap) {
            Some(r) => r,
            None => unreached(),
        }
    }

    /// The signature with a fresh predicate variable in place of every refinement of
    /// its heap that is yet to be inferred, if `tcx` has the predicate variables that
    /// it takes.
    pub fn try_lower_cont_ty(&self, tcx: &mut TyCtxt, cont_ty: &ContTy) -> (r: Option<ContTy>)
        ensures
            match r {
                Some(r) => heap_with_kvars(cont_ty@.heap, old(tcx)@.kvar, self@, 0, Seq::empty())
                    == Some((final(tcx)@.kvar, r@.heap)) && r@.locals == cont_ty@.locals
                    && r@.inputs == cont_ty@.inputs,
                None => heap_with_kvars(cont_ty@.heap, old(tcx)@.kvar, self@, 0, Seq::empty())
                    is None,
            },
            final(tcx)@ == (Counters { kvar: final(tcx)@.kvar, ..old(tcx)@ }),
    {
        let heap = match self.try_lower_heap(tcx, &cont_ty.heap) {
            Some(heap) => heap,
            None => return None,
        };
        let mut locals: Vec<(Local, Location)> = Vec::new();
        let mut i: usize = 0;
        while i < cont_ty.locals.len()
            invariant
                i <= cont_ty.locals.len(),
                locals@ == cont_ty.locals@.take(i as int),
            decreases cont_ty.locals.len() - i,
        {
            locals.push(cont_ty.locals[i]);
            i += 1;
        }
        assert(cont_ty.locals@.take(cont_ty.locals@.len() as int) =~= cont_ty.locals@);
        let mut inputs: Vec<Location> = Vec::new();
        let mut j: usize = 0;
        while j < cont_ty.inputs.len()
            invariant
                j <= cont_ty.inputs.len(),
                inputs@ == cont_ty.inputs@.take(j as int),
            decreases cont_ty.inputs.len() - j,
        {
            inputs.push(cont_ty.inputs[j]);
            j += 1;
        }
        assert(cont_ty.inputs@.take(cont_ty.inputs@.len() as int) =~= cont_ty.inputs@);
        Some(ContTy { heap, locals, inputs })
    }

    /// The signature with a fresh predicate variable in place of every refinement of
    /// its heap that is yet to be inferred.
    pub fn lower_cont_ty(&self, tcx: &mut TyCtxt, cont_ty: &ContTy) -> (r: ContTy)
        requires
            heap_with_kvars(cont_ty@.heap, old(tcx)@.kvar, self@, 0, Seq::empty()) is Some,
        ensures
            heap_with_kvars(cont_ty@.heap, old(tcx)@.kvar, self@, 0, Seq::empty()) == Some(
                (final(tcx)@.kvar, r@.heap),
            ),
            r@.locals == cont_ty@.locals,
            r@.inputs == cont_ty@.inputs,
            final(tcx)@ == (Counters { kvar: final(tcx)@.kvar, ..old(tcx)@ }),
    {
        match self.try_lower_cont_ty(tcx, cont_ty) {
            Some(r) => r,
            None => unreached(),
        }
    }
}

impl TyView {
    /// Lowering a type without holes changes nothing and uses up no predicate
    /// variable.
    pub proof fn lemma_lower_without_holes(self, k: nat, vars: Seq<Var>)
        requires
            !self.has_hole(),
        ensures
            self.with_kvars(false, k, vars) == Some((k, self)),
        decreases self, 1nat,
    {
        match self {
            TyView::Tuple(fields) => {
                Self::lemma_lower_fields_without_holes(fields, k, vars, 0, Seq::empty());
                assert(fields.take(0) + fields.skip(0) =~= fields);
            },
            _ => {},
        }
    }

    /// Lowering the fields of a tuple that have no holes adds them as they are.
    pub proof fn lemma_lower_fields_without_holes(
        fields: Seq<(Field, TyView)>,
        k: nat,
        vars: Seq<Var>,
        i: nat,
        done: Seq<(Field, TyView)>,
    )
        requires
            i <= fields.len(),
            forall|j: int| i <= j < fields.len() ==> !(#[trigger] fields[j]).1.has_hole(),
        ensures
            Self::fields_with_kvars(fields, false, k, vars, i, done) == Some(
                (k, done + fields.skip(i as int)),
            ),
        decreases fields, fields.len() - i,
    {
        if i >= fields.len() {
            assert(done + fields.skip(i as int) =~= done);
        } else {
            fields[i as int].1.lemma_lower_without_holes(k, vars);
            Self::lemma_lower_fields_without_holes(
                fields,
                k,
                vars.push(Var::Field(fields[i as int].0)),
                i + 1,
                done.push(fields[i as int]),
            );
            assert(done.push(fields[i as int]) + fields.skip(i as int + 1) =~= done + fields.skip(
                i as int,
            ));
        }
    }

    /// A lowered type has no holes.
    pub proof fn lemma_lowered_has_no_hole(self, k: nat, vars: Seq<Var>)
        requires
            self.with_kvars(false, k, vars) is Some,
        ensures
            !self.with_kvars(false, k, vars).unwrap().1.has_hole(),
        decreases self, 1nat,
    {
        match self {
            TyView::Tuple(fields) => {
                Self::lemma_lowered_fields_have_no_hole(fields, k, vars, 0, Seq::empty());
            },
            _ => {},
        }
    }

    /// The lowered fields of a tuple have no holes.
    pub proof fn lemma_lowered_fields_have_no_hole(
        fields: Seq<(Field, TyView)>,
        k: nat,
        vars: Seq<Var>,
        i: nat,
        done: Seq<(Field, TyView)>,
    )
        requires
            Self::fields_with_kvars(fields, false, k, vars, i, done) is Some,
            forall|j: int| 0 <= j < done.len() ==> !(#[trigger] done[j]).1.has_hole(),
        ensures
            forall|j: int|
                0 <= j < Self::fields_with_kvars(fields, false, k, vars, i, done).unwrap().1.len()
                    ==> !(#[trigger] Self::fields_with_kvars(
                    fields,
                    false,
                    k,
                    vars,
                    i,
                    done,
                ).unwrap().1[j]).1.has_hole(),
        decreases fields, fields.len() - i,
    {
        if i < fields.len() {
            fields[i as int].1.lemma_lowered_has_no_hole(k, vars);
            let (k1, t) = fields[i as int].1.with_kvars(false, k, vars).unwrap();
            Self::lemma_lowered_fields_have_no_hole(
                fields,
                k1,
                vars.push(Var::Field(fields[i as int].0)),
                i + 1,
                done.push((fields[i as int].0, t)),
            );
        }
    }

    /// Lowering is idempotent: lowering a lowered type changes nothing and uses up no
    /// predicate variable, whatever variables are in scope the second time.
    pub proof fn lemma_lower_idempotent(self, k: nat, vars: Seq<Var>, again: Seq<Var>)
        requires
            self.with_kvars(false, k, vars) is Some,
        ensures
            ({
                let (k1, t) = self.with_kvars(false, k, vars).unwrap();
                t.with_kvars(false, k1, again) == Some((k1, t))
            }),
    {
        self.lemma_lowered_has_no_hole(k, vars);
        let (k1, t) = self.with_kvars(false, k, vars).unwrap();
        t.lemma_lower_without_holes(k1, again);
    }
}

} // verus!
