//! The subtyping judgment: what must hold for a value of one type to pass for a value
//! of another.

use crate::ast::pred::Var;
use crate::ast::{
    fields_view, heap_index_in, lemma_tuple_view, BorrowKind, Heap, PlaceView, Refine, RefineView,
    Region, RegionView, Ty, TyView,
};
use crate::constraint::{bind, lemma_conj_valid, Constraint, ConstraintView, Solution, Valuation};
use crate::names::{Field, Location};
use vstd::pervasive::unreached;
use vstd::prelude::*;

verus! {

/// Whether every place that `r1` may alias is one that `r2` may alias. Two universal
/// regions are compared by name; a region yet to be inferred is in no such relation.
pub open spec fn region_subset(r1: RegionView, r2: RegionView) -> bool {
    match (r1, r2) {
        (RegionView::Concrete(pa), RegionView::Concrete(pb)) => places_subset(pa, pb),
        (RegionView::Universal(u1), RegionView::Universal(u2)) => u1 == u2,
        _ => false,
    }
}

/// Whether every place of `pa` is among `pb`.
pub open spec fn places_subset(pa: Seq<PlaceView>, pb: Seq<PlaceView>) -> bool {
    forall|i: int| 0 <= i < pa.len() ==> pb.contains(#[trigger] pa[i])
}

/// `c` under the assumption that the field `f` holds a value of type `t`: where `t` is
/// a refined base type, `f` is bound to any value that meets the refinement.
pub open spec fn bind_field(f: Field, t: TyView, c: ConstraintView) -> ConstraintView {
    match t {
        TyView::Refine(bty, RefineView::Pred(p)) => ConstraintView::Forall {
            bind: Var::Field(f),
            ty: bty,
            hyp: p.rename(Var::Nu, Var::Field(f)),
            body: Box::new(c),
        },
        _ => c,
    }
}

/// `fields` with the variable `to` in place of `from` in the fields after the `i`-th.
pub open spec fn rename_later(fields: Seq<(Field, TyView)>, i: nat, from: Var, to: Var) -> Seq<
    (Field, TyView),
> {
    Seq::new(
        fields.len(),
        |j: int|
            if j > i {
                (fields[j].0, fields[j].1.rename(from, to))
            } else {
                fields[j]
            },
    )
}

/// The obligation under which a value of type `a` passes for one of type `b`, where
/// the pointers of `a` point into the first `na` entries of `ha`, and those of `b` into
/// the first `nb` of `hb`. There is none where the two types differ in kind, in base
/// type, in the number of their fields or in the size of uninitialised memory, where a
/// refinement is yet to be inferred, where a pointer does not resolve, or where the
/// region of `a` is not within that of `b`.
///
/// - Two refined base types: for every value, the refinement of `a` implies that of `b`.
/// - Two tuples: field by field from the left; the obligations of the later fields
///   stand under the binding of the earlier ones, which have the names that `a` gives
///   them.
/// - Two owned pointers, or two shared borrows: the pointees, in the same direction.
/// - Two mutable borrows: the pointees, in both directions.
pub open spec fn subtype(
    ha: Seq<(Location, TyView)>,
    na: nat,
    a: TyView,
    hb: Seq<(Location, TyView)>,
    nb: nat,
    b: TyView,
) -> Option<ConstraintView>
    decreases na + nb, a, 0nat,
{
    match (a, b) {
        (TyView::Refine(b1, RefineView::Pred(pa)), TyView::Refine(b2, RefineView::Pred(pb))) => {
            if b1 == b2 {
                Some(
                    ConstraintView::Forall {
                        bind: Var::Nu,
                        ty: b1,
                        hyp: pa,
                        body: Box::new(ConstraintView::Pred(pb)),
                    },
                )
            } else {
                None
            }
        },
        (TyView::Tuple(fa), TyView::Tuple(fb)) => {
            if fa.len() == fb.len() {
                subtype_fields(ha, na, fa, hb, nb, fb, 0)
            } else {
                None
            }
        },
        (TyView::OwnRef(l1), TyView::OwnRef(l2)) => match pointees(ha, na, l1, hb, nb, l2) {
            Some((i1, i2)) => subtype(ha, i1, ha[i1 as int].1, hb, i2, hb[i2 as int].1),
            None => None,
        },
        (TyView::Ref(k1, r1, l1), TyView::Ref(k2, r2, l2)) => {
            if k1 == k2 && region_subset(r1, r2) {
                match pointees(ha, na, l1, hb, nb, l2) {
                    Some((i1, i2)) => match k1 {
                        BorrowKind::Shared => subtype(
                            ha,
                            i1,
                            ha[i1 as int].1,
                            hb,
                            i2,
                            hb[i2 as int].1,
                        ),
                        BorrowKind::Mut => match (
                            subtype(ha, i1, ha[i1 as int].1, hb, i2, hb[i2 as int].1),
                            subtype(hb, i2, hb[i2 as int].1, ha, i1, ha[i1 as int].1),
                        ) {
                            (Some(c1), Some(c2)) => Some(ConstraintView::Conj(seq![c1, c2])),
                            _ => None,
                        },
                    },
                    None => None,
                }
            } else {
                None
            }
        },
        (TyView::Uninit(n), TyView::Uninit(m)) => {
            if n == m {
                Some(ConstraintView::tt())
            } else {
                None
            }
        },
        _ => None,
    }
}

/// Where the first `na` entries of `ha` bind `l1` and the first `nb` of `hb` bind `l2`,
/// if both do. What an entry holds points into the entries before it.
pub open spec fn pointees(
    ha: Seq<(Location, TyView)>,
    na: nat,
    l1: Location,
    hb: Seq<(Location, TyView)>,
    nb: nat,
    l2: Location,
) -> Option<(nat, nat)> {
    match (heap_index_in(ha, na, l1), heap_index_in(hb, nb, l2)) {
        (Some(i1), Some(i2)) => {
            if 0 <= i1 < na && 0 <= i2 < nb {
                Some((i1 as nat, i2 as nat))
            } else {
                None
            }
        },
        _ => None,
    }
}

/// The obligation for the fields of two tuples of one length, from the `i`-th on.
pub open spec fn subtype_fields(
    ha: Seq<(Location, TyView)>,
    na: nat,
    fa: Seq<(Field, TyView)>,
    hb: Seq<(Location, TyView)>,
    nb: nat,
    fb: Seq<(Field, TyView)>,
    i: nat,
) -> Option<ConstraintView>
    decreases na + nb, fa, fa.len() - i,
{
    if i >= fa.len() || fa.len() != fb.len() {
        Some(ConstraintView::tt())
    } else {
        match subtype(ha, na, fa[i as int].1, hb, nb, fb[i as int].1) {
            Some(c) => match subtype_fields(
                ha,
                na,
                fa,
                hb,
                nb,
                rename_later(fb, i, Var::Field(fb[i as int].0), Var::Field(fa[i as int].0)),
                i + 1,
            ) {
                Some(rest) => Some(
                    ConstraintView::Conj(seq![c, bind_field(fa[i as int].0, fa[i as int].1, rest)]),
                ),
                None => None,
            },
            None => None,
        }
    }
}

/// Renaming a variable to itself in the later fields changes nothing.
pub proof fn lemma_rename_later_same(fields: Seq<(Field, TyView)>, i: nat, v: Var)
    ensures
        rename_later(fields, i, v, v) == fields,
{
    assert forall|j: int| 0 <= j < fields.len() implies rename_later(fields, i, v, v)[j]
        == fields[j] by {
        fields[j].1.lemma_rename_same(v);
    }
    assert(rename_later(fields, i, v, v) =~= fields);
}

/// Binding a field keeps a valid obligation valid.
pub proof fn lemma_bind_field_valid(f: Field, t: TyView, c: ConstraintView, sigma: Solution)
    requires
        c.valid(sigma),
    ensures
        bind_field(f, t, c).valid(sigma),
{
    let b = bind_field(f, t, c);
    assert forall|rho: Valuation| #[trigger] b.holds(rho, sigma) by {
        match t {
            TyView::Refine(bty, RefineView::Pred(p)) => {
                assert forall|value: crate::constraint::Value|
                    #![trigger bind(rho, Var::Field(f), value)]
                    c.holds(bind(rho, Var::Field(f), value), sigma) by {
                    assert(c.valid(sigma));
                }
            },
            _ => {},
        }
    }
}

/// Subtyping is reflexive: the obligation under which a type passes for itself is met
/// whatever its variables and its predicate variables stand for.
pub proof fn lemma_subtype_reflexive(heap: Seq<(Location, TyView)>, n: nat, t: TyView)
    requires
        subtype(heap, n, t, heap, n, t) is Some,
    ensures
        subtype(heap, n, t, heap, n, t).unwrap().tautology(),
    decreases n, t, 0nat,
{
    let c = subtype(heap, n, t, heap, n, t).unwrap();
    assert forall|sigma: Solution| #[trigger] c.valid(sigma) by {
        match t {
            TyView::Refine(bty, RefineView::Pred(p)) => {
                reveal_with_fuel(ConstraintView::holds, 2);
                assert forall|rho: Valuation| #[trigger] c.holds(rho, sigma) by {}
            },
            TyView::Tuple(fields) => {
                lemma_subtype_fields_reflexive(heap, n, fields, 0);
                assert(c == subtype_fields(heap, n, fields, heap, n, fields, 0).unwrap());
                assert(c.tautology());
            },
            TyView::OwnRef(l) => {
                let i = pointees(heap, n, l, heap, n, l).unwrap().0;
                lemma_subtype_reflexive(heap, i, heap[i as int].1);
                assert(c.tautology());
            },
            TyView::Ref(kind, r, l) => {
                let i = pointees(heap, n, l, heap, n, l).unwrap().0;
                lemma_subtype_reflexive(heap, i, heap[i as int].1);
                let p = subtype(heap, i, heap[i as int].1, heap, i, heap[i as int].1).unwrap();
                assert(p.tautology());
                assert(p.valid(sigma));
                if kind == BorrowKind::Mut {
                    lemma_conj_valid(seq![p, p], sigma);
                }
            },
            TyView::Uninit(m) => {
                lemma_conj_valid(Seq::empty(), sigma);
            },
            _ => {},
        }
    }
}

/// The obligation under which the fields of a tuple pass for themselves is met
/// whatever its variables and its predicate variables stand for.
pub proof fn lemma_subtype_fields_reflexive(
    heap: Seq<(Location, TyView)>,
    n: nat,
    fields: Seq<(Field, TyView)>,
    i: nat,
)
    requires
        subtype_fields(heap, n, fields, heap, n, fields, i) is Some,
    ensures
        subtype_fields(heap, n, fields, heap, n, fields, i).unwrap().tautology(),
    decreases n, fields, fields.len() - i,
{
    let c = subtype_fields(heap, n, fields, heap, n, fields, i).unwrap();
    if i >= fields.len() {
        assert forall|sigma: Solution| #[trigger] c.valid(sigma) by {
            lemma_conj_valid(Seq::empty(), sigma);
        }
    } else {
        let f = fields[i as int].0;
        let t = fields[i as int].1;
        lemma_rename_later_same(fields, i, Var::Field(f));
        lemma_subtype_reflexive(heap, n, t);
        lemma_subtype_fields_reflexive(heap, n, fields, i + 1);
        let head = subtype(heap, n, t, heap, n, t).unwrap();
        let rest = subtype_fields(heap, n, fields, heap, n, fields, i + 1).unwrap();
        assert forall|sigma: Solution| #[trigger] c.valid(sigma) by {
            assert(head.valid(sigma));
            assert(rest.valid(sigma));
            lemma_bind_field_valid(f, t, rest, sigma);
            lemma_conj_valid(seq![head, bind_field(f, t, rest)], sigma);
        }
    }
}

/// Whether every place that `r1` may alias is one that `r2` may alias.
pub fn region_is_subset(r1: &Region, r2: &Region) -> (b: bool)
    ensures
        b == region_subset(r1@, r2@),
{
    match (r1, r2) {
        (Region::Concrete(pa), Region::Concrete(pb)) => {
            let ghost v1 = crate::ast::places_view(pa@);
            let ghost v2 = crate::ast::places_view(pb@);
            let mut i: usize = 0;
            while i < pa.len()
                invariant
                    i <= pa.len(),
                    v1 == crate::ast::places_view(pa@),
                    v2 == crate::ast::places_view(pb@),
                    r1@ == RegionView::Concrete(v1),
                    r2@ == RegionView::Concrete(v2),
                    forall|k: int| 0 <= k < i ==> v2.contains(#[trigger] v1[k]),
                decreases pa.len() - i,
            {
                let mut found = false;
                let mut j: usize = 0;
                while j < pb.len() && !found
                    invariant
                        j <= pb.len(),
                        i < pa.len(),
                        v1 == crate::ast::places_view(pa@),
                        v2 == crate::ast::places_view(pb@),
                        found ==> v2.contains(v1[i as int]),
                        !found ==> forall|k: int| 0 <= k < j ==> v2[k] != v1[i as int],
                    decreases pb.len() - j,
                {
                    if pa[i].same(&pb[j]) {
                        assert(v2[j as int] == v1[i as int]);
                        found = true;
                    }
                    j += 1;
                }
                if !found {
                    assert(!v2.contains(v1[i as int]));
                    proof {
                        assert(0 <= i < v1.len());
                        if places_subset(v1, v2) {
                            assert(v2.contains(v1[i as int]));
                        }
                    }
                    return false;
                }
                i += 1;
            }
            true
        },
        (Region::Universal(u1), Region::Universal(u2)) => *u1 == *u2,
        _ => false,
    }
}

/// `c` under the assumption that the field `f` holds a value of type `t`.
fn bind_field_in(f: Field, t: &Ty, c: Constraint) -> (r: Constraint)
    ensures
        r@ == bind_field(f, t@, c@),
{
    match t {
        Ty::Refine(bty, Refine::Pred(p)) => Constraint::Forall {
            bind: Var::Field(f),
            ty: *bty,
            hyp: p.rename(Var::Nu, Var::Field(f)),
            body: Box::new(c),
        },
        Ty::Refine(bty, Refine::Infer) => c,
        Ty::OwnRef(_) => c,
        Ty::Ref(_, _, _) => c,
        Ty::Tuple(_) => c,
        Ty::Uninit(_) => c,
    }
}

/// `fields` with the variable `to` in place of `from` in the fields after the `i`-th.
fn rename_later_in(fields: &Vec<(Field, Ty)>, i: usize, from: Var, to: Var) -> (r: Vec<
    (Field, Ty),
>)
    ensures
        fields_view(r@) == rename_later(fields_view(fields@), i as nat, from, to),
{
    let mut out: Vec<(Field, Ty)> = Vec::new();
    let mut j: usize = 0;
    while j < fields.len()
        invariant
            j <= fields.len(),
            out@.len() == j,
            forall|k: int|
                0 <= k < j ==> (#[trigger] out@[k]).0 == fields@[k].0 && out@[k].1@ == (if k > i {
                    fields@[k].1@.rename(from, to)
                } else {
                    fields@[k].1@
                }),
        decreases fields.len() - j,
    {
        let t = if j > i {
            fields[j].1.rename(from, to)
        } else {
            fields[j].1.clone()
        };
        out.push((fields[j].0, t));
        j += 1;
    }
    assert(fields_view(out@) =~= rename_later(fields_view(fields@), i as nat, from, to));
    out
}

/// The obligation under which a value of type `ty_a` passes for one of type `ty_b`,
/// if there is one, where the pointers of `ty_a` point into the first `na` entries of
/// `heap_a`, and those of `ty_b` into the first `nb` of `heap_b`.
pub fn subtyping_within(
    heap_a: &Heap,
    na: usize,
    ty_a: &Ty,
    heap_b: &Heap,
    nb: usize,
    ty_b: &Ty,
) -> (r: Option<Constraint>)
    requires
        na <= heap_a@.len(),
        nb <= heap_b@.len(),
    ensures
        match r {
            Some(c) => subtype(heap_a@, na as nat, ty_a@, heap_b@, nb as nat, ty_b@) == Some(c@),
            None => subtype(heap_a@, na as nat, ty_a@, heap_b@, nb as nat, ty_b@) is None,
        },
    decreases na + nb, ty_a, 0nat,
{
    match (ty_a, ty_b) {
        (Ty::Refine(b1, Refine::Pred(pa)), Ty::Refine(b2, Refine::Pred(pb))) => {
            if *b1 == *b2 {
                let body = Constraint::Pred(pb.clone());
                assert(body@ == ConstraintView::Pred(pb@));
                Some(
                    Constraint::Forall {
                        bind: Var::Nu,
                        ty: *b1,
                        hyp: pa.clone(),
                        body: Box::new(body),
                    },
                )
            } else {
                None
            }
        },
        (Ty::Tuple(fa), Ty::Tuple(fb)) => {
            proof {
                lemma_tuple_view(*fa);
                lemma_tuple_view(*fb);
            }
            if fa.len() == fb.len() {
                let copy = rename_later_in(fb, fb.len(), Var::Nu, Var::Nu);
                assert(fields_view(copy@) =~= fields_view(fb@));
                assert(fields_view(copy@).len() == copy@.len());
                subtyping_fields(heap_a, na, fa, heap_b, nb, copy, 0)
            } else {
                None
            }
        },
        (Ty::OwnRef(l1), Ty::OwnRef(l2)) => {
            match (heap_a.index_before(na, *l1), heap_b.index_before(nb, *l2)) {
                (Some(i1), Some(i2)) => subtyping_within(
                    heap_a,
                    i1,
                    heap_a.ty_at(i1),
                    heap_b,
                    i2,
                    heap_b.ty_at(i2),
                ),
                _ => None,
            }
        },
        (Ty::Ref(k1, r1, l1), Ty::Ref(k2, r2, l2)) => {
            if *k1 == *k2 && region_is_subset(r1, r2) {
                match (heap_a.index_before(na, *l1), heap_b.index_before(nb, *l2)) {
                    (Some(i1), Some(i2)) => {
                        let c1 = subtyping_within(
                            heap_a,
                            i1,
                            heap_a.ty_at(i1),
                            heap_b,
                            i2,
                            heap_b.ty_at(i2),
                        );
                        match k1 {
                            BorrowKind::Shared => c1,
                            BorrowKind::Mut => {
                                let c2 = subtyping_within(
                                    heap_b,
                                    i2,
                                    heap_b.ty_at(i2),
                                    heap_a,
                                    i1,
                                    heap_a.ty_at(i1),
                                );
                                match (c1, c2) {
                                    (Some(c1), Some(c2)) => Some(Constraint::and(c1, c2)),
                                    _ => None,
                                }
                            },
                        }
                    },
                    _ => None,
                }
            } else {
                None
            }
        },
        (Ty::Uninit(n), Ty::Uninit(m)) => {
            if *n == *m {
                Some(Constraint::tt())
            } else {
                None
            }
        },
        _ => None,
    }
}

/// The obligation for the fields of two tuples of one length, from the `i`-th on.
fn subtyping_fields(
    heap_a: &Heap,
    na: usize,
    fa: &Vec<(Field, Ty)>,
    heap_b: &Heap,
    nb: usize,
    fb: Vec<(Field, Ty)>,
    i: usize,
) -> (r: Option<Constraint>)
    requires
        na <= heap_a@.len(),
        nb <= heap_b@.len(),
        fa@.len() == fb@.len(),
    ensures
        match r {
            Some(c) => subtype_fields(
                heap_a@,
                na as nat,
                fields_view(fa@),
                heap_b@,
                nb as nat,
                fields_view(fb@),
                i as nat,
            ) == Some(c@),
            None => subtype_fields(
                heap_a@,
                na as nat,
                fields_view(fa@),
                heap_b@,
                nb as nat,
                fields_view(fb@),
                i as nat,
            ) is None,
        },
    decreases na + nb, fa, fa.len() - i,
{
    if i >= fa.len() {
        Some(Constraint::tt())
    } else {
        match subtyping_within(heap_a, na, &fa[i].1, heap_b, nb, &fb[i].1) {
            Some(c) => {
                let later = rename_later_in(&fb, i, Var::Field(fb[i].0), Var::Field(fa[i].0));
                assert(fields_view(later@).len() == later@.len());
                match subtyping_fields(heap_a, na, fa, heap_b, nb, later, i + 1) {
                    Some(rest) => Some(Constraint::and(c, bind_field_in(fa[i].0, &fa[i].1, rest))),
                    None => None,
                }
            },
            None => None,
        }
    }
}

/// The obligation under which a value of type `ty_a` in `heap_a` passes for one of
/// type `ty_b` in `heap_b`, if the two types are of one shape.
pub fn try_subtyping(heap_a: &Heap, ty_a: &Ty, heap_b: &Heap, ty_b: &Ty) -> (r: Option<Constraint>)
    ensures
        match r {
            Some(c) => subtype(heap_a@, heap_a@.len(), ty_a@, heap_b@, heap_b@.len(), ty_b@)
                == Some(c@),
            None => subtype(heap_a@, heap_a@.len(), ty_a@, heap_b@, heap_b@.len(), ty_b@) is None,
        },
{
    subtyping_within(heap_a, heap_a.len(), ty_a, heap_b, heap_b.len(), ty_b)
}

/// The obligation under which a value of type `ty_a` in `heap_a` passes for one of
/// type `ty_b` in `heap_b`. The two types are of one shape.
pub fn subtyping(heap_a: &Heap, ty_a: &Ty, heap_b: &Heap, ty_b: &Ty) -> (c: Constraint)
    requires
        subtype(heap_a@, heap_a@.len(), ty_a@, heap_b@, heap_b@.len(), ty_b@) is Some,
    ensures
        subtype(heap_a@, heap_a@.len(), ty_a@, heap_b@, heap_b@.len(), ty_b@) == Some(c@),
{
    match try_subtyping(heap_a, ty_a, heap_b, ty_b) {
        Some(c) => c,
        None => unreached(),
    }
}

} // verus!
