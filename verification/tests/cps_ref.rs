use liquid_rust::cps_ref::{
    BasicType, BinOp, BorrowKind, Constant, Field, Local, Location, OwnRef, Path, Place, PredS,
    Projection, Region, TyS, UnOp, Var,
};
use liquid_rust::names::{Interner, Symbol};

fn place(x: u32, projection: Vec<Projection>) -> Place {
    Place::new(Local(Symbol(x)), projection)
}

fn int_ty() -> Box<TyS> {
    Box::new(TyS::Refine { ty: BasicType::Int, pred: Box::new(PredS::Constant(Constant::Bool(true))) })
}

#[test]
fn cps_ref_places() {
    let p = place(1, vec![Projection::Field(0)]);
    let q = p.extend(&vec![Projection::Deref, Projection::Field(2)]);
    assert_eq!(q, place(1, vec![Projection::Field(0), Projection::Deref, Projection::Field(2)]));
    assert!(p.overlaps(&q) && q.overlaps(&p));
    assert!(!p.overlaps(&place(1, vec![Projection::Field(1)])));
    assert!(!p.overlaps(&place(2, vec![Projection::Field(0)])));
    assert!(place(1, vec![]).overlaps(&q));
    assert_eq!(Place::from_local(Local(Symbol(4))), place(4, vec![]));
    assert!(p.same(&p.clone()));
    assert!(!p.same(&q));
}

#[test]
fn regions() {
    let r = Region::new(place(1, vec![]));
    assert_eq!(r.len(), 1);
    assert_eq!(*r.index(0), place(1, vec![]));
    let both = Region::from_places(vec![place(2, vec![]), place(1, vec![])]);
    assert_eq!(both.len(), 2);
    assert_eq!(both.iter(), vec![&place(2, vec![]), &place(1, vec![])]);
    assert!(r.subset_of(&both));
    assert!(!both.subset_of(&r));
    assert!(both.subset_of(&both));
    assert!(Region::from_places(vec![]).subset_of(&r));
}

#[test]
fn kinds_and_constants() {
    assert!(BorrowKind::Mut.is_mut());
    assert!(!BorrowKind::Shared.is_mut());
    assert_eq!(Constant::Bool(true).ty(), BasicType::Bool);
    assert_eq!(Constant::Int(7).ty(), BasicType::Int);
    assert_eq!(OwnRef(Location(Symbol(3))).into_ty(), TyS::OwnRef(Location(Symbol(3))));
}

#[test]
fn types() {
    let int = int_ty();
    assert!(int.is_int());
    assert!(int.is_copy());
    assert!(!TyS::Uninit(1).is_int());
    assert!(!TyS::RefineHole { ty: BasicType::Int, n: 0 }.is_int());
    assert!(!TyS::Refine { ty: BasicType::Bool, pred: Box::new(PredS::Constant(Constant::Bool(true))) }.is_int());
    assert_eq!(int.size(), 1);
    assert_eq!(TyS::Uninit(7).size(), 7);
    assert_eq!(TyS::RefineHole { ty: BasicType::Bool, n: 3 }.size(), 1);
    let r1 = Region::new(place(1, vec![]));
    let r2 = Region::new(place(2, vec![]));
    let f = |n| Field(Symbol(n));
    let ty = TyS::Tuple(vec![
        (f(0), int_ty()),
        (f(1), Box::new(TyS::Ref(BorrowKind::Mut, Region::new(place(1, vec![])), Location(Symbol(5))))),
        (
            f(2),
            Box::new(TyS::Tuple(vec![
                (f(3), Box::new(TyS::Uninit(2))),
                (f(4), Box::new(TyS::Ref(BorrowKind::Shared, Region::new(place(2, vec![])), Location(Symbol(6))))),
            ])),
        ),
    ]);
    assert_eq!(ty.size(), 5);
    let borrows = ty.borrows();
    assert_eq!(borrows.len(), 2);
    assert_eq!(borrows[0].0 .0, vec![1]);
    assert_eq!(borrows[0].1, BorrowKind::Mut);
    assert_eq!(*borrows[0].2, r1);
    assert_eq!(borrows[1].0 .0, vec![2, 1]);
    assert_eq!(borrows[1].1, BorrowKind::Shared);
    assert_eq!(*borrows[1].2, r2);
    assert!(int.borrows().is_empty());
    let alone = TyS::Ref(BorrowKind::Mut, Region::new(place(1, vec![])), Location(Symbol(5)));
    assert_eq!(alone.borrows().len(), 1);
    assert!(alone.borrows()[0].0 .0.is_empty());
}

#[test]
fn paths() {
    let p = Path::empty();
    assert!(p.0.is_empty());
    assert_eq!(p.append(3).append(1).0, vec![3, 1]);
}

#[test]
fn interned_names() {
    let mut names = Interner::new();
    assert_eq!(names.len(), 0);
    let a = names.intern("alpha").unwrap();
    let b = names.intern("beta").unwrap();
    assert_ne!(a, b);
    assert_eq!(names.intern("alpha"), Some(a));
    assert_eq!(names.lookup("beta"), Some(b));
    assert_eq!(names.lookup("gamma"), None);
    assert_eq!(names.name(a), "alpha");
    assert_eq!(names.name(b), "beta");
    assert_eq!(names.len(), 2);
    let f = Field::intern(&mut names, "beta").unwrap();
    assert_eq!(f, Field(b));
    let third = Field::nth(&mut names, 12).unwrap();
    assert_eq!(names.name(third.0), "12");
    assert_eq!(Field::nth(&mut names, 12), Some(third));
    assert_eq!(Field::intern(&mut names, "12"), Some(third));
    assert_eq!(names.len(), 3);
}

#[test]
fn names_and_places_are_written_out() {
    let mut names = Interner::new();
    let x = names.intern("x").unwrap();
    let y = names.intern("y").unwrap();
    assert_eq!(Local(x).to_string(&names), "x");
    assert_eq!(Location(y).to_string(&names), "y");
    assert_eq!(Field(y).to_string(&names), "@y");
    assert_eq!(Var::Nu.to_string(&names), "_v");
    assert_eq!(Var::Location(Location(x)).to_string(&names), "l$x");
    assert_eq!(Var::Field(Field(y)).to_string(&names), "f$y");
    assert_eq!(Place::from_local(Local(x)).to_string(&names), "x");
    assert_eq!(
        Place::new(Local(y), vec![Projection::Field(0), Projection::Deref, Projection::Field(12)])
            .to_string(&names),
        "y.0.*.12"
    );
    // A symbol without a name is written by its number.
    assert_eq!(Local(Symbol(7)).to_string(&names), "#7");
    assert_eq!(Constant::Bool(true).to_string(), "true");
    assert_eq!(Constant::Bool(false).to_string(), "false");
    assert_eq!(Constant::Int(0).to_string(), "0");
    assert_eq!(Constant::Int(1230).to_string(), "1230");
    assert_eq!(BasicType::Bool.to_string(), "Bool");
    assert_eq!(BasicType::Int.to_string(), "Int");
    let ops = [
        (BinOp::Add, "+"),
        (BinOp::Sub, "-"),
        (BinOp::Lt, "<"),
        (BinOp::Le, "<="),
        (BinOp::Eq, "="),
        (BinOp::Ge, ">="),
        (BinOp::Gt, ">"),
    ];
    for (op, text) in ops {
        assert_eq!(op.to_string(), text);
    }
    assert_eq!(UnOp::Not.to_string(), "\u{ac}");
}

#[test]
fn predicates_are_written_out() {
    let mut names = Interner::new();
    let x = names.intern("x").unwrap();
    let nu = || Box::new(PredS::Place { var: Var::Nu, projection: vec![] });
    let at_x = || Box::new(PredS::Place { var: Var::Location(Location(x)), projection: vec![1, 0] });
    let five = || Box::new(PredS::Constant(Constant::Int(5)));
    assert_eq!(at_x().to_string(&names), "l$x.1.0");
    assert_eq!(PredS::BinaryOp(BinOp::Ge, nu(), five()).to_string(&names), "(_v >= 5)");
    assert_eq!(
        PredS::BinaryOp(BinOp::Add, Box::new(PredS::BinaryOp(BinOp::Sub, nu(), at_x())), five())
            .to_string(&names),
        "((_v - l$x.1.0) + 5)"
    );
    assert_eq!(PredS::UnaryOp(UnOp::Not, nu()).to_string(&names), "\u{ac}(_v)");
    assert_eq!(
        PredS::Iff(nu(), Box::new(PredS::BinaryOp(BinOp::Lt, at_x(), five()))).to_string(&names),
        "(_v <=> (l$x.1.0 < 5))"
    );
    assert_eq!(PredS::Kvar(3, vec![]).to_string(&names), "$k3[]");
    assert_eq!(PredS::Kvar(3, vec![Var::Nu]).to_string(&names), "$k3[_v]");
    assert_eq!(
        PredS::Kvar(12, vec![Var::Nu, Var::Location(Location(x)), Var::Field(Field(x))])
            .to_string(&names),
        "$k12[_v, l$x, f$x]"
    );
}

#[test]
fn types_are_written_out() {
    let mut names = Interner::new();
    let x = names.intern("x").unwrap();
    let l = names.intern("l").unwrap();
    let f = Field::nth(&mut names, 0).unwrap();
    let g = Field::nth(&mut names, 1).unwrap();
    assert_eq!(int_ty().to_string(&names), "{ Int | true }");
    assert_eq!(TyS::RefineHole { ty: BasicType::Bool, n: 4 }.to_string(&names), "{ Bool | _ }");
    assert_eq!(TyS::Uninit(16).to_string(&names), "Uninit(16)");
    assert_eq!(TyS::OwnRef(Location(l)).to_string(&names), "OwnRef(l)");
    assert_eq!(OwnRef(Location(l)).into_ty().to_string(&names), "OwnRef(l)");
    assert_eq!(
        TyS::Fn { in_heap: vec![], params: vec![], out_heap: vec![], ret: OwnRef(Location(l)) }
            .to_string(&names),
        "function"
    );
    assert_eq!(TyS::Tuple(vec![]).to_string(&names), "[]");
    assert_eq!(
        TyS::Tuple(vec![(f, int_ty()), (g, Box::new(TyS::Uninit(2)))]).to_string(&names),
        "[(@0, { Int | true }), (@1, Uninit(2))]"
    );
    let one = Region::new(place(x.0, vec![]));
    assert_eq!(one.to_string(&names), "Region([x])");
    let two = Region::from_places(vec![place(x.0, vec![Projection::Field(1)]), place(l.0, vec![])]);
    assert_eq!(two.to_string(&names), "Region([x.1, l])");
    assert_eq!(Region::from_places(vec![]).to_string(&names), "Region([])");
    assert_eq!(
        TyS::Ref(BorrowKind::Mut, one, Location(l)).to_string(&names),
        "&mut(Region([x]), l)"
    );
    assert_eq!(
        TyS::Ref(BorrowKind::Shared, two, Location(l)).to_string(&names),
        "&(Region([x.1, l]), l)"
    );
}
