use liquid_rust::ast::pred::{self, Pred};
use liquid_rust::ast::{
    BaseTy, BinOp, BorrowKind, Constant, ContDef, ContTy, FnBody, FnDecl, FnDef, Heap, Operand,
    Place, Program, Refine, Region, Rvalue, Statement, StatementKind, Ty, TypeLayout,
};
use liquid_rust::freshen::NameFreshener;
use liquid_rust::names::{ContId, FnId, Local, Location};
use liquid_rust::refineck::check_fn_def;
use liquid_rust::region_inference::{infer_regions, infer_regions_or_error, InferError};
use liquid_rust::ty::TyCtxt;

fn int_ty() -> Ty {
    Ty::Refine(BaseTy::Int, Refine::Pred(Pred::Constant(pred::Constant::Bool(true))))
}

fn local(x: usize) -> Place {
    Place::from_local(Local(x))
}

fn seq(kind: StatementKind, rest: FnBody<()>) -> FnBody<()> {
    FnBody::Sequence(Statement { source_info: (), kind }, Box::new(rest))
}

fn new_local(x: usize, rest: FnBody<()>) -> FnBody<()> {
    seq(StatementKind::Let(Local(x), TypeLayout::Block(1)), rest)
}

fn assign(x: usize, rvalue: Rvalue, rest: FnBody<()>) -> FnBody<()> {
    seq(StatementKind::Assign(local(x), rvalue), rest)
}

fn num(n: u128) -> Rvalue {
    Rvalue::Use(Operand::Constant(Constant::Int(n)))
}

fn jump(k: usize, args: Vec<usize>) -> FnBody<()> {
    FnBody::Jump { target: ContId(k), args: args.into_iter().map(Local).collect() }
}

/// The continuation 5 takes a mutable borrow, of which its signature does not say what
/// it may alias. One arm of a branch passes a borrow of the local 2, the other a
/// borrow of the local 3.
fn two_borrows(region: Region) -> FnDef<()> {
    let join = ContDef {
        name: ContId(5),
        params: vec![Local(9)],
        body: Box::new(jump(0, vec![1])),
        ty: ContTy {
            heap: Heap(vec![
                (Location(20), Ty::Ref(BorrowKind::Mut, region, Location(21))),
                (Location(21), int_ty()),
            ]),
            locals: vec![(Local(1), Location(10))],
            inputs: vec![Location(20)],
        },
    };
    let borrow = |x: usize, p: usize| {
        new_local(p, assign(p, Rvalue::Ref(BorrowKind::Mut, local(x)), jump(5, vec![p])))
    };
    let body = new_local(
        2,
        assign(
            2,
            num(1),
            new_local(
                3,
                assign(
                    3,
                    num(2),
                    new_local(
                        4,
                        assign(
                            4,
                            Rvalue::BinaryOp(BinOp::Lt, Operand::Copy(local(1)), Operand::Constant(Constant::Int(0))),
                            FnBody::LetCont(
                                vec![join],
                                Box::new(FnBody::Ite {
                                    discr: local(4),
                                    then: Box::new(borrow(2, 6)),
                                    else_: Box::new(borrow(3, 7)),
                                }),
                            ),
                        ),
                    ),
                ),
            ),
        ),
    );
    FnDef {
        ty: FnDecl {
            regions: vec![],
            in_heap: Heap(vec![(Location(10), int_ty())]),
            inputs: vec![(Local(1), Location(10))],
            out_heap: Heap(vec![(Location(11), int_ty())]),
            outputs: vec![],
            output: Location(11),
        },
        params: vec![Local(1)],
        body,
        ret: ContId(0),
    }
}

fn freshened(def: FnDef<()>) -> (TyCtxt, Vec<(FnId, FnDecl)>, FnDef<()>) {
    let mut tcx = TyCtxt::new();
    let mut program = Program::new();
    program.add_fn(FnId(7), def);
    let program = NameFreshener::new().freshen(&mut tcx, program);
    let (id, def) = program.into_vec().pop().unwrap();
    let sigs = vec![(id, def.ty.clone())];
    (tcx, sigs, def)
}

/// The places that the body borrows, in order.
fn borrowed(body: &FnBody<()>, out: &mut Vec<Place>) {
    match body {
        FnBody::LetCont(defs, rest) => {
            for def in defs {
                borrowed(&def.body, out);
            }
            borrowed(rest, out);
        }
        FnBody::Ite { then, else_, .. } => {
            borrowed(then, out);
            borrowed(else_, out);
        }
        FnBody::Sequence(s, rest) => {
            if let StatementKind::Assign(_, Rvalue::Ref(_, place)) = &s.kind {
                out.push(place.clone());
            }
            borrowed(rest, out);
        }
        _ => {}
    }
}

/// The region of the borrow that the first continuation of the body takes.
fn region_of_join(body: &FnBody<()>) -> Region {
    match body {
        FnBody::Sequence(_, rest) => region_of_join(rest),
        FnBody::LetCont(defs, _) => match &defs[0].ty.heap.0[0].1 {
            Ty::Ref(BorrowKind::Mut, region, _) => region.clone(),
            other => panic!("the continuation takes {:?}", other),
        },
        other => panic!("no continuation before {:?}", other),
    }
}

#[test]
fn a_region_is_the_union_of_what_is_passed() {
    let (tcx, sigs, def) = freshened(two_borrows(Region::Infer));
    let mut places = vec![];
    borrowed(&def.body, &mut places);
    assert_eq!(places.len(), 2);
    assert_ne!(places[0], places[1]);
    assert_eq!(region_of_join(&def.body), Region::Infer);

    let inferred = infer_regions(&tcx, &sigs, def, 8).expect("the regions settle");
    assert_eq!(region_of_join(&inferred.body), Region::Concrete(places));

    // With its regions inferred, the function can be checked: what each arm passes
    // may alias no more than the continuation allows.
    let mut tcx = tcx;
    assert!(check_fn_def(&mut tcx, &sigs, &inferred).is_some());
}

#[test]
fn without_inference_the_function_cannot_be_checked() {
    let (mut tcx, sigs, def) = freshened(two_borrows(Region::Infer));
    assert!(check_fn_def(&mut tcx, &sigs, &def).is_none());
}

#[test]
fn inference_needs_a_walk_to_find_and_a_walk_to_confirm() {
    let (tcx, sigs, def) = freshened(two_borrows(Region::Infer));
    assert!(infer_regions(&tcx, &sigs, def, 1).is_none());
    let (tcx, sigs, def) = freshened(two_borrows(Region::Infer));
    assert!(infer_regions(&tcx, &sigs, def, 0).is_none());
    let (tcx, sigs, def) = freshened(two_borrows(Region::Infer));
    assert!(infer_regions(&tcx, &sigs, def, 2).is_some());
}

#[test]
fn a_given_region_is_left_alone() {
    let given = Region::Concrete(vec![local(2)]);
    let (tcx, sigs, def) = freshened(two_borrows(given));
    let before = region_of_join(&def.body);
    let inferred = infer_regions(&tcx, &sigs, def, 4).expect("there is nothing to infer");
    assert_eq!(region_of_join(&inferred.body), before);
}

#[test]
fn what_is_passed_for_a_region_variable_must_be_a_borrow() {
    // The continuation is jumped to with an integer where it takes a borrow.
    let mut def = two_borrows(Region::Infer);
    def.body = match def.body {
        FnBody::Sequence(s, rest) => FnBody::Sequence(s, rest),
        other => other,
    };
    fn replace_arms(body: FnBody<()>) -> FnBody<()> {
        match body {
            FnBody::Sequence(s, rest) => FnBody::Sequence(s, Box::new(replace_arms(*rest))),
            FnBody::LetCont(defs, _) => FnBody::LetCont(defs, Box::new(jump(5, vec![2]))),
            other => other,
        }
    }
    def.body = replace_arms(def.body);
    let (tcx, sigs, def) = freshened(def);
    assert!(infer_regions(&tcx, &sigs, def, 4).is_none());
    // That is no matter of how many walks are allowed.
    let mut def = two_borrows(Region::Infer);
    def.body = replace_arms(def.body);
    let (tcx, sigs, def) = freshened(def);
    assert_eq!(infer_regions_or_error(&tcx, &sigs, def, 4).err(), Some(InferError::Stuck));
}

#[test]
fn why_there_are_no_regions() {
    // The walks of the two borrows settle at the second walk, and not before.
    let (tcx, sigs, def) = freshened(two_borrows(Region::Infer));
    assert_eq!(infer_regions_or_error(&tcx, &sigs, def, 1).err(), Some(InferError::Unsettled));
    let (tcx, sigs, def) = freshened(two_borrows(Region::Infer));
    assert_eq!(infer_regions_or_error(&tcx, &sigs, def, 0).err(), Some(InferError::Unsettled));
    let (tcx, sigs, def) = freshened(two_borrows(Region::Infer));
    assert!(infer_regions_or_error(&tcx, &sigs, def, 2).is_ok());
}
