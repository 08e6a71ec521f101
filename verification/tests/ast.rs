use liquid_rust::ast::pred::{self, Pred, Var};
use liquid_rust::ast::{
    reversed, BaseTy, BorrowKind, Constant, FnBody, FnDecl, FnDef, Heap, Place, Program, Proj,
    Refine, Region, Ty,
};
use liquid_rust::names::{ContId, Field, FnId, Local, Location};

#[test]
fn constants_have_base_types() {
    assert_eq!(Constant::Bool(true).base_ty(), BaseTy::Bool);
    assert_eq!(Constant::Int(3).base_ty(), BaseTy::Int);
    assert_eq!(Constant::Unit.base_ty(), BaseTy::Unit);
    assert_eq!(pred::Constant::Bool(false).base_ty(), BaseTy::Bool);
    assert_eq!(pred::Constant::Int(0).base_ty(), BaseTy::Int);
    assert_eq!(pred::Constant::Unit.base_ty(), BaseTy::Unit);
}

#[test]
fn borrow_kinds() {
    assert!(BorrowKind::Mut.is_mut());
    assert!(!BorrowKind::Shared.is_mut());
}

#[test]
fn the_unit_type() {
    assert_eq!(
        Ty::unit(),
        Ty::Refine(BaseTy::Unit, Refine::Pred(Pred::Constant(pred::Constant::Bool(true))))
    );
}

#[test]
fn places_overlap_when_one_is_a_prefix_of_the_other() {
    let p = |x, projs| Place::new(Local(x), projs);
    let whole = p(1, vec![]);
    let first = p(1, vec![Proj::Field(0)]);
    let second = p(1, vec![Proj::Field(1)]);
    let deep = p(1, vec![Proj::Field(0), Proj::Deref, Proj::Field(2)]);
    let other = p(2, vec![Proj::Field(0)]);
    assert!(whole.overlaps(&first) && first.overlaps(&whole));
    assert!(first.overlaps(&deep) && deep.overlaps(&first));
    assert!(!first.overlaps(&second));
    assert!(!second.overlaps(&deep));
    assert!(!first.overlaps(&other));
    assert!(first.overlaps(&first));
    assert!(first.same(&first.clone()));
    assert!(!first.same(&deep));
    assert_eq!(Place::from_local(Local(1)), whole);
    assert_eq!(Region::from_places(vec![p(1, vec![])]), Region::Concrete(vec![p(1, vec![])]));
}

#[test]
fn predicate_places_extend() {
    let p = pred::Place::from_var(Var::Location(Location(2)));
    assert_eq!(p.projs, vec![]);
    let q = p.extend_path(3).extend_path(1);
    assert_eq!(q, pred::Place { base: Var::Location(Location(2)), projs: vec![3, 1] });
    assert_eq!(Var::from(Location(4)), Var::Location(Location(4)));
    assert_eq!(Var::from(Field(4)), Var::Field(Field(4)));
}

fn def(ret: usize) -> FnDef<()> {
    FnDef {
        ty: FnDecl {
            regions: vec![],
            in_heap: Heap(vec![]),
            inputs: vec![],
            out_heap: Heap(vec![]),
            outputs: vec![],
            output: Location(0),
        },
        params: vec![],
        body: FnBody::Abort,
        ret: ContId(ret),
    }
}

#[test]
fn a_program_defines_each_function_once() {
    let mut program = Program::new();
    assert_eq!(program.len(), 0);
    program.add_fn(FnId(1), def(10));
    program.add_fn(FnId(2), def(20));
    program.add_fn(FnId(1), def(30));
    assert_eq!(program.len(), 2);
    let rets: Vec<ContId> = program.functions().iter().map(|d| d.ret).collect();
    assert_eq!(rets, vec![ContId(30), ContId(20)]);
    let ids: Vec<FnId> = program.iter().iter().map(|(id, _)| **id).collect();
    assert_eq!(ids, vec![FnId(1), FnId(2)]);
    let fns = program.into_vec();
    assert_eq!(fns[0].1.ret, ContId(30));
}

#[test]
fn heaps_find_the_last_entry() {
    let mut heap = Heap::new();
    assert_eq!(heap.len(), 0);
    heap.insert(Location(1), Ty::Uninit(1));
    heap.insert(Location(2), Ty::Uninit(2));
    heap.insert(Location(1), Ty::Uninit(3));
    assert_eq!(heap.get(&Location(1)), Some(&Ty::Uninit(3)));
    assert_eq!(heap.get(&Location(2)), Some(&Ty::Uninit(2)));
    assert_eq!(heap.get(&Location(3)), None);
    assert_eq!(heap.index_before(2, Location(1)), Some(0));
    assert_eq!(heap.index_before(3, Location(1)), Some(2));
    assert_eq!(heap.index_before(1, Location(2)), None);
    assert_eq!(*heap.ty_at(1), Ty::Uninit(2));
    assert_eq!(heap.clone(), heap);
    heap.truncate(1);
    assert_eq!(heap, Heap(vec![(Location(1), Ty::Uninit(1))]));
    heap.truncate(5);
    assert_eq!(heap.len(), 1);
}

#[test]
fn reversing() {
    assert_eq!(reversed(vec![1, 2, 3]), vec![3, 2, 1]);
    assert_eq!(reversed(Vec::<u8>::new()), vec![]);
}
