//! Refinement-type checking for a continuation-passing IR with an explicit heap.
//!
//! A function of the IR is checked in passes:
//!
//! - [`freshen`] renames every bound identifier to one that nothing else uses;
//! - [`lower`] turns annotations, whose binders are source names, into types over
//!   locations and fields;
//! - [`region_inference`] finds the places that the borrows passed to a continuation
//!   may alias, where its signature leaves that open;
//! - [`refineck`] walks the body with an environment ([`env`]) that keeps the type of
//!   every place, and emits what must hold for the function to be safe
//!   ([`constraint`]); where a value of one type must pass for a value of another,
//!   [`subtyping`] says under what obligation it does.
//!
//! Whether an obligation holds is for a solver to decide. A function that does not
//! meet its contract is checked like any other: its obligation does not hold.
//!
//! [`ast`] is the IR, [`names`] and [`ty`] the identifiers and the context that
//! generates them, [`scope`] the layered maps that the passes keep their scopes in,
//! [`shape`] what renaming keeps of a tree. [`cps`] and [`cps_ref`] are the IRs of the
//! front end. [`pretty`] and [`diagnostics`] write things out.

pub mod ast;
pub mod constraint;
pub mod cps;
pub mod cps_ref;
pub mod diagnostics;
pub mod env;
pub mod freshen;
pub mod lower;
pub mod names;
pub mod pretty;
pub mod refineck;
pub mod region_inference;
pub mod scope;
pub mod shape;
pub mod subtyping;
pub mod surface;
pub mod ty;
