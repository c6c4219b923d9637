//! An ownership-safe binding layer for a reference-counted polyhedral /
//! polynomial object library.
//!
//! Every foreign object is wrapped in an owned handle tied to the `Context`
//! that created it.  Consuming operations take their handle arguments by
//! value, check the produced result, and turn a failed call into a typed
//! error read from the context's last-error slot.  Borrowing queries never
//! consume their receiver.  The foreign runtime itself is modelled by an
//! instrumented session (`Context`) that keeps an exact ledger of the
//! objects allocated and freed, so the central safety claims — every handle
//! freed exactly once, no use after consumption, errors captured
//! synchronously with the failing call — are stated in contracts and proved.
//!
//! The session doubles as the instrumented stub the layer is tested
//! against: `Context::inject_failure` makes the next fallible entry point
//! return a null result, with or without recording an error kind, and the
//! ledger counters expose allocation balance to tests.  The layer-wide
//! laws stand in `laws` as public proof functions.

pub mod aff;
pub mod constraint;
pub mod context;
pub mod error;
pub mod ident;
pub mod laws;
pub mod list;
pub mod local_space;
pub mod polynomial;
pub mod printer;
pub mod rat;
pub mod sets;
pub mod space;
pub mod stat;
pub mod value;
pub mod vector;

pub use context::{Context, ContextRef, nonnull_or_alloc_error};
pub use error::{Error, ISLError, ISLErrorKind};

use vstd::prelude::*;

verus! {

/// The kinds of dimension a space, constraint or polynomial can be
/// indexed by.
#[derive(Debug, Clone, Copy, PartialEq, Eq, Structural)]
pub enum DimType {
    Cst,
    Param,
    In,
    Out,
    Div,
    All,
}

} // verus!
