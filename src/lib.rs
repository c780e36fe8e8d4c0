//! A document-combinator pretty printer in the Wadler/Leijen style.
//!
//! Documents are immutable trees built from a handful of primitives and
//! rendered against a line width by an iterative, stack-based layout engine.
//! `model` gives documents their mathematical meaning, `doc` and
//! `combinators` build them, `render` lays them out, and `laws` proves the
//! algebraic facts that callers may rely on.

pub mod model;
pub mod doc;
pub mod render;
pub mod combinators;
pub mod laws;

pub use combinators::{to_list, ToDoc};
pub use doc::{ContextFn, Doc, Plain};
