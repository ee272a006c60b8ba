//! Verified boundary layer for a builtin-entity extraction engine.
//!
//! The crate owns the logic of the boundary itself: resolving language codes
//! and entity-kind identifiers, validating text arguments, translating
//! failures into a two-valued status, and managing the shared-ownership
//! lifecycle of parser handles. The linguistic extraction work is delegated
//! to an external engine that the surrounding (unverified) shim invokes.

pub mod errors;
pub mod extraction;
pub mod kinds;
pub mod lang;
pub mod lifecycle;
pub mod registry;
pub mod text;
