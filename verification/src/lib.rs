//! A tree-walking evaluator for a small dynamically-typed scripting language.
//!
//! Programs arrive as an immutable intermediate representation ([`ir::Data`]):
//! functions, struct prototypes, an identifier table and a tree of statements
//! and expressions. The evaluator executes an entry function against a single
//! growable variable stack, with shared mutable lists and structs held in an
//! arena ([`value::Heap`]) so that aliasing and reference identity are plain
//! index equality.
//!
//! The evaluator's own behaviour is specified by a mathematical mirror of
//! it ([`semantics`]): wherever no host operation and no heap change is
//! involved, the contracts pin the exact stack, step budget and outcome of
//! every expression, statement and call.
//!
//! Everything the host machine must supply — the output stream, file access
//! and floating-point arithmetic (floats are carried opaquely as bit
//! patterns) — sits behind the [`host::Host`] trait, which promises nothing;
//! the contracts here hold for every host.

pub mod arith;
pub mod display;
pub mod eq;
pub mod host;
pub mod ir;
pub mod misc;
pub mod plugins;
pub mod semantics;
pub mod state;
pub mod value;
