//! Inlining of function parameters that every call site supplies with the
//! same constant-like value.
//!
//! The library works on a compact model of a program: symbols are interned
//! atoms, expressions are classified down to what the analysis reads, and
//! everything else is an opaque handle that the caller maps back to its own
//! syntax tree.
pub mod expr;
pub mod collect;
pub mod finalize;
pub mod inline;
pub mod laws;
