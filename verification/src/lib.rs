//! A verified reconditioning pass for a shader language: a semantics-
//! preserving, type-directed rewrite that takes an arbitrary, possibly
//! UB-laden program and produces an equivalent one that is free of integer
//! overflow, division and modulo by zero, and non-terminating loops.
//! Arithmetic operators become calls to safe wrapper functions, every
//! unconditional loop is bounded through a per-site counter, and program
//! assembly emits exactly the vector wrappers that were requested.
//!
//! Every rewrite function is specified by a mirror over mathematical node
//! types and proved to compute it; the laws module states and proves the
//! pass's global guarantees.

pub mod assemble;
pub mod ast;
pub mod laws;
pub mod naming;
pub mod recondition;
pub mod types;
pub mod ub;
pub mod wrappers;
