//! A point-free execution engine for a concatenative, stack-based model.
//!
//! Stacks are nested pairs `((((), a), b), c)` whose shape is fixed at
//! compile time; programs are values, functions and compositions of
//! programs, evaluated tail first; builtins are ordinary functions from one
//! stack shape to another, each with a contract.
pub mod sequence;
pub mod apply;
pub mod quote;
pub mod builtin;
pub mod laws;
pub mod task;
