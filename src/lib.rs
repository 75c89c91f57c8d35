//! Builds contracts into objects for an eBPF-like virtual machine, and
//! scaffolds new contract projects from templates.
//!
//! The modules hold the decisions and the text transformations of the build
//! pipeline and of project scaffolding, each with a contract; running
//! processes and touching the file system is left to the caller.
use vstd::prelude::*;

pub mod cli;
pub mod create;
pub mod ir;
pub mod locate;
pub mod pipeline;
pub mod text;
pub mod which;

verus! {

} // verus!
