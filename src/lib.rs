//! A binary deoptimizer: decodes machine code, builds address tables,
//! applies semantics-preserving gadgets chosen by priority, re-encodes, and
//! repeats the pass over several cycles; renders the result as a listing
//! with symbolic labels.
use vstd::prelude::*;

pub mod gadgets;
pub mod arm;
pub mod riscv;
pub mod model;
pub mod tables;
pub mod selector;
pub mod deoptimizer;
pub mod format;
pub mod syntax;
pub mod plugin;
pub mod math;
pub mod x86;
pub mod reporting;

verus! {

} // verus!
pub mod assemble;
