//! A compiler back end that lowers a low-level program representation into
//! scoreboard and block commands of a block game, with every command
//! builder proved against a model of the commands it emits.
use vstd::prelude::*;

pub mod text;
pub mod cir;
pub mod render;
pub mod registers;
pub mod memory;
pub mod locals;
pub mod arith;
pub mod semantics;
pub mod layout;
pub mod frame;
pub mod naming;
pub mod starts;
pub mod link;
pub mod program;
pub mod constants;
pub mod operands;
pub mod calls;
pub mod ops;
pub mod shifts;
pub mod gep;
pub mod globals;
pub mod blocks;
pub mod relocation;
pub mod blockkinds;
pub mod holders;
pub mod memops;
pub mod casts;
pub mod extend;
pub mod compare;
pub mod division;
pub mod aggregates;
pub mod fp_ops;
pub mod flow;
pub mod atomics;
pub mod shuffle;
pub mod call;
pub mod instrs;
pub mod function;
pub mod module;
pub mod machine;
pub mod laws;

verus! {
} // verus!
