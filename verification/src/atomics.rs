//! Atomic read-modify-write instructions.
use vstd::prelude::*;
use crate::cir::{Command, CommandV, commands_view};
use crate::constants::GlobalTable;
use crate::layout::{IrType, Types};
use crate::locals::LocalName;
use crate::memory::{TempCounter, get_unique_holder};
use crate::operands::{Operand, operand_type, type_of};
use crate::ops::{eval_operands, is_int_type, operands_ok, operands_v};

verus! {

/// The operation of an atomic read-modify-write.
#[derive(Debug, Clone, Copy, PartialEq, Eq)]
pub enum RmwOp {
    Xchg,
    Add,
    Sub,
    And,
    Nand,
    Or,
    Xor,
    Max,
    Min,
    UMax,
    UMin,
    FAdd,
    FSub,
}

/// The number of temporaries that an atomic read-modify-write on memory
/// of type `pointee` takes: one for a 32-bit integer, two for a 64-bit
/// one, none otherwise.
pub open spec fn rmw_temps(address_type: Option<IrType>) -> nat {
    match address_type {
        Some(IrType::Pointer { pointee, .. }) => if *pointee == (IrType::Integer { bits: 32 }) {
            1
        } else if *pointee == (IrType::Integer { bits: 64 }) {
            2
        } else {
            0
        },
        _ => 0,
    }
}

/// The commands of `dest = atomicrmw op address, value` and the counter
/// after: the operands are brought into holders and the temporaries for
/// the old and new values are taken, but the instruction gives no
/// commands: atomic read-modify-write is not compiled, so neither memory
/// nor the destination is written.
pub open spec fn atomic_rmw_v(address: Operand, value: Operand, g: Seq<(LocalName, u32)>, tys: Types, n: nat) -> (
    Seq<CommandV>,
    nat,
) {
    (Seq::empty(), operands_v(address, value, g, tys, n).3 + rmw_temps(operand_type(address)))
}

/// Whether `dest = atomicrmw op address, value` can be compiled: the
/// operands evaluate, a pointer address has a word, the value has a word
/// where an addition on 32 bits or an exchange on 64 bits reads it, and
/// the temporaries fit.
pub open spec fn atomic_rmw_ok(
    op: RmwOp,
    address: Operand,
    value: Operand,
    g: Seq<(LocalName, u32)>,
    tys: Types,
    n: nat,
) -> bool {
    let o = operands_v(address, value, g, tys, n);
    &&& operands_ok(address, value, g, tys, n)
    &&& o.3 + rmw_temps(operand_type(address)) <= u32::MAX
    &&& operand_type(address) matches Some(IrType::Pointer { pointee, .. }) ==> {
        &&& o.1.len() >= 1
        &&& (*pointee == (IrType::Integer { bits: 32 }) && op == RmwOp::Add) ==> o.2.len() >= 1
        &&& (*pointee == (IrType::Integer { bits: 64 }) && op == RmwOp::Xchg) ==> o.2.len() >= 1
    }
}

/// Compiles `dest = atomicrmw op address, value`.
pub fn compile_atomic_rmw(
    op: RmwOp,
    address: &Operand,
    value: &Operand,
    globals: &GlobalTable,
    tys: &Types,
    counter: &mut TempCounter,
) -> (r: Vec<Command>)
    requires
        atomic_rmw_ok(op, *address, *value, globals.addrs@, *tys, old(counter).next as nat),
    ensures
        (commands_view(r@), final(counter).next as nat) == atomic_rmw_v(
            *address,
            *value,
            globals.addrs@,
            *tys,
            old(counter).next as nat,
        ),
{
    let _ = eval_operands(address, value, globals, tys, counter);
    match type_of(address) {
        Some(IrType::Pointer { pointee, .. }) => {
            if is_int_type(pointee, 32) {
                let _ = get_unique_holder(counter);
            } else if is_int_type(pointee, 64) {
                let _ = get_unique_holder(counter);
                let _ = get_unique_holder(counter);
            }
        },
        _ => {},
    }
    let r: Vec<Command> = Vec::new();
    assert(commands_view(r@) =~= Seq::<CommandV>::empty());
    r
}

} // verus!
