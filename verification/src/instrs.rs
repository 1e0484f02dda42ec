//! Instructions, and the compilation of one instruction into commands.
use vstd::prelude::*;
use crate::aggregates::{
    compile_extract_element, compile_extract_value, compile_insert_element, compile_insert_value,
    extract_element_ok, extract_element_v, extract_value_ok, extract_value_v, insert_element_ok,
    insert_element_v, insert_value_ok, insert_value_v,
};
use crate::arith::IntPredicate;
use crate::atomics::{RmwOp, atomic_rmw_ok, atomic_rmw_v, compile_atomic_rmw};
use crate::call::{CallOutV, CallTarget, call_out_is, compile_call, compiled_call_ok, compiled_call_v, dest_view};
use crate::casts::{
    and_or_ok, and_or_v, bitcast_ok, compile_and_or, compile_bitcast, compile_inttoptr,
    compile_ptrtoint, compile_select, compile_trunc, copy_word_v, inttoptr_ok, ptrtoint_ok,
    ptrtoint_v, select_ok, select_v, trunc_ok, trunc_v,
};
use crate::cir::{Command, CommandV, ScoreOpKind, commands_view};
use crate::compare::{compare_ok, compare_v, compile_int_compare};
use crate::constants::{Constant, GlobalTable};
use crate::division::{compile_unsigned_div, unsigned_div_ok, unsigned_div_v};
use crate::extend::{compile_sext, compile_zext, sext_ok, sext_v, zext_ok, zext_v};
use crate::flow::{PhiIncoming, compile_landing_pad, compile_phi, landing_pad_ok, landing_pad_v, phi_ok, phi_v};
use crate::fp_ops::{
    FpConversion, FpPredicate, compile_fp_binary, compile_fp_compare, compile_fp_conversion,
    conversion_ok, conversion_v, fp_binary_ok, fp_binary_v, fp_compare_ok, fp_compare_v,
};
use crate::frame::{AllocaCount, alloca_count_ok, alloca_v, compile_alloca, stack_size};
use crate::gep::{compile_getelementptr, gep_ok, gep_v};
use crate::layout::{IrType, Types, layout_fits};
use crate::locals::{LocalName, LocalNameV, local_word_name};
use crate::memops::{compile_load, compile_store, load_ok, load_v, store_ok, store_v};
use crate::memory::TempCounter;
use crate::operands::{Argument, Operand};
use crate::ops::{BitOp, arithmetic_ok, arithmetic_v, compile_arithmetic, compile_xor, xor_ok, xor_v};
use crate::shifts::{ashr_ok, ashr_v, compile_ashr, compile_lshr, compile_shl, lshr_ok, lshr_v, shl_ok, shl_v};
use crate::shuffle::{compile_shuffle_vector, shuffle_ok, shuffle_v};

verus! {

/// The operands and the destination of a binary instruction.
#[derive(Debug)]
pub struct Binary {
    pub operand0: Operand,
    pub operand1: Operand,
    pub dest: LocalName,
}

/// An instruction of the source program, as far as compiling it needs.
#[derive(Debug)]
pub enum Instruction {
    Alloca { allocated_type: IrType, count: AllocaCount, dest: LocalName },
    /// With the renderings of the address and the indices for comments.
    GetElementPtr {
        address: Operand,
        indices: Vec<Operand>,
        dest: LocalName,
        address_text: String,
        indices_text: String,
    },
    Select { condition: Operand, true_value: Operand, false_value: Operand, dest: LocalName },
    Store { address: Operand, value: Operand, alignment: u32 },
    Load { address: Operand, dest: LocalName, alignment: u32 },
    Add(Binary),
    Sub(Binary),
    Mul(Binary),
    SDiv(Binary),
    SRem(Binary),
    UDiv(Binary),
    URem(Binary),
    ICmp { predicate: IntPredicate, operand0: Operand, operand1: Operand, dest: LocalName },
    Phi { incoming: Vec<PhiIncoming>, to_type: IrType, dest: LocalName },
    Call { target: CallTarget, arguments: Vec<Argument>, dest: Option<LocalName> },
    BitCast { operand: Operand, to_type: IrType, dest: LocalName },
    Trunc { operand: Operand, to_type: IrType, dest: LocalName },
    ExtractValue { aggregate: Operand, indices: Vec<u32>, dest: LocalName },
    InsertValue { aggregate: Operand, element: Operand, indices: Vec<u32>, dest: LocalName },
    SExt { operand: Operand, to_type: IrType, dest: LocalName },
    ZExt { operand: Operand, to_type: IrType, dest: LocalName },
    Or(Binary),
    And(Binary),
    Xor(Binary),
    Shl(Binary),
    LShr(Binary),
    AShr(Binary),
    PtrToInt { operand: Operand, to_type: IrType, dest: LocalName },
    IntToPtr { operand: Operand, to_type: IrType, dest: LocalName },
    ShuffleVector { operand0: Operand, operand1: Operand, mask: Constant, dest: LocalName },
    ExtractElement { vector: Operand, index: Operand, dest: LocalName },
    InsertElement { vector: Operand, element: Operand, index: Operand, dest: LocalName },
    /// An atomic compare and exchange.
    CompareExchange,
    /// A conversion that involves a floating-point type.
    FpConvert { kind: FpConversion, operand: Operand, to_type: IrType, dest: LocalName },
    LandingPad { result_type: IrType, dest: LocalName },
    AtomicRmw { operation: RmwOp, address: Operand, value: Operand },
    FAdd,
    FSub,
    FMul(Binary),
    FDiv(Binary),
    FCmp { predicate: FpPredicate, operand0: Operand, operand1: Operand },
    /// Any other instruction.
    Other,
}

/// A result with no commands after a call.
pub open spec fn plain(r: (Seq<CommandV>, nat)) -> CallOutV {
    (r.0, None, r.1)
}

/// The commands of an instruction in a function whose blocks are named
/// `names`: the commands before a call, the commands after it when the
/// instruction is a call that returns to a separate block, and the counter
/// after. Instructions that are not compiled give no commands.
pub open spec fn instr_v(instr: Instruction, names: Seq<LocalNameV>, g: Seq<(LocalName, u32)>, tys: Types, n: nat) -> CallOutV {
    match instr {
        Instruction::Alloca { allocated_type, count, dest } => (
            alloca_v(stack_size(allocated_type, tys), count, local_word_name(dest@, 0)),
            None,
            n,
        ),
        Instruction::GetElementPtr { address, indices, dest, address_text, indices_text } => plain(
            gep_v(address, indices@, dest@, address_text@, indices_text@, g, tys, n),
        ),
        Instruction::Select { condition, true_value, false_value, dest } => plain(
            select_v(condition, true_value, false_value, dest@, g, tys, n),
        ),
        Instruction::Store { address, value, alignment } => plain(store_v(address, value, alignment, g, tys, n)),
        Instruction::Load { address, dest, alignment } => plain(load_v(dest@, address, alignment, g, tys, n)),
        Instruction::Add(b) => plain(arithmetic_v(b.operand0, b.operand1, b.dest@, ScoreOpKind::AddAssign, g, tys, n)),
        Instruction::Sub(b) => plain(arithmetic_v(b.operand0, b.operand1, b.dest@, ScoreOpKind::SubAssign, g, tys, n)),
        Instruction::Mul(b) => plain(arithmetic_v(b.operand0, b.operand1, b.dest@, ScoreOpKind::MulAssign, g, tys, n)),
        Instruction::SDiv(b) => plain(arithmetic_v(b.operand0, b.operand1, b.dest@, ScoreOpKind::DivAssign, g, tys, n)),
        Instruction::SRem(b) => plain(arithmetic_v(b.operand0, b.operand1, b.dest@, ScoreOpKind::ModAssign, g, tys, n)),
        Instruction::UDiv(b) => plain(unsigned_div_v(false, b.operand0, b.operand1, b.dest@, g, tys, n)),
        Instruction::URem(b) => plain(unsigned_div_v(true, b.operand0, b.operand1, b.dest@, g, tys, n)),
        Instruction::ICmp { predicate, operand0, operand1, dest } => plain(
            compare_v(predicate, operand0, operand1, dest@, g, tys, n),
        ),
        Instruction::Phi { incoming, to_type, dest } => plain(phi_v(incoming@, to_type, dest@, names, g, tys, n)),
        Instruction::Call { target, arguments, dest } => compiled_call_v(target, arguments@, dest_view(dest), g, tys, n),
        Instruction::BitCast { operand, dest, .. } => plain(copy_word_v(operand, dest@, g, tys, n)),
        Instruction::Trunc { operand, to_type, dest } => plain(trunc_v(operand, to_type, dest@, g, tys, n)),
        Instruction::ExtractValue { aggregate, indices, dest } => plain(
            extract_value_v(aggregate, indices@[0], dest@, g, tys, n),
        ),
        Instruction::InsertValue { aggregate, element, indices, dest } => plain(
            insert_value_v(aggregate, element, indices@[0], dest@, g, tys, n),
        ),
        Instruction::SExt { operand, to_type, dest } => plain(sext_v(operand, to_type, dest@, g, tys, n)),
        Instruction::ZExt { operand, to_type, dest } => plain(zext_v(operand, to_type, dest@, g, tys, n)),
        Instruction::Or(b) => plain(and_or_v(BitOp::Or, b.operand0, b.operand1, b.dest@, g, tys, n)),
        Instruction::And(b) => plain(and_or_v(BitOp::And, b.operand0, b.operand1, b.dest@, g, tys, n)),
        Instruction::Xor(b) => plain(xor_v(b.operand0, b.operand1, b.dest@, g, tys, n)),
        Instruction::Shl(b) => plain(shl_v(b.operand0, b.operand1, b.dest@, g, tys, n)),
        Instruction::LShr(b) => plain(lshr_v(b.operand0, b.operand1, b.dest@, g, tys, n)),
        Instruction::AShr(b) => plain(ashr_v(b.operand0, b.operand1, b.dest@, g, tys, n)),
        Instruction::PtrToInt { operand, to_type, dest } => plain(ptrtoint_v(operand, to_type, dest@, g, tys, n)),
        Instruction::IntToPtr { operand, dest, .. } => plain(copy_word_v(operand, dest@, g, tys, n)),
        Instruction::ShuffleVector { operand0, operand1, mask, dest } => plain(
            shuffle_v(operand0, operand1, mask, dest@, g, tys, n),
        ),
        Instruction::ExtractElement { vector, index, dest } => plain(
            extract_element_v(vector, index, dest@, g, tys, n),
        ),
        Instruction::InsertElement { vector, element, index, dest } => plain(
            insert_element_v(vector, element, index, dest@, g, tys, n),
        ),
        Instruction::FpConvert { kind, operand, to_type, dest } => plain(
            conversion_v(kind, operand, to_type, dest@, g, tys, n),
        ),
        Instruction::LandingPad { result_type, dest } => (landing_pad_v(result_type, dest@), None, n),
        Instruction::AtomicRmw { address, value, .. } => plain(atomic_rmw_v(address, value, g, tys, n)),
        Instruction::FMul(b) => plain(fp_binary_v(false, b.operand0, b.operand1, b.dest@, g, tys, n)),
        Instruction::FDiv(b) => plain(fp_binary_v(true, b.operand0, b.operand1, b.dest@, g, tys, n)),
        Instruction::FCmp { operand0, operand1, .. } => plain(fp_compare_v(operand0, operand1, g, tys, n)),
        _ => (Seq::empty(), None, n),
    }
}

/// Whether an allocation of `count` values of `ty` on the stack can be
/// compiled.
pub open spec fn alloca_ok(ty: IrType, count: AllocaCount, tys: Types) -> bool {
    &&& layout_fits(ty, tys.named@, tys.named@.len())
    &&& stack_size(ty, tys) <= crate::layout::size_limit()
    &&& alloca_count_ok(count)
    &&& count matches AllocaCount::Constant { value, .. } ==> i32::MIN <= (stack_size(ty, tys) as i32) * ((
    value as u32) as i32) <= i32::MAX
}

/// Whether an instruction can be compiled: what the compilation of each
/// kind of instruction needs.
pub open spec fn instr_ok(instr: Instruction, names: Seq<LocalNameV>, g: Seq<(LocalName, u32)>, tys: Types, n: nat) -> bool {
    match instr {
        Instruction::Alloca { allocated_type, count, .. } => alloca_ok(allocated_type, count, tys),
        Instruction::GetElementPtr { address, indices, dest, .. } => gep_ok(address, indices@, dest@, g, tys, n),
        Instruction::Select { condition, true_value, false_value, .. } => select_ok(
            condition,
            true_value,
            false_value,
            g,
            tys,
            n,
        ),
        Instruction::Store { address, value, alignment } => store_ok(address, value, alignment, g, tys, n),
        Instruction::Load { address, alignment, .. } => load_ok(address, alignment, g, tys, n),
        Instruction::Add(b) => arithmetic_ok(b.operand0, b.operand1, ScoreOpKind::AddAssign, g, tys, n),
        Instruction::Sub(b) => arithmetic_ok(b.operand0, b.operand1, ScoreOpKind::SubAssign, g, tys, n),
        Instruction::Mul(b) => arithmetic_ok(b.operand0, b.operand1, ScoreOpKind::MulAssign, g, tys, n),
        Instruction::SDiv(b) => arithmetic_ok(b.operand0, b.operand1, ScoreOpKind::DivAssign, g, tys, n),
        Instruction::SRem(b) => arithmetic_ok(b.operand0, b.operand1, ScoreOpKind::ModAssign, g, tys, n),
        Instruction::UDiv(b) | Instruction::URem(b) => unsigned_div_ok(b.operand0, b.operand1, g, tys, n),
        Instruction::ICmp { predicate, operand0, operand1, .. } => compare_ok(predicate, operand0, operand1, g, tys, n),
        Instruction::Phi { incoming, to_type, .. } => phi_ok(incoming@, to_type, names, g, tys, n),
        Instruction::Call { target, arguments, dest } => compiled_call_ok(target, arguments@, dest_view(dest), g, tys, n),
        Instruction::BitCast { operand, to_type, .. } => bitcast_ok(operand, to_type, g, tys, n),
        Instruction::Trunc { operand, to_type, .. } => trunc_ok(operand, to_type, g, tys, n),
        Instruction::ExtractValue { aggregate, indices, .. } => extract_value_ok(aggregate, indices@, g, tys, n),
        Instruction::InsertValue { aggregate, element, indices, .. } => insert_value_ok(
            aggregate,
            element,
            indices@,
            g,
            tys,
            n,
        ),
        Instruction::SExt { operand, to_type, .. } => sext_ok(operand, to_type, g, tys, n),
        Instruction::ZExt { operand, to_type, .. } => zext_ok(operand, to_type, g, tys, n),
        Instruction::Or(b) | Instruction::And(b) => and_or_ok(b.operand0, b.operand1, g, tys, n),
        Instruction::Xor(b) => xor_ok(b.operand0, b.operand1, g, tys, n),
        Instruction::Shl(b) => shl_ok(b.operand0, b.operand1, g, tys, n),
        Instruction::LShr(b) => lshr_ok(b.operand0, b.operand1, g, tys, n),
        Instruction::AShr(b) => ashr_ok(b.operand0, b.operand1, g, tys, n),
        Instruction::PtrToInt { operand, to_type, .. } => ptrtoint_ok(operand, to_type, g, tys, n),
        Instruction::IntToPtr { operand, to_type, .. } => inttoptr_ok(operand, to_type, g, tys, n),
        Instruction::ShuffleVector { operand0, operand1, mask, .. } => shuffle_ok(operand0, operand1, mask, g, tys, n),
        Instruction::ExtractElement { vector, index, .. } => extract_element_ok(vector, index, g, tys, n),
        Instruction::InsertElement { vector, element, index, .. } => insert_element_ok(
            vector,
            element,
            index,
            g,
            tys,
            n,
        ),
        Instruction::FpConvert { kind, operand, to_type, .. } => conversion_ok(kind, operand, to_type, g, tys, n),
        Instruction::LandingPad { result_type, .. } => landing_pad_ok(result_type),
        Instruction::AtomicRmw { operation, address, value } => atomic_rmw_ok(operation, address, value, g, tys, n),
        Instruction::FMul(b) | Instruction::FDiv(b) => fp_binary_ok(b.operand0, b.operand1, g, tys, n),
        Instruction::FCmp { predicate, operand0, operand1 } => fp_compare_ok(predicate, operand0, operand1, g, tys, n),
        _ => true,
    }
}

fn plain_exec(cmds: Vec<Command>) -> (r: (Vec<Command>, Option<Vec<Command>>))
    ensures
        r.0 == cmds,
        r.1 is None,
{
    (cmds, None)
}

/// Compiles one instruction of a function whose blocks are named
/// `block_names`: the commands before a call, and the commands after it
/// when the instruction is a call that returns to a separate block.
#[verifier::rlimit(100)]
pub fn compile_instr(
    instr: &Instruction,
    block_names: &Vec<LocalName>,
    globals: &GlobalTable,
    tys: &Types,
    counter: &mut TempCounter,
) -> (r: (Vec<Command>, Option<Vec<Command>>))
    requires
        instr_ok(
            *instr,
            block_names@.map_values(|x: LocalName| x@),
            globals.addrs@,
            *tys,
            old(counter).next as nat,
        ),
    ensures
        call_out_is(
            r,
            final(counter).next as nat,
            instr_v(
                *instr,
                block_names@.map_values(|x: LocalName| x@),
                globals.addrs@,
                *tys,
                old(counter).next as nat,
            ),
        ),
{
    match instr {
        Instruction::Alloca { allocated_type, count, dest } => {
            plain_exec(compile_alloca(allocated_type, count, dest.duplicate(), tys))
        },
        Instruction::GetElementPtr { address, indices, dest, address_text, indices_text } => {
            plain_exec(
                compile_getelementptr(
                    address,
                    indices,
                    dest,
                    address_text.as_str(),
                    indices_text.as_str(),
                    globals,
                    tys,
                    counter,
                ),
            )
        },
        Instruction::Select { condition, true_value, false_value, dest } => {
            plain_exec(compile_select(condition, true_value, false_value, dest.duplicate(), globals, tys, counter))
        },
        Instruction::Store { address, value, alignment } => {
            plain_exec(compile_store(address, value, *alignment, globals, tys, counter))
        },
        Instruction::Load { address, dest, alignment } => {
            plain_exec(compile_load(dest, address, *alignment, globals, tys, counter))
        },
        Instruction::Add(b) => plain_exec(
            compile_arithmetic(&b.operand0, &b.operand1, &b.dest, ScoreOpKind::AddAssign, globals, tys, counter),
        ),
        Instruction::Sub(b) => plain_exec(
            compile_arithmetic(&b.operand0, &b.operand1, &b.dest, ScoreOpKind::SubAssign, globals, tys, counter),
        ),
        Instruction::Mul(b) => plain_exec(
            compile_arithmetic(&b.operand0, &b.operand1, &b.dest, ScoreOpKind::MulAssign, globals, tys, counter),
        ),
        Instruction::SDiv(b) => plain_exec(
            compile_arithmetic(&b.operand0, &b.operand1, &b.dest, ScoreOpKind::DivAssign, globals, tys, counter),
        ),
        Instruction::SRem(b) => plain_exec(
            compile_arithmetic(&b.operand0, &b.operand1, &b.dest, ScoreOpKind::ModAssign, globals, tys, counter),
        ),
        Instruction::UDiv(b) => plain_exec(
            compile_unsigned_div(false, &b.operand0, &b.operand1, b.dest.duplicate(), globals, tys, counter),
        ),
        Instruction::URem(b) => plain_exec(
            compile_unsigned_div(true, &b.operand0, &b.operand1, b.dest.duplicate(), globals, tys, counter),
        ),
        Instruction::ICmp { predicate, operand0, operand1, dest } => plain_exec(
            compile_int_compare(*predicate, operand0, operand1, dest.duplicate(), globals, tys, counter),
        ),
        Instruction::Phi { incoming, to_type, dest } => plain_exec(
            compile_phi(incoming, to_type, dest.duplicate(), block_names, globals, tys, counter),
        ),
        Instruction::Call { target, arguments, dest } => {
            let d = match dest {
                Some(dn) => Some(dn.duplicate()),
                None => None,
            };
            assert(dest_view(d) == dest_view(*dest));
            compile_call(target, arguments, d, globals, tys, counter)
        },
        Instruction::BitCast { operand, to_type, dest } => plain_exec(
            compile_bitcast(operand, to_type, dest.duplicate(), globals, tys, counter),
        ),
        Instruction::Trunc { operand, to_type, dest } => plain_exec(
            compile_trunc(operand, to_type, dest.duplicate(), globals, tys, counter),
        ),
        Instruction::ExtractValue { aggregate, indices, dest } => plain_exec(
            compile_extract_value(aggregate, indices, dest.duplicate(), globals, tys, counter),
        ),
        Instruction::InsertValue { aggregate, element, indices, dest } => plain_exec(
            compile_insert_value(aggregate, element, indices, dest.duplicate(), globals, tys, counter),
        ),
        Instruction::SExt { operand, to_type, dest } => plain_exec(
            compile_sext(operand, to_type, dest.duplicate(), globals, tys, counter),
        ),
        Instruction::ZExt { operand, to_type, dest } => plain_exec(
            compile_zext(operand, to_type, dest.duplicate(), globals, tys, counter),
        ),
        Instruction::Or(b) => plain_exec(
            compile_and_or(BitOp::Or, &b.operand0, &b.operand1, b.dest.duplicate(), globals, tys, counter),
        ),
        Instruction::And(b) => plain_exec(
            compile_and_or(BitOp::And, &b.operand0, &b.operand1, b.dest.duplicate(), globals, tys, counter),
        ),
        Instruction::Xor(b) => plain_exec(
            compile_xor(&b.operand0, &b.operand1, b.dest.duplicate(), globals, tys, counter),
        ),
        Instruction::Shl(b) => plain_exec(compile_shl(&b.operand0, &b.operand1, &b.dest, globals, tys, counter)),
        Instruction::LShr(b) => plain_exec(compile_lshr(&b.operand0, &b.operand1, &b.dest, globals, tys, counter)),
        Instruction::AShr(b) => plain_exec(compile_ashr(&b.operand0, &b.operand1, &b.dest, globals, tys, counter)),
        Instruction::PtrToInt { operand, to_type, dest } => plain_exec(
            compile_ptrtoint(operand, to_type, dest.duplicate(), globals, tys, counter),
        ),
        Instruction::IntToPtr { operand, to_type, dest } => plain_exec(
            compile_inttoptr(operand, to_type, dest.duplicate(), globals, tys, counter),
        ),
        Instruction::ShuffleVector { operand0, operand1, mask, dest } => plain_exec(
            compile_shuffle_vector(operand0, operand1, mask, dest.duplicate(), globals, tys, counter),
        ),
        Instruction::ExtractElement { vector, index, dest } => plain_exec(
            compile_extract_element(vector, index, dest.duplicate(), globals, tys, counter),
        ),
        Instruction::InsertElement { vector, element, index, dest } => plain_exec(
            compile_insert_element(vector, element, index, dest.duplicate(), globals, tys, counter),
        ),
        Instruction::FpConvert { kind, operand, to_type, dest } => plain_exec(
            compile_fp_conversion(*kind, operand, to_type, dest.duplicate(), globals, tys, counter),
        ),
        Instruction::LandingPad { result_type, dest } => plain_exec(
            compile_landing_pad(result_type, dest.duplicate()),
        ),
        Instruction::AtomicRmw { operation, address, value } => plain_exec(
            compile_atomic_rmw(*operation, address, value, globals, tys, counter),
        ),
        Instruction::FMul(b) => plain_exec(
            compile_fp_binary(false, &b.operand0, &b.operand1, b.dest.duplicate(), globals, tys, counter),
        ),
        Instruction::FDiv(b) => plain_exec(
            compile_fp_binary(true, &b.operand0, &b.operand1, b.dest.duplicate(), globals, tys, counter),
        ),
        Instruction::FCmp { predicate, operand0, operand1 } => plain_exec(
            compile_fp_compare(*predicate, operand0, operand1, globals, tys, counter),
        ),
        _ => {
            let v: Vec<Command> = Vec::new();
            assert(commands_view(v@) =~= Seq::<CommandV>::empty());
            (v, None)
        },
    }
}

/// Only a call can end a block: every instruction that is not a call
/// compiles into commands that stay in the current block.
pub proof fn lemma_only_calls_split(
    instr: Instruction,
    names: Seq<LocalNameV>,
    g: Seq<(LocalName, u32)>,
    tys: Types,
    n: nat,
)
    requires
        !(instr is Call),
    ensures
        instr_v(instr, names, g, tys, n).1 is None,
{
}

} // verus!
