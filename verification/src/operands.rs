//! Operands of instructions and how they are brought into holders.
use vstd::prelude::*;
use crate::cir::{Command, CommandV, ScoreHolder, commands_view};
use crate::constants::{Constant, GlobalTable, eval_const_ok, eval_const_spec, eval_constant};
use crate::layout::{IrType, Types, layout_fits, type_layout, type_layout_spec};
use crate::locals::{LocalName, local_word_name, word_count};
use crate::memory::{MaybeConst, MaybeConstV, TempCounter, force_v};

verus! {

/// An operand of an instruction: a local value of some type, or a
/// constant.
#[derive(Debug, PartialEq, Eq)]
pub enum Operand {
    Local { name: LocalName, ty: IrType },
    Constant { value: Constant, ty: IrType },
    /// Metadata and the other operands that are not evaluated.
    Other,
}

/// The type of an operand, when it has one.
pub open spec fn operand_type(op: Operand) -> Option<IrType> {
    match op {
        Operand::Local { ty, .. } => Some(ty),
        Operand::Constant { ty, .. } => Some(ty),
        Operand::Other => None,
    }
}

/// The type of an operand, when it has one.
pub fn type_of(op: &Operand) -> (r: Option<&IrType>)
    ensures
        match r {
            Some(t) => operand_type(*op) == Some(*t),
            None => operand_type(*op) is None,
        },
{
    match op {
        Operand::Local { ty, .. } => Some(ty),
        Operand::Constant { ty, .. } => Some(ty),
        Operand::Other => None,
    }
}

/// An argument of a call: its value, and the alignment its attributes
/// promise, if they promise one.
#[derive(Debug, PartialEq, Eq)]
pub struct Argument {
    pub value: Operand,
    pub align: Option<u64>,
}

/// The holders of the words of a local of `size` bytes.
pub open spec fn local_words(name: crate::locals::LocalNameV, size: nat) -> Seq<Seq<char>> {
    Seq::new(word_count(size), |i: int| local_word_name(name, i as nat))
}

/// What an operand becomes with the counter at `n`: a local is its
/// holders, with no commands; a constant is evaluated.
pub open spec fn eval_operand_spec(op: Operand, g: Seq<(LocalName, u32)>, tys: Types, n: nat) -> (
    MaybeConstV,
    nat,
) {
    match op {
        Operand::Local { name, ty } => (
            MaybeConstV::NonConst(
                Seq::empty(),
                local_words(name@, type_layout_spec(ty, tys).unwrap().size as nat),
            ),
            n,
        ),
        Operand::Constant { value, .. } => eval_const_spec(value, g, tys, n),
        Operand::Other => (MaybeConstV::Const(0), n),
    }
}

/// Whether an operand can be evaluated with the counter at `n`, the
/// counter staying within 32 bits.
pub open spec fn operand_ok(op: Operand, g: Seq<(LocalName, u32)>, tys: Types, n: nat) -> bool {
    match op {
        Operand::Local { ty, .. } => layout_fits(ty, tys.named@, tys.named@.len()),
        Operand::Constant { value, .. } => eval_const_ok(value, g, tys, n) && eval_const_spec(
            value,
            g,
            tys,
            n,
        ).1 <= u32::MAX,
        Operand::Other => false,
    }
}

/// The operand as a score or as holders set by commands.
pub fn eval_maybe_const(
    op: &Operand,
    globals: &GlobalTable,
    tys: &Types,
    counter: &mut TempCounter,
) -> (r: MaybeConst)
    requires
        operand_ok(*op, globals.addrs@, *tys, old(counter).next as nat),
    ensures
        (r@, final(counter).next as nat) == eval_operand_spec(
            *op,
            globals.addrs@,
            *tys,
            old(counter).next as nat,
        ),
{
    match op {
        Operand::Local { name, ty } => {
            let l = type_layout(ty, tys);
            let holders = ScoreHolder::from_local_name(name.duplicate(), l.size);
            let cmds: Vec<Command> = Vec::new();
            assert(holders@.map_values(|x: ScoreHolder| x@) =~= local_words(name@, l.size as nat));
            assert(commands_view(cmds@) =~= Seq::<CommandV>::empty());
            MaybeConst::NonConst(cmds, holders)
        },
        Operand::Constant { value, .. } => eval_constant(value, globals, tys, counter),
        Operand::Other => MaybeConst::Const(0),
    }
}

/// What `eval_operand` gives: the operand forced into holders.
pub open spec fn eval_operand_v(op: Operand, g: Seq<(LocalName, u32)>, tys: Types, n: nat) -> (
    Seq<CommandV>,
    Seq<Seq<char>>,
    nat,
) {
    let e = eval_operand_spec(op, g, tys, n);
    force_v(e.0, e.1)
}

/// Whether `eval_operand` can bring the operand into holders.
pub open spec fn eval_operand_ok(op: Operand, g: Seq<(LocalName, u32)>, tys: Types, n: nat) -> bool {
    &&& operand_ok(op, g, tys, n)
    &&& eval_operand_v(op, g, tys, n).2 <= u32::MAX
}

/// The operand in holders: the commands that set them, and the holders.
pub fn eval_operand(
    op: &Operand,
    globals: &GlobalTable,
    tys: &Types,
    counter: &mut TempCounter,
) -> (r: (Vec<Command>, Vec<ScoreHolder>))
    requires
        eval_operand_ok(*op, globals.addrs@, *tys, old(counter).next as nat),
    ensures
        (commands_view(r.0@), r.1@.map_values(|x: ScoreHolder| x@), final(counter).next as nat)
            == eval_operand_v(*op, globals.addrs@, *tys, old(counter).next as nat),
{
    let m = eval_maybe_const(op, globals, tys, counter);
    m.force_eval(counter)
}

/// The value of an operand that is an integer constant of `bits` bits.
pub open spec fn as_const_int_spec(bits: u32, op: Operand) -> Option<u64> {
    match op {
        Operand::Constant { value: Constant::Int { bits: b, value }, .. } => if b == bits {
            Some(value)
        } else {
            None
        },
        _ => None,
    }
}

/// The value of an operand that is an integer constant of `bits` bits.
pub fn as_const_int(bits: u32, op: &Operand) -> (r: Option<u64>)
    ensures
        r == as_const_int_spec(bits, *op),
{
    match op {
        Operand::Constant { value: Constant::Int { bits: b, value }, .. } => {
            if *b == bits {
                Some(*value)
            } else {
                None
            }
        },
        _ => None,
    }
}

/// The value of an operand that is a 64-bit integer constant.
pub fn as_const_64(op: &Operand) -> (r: Option<u64>)
    ensures
        r == as_const_int_spec(64, *op),
{
    as_const_int(64, op)
}

/// The value of an operand that is a 32-bit integer constant.
pub fn as_const_32(op: &Operand) -> (r: Option<u32>)
    ensures
        r == match as_const_int_spec(32, *op) {
            Some(v) => Some(v as u32),
            None => None::<u32>,
        },
{
    match as_const_int(32, op) {
        Some(v) => Some(v as u32),
        None => None,
    }
}

} // verus!
