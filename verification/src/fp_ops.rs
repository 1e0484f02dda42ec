//! Instructions on floating-point values. The values are held as their
//! bit patterns in words, and the arithmetic and the conversions are done
//! by intrinsics: these instructions only move words in and out of the
//! intrinsics' parameters.
use vstd::prelude::*;
use crate::cir::{Command, CommandV, ScoreHolder, commands_view};
use crate::constants::GlobalTable;
use crate::layout::{FpKind, IrType, Types};
use crate::locals::{LocalName, LocalNameV, local_word_name};
use crate::memory::TempCounter;
use crate::operands::{Operand, eval_operand, eval_operand_ok, eval_operand_v, local_words, operand_type, type_of};
use crate::ops::{eval_operands, operands_ok, operands_v};
use crate::registers::{assign, assign_v, call, call_v, param, param_name, return_holder, return_name};

verus! {

/// The commands that pass the first `ins` words of `op` in the words of
/// the first parameter, call `name`, and copy the first `outs` words of
/// the first parameter into `d`.
pub open spec fn through_intrinsic_v(
    op: Seq<Seq<char>>,
    ins: nat,
    name: Seq<char>,
    d: Seq<Seq<char>>,
    outs: nat,
) -> Seq<CommandV> {
    Seq::new(ins, |i: int| assign_v(param_name(0, i as nat), op[i])) + seq![call_v(name)] + Seq::new(
        outs,
        |i: int| assign_v(d[i], param_name(0, i as nat)),
    )
}

fn through_intrinsic(
    cmds: &mut Vec<Command>,
    op: &Vec<ScoreHolder>,
    ins: usize,
    name: &str,
    d: &Vec<ScoreHolder>,
    outs: usize,
)
    requires
        ins <= op@.len(),
        outs <= d@.len(),
    ensures
        commands_view(final(cmds)@) == commands_view(old(cmds)@) + through_intrinsic_v(
            op@.map_values(|x: ScoreHolder| x@),
            ins as nat,
            name@,
            d@.map_values(|x: ScoreHolder| x@),
            outs as nat,
        ),
{
    let ghost start = commands_view(cmds@);
    let ghost vo = op@.map_values(|x: ScoreHolder| x@);
    let ghost vd = d@.map_values(|x: ScoreHolder| x@);
    let mut i: usize = 0;
    while i < ins
        invariant
            i <= ins <= op@.len(),
            vo == op@.map_values(|x: ScoreHolder| x@),
            commands_view(cmds@) == start + Seq::new(
                i as nat,
                |k: int| assign_v(param_name(0, k as nat), vo[k]),
            ),
        decreases ins - i,
    {
        let c = assign(param(0, i), op[i].clone());
        assert(c@ == assign_v(param_name(0, i as nat), vo[i as int]));
        let ghost before = commands_view(cmds@);
        cmds.push(c);
        assert(commands_view(cmds@) =~= before.push(c@));
        assert(Seq::new((i + 1) as nat, |k: int| assign_v(param_name(0, k as nat), vo[k])) =~= Seq::new(
            i as nat,
            |k: int| assign_v(param_name(0, k as nat), vo[k]),
        ).push(c@));
        i = i + 1;
    }
    let ghost passed = commands_view(cmds@);
    let c = call(name);
    cmds.push(c);
    assert(commands_view(cmds@) =~= passed.push(c@));
    let ghost called = commands_view(cmds@);
    let mut j: usize = 0;
    while j < outs
        invariant
            j <= outs <= d@.len(),
            vd == d@.map_values(|x: ScoreHolder| x@),
            commands_view(cmds@) == called + Seq::new(
                j as nat,
                |k: int| assign_v(vd[k], param_name(0, k as nat)),
            ),
        decreases outs - j,
    {
        let c = assign(d[j].clone(), param(0, j));
        assert(c@ == assign_v(vd[j as int], param_name(0, j as nat)));
        let ghost before = commands_view(cmds@);
        cmds.push(c);
        assert(commands_view(cmds@) =~= before.push(c@));
        assert(Seq::new((j + 1) as nat, |k: int| assign_v(vd[k], param_name(0, k as nat))) =~= Seq::new(
            j as nat,
            |k: int| assign_v(vd[k], param_name(0, k as nat)),
        ).push(c@));
        j = j + 1;
    }
    assert(commands_view(cmds@) =~= start + through_intrinsic_v(vo, ins as nat, name@, vd, outs as nat));
}

// ----------------------------------------------------------------------
// Conversions
// ----------------------------------------------------------------------

/// The conversions between floating-point values and integers, and
/// between floating-point formats.
#[derive(Debug, Clone, Copy, PartialEq, Eq)]
pub enum FpConversion {
    Extend,
    Truncate,
    UnsignedToFp,
    SignedToFp,
    FpToUnsigned,
    FpToSigned,
}

/// How a conversion from `from` to `to` is done, when it is supported: the
/// number of words passed in, the intrinsic, the number of words of the
/// result, and the size of the result in bytes.
pub open spec fn conversion_plan(kind: FpConversion, from: IrType, to: IrType) -> Option<(nat, Seq<char>, nat, nat)> {
    let i32t = IrType::Integer { bits: 32 };
    let i64t = IrType::Integer { bits: 64 };
    let single = IrType::FP(FpKind::Single);
    let double = IrType::FP(FpKind::Double);
    match kind {
        FpConversion::Extend => if from == single && to == double {
            Some((1, "intrinsic:fext/stod"@, 2, 8))
        } else {
            None
        },
        FpConversion::Truncate => if from == double && to == single {
            Some((2, "intrinsic:dtos"@, 1, 4))
        } else {
            None
        },
        FpConversion::UnsignedToFp => if from == i32t && to == single {
            Some((1, "intrinsic:utof"@, 1, 4))
        } else if from == i64t && to == single {
            Some((2, "intrinsic:u64tof"@, 1, 4))
        } else if from == i64t && to == double {
            Some((2, "intrinsic:u64tod"@, 2, 8))
        } else {
            None
        },
        FpConversion::SignedToFp => if from == i32t && to == double {
            Some((1, "intrinsic:itod"@, 2, 8))
        } else {
            None
        },
        FpConversion::FpToUnsigned => if from == single && to == i32t {
            Some((1, "intrinsic:ftou32"@, 1, 4))
        } else if from == single && to == i64t {
            Some((1, "intrinsic:ftou64"@, 2, 8))
        } else {
            None
        },
        FpConversion::FpToSigned => if from == single && to == i32t {
            Some((1, "intrinsic:ftoi32"@, 1, 4))
        } else {
            None
        },
    }
}

fn is_fp(t: &IrType, k: FpKind) -> (r: bool)
    ensures
        r == (*t == IrType::FP(k)),
{
    match t {
        IrType::FP(j) => *j == k,
        _ => false,
    }
}

fn conversion_plan_exec(kind: FpConversion, from: &IrType, to: &IrType) -> (r: Option<(usize, &'static str, usize, usize)>)
    ensures
        match r {
            Some((i, name, o, s)) => conversion_plan(kind, *from, *to) == Some((i as nat, name@, o as nat, s as nat)),
            None => conversion_plan(kind, *from, *to) is None,
        },
{
    let i32f = crate::ops::is_int_type(from, 32);
    let i64f = crate::ops::is_int_type(from, 64);
    let i32t = crate::ops::is_int_type(to, 32);
    let i64t = crate::ops::is_int_type(to, 64);
    let single_f = is_fp(from, FpKind::Single);
    let double_f = is_fp(from, FpKind::Double);
    let single_t = is_fp(to, FpKind::Single);
    let double_t = is_fp(to, FpKind::Double);
    match kind {
        FpConversion::Extend => if single_f && double_t {
            Some((1, "intrinsic:fext/stod", 2, 8))
        } else {
            None
        },
        FpConversion::Truncate => if double_f && single_t {
            Some((2, "intrinsic:dtos", 1, 4))
        } else {
            None
        },
        FpConversion::UnsignedToFp => if i32f && single_t {
            Some((1, "intrinsic:utof", 1, 4))
        } else if i64f && single_t {
            Some((2, "intrinsic:u64tof", 1, 4))
        } else if i64f && double_t {
            Some((2, "intrinsic:u64tod", 2, 8))
        } else {
            None
        },
        FpConversion::SignedToFp => if i32f && double_t {
            Some((1, "intrinsic:itod", 2, 8))
        } else {
            None
        },
        FpConversion::FpToUnsigned => if single_f && i32t {
            Some((1, "intrinsic:ftou32", 1, 4))
        } else if single_f && i64t {
            Some((1, "intrinsic:ftou64", 2, 8))
        } else {
            None
        },
        FpConversion::FpToSigned => if single_f && i32t {
            Some((1, "intrinsic:ftoi32", 1, 4))
        } else {
            None
        },
    }
}

/// The commands of `dest = <kind> operand to to_type` and the counter
/// after. A supported conversion brings the operand into holders and goes
/// through its intrinsic; an unsupported one gives no commands, having
/// evaluated the operand first except for a truncation.
pub open spec fn conversion_v(
    kind: FpConversion,
    operand: Operand,
    to_type: IrType,
    dest: LocalNameV,
    g: Seq<(LocalName, u32)>,
    tys: Types,
    n: nat,
) -> (Seq<CommandV>, nat) {
    let e = eval_operand_v(operand, g, tys, n);
    match conversion_plan(kind, operand_type(operand).unwrap(), to_type) {
        Some((ins, name, outs, size)) => (
            e.0 + through_intrinsic_v(e.1, ins, name, local_words(dest, size), outs),
            e.2,
        ),
        None => if kind == FpConversion::Truncate {
            (Seq::empty(), n)
        } else {
            (Seq::empty(), e.2)
        },
    }
}

/// Whether a conversion can be compiled: the operand evaluates when it is
/// evaluated, and has the words that are passed in.
pub open spec fn conversion_ok(
    kind: FpConversion,
    operand: Operand,
    to_type: IrType,
    g: Seq<(LocalName, u32)>,
    tys: Types,
    n: nat,
) -> bool {
    let plan = conversion_plan(kind, operand_type(operand).unwrap(), to_type);
    &&& operand_type(operand) is Some
    &&& (kind != FpConversion::Truncate || plan is Some) ==> eval_operand_ok(operand, g, tys, n)
    &&& plan matches Some((ins, _, _, _)) ==> eval_operand_v(operand, g, tys, n).1.len() >= ins
}

/// Compiles a conversion of `operand` to `to_type` into `dest`.
pub fn compile_fp_conversion(
    kind: FpConversion,
    operand: &Operand,
    to_type: &IrType,
    dest: LocalName,
    globals: &GlobalTable,
    tys: &Types,
    counter: &mut TempCounter,
) -> (r: Vec<Command>)
    requires
        conversion_ok(kind, *operand, *to_type, globals.addrs@, *tys, old(counter).next as nat),
    ensures
        (commands_view(r@), final(counter).next as nat) == conversion_v(
            kind,
            *operand,
            *to_type,
            dest@,
            globals.addrs@,
            *tys,
            old(counter).next as nat,
        ),
{
    let ghost dv = dest@;
    let from = match type_of(operand) {
        Some(t) => t,
        None => {
            return Vec::new();
        },
    };
    match conversion_plan_exec(kind, from, to_type) {
        Some((ins, name, outs, size)) => {
            let (mut cmds, op) = eval_operand(operand, globals, tys, counter);
            let d = ScoreHolder::from_local_name(dest, size);
            assert(d@.map_values(|x: ScoreHolder| x@) =~= local_words(dv, size as nat));
            through_intrinsic(&mut cmds, &op, ins, name, &d, outs);
            cmds
        },
        None => {
            match kind {
                FpConversion::Truncate => {},
                _ => {
                    let _ = eval_operand(operand, globals, tys, counter);
                },
            }
            Vec::new()
        },
    }
}

// ----------------------------------------------------------------------
// Multiplication and division
// ----------------------------------------------------------------------

/// The commands of `dest = op0 fmul op1` (or `fdiv` when `is_div`) and the
/// counter after. Both operands are brought into holders. Operands of
/// different types give no commands; single-precision operands go through
/// the intrinsic, whose result is read from the return value for a
/// product and from the first parameter for a quotient; other types give
/// the evaluation of the operands only.
pub open spec fn fp_binary_v(
    is_div: bool,
    op0: Operand,
    op1: Operand,
    dest: LocalNameV,
    g: Seq<(LocalName, u32)>,
    tys: Types,
    n: nat,
) -> (Seq<CommandV>, nat) {
    let o = operands_v(op0, op1, g, tys, n);
    if !crate::globals::type_eq(operand_type(op0).unwrap(), operand_type(op1).unwrap()) {
        (Seq::empty(), o.3)
    } else if operand_type(op0) == Some(IrType::FP(FpKind::Single)) {
        (
            o.0 + seq![
                assign_v(param_name(0, 0), o.1[0]),
                assign_v(param_name(1, 0), o.2[0]),
                call_v(if is_div { "intrinsic:fdiv"@ } else { "intrinsic:fmul"@ }),
                assign_v(
                    local_word_name(dest, 0),
                    if is_div { param_name(0, 0) } else { return_name(0) },
                ),
            ],
            o.3,
        )
    } else {
        (o.0, o.3)
    }
}

/// Whether `dest = op0 fmul op1` (or `fdiv`) can be compiled.
pub open spec fn fp_binary_ok(op0: Operand, op1: Operand, g: Seq<(LocalName, u32)>, tys: Types, n: nat) -> bool {
    let o = operands_v(op0, op1, g, tys, n);
    &&& operands_ok(op0, op1, g, tys, n)
    &&& operand_type(op0) is Some
    &&& operand_type(op1) is Some
    &&& (crate::globals::type_eq(operand_type(op0).unwrap(), operand_type(op1).unwrap()) && operand_type(op0) == Some(IrType::FP(FpKind::Single)))
        ==> o.1.len() >= 1 && o.2.len() >= 1
}

/// Compiles `dest = operand0 fmul operand1`, or `fdiv` when `is_div`.
pub fn compile_fp_binary(
    is_div: bool,
    operand0: &Operand,
    operand1: &Operand,
    dest: LocalName,
    globals: &GlobalTable,
    tys: &Types,
    counter: &mut TempCounter,
) -> (r: Vec<Command>)
    requires
        fp_binary_ok(*operand0, *operand1, globals.addrs@, *tys, old(counter).next as nat),
    ensures
        (commands_view(r@), final(counter).next as nat) == fp_binary_v(
            is_div,
            *operand0,
            *operand1,
            dest@,
            globals.addrs@,
            *tys,
            old(counter).next as nat,
        ),
{
    let (mut cmds, op0, op1) = eval_operands(operand0, operand1, globals, tys, counter);
    let ghost head = commands_view(cmds@);
    let (t0, t1) = match (type_of(operand0), type_of(operand1)) {
        (Some(a), Some(b)) => (a, b),
        _ => {
            return cmds;
        },
    };
    if !crate::globals::same_type(t0, t1) {
        return Vec::new();
    }
    if is_fp(t0, FpKind::Single) {
        let d = ScoreHolder::from_local_name(dest, 4);
        let c0 = assign(param(0, 0), op0[0].clone());
        let c1 = assign(param(1, 0), op1[0].clone());
        let c2 = call(if is_div { "intrinsic:fdiv" } else { "intrinsic:fmul" });
        let c3 = assign(d[0].clone(), if is_div { param(0, 0) } else { return_holder(0) });
        let mut block = vec![c0, c1, c2, c3];
        let ghost bv = seq![c0@, c1@, c2@, c3@];
        assert(commands_view(block@) =~= bv);
        cmds.append(&mut block);
        assert(commands_view(cmds@) =~= head + bv);
    }
    cmds
}

// ----------------------------------------------------------------------
// Comparison
// ----------------------------------------------------------------------

/// A floating-point comparison predicate.
#[derive(Debug, Clone, Copy, PartialEq, Eq)]
pub enum FpPredicate {
    False,
    OEQ,
    OGT,
    OGE,
    OLT,
    OLE,
    ONE,
    ORD,
    UNO,
    UEQ,
    UGT,
    UGE,
    ULT,
    ULE,
    UNE,
    True,
}

/// The predicates that single-precision comparisons read the operands'
/// words for.
pub open spec fn is_fp_ordering(p: FpPredicate) -> bool {
    p == FpPredicate::OLT || p == FpPredicate::ULT || p == FpPredicate::OLE || p == FpPredicate::ULE
        || p == FpPredicate::OGT || p == FpPredicate::UGT
}

/// The commands of `dest = fcmp pred op0, op1` and the counter after: the
/// operands are brought into holders, but the comparison gives no
/// commands.
pub open spec fn fp_compare_v(op0: Operand, op1: Operand, g: Seq<(LocalName, u32)>, tys: Types, n: nat) -> (
    Seq<CommandV>,
    nat,
) {
    (Seq::empty(), operands_v(op0, op1, g, tys, n).3)
}

/// Whether `dest = fcmp pred op0, op1` can be compiled: the operands
/// evaluate, and have a word each where a single-precision ordering reads
/// them.
pub open spec fn fp_compare_ok(
    pred: FpPredicate,
    op0: Operand,
    op1: Operand,
    g: Seq<(LocalName, u32)>,
    tys: Types,
    n: nat,
) -> bool {
    let o = operands_v(op0, op1, g, tys, n);
    &&& operands_ok(op0, op1, g, tys, n)
    &&& (operand_type(op0) == Some(IrType::FP(FpKind::Single)) && is_fp_ordering(pred)) ==> o.1.len()
        >= 1 && o.2.len() >= 1
}

/// Compiles `dest = fcmp pred operand0, operand1`.
pub fn compile_fp_compare(
    pred: FpPredicate,
    operand0: &Operand,
    operand1: &Operand,
    globals: &GlobalTable,
    tys: &Types,
    counter: &mut TempCounter,
) -> (r: Vec<Command>)
    requires
        fp_compare_ok(pred, *operand0, *operand1, globals.addrs@, *tys, old(counter).next as nat),
    ensures
        (commands_view(r@), final(counter).next as nat) == fp_compare_v(
            *operand0,
            *operand1,
            globals.addrs@,
            *tys,
            old(counter).next as nat,
        ),
{
    let _ = eval_operands(operand0, operand1, globals, tys, counter);
    let r: Vec<Command> = Vec::new();
    assert(commands_view(r@) =~= Seq::<CommandV>::empty());
    r
}

} // verus!
