//! Unsigned division and remainder.
use vstd::prelude::*;
use crate::cir::{Command, CommandV, McRange, ScoreHolder, ScoreOpKind, commands_view};
use crate::constants::GlobalTable;
use crate::layout::{IrType, Types, layout_fits, type_layout, type_layout_spec};
use crate::locals::{LocalName, LocalNameV, word_count};
use crate::memory::TempCounter;
use crate::operands::{Operand, local_words, operand_type, type_of};
use crate::ops::{eval_operands, is_int_type, operands_ok, operands_v, wordwise_op, wordwise_op_v};
use crate::registers::{
    assign, assign_v, call, call_v, comment_v, mark_assertion_matches, matches_v, param, param_name,
};
use crate::render::cond_text;

verus! {

/// The comment that marks the assertion that `h` is not negative.
pub open spec fn non_negative_mark_v(h: Seq<char>) -> CommandV {
    comment_v("!INTERPRETER: ASSERT "@ + "unless "@ + cond_text(matches_v(h, McRange::HalfLeft(-1i32))))
}

/// The marks that each of the holders `hs` is not negative.
pub open spec fn non_negative_marks_v(hs: Seq<Seq<char>>) -> Seq<CommandV> {
    hs.map_values(|h: Seq<char>| non_negative_mark_v(h))
}

/// The intrinsic of a 64-bit unsigned division or remainder.
pub open spec fn unsigned_div_name(is_rem: bool) -> Seq<char> {
    if is_rem {
        "intrinsic:urem64"@
    } else {
        "intrinsic:udiv64"@
    }
}

/// The number of words per element of an operand of type `ty`: a vector
/// counts its elements, anything else counts as one.
pub open spec fn base_len(ty: IrType) -> nat {
    match ty {
        IrType::Vector { num_elements, .. } => num_elements as nat,
        _ => 1,
    }
}

/// The commands of `dest = op0 udiv op1` (or `urem` when `is_rem`) and
/// the counter after. Both operands are brought into holders and each of
/// their words is marked as not negative. When any of the operands or the
/// result has one word per element, the words are divided one by one by
/// the score operation; when any has two, integers go through the 64-bit
/// intrinsic, which takes the first operand in the first parameter and
/// leaves its result there, to be copied back into the first operand's
/// holders; anything else gives no further commands.
pub open spec fn unsigned_div_v(
    is_rem: bool,
    op0: Operand,
    op1: Operand,
    dest: LocalNameV,
    g: Seq<(LocalName, u32)>,
    tys: Types,
    n: nat,
) -> (Seq<CommandV>, nat) {
    let o = operands_v(op0, op1, g, tys, n);
    let ty = operand_type(op0).unwrap();
    let d = local_words(dest, type_layout_spec(ty, tys).unwrap().size as nat);
    let base = base_len(ty);
    let kind = if is_rem {
        ScoreOpKind::ModAssign
    } else {
        ScoreOpKind::DivAssign
    };
    let body = if o.1.len() / base == 1 || o.2.len() / base == 1 || d.len() / base == 1 {
        wordwise_op_v(o.1, o.2, d, kind)
    } else if o.1.len() / base == 2 || o.2.len() / base == 2 || d.len() / base == 2 {
        if ty is Integer && operand_type(op1) matches Some(IrType::Integer { .. }) {
            seq![
                assign_v(param_name(0, 0), o.1[0]),
                assign_v(param_name(0, 1), o.1[1]),
                call_v(unsigned_div_name(is_rem)),
                assign_v(o.1[0], param_name(0, 0)),
                assign_v(o.1[1], param_name(0, 1)),
            ]
        } else {
            Seq::empty()
        }
    } else {
        Seq::empty()
    };
    (o.0 + non_negative_marks_v(o.1) + non_negative_marks_v(o.2) + body, o.3)
}

/// Whether `dest = op0 udiv op1` (or `urem`) can be compiled: the
/// operands evaluate, the type has a layout, vectors are of 32-bit
/// integers with one word per element in each operand and the result, and
/// integers that go through the intrinsic have two words.
pub open spec fn unsigned_div_ok(
    op0: Operand,
    op1: Operand,
    g: Seq<(LocalName, u32)>,
    tys: Types,
    n: nat,
) -> bool {
    let o = operands_v(op0, op1, g, tys, n);
    let ty = operand_type(op0).unwrap();
    let dl = word_count(type_layout_spec(ty, tys).unwrap().size as nat);
    let base = base_len(ty);
    &&& operands_ok(op0, op1, g, tys, n)
    &&& operand_type(op0) matches Some(t) && layout_fits(t, tys.named@, tys.named@.len())
    &&& ty matches IrType::Vector { element_type, num_elements } ==> {
        &&& *element_type == (IrType::Integer { bits: 32 })
        &&& num_elements > 0
        &&& o.1.len() == num_elements
        &&& o.2.len() == num_elements
        &&& dl == num_elements
    }
    &&& (!(o.1.len() / base == 1 || o.2.len() / base == 1 || dl / base == 1) && (o.1.len() / base
        == 2 || o.2.len() / base == 2 || dl / base == 2) && ty is Integer && operand_type(
        op1,
    ) matches Some(IrType::Integer { .. })) ==> o.1.len() >= 2
}

fn base_len_exec(ty: &IrType) -> (r: usize)
    ensures
        r == base_len(*ty),
{
    match ty {
        IrType::Vector { num_elements, .. } => *num_elements,
        _ => 1,
    }
}

fn mark_all(cmds: &mut Vec<Command>, hs: &Vec<ScoreHolder>)
    ensures
        commands_view(final(cmds)@) == commands_view(old(cmds)@) + non_negative_marks_v(
            hs@.map_values(|x: ScoreHolder| x@),
        ),
{
    let ghost start = commands_view(cmds@);
    let ghost vh = hs@.map_values(|x: ScoreHolder| x@);
    let mut i: usize = 0;
    while i < hs.len()
        invariant
            i <= hs@.len(),
            vh == hs@.map_values(|x: ScoreHolder| x@),
            commands_view(cmds@) == start + non_negative_marks_v(vh).take(i as int),
        decreases hs@.len() - i,
    {
        let c = mark_assertion_matches(true, hs[i].clone(), McRange::HalfLeft(-1));
        assert(c@ == non_negative_marks_v(vh)[i as int]);
        let ghost before = commands_view(cmds@);
        cmds.push(c);
        assert(commands_view(cmds@) =~= before.push(c@));
        assert(non_negative_marks_v(vh).take(i + 1) =~= non_negative_marks_v(vh).take(i as int).push(
            c@,
        ));
        i = i + 1;
    }
    assert(non_negative_marks_v(vh).take(hs@.len() as int) =~= non_negative_marks_v(vh));
}

/// Compiles `dest = operand0 udiv operand1`, or `urem` when `is_rem`.
#[verifier::rlimit(40)]
pub fn compile_unsigned_div(
    is_rem: bool,
    operand0: &Operand,
    operand1: &Operand,
    dest: LocalName,
    globals: &GlobalTable,
    tys: &Types,
    counter: &mut TempCounter,
) -> (r: Vec<Command>)
    requires
        unsigned_div_ok(*operand0, *operand1, globals.addrs@, *tys, old(counter).next as nat),
    ensures
        (commands_view(r@), final(counter).next as nat) == unsigned_div_v(
            is_rem,
            *operand0,
            *operand1,
            dest@,
            globals.addrs@,
            *tys,
            old(counter).next as nat,
        ),
{
    let ghost dv = dest@;
    let (mut cmds, source0, source1) = eval_operands(operand0, operand1, globals, tys, counter);
    let ghost head = commands_view(cmds@);
    let ghost v0 = source0@.map_values(|x: ScoreHolder| x@);
    let ghost v1 = source1@.map_values(|x: ScoreHolder| x@);
    mark_all(&mut cmds, &source0);
    mark_all(&mut cmds, &source1);
    let ghost marked = commands_view(cmds@);
    let ty0 = match type_of(operand0) {
        Some(t) => t,
        None => {
            return cmds;
        },
    };
    let size = type_layout(ty0, tys).size;
    let d = ScoreHolder::from_local_name(dest, size);
    let ghost vd = d@.map_values(|x: ScoreHolder| x@);
    assert(vd =~= local_words(dv, size as nat));
    let base = base_len_exec(ty0);
    let kind = if is_rem {
        ScoreOpKind::ModAssign
    } else {
        ScoreOpKind::DivAssign
    };
    if source0.len() / base == 1 || source1.len() / base == 1 || d.len() / base == 1 {
        wordwise_op(&mut cmds, source0, source1, d, kind);
    } else if source0.len() / base == 2 || source1.len() / base == 2 || d.len() / base == 2 {
        let both_int = match (ty0, type_of(operand1)) {
            (IrType::Integer { .. }, Some(IrType::Integer { .. })) => true,
            _ => false,
        };
        if both_int {
            let name = if is_rem {
                "intrinsic:urem64"
            } else {
                "intrinsic:udiv64"
            };
            let c0 = assign(param(0, 0), source0[0].clone());
            let c1 = assign(param(0, 1), source0[1].clone());
            let c2 = call(name);
            let c3 = assign(source0[0].clone(), param(0, 0));
            let c4 = assign(source0[1].clone(), param(0, 1));
            let mut block = vec![c0, c1, c2, c3, c4];
            let ghost bv = seq![c0@, c1@, c2@, c3@, c4@];
            assert(commands_view(block@) =~= bv);
            cmds.append(&mut block);
            assert(commands_view(cmds@) =~= marked + bv);
        } else {
            assert(commands_view(cmds@) =~= marked + Seq::<CommandV>::empty());
        }
    } else {
        assert(commands_view(cmds@) =~= marked + Seq::<CommandV>::empty());
    }
    cmds
}

} // verus!
