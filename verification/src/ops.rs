//! Binary operations on operands: arithmetic, bitwise operations and
//! shifts, on single words, on 64- and 128-bit integers, and on vectors.
use vstd::prelude::*;
use crate::arith::{add_128_bit, add_128_bit_v, add_64_bit, add_64_bit_v, mul_64_bit, mul_64_bit_v};
use crate::cir::{Command, CommandV, ScoreHolder, ScoreOp, ScoreOpKind, Target, commands_view};
use crate::constants::GlobalTable;
use crate::layout::{IrType, Types, layout_fits, type_layout, type_layout_spec};
use crate::locals::{LocalName, LocalNameV, local_word_name};
use crate::memory::{TempCounter, get_unique_holder, get_unique_num, temp_name};
use crate::operands::{
    Operand, eval_operand, eval_operand_ok, eval_operand_v, local_words, operand_type, type_of,
};
use crate::registers::{
    add_v, assign, assign_v, call, call_v, const_holder, const_holder_name, invert,
    objective_string, op_v, param, param_name, return_holder, return_name, uuid,
};
use crate::text::{nat_text, u64_text};

verus! {

/// The two operands of a binary operation in holders, with the counter
/// after: the commands of the first, then of the second.
pub open spec fn operands_v(
    op0: Operand,
    op1: Operand,
    g: Seq<(LocalName, u32)>,
    tys: Types,
    n: nat,
) -> (Seq<CommandV>, Seq<Seq<char>>, Seq<Seq<char>>, nat) {
    let a = eval_operand_v(op0, g, tys, n);
    let b = eval_operand_v(op1, g, tys, a.2);
    (a.0 + b.0, a.1, b.1, b.2)
}

/// Whether both operands can be brought into holders in turn.
pub open spec fn operands_ok(
    op0: Operand,
    op1: Operand,
    g: Seq<(LocalName, u32)>,
    tys: Types,
    n: nat,
) -> bool {
    &&& eval_operand_ok(op0, g, tys, n)
    &&& eval_operand_ok(op1, g, tys, eval_operand_v(op0, g, tys, n).2)
}

/// Both operands in holders.
pub(crate) fn eval_operands(
    op0: &Operand,
    op1: &Operand,
    globals: &GlobalTable,
    tys: &Types,
    counter: &mut TempCounter,
) -> (r: (Vec<Command>, Vec<ScoreHolder>, Vec<ScoreHolder>))
    requires
        operands_ok(*op0, *op1, globals.addrs@, *tys, old(counter).next as nat),
    ensures
        ({
            let v = operands_v(*op0, *op1, globals.addrs@, *tys, old(counter).next as nat);
            &&& commands_view(r.0@) == v.0
            &&& r.1@.map_values(|x: ScoreHolder| x@) == v.1
            &&& r.2@.map_values(|x: ScoreHolder| x@) == v.2
            &&& final(counter).next as nat == v.3
        }),
{
    let (mut cmds, source0) = eval_operand(op0, globals, tys, counter);
    let (mut tmp, source1) = eval_operand(op1, globals, tys, counter);
    let ghost a = commands_view(cmds@);
    let ghost b = commands_view(tmp@);
    cmds.append(&mut tmp);
    assert(commands_view(cmds@) =~= a + b);
    (cmds, source0, source1)
}

/// The smallest of three lengths.
pub open spec fn min3(a: nat, b: nat, c: nat) -> nat {
    if a <= b && a <= c {
        a
    } else if b <= c {
        b
    } else {
        c
    }
}

// ----------------------------------------------------------------------
// Arithmetic
// ----------------------------------------------------------------------

/// `dest = s0 <kind> s1`, word by word over the shortest of the three
/// lists.
pub open spec fn wordwise_op_v(
    s0: Seq<Seq<char>>,
    s1: Seq<Seq<char>>,
    d: Seq<Seq<char>>,
    kind: ScoreOpKind,
) -> Seq<CommandV> {
    Seq::new(
        2 * min3(s0.len(), s1.len(), d.len()),
        |k: int|
            if k % 2 == 0 {
                assign_v(d[k / 2], s0[k / 2])
            } else {
                op_v(d[k / 2], kind, s1[k / 2])
            },
    )
}

/// The commands that negate `v` in place: `v = -(v + 1)`.
pub open spec fn invert_v(v: Seq<char>) -> Seq<CommandV> {
    seq![add_v(v, 1), op_v(v, ScoreOpKind::MulAssign, const_holder_name(-1i32))]
}

/// The local that holds the negated right-hand side of a 64-bit
/// subtraction.
pub open spec fn neg_name(num: nat) -> LocalNameV {
    LocalNameV::Name("%%temp_neg_"@ + nat_text(num))
}

/// `dest = s0 - s1` on 64 bits: `s1` is complemented word by word into
/// two temporaries, one is added to give its negation, and the negation is
/// added to `s0`.
pub open spec fn sub_64_v(s0: Seq<Seq<char>>, s1: Seq<Seq<char>>, dest: LocalNameV, m: nat) -> Seq<
    CommandV,
> {
    let lo = temp_name(m);
    let hi = temp_name(m + 1);
    let neg = neg_name(m + 2);
    seq![assign_v(lo, s1[0]), assign_v(hi, s1[1])] + invert_v(lo) + invert_v(hi) + add_64_bit_v(
        lo,
        hi,
        const_holder_name(1),
        const_holder_name(0),
        local_word_name(neg, 0),
        local_word_name(neg, 1),
    ) + add_64_bit_v(
        s0[0],
        s0[1],
        local_word_name(neg, 0),
        local_word_name(neg, 1),
        local_word_name(dest, 0),
        local_word_name(dest, 1),
    )
}

/// A 64-bit division or remainder through the intrinsic `name`, as the
/// compiler writes it: the result words are copied into the parameter
/// holders after the call. The copy goes from the destination into the
/// parameter holders, so the destination is never written and the
/// intrinsic's result is left in the parameter holders.
pub open spec fn div_64_v(s0: Seq<Seq<char>>, s1: Seq<Seq<char>>, dest: LocalNameV, name: Seq<char>) -> Seq<
    CommandV,
> {
    seq![
        assign_v(param_name(0, 0), s0[0]),
        assign_v(param_name(0, 1), s0[1]),
        assign_v(param_name(1, 0), s1[0]),
        assign_v(param_name(1, 1), s1[1]),
        call_v(name),
        assign_v(param_name(0, 0), local_word_name(dest, 0)),
        assign_v(param_name(0, 1), local_word_name(dest, 1)),
    ]
}

/// The commands of `dest = op0 <kind> op1` and the counter after: 64-bit
/// integers by the two-word routines (addition, subtraction,
/// multiplication, division and remainder), 128-bit integers by the
/// four-word addition, and anything else word by word.
pub open spec fn arithmetic_v(
    op0: Operand,
    op1: Operand,
    dest: LocalNameV,
    kind: ScoreOpKind,
    g: Seq<(LocalName, u32)>,
    tys: Types,
    n: nat,
) -> (Seq<CommandV>, nat) {
    let o = operands_v(op0, op1, g, tys, n);
    let head = o.0;
    let s0 = o.1;
    let s1 = o.2;
    let m = o.3;
    let ty = operand_type(op0).unwrap();
    if ty == (IrType::Integer { bits: 64 }) {
        match kind {
            ScoreOpKind::AddAssign => (
                head + add_64_bit_v(
                    s0[0],
                    s0[1],
                    s1[0],
                    s1[1],
                    local_word_name(dest, 0),
                    local_word_name(dest, 1),
                ),
                m,
            ),
            ScoreOpKind::SubAssign => (head + sub_64_v(s0, s1, dest, m), m + 3),
            ScoreOpKind::MulAssign => (
                head + mul_64_bit_v(
                    s0[0],
                    s0[1],
                    s1[0],
                    s1[1],
                    local_word_name(dest, 0),
                    local_word_name(dest, 1),
                ),
                m,
            ),
            ScoreOpKind::DivAssign => (head + div_64_v(s0, s1, dest, "intrinsic:idiv64"@), m),
            ScoreOpKind::ModAssign => (head + div_64_v(s0, s1, dest, "intrinsic:irem64"@), m),
            _ => (head, m),
        }
    } else if ty == (IrType::Integer { bits: 128 }) {
        match kind {
            ScoreOpKind::AddAssign => (
                head + add_128_bit_v(
                    s0.take(4),
                    s1.take(4),
                    seq![
                        local_word_name(dest, 0),
                        local_word_name(dest, 1),
                        local_word_name(dest, 2),
                        local_word_name(dest, 3),
                    ],
                    temp_name(m),
                    temp_name(m + 1),
                    temp_name(m + 2),
                ),
                m + 3,
            ),
            _ => (head, m),
        }
    } else {
        let d = local_words(dest, type_layout_spec(ty, tys).unwrap().size as nat);
        (head + wordwise_op_v(s0, s1, d, kind), m)
    }
}

/// Whether `dest = op0 <kind> op1` can be compiled: the operands evaluate,
/// multi-word integers have their words, vectors are of 32-bit integers
/// with one word per element, and the temporaries fit.
pub open spec fn arithmetic_ok(
    op0: Operand,
    op1: Operand,
    kind: ScoreOpKind,
    g: Seq<(LocalName, u32)>,
    tys: Types,
    n: nat,
) -> bool {
    let o = operands_v(op0, op1, g, tys, n);
    let ty = operand_type(op0).unwrap();
    &&& operands_ok(op0, op1, g, tys, n)
    &&& operand_type(op0) is Some
    &&& if ty == (IrType::Integer { bits: 64 }) {
        &&& o.1.len() >= 2
        &&& o.2.len() >= 2
        &&& kind == ScoreOpKind::SubAssign ==> o.3 + 3 <= u32::MAX
    } else if ty == (IrType::Integer { bits: 128 }) {
        &&& o.1.len() >= 4
        &&& o.2.len() >= 4
        &&& kind == ScoreOpKind::AddAssign ==> o.3 + 3 <= u32::MAX
    } else {
        &&& layout_fits(ty, tys.named@, tys.named@.len())
        &&& match ty {
            IrType::Vector { element_type, num_elements } => {
                &&& *element_type == (IrType::Integer { bits: 32 })
                &&& o.1.len() == num_elements
                &&& o.2.len() == num_elements
                &&& crate::locals::word_count(type_layout_spec(ty, tys).unwrap().size as nat)
                    == num_elements
            },
            _ => true,
        }
    }
}

pub(crate) fn is_int_type(t: &IrType, bits: u32) -> (r: bool)
    ensures
        r == (*t == IrType::Integer { bits }),
{
    match t {
        IrType::Integer { bits: b } => *b == bits,
        _ => false,
    }
}

/// `dest = s0 <kind> s1`, word by word.
pub(crate) fn wordwise_op(
    cmds: &mut Vec<Command>,
    s0: Vec<ScoreHolder>,
    s1: Vec<ScoreHolder>,
    d: Vec<ScoreHolder>,
    kind: ScoreOpKind,
)
    ensures
        commands_view(final(cmds)@) == commands_view(old(cmds)@) + wordwise_op_v(
            s0@.map_values(|x: ScoreHolder| x@),
            s1@.map_values(|x: ScoreHolder| x@),
            d@.map_values(|x: ScoreHolder| x@),
            kind,
        ),
{
    let ghost start = commands_view(cmds@);
    let ghost v0 = s0@.map_values(|x: ScoreHolder| x@);
    let ghost v1 = s1@.map_values(|x: ScoreHolder| x@);
    let ghost vd = d@.map_values(|x: ScoreHolder| x@);
    let count = if s0.len() <= s1.len() && s0.len() <= d.len() {
        s0.len()
    } else if s1.len() <= d.len() {
        s1.len()
    } else {
        d.len()
    };
    let mut i: usize = 0;
    while i < count
        invariant
            count == min3(s0@.len(), s1@.len(), d@.len()),
            i <= count,
            v0 == s0@.map_values(|x: ScoreHolder| x@),
            v1 == s1@.map_values(|x: ScoreHolder| x@),
            vd == d@.map_values(|x: ScoreHolder| x@),
            commands_view(cmds@) == start + Seq::new(
                2 * i as nat,
                |k: int|
                    if k % 2 == 0 {
                        assign_v(vd[k / 2], v0[k / 2])
                    } else {
                        op_v(vd[k / 2], kind, v1[k / 2])
                    },
            ),
        decreases count - i,
    {
        let ghost before = commands_view(cmds@);
        let c0 = assign(d[i].clone(), s0[i].clone());
        let c1 = Command::ScoreOp(
            ScoreOp {
                target: uuid(d[i].clone()),
                target_obj: objective_string(),
                kind,
                source: Target::Uuid(s1[i].clone()),
                source_obj: objective_string(),
            },
        );
        cmds.push(c0);
        cmds.push(c1);
        assert(commands_view(cmds@) =~= before + seq![c0@, c1@]);
        let ghost f = |k: int|
            if k % 2 == 0 {
                assign_v(vd[k / 2], v0[k / 2])
            } else {
                op_v(vd[k / 2], kind, v1[k / 2])
            };
        let ghost s_old = Seq::new(2 * i as nat, f);
        let ghost s_new = Seq::new(2 * (i + 1) as nat, f);
        assert(s_new =~= s_old + seq![c0@, c1@]) by {
            assert forall|k: int| 0 <= k < s_new.len() implies s_new[k] == (s_old + seq![c0@, c1@])[k] by {
                if k >= 2 * i {
                    assert(k / 2 == i);
                }
            }
        }
        i = i + 1;
    }
}

/// `dest = (op0_lo, op0_hi) - (op1_lo, op1_hi)` on 64 bits.
fn sub_64(
    cmds: &mut Vec<Command>,
    op0_lo: ScoreHolder,
    op0_hi: ScoreHolder,
    op1_lo: ScoreHolder,
    op1_hi: ScoreHolder,
    dest: &LocalName,
    counter: &mut TempCounter,
)
    requires
        old(counter).next + 3 <= u32::MAX,
    ensures
        commands_view(final(cmds)@) == commands_view(old(cmds)@) + sub_64_v(
            seq![op0_lo@, op0_hi@],
            seq![op1_lo@, op1_hi@],
            dest@,
            old(counter).next as nat,
        ),
        final(counter).next == old(counter).next + 3,
{
    let ghost start = commands_view(cmds@);
    let lo = get_unique_holder(counter);
    let hi = get_unique_holder(counter);
    let c0 = assign(lo.clone(), op1_lo);
    let c1 = assign(hi.clone(), op1_hi);
    cmds.push(c0);
    cmds.push(c1);
    let ghost s1 = commands_view(cmds@);
    let mut inv_lo = invert(lo.clone());
    let ghost v2 = commands_view(inv_lo@);
    cmds.append(&mut inv_lo);
    let mut inv_hi = invert(hi.clone());
    let ghost v3 = commands_view(inv_hi@);
    cmds.append(&mut inv_hi);
    let num = get_unique_num(counter);
    let mut name = String::from_str("%%temp_neg_");
    let digits = u64_text(num as u64);
    name.append(digits.as_str());
    let neg = LocalName::Name(name);
    let ghost negv = neg@;
    let mut add1 = add_64_bit(lo, hi, const_holder(1), const_holder(0), neg.duplicate());
    let ghost v4 = commands_view(add1@);
    cmds.append(&mut add1);
    let words = ScoreHolder::from_local_name(neg, 8);
    let mut add2 = add_64_bit(op0_lo, op0_hi, words[0].clone(), words[1].clone(), dest.duplicate());
    let ghost v5 = commands_view(add2@);
    cmds.append(&mut add2);
    assert(s1 =~= start + seq![c0@, c1@]);
    assert(commands_view(cmds@) =~= start + seq![c0@, c1@] + v2 + v3 + v4 + v5);
}

/// A 64-bit division or remainder through the intrinsic `name`.
fn div_64(
    cmds: &mut Vec<Command>,
    op0_lo: ScoreHolder,
    op0_hi: ScoreHolder,
    op1_lo: ScoreHolder,
    op1_hi: ScoreHolder,
    dest: &LocalName,
    name: &str,
)
    ensures
        commands_view(final(cmds)@) == commands_view(old(cmds)@) + div_64_v(
            seq![op0_lo@, op0_hi@],
            seq![op1_lo@, op1_hi@],
            dest@,
            name@,
        ),
{
    let ghost start = commands_view(cmds@);
    let d = ScoreHolder::from_local_name(dest.duplicate(), 8);
    let c0 = assign(param(0, 0), op0_lo);
    let c1 = assign(param(0, 1), op0_hi);
    let c2 = assign(param(1, 0), op1_lo);
    let c3 = assign(param(1, 1), op1_hi);
    let c4 = call(name);
    let c5 = assign(param(0, 0), d[0].clone());
    let c6 = assign(param(0, 1), d[1].clone());
    let mut tail = vec![c0, c1, c2, c3, c4, c5, c6];
    assert(commands_view(tail@) =~= seq![c0@, c1@, c2@, c3@, c4@, c5@, c6@]);
    cmds.append(&mut tail);
    assert(commands_view(cmds@) =~= start + seq![c0@, c1@, c2@, c3@, c4@, c5@, c6@]);
}

/// Compiles `dest = operand0 <kind> operand1`.
pub fn compile_arithmetic(
    operand0: &Operand,
    operand1: &Operand,
    dest: &LocalName,
    kind: ScoreOpKind,
    globals: &GlobalTable,
    tys: &Types,
    counter: &mut TempCounter,
) -> (r: Vec<Command>)
    requires
        arithmetic_ok(*operand0, *operand1, kind, globals.addrs@, *tys, old(counter).next as nat),
    ensures
        (commands_view(r@), final(counter).next as nat) == arithmetic_v(
            *operand0,
            *operand1,
            dest@,
            kind,
            globals.addrs@,
            *tys,
            old(counter).next as nat,
        ),
{
    let (mut cmds, source0, source1) = eval_operands(operand0, operand1, globals, tys, counter);
    let ghost head = commands_view(cmds@);
    let ghost v0 = source0@.map_values(|x: ScoreHolder| x@);
    let ghost v1 = source1@.map_values(|x: ScoreHolder| x@);
    let op0_type = match type_of(operand0) {
        Some(t) => t,
        None => {
            return cmds;
        },
    };
    if is_int_type(op0_type, 64) {
        let op0_lo = source0[0].clone();
        let op0_hi = source0[1].clone();
        let op1_lo = source1[0].clone();
        let op1_hi = source1[1].clone();
        assert(seq![op0_lo@, op0_hi@] =~= seq![v0[0], v0[1]]);
        match kind {
            ScoreOpKind::AddAssign => {
                let mut t = add_64_bit(op0_lo, op0_hi, op1_lo, op1_hi, dest.duplicate());
                let ghost tv = commands_view(t@);
                cmds.append(&mut t);
                assert(commands_view(cmds@) =~= head + tv);
            },
            ScoreOpKind::SubAssign => {
                sub_64(&mut cmds, op0_lo, op0_hi, op1_lo, op1_hi, dest, counter);
                assert(sub_64_v(seq![v0[0], v0[1]], seq![v1[0], v1[1]], dest@, (counter.next - 3) as nat)
                    == sub_64_v(v0, v1, dest@, (counter.next - 3) as nat));
            },
            ScoreOpKind::MulAssign => {
                let mut t = mul_64_bit(op0_lo, op0_hi, op1_lo, op1_hi, dest.duplicate());
                let ghost tv = commands_view(t@);
                cmds.append(&mut t);
                assert(commands_view(cmds@) =~= head + tv);
            },
            ScoreOpKind::DivAssign => {
                div_64(&mut cmds, op0_lo, op0_hi, op1_lo, op1_hi, dest, "intrinsic:idiv64");
                assert(div_64_v(seq![v0[0], v0[1]], seq![v1[0], v1[1]], dest@, "intrinsic:idiv64"@)
                    == div_64_v(v0, v1, dest@, "intrinsic:idiv64"@));
            },
            ScoreOpKind::ModAssign => {
                div_64(&mut cmds, op0_lo, op0_hi, op1_lo, op1_hi, dest, "intrinsic:irem64");
                assert(div_64_v(seq![v0[0], v0[1]], seq![v1[0], v1[1]], dest@, "intrinsic:irem64"@)
                    == div_64_v(v0, v1, dest@, "intrinsic:irem64"@));
            },
            _ => {},
        }
        cmds
    } else if is_int_type(op0_type, 128) {
        match kind {
            ScoreOpKind::AddAssign => {
                let mut t = add_128_bit(
                    source0[0].clone(),
                    source0[1].clone(),
                    source0[2].clone(),
                    source0[3].clone(),
                    source1[0].clone(),
                    source1[1].clone(),
                    source1[2].clone(),
                    source1[3].clone(),
                    dest.duplicate(),
                    counter,
                );
                let ghost tv = commands_view(t@);
                cmds.append(&mut t);
                assert(v0.take(4) =~= seq![v0[0], v0[1], v0[2], v0[3]]);
                assert(v1.take(4) =~= seq![v1[0], v1[1], v1[2], v1[3]]);
                assert(commands_view(cmds@) =~= head + tv);
            },
            _ => {},
        }
        cmds
    } else {
        let l = type_layout(op0_type, tys);
        let d = ScoreHolder::from_local_name(dest.duplicate(), l.size);
        assert(d@.map_values(|x: ScoreHolder| x@) =~= local_words(dest@, l.size as nat));
        wordwise_op(&mut cmds, source0, source1, d, kind);
        cmds
    }
}

// ----------------------------------------------------------------------
// Bitwise operations
// ----------------------------------------------------------------------

/// A bitwise operation, done by an intrinsic on one word at a time.
#[derive(Debug, Clone, Copy, PartialEq, Eq)]
pub enum BitOp {
    And,
    Or,
    Xor,
}

/// The intrinsic of a bitwise operation.
pub open spec fn bit_op_name(op: BitOp) -> Seq<char> {
    match op {
        BitOp::And => "intrinsic:and"@,
        BitOp::Or => "intrinsic:or"@,
        BitOp::Xor => "intrinsic:xor"@,
    }
}

/// Word `j` of the four that apply a bitwise intrinsic to one word.
pub open spec fn bit_word_cmd(d: Seq<char>, a: Seq<char>, b: Seq<char>, op: BitOp, j: int) -> CommandV {
    if j == 0 {
        assign_v(param_name(0, 0), a)
    } else if j == 1 {
        assign_v(param_name(1, 0), b)
    } else if j == 2 {
        call_v(bit_op_name(op))
    } else {
        assign_v(d, return_name(0))
    }
}

/// The commands of `dest = op0 <op> op1`, word by word through the
/// intrinsic, and the counter after.
pub open spec fn bitwise_word_v(
    op0: Operand,
    op1: Operand,
    dest: LocalNameV,
    op: BitOp,
    g: Seq<(LocalName, u32)>,
    tys: Types,
    n: nat,
) -> (Seq<CommandV>, nat) {
    let o = operands_v(op0, op1, g, tys, n);
    let d = local_words(dest, type_layout_spec(operand_type(op0).unwrap(), tys).unwrap().size as nat);
    let count = min3(d.len(), o.1.len(), o.2.len());
    (
        o.0 + Seq::new(
            4 * count,
            |k: int| bit_word_cmd(d[k / 4], o.1[k / 4], o.2[k / 4], op, k % 4),
        ),
        o.3,
    )
}

/// Whether `dest = op0 <op> op1` can be compiled word by word.
pub open spec fn bitwise_word_ok(
    op0: Operand,
    op1: Operand,
    g: Seq<(LocalName, u32)>,
    tys: Types,
    n: nat,
) -> bool {
    &&& operand_type(op0) matches Some(t) && layout_fits(t, tys.named@, tys.named@.len())
    &&& operands_ok(op0, op1, g, tys, n)
}

fn bit_op_str(op: BitOp) -> (r: &'static str)
    ensures
        r@ == bit_op_name(op),
{
    match op {
        BitOp::And => "intrinsic:and",
        BitOp::Or => "intrinsic:or",
        BitOp::Xor => "intrinsic:xor",
    }
}

/// Compiles `dest = operand0 <op> operand1` word by word.
pub fn compile_bitwise_word(
    operand0: &Operand,
    operand1: &Operand,
    dest: LocalName,
    op: BitOp,
    globals: &GlobalTable,
    tys: &Types,
    counter: &mut TempCounter,
) -> (r: Vec<Command>)
    requires
        bitwise_word_ok(*operand0, *operand1, globals.addrs@, *tys, old(counter).next as nat),
    ensures
        (commands_view(r@), final(counter).next as nat) == bitwise_word_v(
            *operand0,
            *operand1,
            dest@,
            op,
            globals.addrs@,
            *tys,
            old(counter).next as nat,
        ),
{
    let ghost dv = dest@;
    let ty = match type_of(operand0) {
        Some(t) => t,
        None => {
            return Vec::new();
        },
    };
    let layout = type_layout(ty, tys);
    let d = ScoreHolder::from_local_name(dest, layout.size);
    let (mut cmds, op0, op1) = eval_operands(operand0, operand1, globals, tys, counter);
    let ghost head = commands_view(cmds@);
    let ghost vd = d@.map_values(|x: ScoreHolder| x@);
    let ghost v0 = op0@.map_values(|x: ScoreHolder| x@);
    let ghost v1 = op1@.map_values(|x: ScoreHolder| x@);
    assert(vd =~= local_words(dv, layout.size as nat));
    let count = if d.len() <= op0.len() && d.len() <= op1.len() {
        d.len()
    } else if op0.len() <= op1.len() {
        op0.len()
    } else {
        op1.len()
    };
    let name = bit_op_str(op);
    let mut i: usize = 0;
    while i < count
        invariant
            count == min3(d@.len(), op0@.len(), op1@.len()),
            i <= count,
            name@ == bit_op_name(op),
            vd == d@.map_values(|x: ScoreHolder| x@),
            v0 == op0@.map_values(|x: ScoreHolder| x@),
            v1 == op1@.map_values(|x: ScoreHolder| x@),
            commands_view(cmds@) == head + Seq::new(
                4 * i as nat,
                |k: int| bit_word_cmd(vd[k / 4], v0[k / 4], v1[k / 4], op, k % 4),
            ),
        decreases count - i,
    {
        let ghost before = commands_view(cmds@);
        let c0 = assign(param(0, 0), op0[i].clone());
        let c1 = assign(param(1, 0), op1[i].clone());
        let c2 = call(name);
        let c3 = assign(d[i].clone(), return_holder(0));
        let mut block = vec![c0, c1, c2, c3];
        let ghost bv = seq![c0@, c1@, c2@, c3@];
        assert(commands_view(block@) =~= bv);
        cmds.append(&mut block);
        assert(commands_view(cmds@) =~= before + bv);
        let ghost f = |k: int| bit_word_cmd(vd[k / 4], v0[k / 4], v1[k / 4], op, k % 4);
        let ghost s_old = Seq::new(4 * i as nat, f);
        let ghost s_new = Seq::new(4 * (i + 1) as nat, f);
        assert(s_new =~= s_old + bv) by {
            assert forall|k: int| 0 <= k < s_new.len() implies s_new[k] == (s_old + bv)[k] by {
                if k >= 4 * i {
                    assert(k / 4 == i && k % 4 == k - 4 * i) by (nonlinear_arith)
                        requires
                            4 * i <= k < 4 * i + 4,
                    ;
                }
            }
        }
        i = i + 1;
    }
    cmds
}

/// The commands of a one-bit exclusive or: `dest` is 1 exactly when one
/// operand is 1 and the other 0.
pub open spec fn xor_bool_v(d: Seq<char>, a: Seq<char>, b: Seq<char>) -> Seq<CommandV> {
    seq![
        crate::registers::set_v(d, 0),
        crate::arith::exec_if_v(
            seq![
                crate::registers::matches_v(a, crate::cir::McRange::Between(1, 1)),
                crate::registers::matches_v(b, crate::cir::McRange::Between(0, 0)),
            ],
            crate::registers::set_v(d, 1),
        ),
        crate::arith::exec_if_v(
            seq![
                crate::registers::matches_v(a, crate::cir::McRange::Between(0, 0)),
                crate::registers::matches_v(b, crate::cir::McRange::Between(1, 1)),
            ],
            crate::registers::set_v(d, 1),
        ),
    ]
}

/// The commands of `dest = op0 ^ op1` and the counter after: one-bit
/// values by comparisons, anything else word by word.
pub open spec fn xor_v(
    op0: Operand,
    op1: Operand,
    dest: LocalNameV,
    g: Seq<(LocalName, u32)>,
    tys: Types,
    n: nat,
) -> (Seq<CommandV>, nat) {
    if operand_type(op0) == Some(IrType::Integer { bits: 1 }) {
        let o = operands_v(op0, op1, g, tys, n);
        (o.0 + xor_bool_v(local_word_name(dest, 0), o.1[0], o.2[0]), o.3)
    } else {
        bitwise_word_v(op0, op1, dest, BitOp::Xor, g, tys, n)
    }
}

/// Whether `dest = op0 ^ op1` can be compiled: both operands have the same
/// type, and one-bit operands give a holder each.
pub open spec fn xor_ok(op0: Operand, op1: Operand, g: Seq<(LocalName, u32)>, tys: Types, n: nat) -> bool {
    &&& operand_type(op0) == operand_type(op1)
    &&& bitwise_word_ok(op0, op1, g, tys, n)
    &&& operand_type(op0) == Some(IrType::Integer { bits: 1 }) ==> {
        let o = operands_v(op0, op1, g, tys, n);
        o.1.len() >= 1 && o.2.len() >= 1
    }
}

/// `execute if a matches x if b matches y run set dest 1`
fn one_xor_case(dest: ScoreHolder, a: ScoreHolder, b: ScoreHolder, x: i32, y: i32) -> (r: Command)
    ensures
        r@ == crate::arith::exec_if_v(
            seq![
                crate::registers::matches_v(a@, crate::cir::McRange::Between(x, x)),
                crate::registers::matches_v(b@, crate::cir::McRange::Between(y, y)),
            ],
            crate::registers::set_v(dest@, 1),
        ),
{
    let c0 = crate::arith::matches(a, crate::cir::McRange::Between(x, x));
    let c1 = crate::arith::matches(b, crate::cir::McRange::Between(y, y));
    let conds = vec![c0, c1];
    assert(conds@.map_values(|c: crate::cir::ExecuteCondition| c@) =~= seq![c0@, c1@]);
    crate::arith::exec_if(conds, crate::registers::assign_lit(dest, 1))
}

/// Compiles `dest = operand0 ^ operand1`.
pub fn compile_xor(
    operand0: &Operand,
    operand1: &Operand,
    dest: LocalName,
    globals: &GlobalTable,
    tys: &Types,
    counter: &mut TempCounter,
) -> (r: Vec<Command>)
    requires
        xor_ok(*operand0, *operand1, globals.addrs@, *tys, old(counter).next as nat),
    ensures
        (commands_view(r@), final(counter).next as nat) == xor_v(
            *operand0,
            *operand1,
            dest@,
            globals.addrs@,
            *tys,
            old(counter).next as nat,
        ),
{
    let is_bool = match type_of(operand0) {
        Some(t) => is_int_type(t, 1),
        None => false,
    };
    if is_bool {
        let ghost dv = dest@;
        let (mut cmds, op0, op1) = eval_operands(operand0, operand1, globals, tys, counter);
        let ghost head = commands_view(cmds@);
        let d = ScoreHolder::from_local_name(dest, 1);
        let dest0 = d[0].clone();
        let a = op0[0].clone();
        let b = op1[0].clone();
        let c0 = crate::registers::assign_lit(dest0.clone(), 0);
        let c1 = one_xor_case(dest0.clone(), a.clone(), b.clone(), 1, 0);
        let c2 = one_xor_case(dest0, a, b, 0, 1);
        let mut tail = vec![c0, c1, c2];
        assert(commands_view(tail@) =~= seq![c0@, c1@, c2@]);
        cmds.append(&mut tail);
        assert(commands_view(cmds@) =~= head + seq![c0@, c1@, c2@]);
        cmds
    } else {
        compile_bitwise_word(operand0, operand1, dest, BitOp::Xor, globals, tys, counter)
    }
}

} // verus!
