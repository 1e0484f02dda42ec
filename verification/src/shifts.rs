//! Shifts of integers and of vectors of integers: by constants in place
//! where the width allows it, otherwise through the shift intrinsics.
use vstd::prelude::*;
use crate::cir::{Command, CommandV, McRange, ScoreHolder, ScoreOp, ScoreOpKind, Target, commands_view};
use crate::constants::GlobalTable;
use crate::layout::{IrType, Types};
use crate::locals::{LocalName, LocalNameV, local_word_name};
use crate::memory::{MaybeConst, MaybeConstV, TempCounter, get_unique_holder, temp_name};
use crate::operands::{
    Operand, as_const_64, as_const_int, as_const_int_spec, eval_maybe_const, eval_operand,
    eval_operand_ok, eval_operand_spec, eval_operand_v, local_words, operand_ok, operand_type,
    type_of,
};
use crate::registers::{
    assign, assign_lit, assign_v, call, call_v, comment_v, const_holder_name, make_op_lit,
    mark_assertion_matches, matches_v, objective_string, op_v, param, param_name, set_v, uuid,
};
use crate::render::cond_text;

verus! {

/// The comment that asserts that `h` lies in `range`.
pub open spec fn assert_matches_v(h: Seq<char>, range: McRange) -> CommandV {
    comment_v("!INTERPRETER: ASSERT "@ + "if "@ + cond_text(matches_v(h, range)))
}

/// `target <kind> source` between two holders.
fn score_op(target: ScoreHolder, kind: ScoreOpKind, source: ScoreHolder) -> (r: Command)
    ensures
        r@ == op_v(target@, kind, source@),
{
    Command::ScoreOp(
        ScoreOp {
            target: uuid(target),
            target_obj: objective_string(),
            kind,
            source: Target::Uuid(source),
            source_obj: objective_string(),
        },
    )
}

fn is_int_type(t: &IrType, bits: u32) -> (r: bool)
    ensures
        r == (*t == IrType::Integer { bits }),
{
    match t {
        IrType::Integer { bits: b } => *b == bits,
        _ => false,
    }
}

// ----------------------------------------------------------------------
// Shift left
// ----------------------------------------------------------------------

/// A 64-bit value in `(a0, a1)` shifted left by a constant below 32 into
/// `(lo, hi)`: both words multiplied by `2^shift`, and the bits that leave
/// the low word added into the high word; the high word is asserted to be
/// at most `max_bound`.
pub open spec fn shl_intra64_v(
    a0: Seq<char>,
    a1: Seq<char>,
    lo: Seq<char>,
    hi: Seq<char>,
    shift: u64,
    max_bound: i32,
    m: nat,
) -> Seq<CommandV> {
    let tmp = temp_name(m);
    let tmp2 = temp_name(m + 1);
    seq![
        assert_matches_v(a1, McRange::Between(0, max_bound)),
        assign_v(lo, a0),
        assign_v(hi, a1),
        set_v(tmp, 1i32 << shift),
        op_v(lo, ScoreOpKind::MulAssign, tmp),
        op_v(hi, ScoreOpKind::MulAssign, tmp),
        assign_v(tmp2, a0),
    ] + if shift > 0 {
        seq![
            set_v(tmp, 1i32 << (32 - shift)),
            op_v(tmp2, ScoreOpKind::DivAssign, tmp),
            op_v(hi, ScoreOpKind::AddAssign, tmp2),
        ]
    } else {
        Seq::empty()
    }
}

/// A 48-bit value in `(a0, a1)` shifted left by a whole number of bytes
/// below 32 bits: the low word multiplied by `2^shift`, the high word
/// cleared.
pub open spec fn shl_intra48_v(a0: Seq<char>, lo: Seq<char>, hi: Seq<char>, shift: u64, max_bound: i32, m: nat) -> Seq<
    CommandV,
> {
    let tmp = temp_name(m);
    seq![
        assert_matches_v(a0, McRange::Between(0, max_bound)),
        assign_v(lo, a0),
        set_v(hi, 0),
        set_v(tmp, 1i32 << shift),
        op_v(lo, ScoreOpKind::MulAssign, tmp),
    ]
}

/// The intrinsic calls that shift a vector of 32-bit words: command `j` of
/// the four for one element.
pub open spec fn shl_vec32_cmd(d: Seq<char>, a: Seq<char>, b: Seq<char>, j: int) -> CommandV {
    if j == 0 {
        assign_v(param_name(0, 0), a)
    } else if j == 1 {
        assign_v(param_name(1, 0), b)
    } else if j == 2 {
        call_v("intrinsic:shl"@)
    } else {
        assign_v(d, param_name(0, 0))
    }
}

/// The intrinsic calls that shift a vector of 64-bit integers: command `j`
/// of the six for element `i`. The shift amount is read from the first
/// word of the shifted vector, as the compiler does.
pub open spec fn shl_vec64_cmd(d: Seq<Seq<char>>, a: Seq<Seq<char>>, i: int, j: int) -> CommandV {
    if j == 0 {
        assign_v(param_name(0, 0), a[2 * i])
    } else if j == 1 {
        assign_v(param_name(0, 1), a[2 * i + 1])
    } else if j == 2 {
        assign_v(param_name(1, 0), a[0])
    } else if j == 3 {
        call_v("intrinsic:shl64"@)
    } else if j == 4 {
        assign_v(d[2 * i], param_name(0, 0))
    } else {
        assign_v(d[2 * i + 1], param_name(0, 1))
    }
}

/// The largest value a narrow integer of `bits` bits may have after a
/// shift, as the compiler asserts it.
pub open spec fn narrow_max(bits: u32) -> i32 {
    if bits == 8 {
        255
    } else if bits == 16 {
        65535
    } else {
        16777216
    }
}

/// The width used for a scalar shift of type `ty`: 8, 16, 24 or 32 bits,
/// or 0 for any other type.
pub open spec fn shift_bits(ty: IrType) -> u32 {
    match ty {
        IrType::Integer { bits } => if bits == 32 || bits == 24 || bits == 16 || bits == 8 {
            bits
        } else {
            0
        },
        _ => 0,
    }
}

/// A 48-bit shift left by a whole number of bytes, the high word asserted
/// to be zero first, and the counter after.
pub open spec fn shl_48_v(a: Seq<Seq<char>>, lo: Seq<char>, hi: Seq<char>, shift: u64, m: nat) -> (
    Seq<CommandV>,
    nat,
) {
    let head = seq![assert_matches_v(a[1], McRange::Between(0, 0))];
    if shift == 8 {
        (head + shl_intra48_v(a[0], lo, hi, shift, 0x00FF_FFFF, m), m + 1)
    } else if shift == 16 {
        (head + shl_intra48_v(a[0], lo, hi, shift, 0x0000_FFFF, m), m + 1)
    } else if shift == 24 {
        (head + shl_intra48_v(a[0], lo, hi, shift, 0x0000_00FF, m), m + 1)
    } else {
        (
            head + seq![
                assert_matches_v(a[0], McRange::Between(0, 0xFF)),
                set_v(lo, 0),
                assign_v(hi, a[0]),
            ],
            m,
        )
    }
}

/// A word shifted left by the constant `c`: multiplied by `2^c`, then,
/// for narrow types, asserted to stay within the type.
pub open spec fn shl_word_const_v(a0: Seq<char>, d: Seq<char>, c: i32, ty: IrType) -> Seq<CommandV> {
    seq![
        assign_v(d, a0),
        op_v(d, ScoreOpKind::MulAssign, const_holder_name(1i32 << c)),
    ] + if ty != (IrType::Integer { bits: 32 }) {
        seq![assert_matches_v(d, McRange::HalfLeft(narrow_max(shift_bits(ty))))]
    } else {
        Seq::empty()
    }
}

/// A word shifted left by the amount in `b0` through the intrinsic, then,
/// for narrow types, reduced modulo `2^bits`.
pub open spec fn shl_word_var_v(a0: Seq<char>, b0: Seq<char>, d: Seq<char>, ty: IrType) -> Seq<
    CommandV,
> {
    seq![
        assign_v(param_name(0, 0), a0),
        assign_v(param_name(1, 0), b0),
        call_v("intrinsic:shl"@),
        assign_v(d, param_name(0, 0)),
    ] + if shift_bits(ty) < 32 {
        seq![op_v(d, ScoreOpKind::ModAssign, const_holder_name(1i32 << shift_bits(ty)))]
    } else {
        Seq::empty()
    }
}

/// The commands of `dest = op0 << op1` and the counter after.
pub open spec fn shl_v(
    op0: Operand,
    op1: Operand,
    dest: LocalNameV,
    g: Seq<(LocalName, u32)>,
    tys: Types,
    n: nat,
) -> (Seq<CommandV>, nat) {
    let ty = operand_type(op0).unwrap();
    let e0 = eval_operand_v(op0, g, tys, n);
    let a = e0.1;
    let lo = local_word_name(dest, 0);
    let hi = local_word_name(dest, 1);
    if ty == (IrType::Integer { bits: 64 }) && as_const_int_spec(64, op1) == Some(32u64) {
        (e0.0 + seq![set_v(lo, 0), assign_v(hi, a[0])], e0.2)
    } else if ty == (IrType::Integer { bits: 64 }) {
        match as_const_int_spec(64, op1) {
            Some(shift) => if shift < 32 {
                (
                    e0.0 + shl_intra64_v(
                        a[0],
                        a[1],
                        lo,
                        hi,
                        shift,
                        (4294967295i64 >> shift) as i32,
                        e0.2,
                    ),
                    e0.2 + 2,
                )
            } else {
                (e0.0 + shl_64_big_v(a[0], lo, hi, shift, e0.2), e0.2 + 1)
            },
            None => {
                let e1 = eval_operand_spec(op1, g, tys, e0.2);
                match e1.0 {
                    MaybeConstV::NonConst(tmp, b) => (e0.0 + tmp + shl_64_call_v(a, b, lo, hi), e1.1),
                    MaybeConstV::Const(_) => (e0.0, e1.1),
                }
            },
        }
    } else if ty == (IrType::Integer { bits: 48 }) {
        let r = shl_48_v(a, lo, hi, as_const_int_spec(48, op1).unwrap(), e0.2);
        (e0.0 + r.0, r.1)
    } else if ty is Vector {
        let element_type = ty->Vector_element_type;
        let num = ty->Vector_num_elements;
        let e1 = eval_operand_v(op1, g, tys, e0.2);
        if *element_type == (IrType::Integer { bits: 32 }) {
            let d = local_words(dest, (4 * num) as nat);
            (
                e0.0 + e1.0 + Seq::new(
                    4 * num as nat,
                    |k: int| shl_vec32_cmd(d[k / 4], a[k / 4], e1.1[0], k % 4),
                ),
                e1.2,
            )
        } else if *element_type == (IrType::Integer { bits: 64 }) {
            let d = local_words(dest, (8 * num) as nat);
            (e0.0 + e1.0 + Seq::new(6 * num as nat, |k: int| shl_vec64_cmd(d, a, k / 6, k % 6)), e1.2)
        } else {
            (Seq::empty(), e1.2)
        }
    } else {
        let d = local_word_name(dest, 0);
        let e1 = eval_operand_spec(op1, g, tys, e0.2);
        match e1.0 {
            MaybeConstV::Const(c) => (e0.0 + shl_word_const_v(a[0], d, c, ty), e1.1),
            MaybeConstV::NonConst(tmp, b) => (e0.0 + tmp + shl_word_var_v(a[0], b[0], d, ty), e1.1),
        }
    }
}

/// Whether `dest = op0 << op1` can be compiled.
pub open spec fn shl_ok(op0: Operand, op1: Operand, g: Seq<(LocalName, u32)>, tys: Types, n: nat) -> bool {
    let ty = operand_type(op0).unwrap();
    let e0 = eval_operand_v(op0, g, tys, n);
    let a = e0.1;
    &&& operand_type(op0) is Some
    &&& eval_operand_ok(op0, g, tys, n)
    &&& if ty == (IrType::Integer { bits: 64 }) && as_const_int_spec(64, op1) == Some(32u64) {
        a.len() >= 1
    } else if ty == (IrType::Integer { bits: 64 }) {
        &&& a.len() >= 2
        &&& match as_const_int_spec(64, op1) {
            Some(shift) => if shift < 32 {
                e0.2 + 2 <= u32::MAX
            } else {
                shift < 64 && e0.2 + 1 <= u32::MAX
            },
            None => {
                let e1 = eval_operand_spec(op1, g, tys, e0.2);
                &&& operand_ok(op1, g, tys, e0.2)
                &&& e1.0 matches MaybeConstV::NonConst(_, b) && b.len() >= 2
            },
        }
    } else if ty == (IrType::Integer { bits: 48 }) {
        let shift = as_const_int_spec(48, op1).unwrap();
        &&& as_const_int_spec(48, op1) is Some
        &&& (shift == 8 || shift == 16 || shift == 24 || shift == 32)
        &&& a.len() >= 2
        &&& shift != 32 ==> e0.2 + 1 <= u32::MAX
    } else if ty is Vector {
        let element_type = ty->Vector_element_type;
        let num = ty->Vector_num_elements;
        let e1 = eval_operand_v(op1, g, tys, e0.2);
        &&& eval_operand_ok(op1, g, tys, e0.2)
        &&& 8 * num <= usize::MAX
        &&& *element_type == (IrType::Integer { bits: 32 }) ==> a.len() >= num && e1.1.len() >= 1
        &&& *element_type == (IrType::Integer { bits: 64 }) ==> a.len() >= 2 * num && (num > 0
            ==> a.len() >= 1)
    } else {
        let e1 = eval_operand_spec(op1, g, tys, e0.2);
        &&& a.len() >= 1
        &&& operand_ok(op1, g, tys, e0.2)
        &&& match e1.0 {
            MaybeConstV::Const(c) => {
                &&& 0 <= c < 32
                &&& (ty == (IrType::Integer { bits: 32 }) || ty == (IrType::Integer { bits: 24 })
                    || ty == (IrType::Integer { bits: 16 }) || ty == (IrType::Integer { bits: 8 }))
            },
            MaybeConstV::NonConst(_, b) => b.len() >= 1,
        }
    }
}

/// Appends the commands of a 64-bit shift left by a constant below 32.
fn shl_intra64(
    cmds: &mut Vec<Command>,
    a0: ScoreHolder,
    a1: ScoreHolder,
    lo: ScoreHolder,
    hi: ScoreHolder,
    shift: u64,
    max_bound: i32,
    counter: &mut TempCounter,
)
    requires
        shift < 32,
        old(counter).next + 2 <= u32::MAX,
    ensures
        commands_view(final(cmds)@) == commands_view(old(cmds)@) + shl_intra64_v(
            a0@,
            a1@,
            lo@,
            hi@,
            shift,
            max_bound,
            old(counter).next as nat,
        ),
        final(counter).next == old(counter).next + 2,
{
    let ghost start = commands_view(cmds@);
    let mul: i32 = 1i32 << shift;
    let c0 = mark_assertion_matches(false, a1.clone(), McRange::Between(0, max_bound));
    let c1 = assign(lo.clone(), a0.clone());
    let c2 = assign(hi.clone(), a1);
    let tmp = get_unique_holder(counter);
    let c3 = assign_lit(tmp.clone(), mul);
    let c4 = score_op(lo, ScoreOpKind::MulAssign, tmp.clone());
    let c5 = score_op(hi.clone(), ScoreOpKind::MulAssign, tmp.clone());
    let tmp2 = get_unique_holder(counter);
    let c6 = assign(tmp2.clone(), a0);
    let mut block = vec![c0, c1, c2, c3, c4, c5, c6];
    let ghost bv = seq![c0@, c1@, c2@, c3@, c4@, c5@, c6@];
    assert(commands_view(block@) =~= bv);
    cmds.append(&mut block);
    assert(commands_view(cmds@) =~= start + bv);
    if shift > 0 {
        let ghost mid = commands_view(cmds@);
        let d0 = assign_lit(tmp.clone(), 1i32 << (32 - shift));
        let d1 = score_op(tmp2.clone(), ScoreOpKind::DivAssign, tmp);
        let d2 = score_op(hi, ScoreOpKind::AddAssign, tmp2);
        let mut tail = vec![d0, d1, d2];
        assert(commands_view(tail@) =~= seq![d0@, d1@, d2@]);
        cmds.append(&mut tail);
        assert(commands_view(cmds@) =~= mid + seq![d0@, d1@, d2@]);
    }
}

/// Appends the commands of a 48-bit shift left by a constant below 32.
fn shl_intra48(
    cmds: &mut Vec<Command>,
    a0: ScoreHolder,
    lo: ScoreHolder,
    hi: ScoreHolder,
    shift: u64,
    max_bound: i32,
    counter: &mut TempCounter,
)
    requires
        shift < 32,
        old(counter).next + 1 <= u32::MAX,
    ensures
        commands_view(final(cmds)@) == commands_view(old(cmds)@) + shl_intra48_v(
            a0@,
            lo@,
            hi@,
            shift,
            max_bound,
            old(counter).next as nat,
        ),
        final(counter).next == old(counter).next + 1,
{
    let ghost start = commands_view(cmds@);
    let mul: i32 = 1i32 << shift;
    let c0 = mark_assertion_matches(false, a0.clone(), McRange::Between(0, max_bound));
    let c1 = assign(lo.clone(), a0);
    let c2 = assign_lit(hi, 0);
    let tmp = get_unique_holder(counter);
    let c3 = assign_lit(tmp.clone(), mul);
    let c4 = score_op(lo, ScoreOpKind::MulAssign, tmp);
    let mut block = vec![c0, c1, c2, c3, c4];
    let ghost bv = seq![c0@, c1@, c2@, c3@, c4@];
    assert(commands_view(block@) =~= bv);
    cmds.append(&mut block);
    assert(commands_view(cmds@) =~= start + bv);
}

/// Appends the intrinsic calls that shift each 32-bit element.
fn shl_vec32(cmds: &mut Vec<Command>, a: &Vec<ScoreHolder>, b0: &ScoreHolder, d: &Vec<ScoreHolder>, num: usize)
    requires
        a@.len() >= num,
        d@.len() == num,
    ensures
        commands_view(final(cmds)@) == commands_view(old(cmds)@) + Seq::new(
            4 * num as nat,
            |k: int|
                shl_vec32_cmd(
                    d@.map_values(|x: ScoreHolder| x@)[k / 4],
                    a@.map_values(|x: ScoreHolder| x@)[k / 4],
                    b0@,
                    k % 4,
                ),
        ),
{
    let ghost start = commands_view(cmds@);
    let ghost av = a@.map_values(|x: ScoreHolder| x@);
    let ghost dv = d@.map_values(|x: ScoreHolder| x@);
    let ghost f = |k: int| shl_vec32_cmd(dv[k / 4], av[k / 4], b0@, k % 4);
    let mut i: usize = 0;
    while i < num
        invariant
            i <= num,
            a@.len() >= num,
            d@.len() == num,
            av == a@.map_values(|x: ScoreHolder| x@),
            dv == d@.map_values(|x: ScoreHolder| x@),
            f == (|k: int| shl_vec32_cmd(dv[k / 4], av[k / 4], b0@, k % 4)),
            commands_view(cmds@) == start + Seq::new(4 * i as nat, f),
        decreases num - i,
    {
        let ghost before = commands_view(cmds@);
        let c0 = assign(param(0, 0), a[i].clone());
        let c1 = assign(param(1, 0), b0.clone());
        let c2 = call("intrinsic:shl");
        let c3 = assign(d[i].clone(), param(0, 0));
        let mut block = vec![c0, c1, c2, c3];
        let ghost bv = seq![c0@, c1@, c2@, c3@];
        assert(commands_view(block@) =~= bv);
        cmds.append(&mut block);
        assert(commands_view(cmds@) =~= before + bv);
        let ghost s_old = Seq::new(4 * i as nat, f);
        let ghost s_new = Seq::new(4 * (i + 1) as nat, f);
        assert(s_new =~= s_old + bv) by {
            assert forall|k: int| 0 <= k < s_new.len() implies s_new[k] == (s_old + bv)[k] by {
                if k >= 4 * i {
                    assert(k / 4 == i && k % 4 == k - 4 * i) by (nonlinear_arith)
                        requires
                            4 * i <= k < 4 * i + 4,
                    ;
                }
            }
        }
        i = i + 1;
    }
}

/// Appends the intrinsic calls that shift each 64-bit element.
fn shl_vec64(cmds: &mut Vec<Command>, a: &Vec<ScoreHolder>, d: &Vec<ScoreHolder>, num: usize)
    requires
        a@.len() >= 2 * num,
        d@.len() == 2 * num,
    ensures
        commands_view(final(cmds)@) == commands_view(old(cmds)@) + Seq::new(
            6 * num as nat,
            |k: int|
                shl_vec64_cmd(
                    d@.map_values(|x: ScoreHolder| x@),
                    a@.map_values(|x: ScoreHolder| x@),
                    k / 6,
                    k % 6,
                ),
        ),
{
    let ghost start = commands_view(cmds@);
    let ghost av = a@.map_values(|x: ScoreHolder| x@);
    let ghost dv = d@.map_values(|x: ScoreHolder| x@);
    let ghost f = |k: int| shl_vec64_cmd(dv, av, k / 6, k % 6);
    let alen = a.len();
    let mut i: usize = 0;
    while i < num
        invariant
            i <= num,
            alen == a@.len(),
            a@.len() >= 2 * num,
            d@.len() == 2 * num,
            av == a@.map_values(|x: ScoreHolder| x@),
            dv == d@.map_values(|x: ScoreHolder| x@),
            f == (|k: int| shl_vec64_cmd(dv, av, k / 6, k % 6)),
            commands_view(cmds@) == start + Seq::new(6 * i as nat, f),
        decreases num - i,
    {
        let ghost before = commands_view(cmds@);
        let c0 = assign(param(0, 0), a[2 * i].clone());
        let c1 = assign(param(0, 1), a[2 * i + 1].clone());
        let c2 = assign(param(1, 0), a[0].clone());
        let c3 = call("intrinsic:shl64");
        let c4 = assign(d[2 * i].clone(), param(0, 0));
        let c5 = assign(d[2 * i + 1].clone(), param(0, 1));
        let mut block = vec![c0, c1, c2, c3, c4, c5];
        let ghost bv = seq![c0@, c1@, c2@, c3@, c4@, c5@];
        assert(commands_view(block@) =~= bv);
        cmds.append(&mut block);
        assert(commands_view(cmds@) =~= before + bv);
        let ghost s_old = Seq::new(6 * i as nat, f);
        let ghost s_new = Seq::new(6 * (i + 1) as nat, f);
        assert(s_new =~= s_old + bv) by {
            assert forall|k: int| 0 <= k < s_new.len() implies s_new[k] == (s_old + bv)[k] by {
                if k >= 6 * i {
                    assert(k / 6 == i && k % 6 == k - 6 * i) by (nonlinear_arith)
                        requires
                            6 * i <= k < 6 * i + 6,
                    ;
                }
            }
        }
        i = i + 1;
    }
}

/// The commands of a 64-bit shift left by a constant of at least 32.
pub open spec fn shl_64_big_v(a0: Seq<char>, lo: Seq<char>, hi: Seq<char>, shift: u64, m: nat) -> Seq<
    CommandV,
> {
    seq![
        set_v(lo, 0),
        set_v(temp_name(m), 1i32 << (shift - 32)),
        assign_v(hi, a0),
        op_v(hi, ScoreOpKind::MulAssign, temp_name(m)),
    ]
}

/// Appends a 64-bit shift left by a constant of at least 32.
fn shl_64_big(
    cmds: &mut Vec<Command>,
    a0: ScoreHolder,
    lo: ScoreHolder,
    hi: ScoreHolder,
    shift: u64,
    counter: &mut TempCounter,
)
    requires
        32 <= shift < 64,
        old(counter).next + 1 <= u32::MAX,
    ensures
        commands_view(final(cmds)@) == commands_view(old(cmds)@) + shl_64_big_v(
            a0@,
            lo@,
            hi@,
            shift,
            old(counter).next as nat,
        ),
        final(counter).next == old(counter).next + 1,
{
    let ghost start = commands_view(cmds@);
    let tmp = get_unique_holder(counter);
    let c0 = assign_lit(lo, 0);
    let c1 = assign_lit(tmp.clone(), 1i32 << (shift - 32));
    let c2 = assign(hi.clone(), a0);
    let c3 = score_op(hi, ScoreOpKind::MulAssign, tmp);
    let mut block = vec![c0, c1, c2, c3];
    assert(commands_view(block@) =~= seq![c0@, c1@, c2@, c3@]);
    cmds.append(&mut block);
    assert(commands_view(cmds@) =~= start + seq![c0@, c1@, c2@, c3@]);
}

/// The intrinsic call of a 64-bit shift left by the amount in `b`.
pub open spec fn shl_64_call_v(a: Seq<Seq<char>>, b: Seq<Seq<char>>, lo: Seq<char>, hi: Seq<char>) -> Seq<
    CommandV,
> {
    seq![
        assign_v(param_name(0, 0), a[0]),
        assign_v(param_name(0, 1), a[1]),
        assign_v(param_name(1, 0), b[0]),
        assign_v(param_name(1, 1), b[1]),
        call_v("intrinsic:shl64"@),
        assign_v(lo, param_name(0, 0)),
        assign_v(hi, param_name(0, 1)),
    ]
}

/// Appends the intrinsic call of a 64-bit shift left.
fn shl_64_call(
    cmds: &mut Vec<Command>,
    a: &Vec<ScoreHolder>,
    b: &Vec<ScoreHolder>,
    lo: ScoreHolder,
    hi: ScoreHolder,
)
    requires
        a@.len() >= 2,
        b@.len() >= 2,
    ensures
        commands_view(final(cmds)@) == commands_view(old(cmds)@) + shl_64_call_v(
            a@.map_values(|x: ScoreHolder| x@),
            b@.map_values(|x: ScoreHolder| x@),
            lo@,
            hi@,
        ),
{
    let ghost start = commands_view(cmds@);
    let c0 = assign(param(0, 0), a[0].clone());
    let c1 = assign(param(0, 1), a[1].clone());
    let c2 = assign(param(1, 0), b[0].clone());
    let c3 = assign(param(1, 1), b[1].clone());
    let c4 = call("intrinsic:shl64");
    let c5 = assign(lo, param(0, 0));
    let c6 = assign(hi, param(0, 1));
    let mut block = vec![c0, c1, c2, c3, c4, c5, c6];
    let ghost bv = seq![c0@, c1@, c2@, c3@, c4@, c5@, c6@];
    assert(commands_view(block@) =~= bv);
    cmds.append(&mut block);
    assert(commands_view(cmds@) =~= start + bv);
}

/// Appends a 48-bit shift left by a whole number of bytes.
fn shl_48(
    cmds: &mut Vec<Command>,
    a: &Vec<ScoreHolder>,
    lo: ScoreHolder,
    hi: ScoreHolder,
    shift: u64,
    counter: &mut TempCounter,
)
    requires
        a@.len() >= 2,
        shift == 8 || shift == 16 || shift == 24 || shift == 32,
        shift != 32 ==> old(counter).next + 1 <= u32::MAX,
    ensures
        ({
            let r = shl_48_v(a@.map_values(|x: ScoreHolder| x@), lo@, hi@, shift, old(counter).next as nat);
            &&& commands_view(final(cmds)@) == commands_view(old(cmds)@) + r.0
            &&& final(counter).next as nat == r.1
        }),
{
    let ghost start = commands_view(cmds@);
    let c = mark_assertion_matches(false, a[1].clone(), McRange::Between(0, 0));
    cmds.push(c);
    let ghost head = commands_view(cmds@);
    assert(head =~= start + seq![c@]);
    if shift == 8 {
        shl_intra48(cmds, a[0].clone(), lo, hi, shift, 0x00FF_FFFF, counter);
    } else if shift == 16 {
        shl_intra48(cmds, a[0].clone(), lo, hi, shift, 0x0000_FFFF, counter);
    } else if shift == 24 {
        shl_intra48(cmds, a[0].clone(), lo, hi, shift, 0x0000_00FF, counter);
    } else {
        let c0 = mark_assertion_matches(false, a[0].clone(), McRange::Between(0, 0xFF));
        let c1 = assign_lit(lo, 0);
        let c2 = assign(hi, a[0].clone());
        let mut block = vec![c0, c1, c2];
        assert(commands_view(block@) =~= seq![c0@, c1@, c2@]);
        cmds.append(&mut block);
        assert(commands_view(cmds@) =~= head + seq![c0@, c1@, c2@]);
    }
}

/// Appends a word shifted left by a constant.
fn shl_word_const(cmds: &mut Vec<Command>, a0: ScoreHolder, d: ScoreHolder, c: i32, ty: &IrType)
    requires
        0 <= c < 32,
    ensures
        commands_view(final(cmds)@) == commands_view(old(cmds)@) + shl_word_const_v(a0@, d@, c, *ty),
{
    let ghost start = commands_view(cmds@);
    let c0 = assign(d.clone(), a0);
    proof {
        crate::registers::lemma_op_symbols();
    }
    let c1 = make_op_lit(d.clone(), "*=", 1i32 << c);
    cmds.push(c0);
    cmds.push(c1);
    if !is_int_type(ty, 32) {
        let max_val: i32 = if is_int_type(ty, 8) {
            255
        } else if is_int_type(ty, 16) {
            65535
        } else {
            16777216
        };
        let c2 = mark_assertion_matches(false, d, McRange::HalfLeft(max_val));
        cmds.push(c2);
        assert(commands_view(cmds@) =~= start + seq![c0@, c1@, c2@]);
    } else {
        assert(commands_view(cmds@) =~= start + seq![c0@, c1@]);
    }
}

fn shift_width(ty: &IrType) -> (r: u32)
    ensures
        r == shift_bits(*ty),
{
    match ty {
        IrType::Integer { bits } => if *bits == 32 || *bits == 24 || *bits == 16 || *bits == 8 {
            *bits
        } else {
            0
        },
        _ => 0,
    }
}

/// Appends a word shifted left by the amount in `b0` through the
/// intrinsic.
fn shl_word_var(cmds: &mut Vec<Command>, a0: ScoreHolder, b0: ScoreHolder, d: ScoreHolder, ty: &IrType)
    ensures
        commands_view(final(cmds)@) == commands_view(old(cmds)@) + shl_word_var_v(a0@, b0@, d@, *ty),
{
    let ghost start = commands_view(cmds@);
    let bits = shift_width(ty);
    let c0 = assign(param(0, 0), a0);
    let c1 = assign(param(1, 0), b0);
    let c2 = call("intrinsic:shl");
    let c3 = assign(d.clone(), param(0, 0));
    let mut block = vec![c0, c1, c2, c3];
    assert(commands_view(block@) =~= seq![c0@, c1@, c2@, c3@]);
    cmds.append(&mut block);
    if bits < 32 {
        proof {
            crate::registers::lemma_op_symbols();
        }
        let c4 = make_op_lit(d, "%=", 1i32 << bits);
        cmds.push(c4);
        assert(commands_view(cmds@) =~= start + seq![c0@, c1@, c2@, c3@, c4@]);
    } else {
        assert(commands_view(cmds@) =~= start + seq![c0@, c1@, c2@, c3@]);
    }
}

/// Compiles `dest = operand0 << operand1`.
#[verifier::rlimit(50)]
pub fn compile_shl(
    operand0: &Operand,
    operand1: &Operand,
    dest: &LocalName,
    globals: &GlobalTable,
    tys: &Types,
    counter: &mut TempCounter,
) -> (r: Vec<Command>)
    requires
        shl_ok(*operand0, *operand1, globals.addrs@, *tys, old(counter).next as nat),
    ensures
        (commands_view(r@), final(counter).next as nat) == shl_v(
            *operand0,
            *operand1,
            dest@,
            globals.addrs@,
            *tys,
            old(counter).next as nat,
        ),
{
    let ty = match type_of(operand0) {
        Some(t) => t,
        None => {
            return Vec::new();
        },
    };
    let c64 = as_const_64(operand1);
    let operand1_is_32 = match c64 {
        Some(v) => v == 32,
        None => false,
    };
    if is_int_type(ty, 64) && operand1_is_32 {
        let (mut cmds, op0) = eval_operand(operand0, globals, tys, counter);
        let ghost head = commands_view(cmds@);
        let d = ScoreHolder::from_local_name(dest.duplicate(), 8);
        let c0 = assign_lit(d[0].clone(), 0);
        let c1 = assign(d[1].clone(), op0[0].clone());
        cmds.push(c0);
        cmds.push(c1);
        assert(commands_view(cmds@) =~= head + seq![c0@, c1@]);
        cmds
    } else if is_int_type(ty, 64) {
        let d = ScoreHolder::from_local_name(dest.duplicate(), 6);
        let lo = d[0].clone();
        let hi = d[1].clone();
        let (mut cmds, op0) = eval_operand(operand0, globals, tys, counter);
        let ghost head = commands_view(cmds@);
        match c64 {
            Some(shift) => {
                if shift < 32 {
                    let max_bound: i32 = #[verifier::truncate] ((4294967295i64 >> shift) as i32);
                    shl_intra64(&mut cmds, op0[0].clone(), op0[1].clone(), lo, hi, shift, max_bound, counter);
                } else {
                    shl_64_big(&mut cmds, op0[0].clone(), lo, hi, shift, counter);
                }
            },
            None => {
                match eval_maybe_const(operand1, globals, tys, counter) {
                    MaybeConst::NonConst(tmp, op1) => {
                        let d8 = ScoreHolder::from_local_name(dest.duplicate(), 8);
                        let mut tmp = tmp;
                        let ghost tv = commands_view(tmp@);
                        cmds.append(&mut tmp);
                        assert(commands_view(cmds@) =~= head + tv);
                        shl_64_call(&mut cmds, &op0, &op1, d8[0].clone(), d8[1].clone());
                    },
                    MaybeConst::Const(_) => {},
                }
            },
        }
        cmds
    } else if is_int_type(ty, 48) {
        let d = ScoreHolder::from_local_name(dest.duplicate(), 6);
        let shift = match as_const_int(48, operand1) {
            Some(v) => v,
            None => 0,
        };
        let (mut cmds, op0) = eval_operand(operand0, globals, tys, counter);
        let ghost head = commands_view(cmds@);
        shl_48(&mut cmds, &op0, d[0].clone(), d[1].clone(), shift, counter);
        cmds
    } else {
        match ty {
            IrType::Vector { element_type, num_elements } => {
                let (mut cmds, op0) = eval_operand(operand0, globals, tys, counter);
                let (mut cmds_op1, op1) = eval_operand(operand1, globals, tys, counter);
                let ghost h0 = commands_view(cmds@);
                let ghost h1 = commands_view(cmds_op1@);
                cmds.append(&mut cmds_op1);
                assert(commands_view(cmds@) =~= h0 + h1);
                if is_int_type(element_type, 32) {
                    let dests = ScoreHolder::from_local_name(dest.duplicate(), 4 * *num_elements);
                    assert(dests@.map_values(|x: ScoreHolder| x@) =~= local_words(
                        dest@,
                        (4 * *num_elements) as nat,
                    ));
                    shl_vec32(&mut cmds, &op0, &op1[0], &dests, *num_elements);
                    cmds
                } else if is_int_type(element_type, 64) {
                    let dests = ScoreHolder::from_local_name(dest.duplicate(), 8 * *num_elements);
                    assert(dests@.map_values(|x: ScoreHolder| x@) =~= local_words(
                        dest@,
                        (8 * *num_elements) as nat,
                    ));
                    shl_vec64(&mut cmds, &op0, &dests, *num_elements);
                    cmds
                } else {
                    let empty: Vec<Command> = Vec::new();
                    assert(commands_view(empty@) =~= Seq::<CommandV>::empty());
                    empty
                }
            },
            _ => {
                let (mut cmds, op0) = eval_operand(operand0, globals, tys, counter);
                let ghost head = commands_view(cmds@);
                let a0 = op0[0].clone();
                let d = ScoreHolder::from_local_name(dest.duplicate(), 4);
                let d0 = d[0].clone();
                match eval_maybe_const(operand1, globals, tys, counter) {
                    MaybeConst::Const(c) => {
                        shl_word_const(&mut cmds, a0, d0, c, ty);
                    },
                    MaybeConst::NonConst(tmp, op1) => {
                        let mut tmp = tmp;
                        let ghost tv = commands_view(tmp@);
                        cmds.append(&mut tmp);
                        assert(commands_view(cmds@) =~= head + tv);
                        shl_word_var(&mut cmds, a0, op1[0].clone(), d0, ty);
                    },
                }
                cmds
            },
        }
    }
}

// ----------------------------------------------------------------------
// Shifts right
// ----------------------------------------------------------------------

/// The call of a shift intrinsic on `k` words: the words of `a` into the
/// first parameter, the amount `b0` into the second, the call, and the
/// words of the result into `d`.
pub open spec fn shr_call_v(a: Seq<Seq<char>>, k: nat, b0: Seq<char>, d: Seq<Seq<char>>, name: Seq<char>) -> Seq<
    CommandV,
> {
    Seq::new(k, |i: int| assign_v(param_name(0, i as nat), a[i])) + seq![
        assign_v(param_name(1, 0), b0),
        call_v(name),
    ] + Seq::new(k, |i: int| assign_v(d[i], param_name(0, i as nat)))
}

/// Command `j` of the six that shift element `i` of a vector of 64-bit
/// integers by the amount in `b0`.
pub open spec fn shr_vec64_cmd(
    d: Seq<Seq<char>>,
    a: Seq<Seq<char>>,
    b0: Seq<char>,
    i: int,
    j: int,
    name: Seq<char>,
) -> CommandV {
    if j == 0 {
        assign_v(param_name(0, 0), a[2 * i])
    } else if j == 1 {
        assign_v(param_name(0, 1), a[2 * i + 1])
    } else if j == 2 {
        assign_v(param_name(1, 0), b0)
    } else if j == 3 {
        call_v(name)
    } else if j == 4 {
        assign_v(d[2 * i], param_name(0, 0))
    } else {
        assign_v(d[2 * i + 1], param_name(0, 1))
    }
}

/// The intrinsic for a logical shift right of `k` words.
pub open spec fn lshr_name(k: nat) -> Seq<char> {
    if k == 1 {
        "intrinsic:lshr"@
    } else if k == 2 {
        "intrinsic:lshr64"@
    } else {
        "intrinsic:lshr128"@
    }
}

/// The commands of `dest = op0 >> op1` (logical) and the counter after: a
/// 64-bit constant amount in place, vectors of 64-bit integers element by
/// element, and values of one, two or four words through the intrinsic.
pub open spec fn lshr_v(
    op0: Operand,
    op1: Operand,
    dest: LocalNameV,
    g: Seq<(LocalName, u32)>,
    tys: Types,
    n: nat,
) -> (Seq<CommandV>, nat) {
    let ty = operand_type(op0).unwrap();
    let e0 = eval_operand_v(op0, g, tys, n);
    let a = e0.1;
    match as_const_int_spec(64, op1) {
        Some(value) => (
            e0.0 + crate::arith::lshr_64_bit_const_v(
                a[0],
                a[1],
                value as i32,
                local_word_name(dest, 0),
                local_word_name(dest, 1),
                temp_name(e0.2),
            ),
            if (value as i32) < 32 {
                e0.2 + 1
            } else {
                e0.2
            },
        ),
        None => if ty is Vector {
            let element_type = ty->Vector_element_type;
            let num = ty->Vector_num_elements;
            if *element_type == (IrType::Integer { bits: 64 }) {
                let e1 = eval_operand_v(op1, g, tys, e0.2);
                let d = local_words(dest, (num * 8) as nat);
                (
                    e0.0 + e1.0 + Seq::new(
                        6 * num as nat,
                        |k: int| shr_vec64_cmd(d, a, e1.1[0], k / 6, k % 6, "intrinsic:lshr64"@),
                    ),
                    e1.2,
                )
            } else {
                (e0.0, e0.2)
            }
        } else {
            let e1 = eval_operand_v(op1, g, tys, e0.2);
            if a.len() == 1 || a.len() == 2 || a.len() == 4 {
                let d = local_words(dest, 4 * a.len());
                (e0.0 + e1.0 + shr_call_v(a, a.len(), e1.1[0], d, lshr_name(a.len())), e1.2)
            } else {
                (e0.0, e1.2)
            }
        },
    }
}

/// Whether `dest = op0 >> op1` (logical) can be compiled.
pub open spec fn lshr_ok(op0: Operand, op1: Operand, g: Seq<(LocalName, u32)>, tys: Types, n: nat) -> bool {
    let ty = operand_type(op0).unwrap();
    let e0 = eval_operand_v(op0, g, tys, n);
    let a = e0.1;
    &&& operand_type(op0) is Some
    &&& eval_operand_ok(op0, g, tys, n)
    &&& match as_const_int_spec(64, op1) {
        Some(value) => {
            &&& ty == (IrType::Integer { bits: 64 })
            &&& a.len() >= 2
            &&& (value as i32) >= 0
            &&& (value as i32) < 32 ==> e0.2 < u32::MAX
        },
        None => if ty is Vector {
            let element_type = ty->Vector_element_type;
            let num = ty->Vector_num_elements;
            *element_type == (IrType::Integer { bits: 64 }) ==> {
                &&& eval_operand_ok(op1, g, tys, e0.2)
                &&& eval_operand_v(op1, g, tys, e0.2).1.len() >= 1
                &&& a.len() >= 2 * num
                &&& num * 8 <= usize::MAX
            }
        } else {
            &&& eval_operand_ok(op1, g, tys, e0.2)
            &&& eval_operand_v(op1, g, tys, e0.2).1.len() >= 1
        },
    }
}

/// Appends the call of a shift intrinsic on `k` words.
fn shr_call(
    cmds: &mut Vec<Command>,
    a: &Vec<ScoreHolder>,
    k: usize,
    b0: ScoreHolder,
    d: &Vec<ScoreHolder>,
    name: &str,
)
    requires
        a@.len() >= k,
        d@.len() >= k,
    ensures
        commands_view(final(cmds)@) == commands_view(old(cmds)@) + shr_call_v(
            a@.map_values(|x: ScoreHolder| x@),
            k as nat,
            b0@,
            d@.map_values(|x: ScoreHolder| x@),
            name@,
        ),
{
    let ghost start = commands_view(cmds@);
    let ghost av = a@.map_values(|x: ScoreHolder| x@);
    let ghost dv = d@.map_values(|x: ScoreHolder| x@);
    let mut i: usize = 0;
    while i < k
        invariant
            i <= k,
            a@.len() >= k,
            av == a@.map_values(|x: ScoreHolder| x@),
            commands_view(cmds@) == start + Seq::new(
                i as nat,
                |j: int| assign_v(param_name(0, j as nat), av[j]),
            ),
        decreases k - i,
    {
        let ghost before = commands_view(cmds@);
        let c = assign(param(0, i), a[i].clone());
        cmds.push(c);
        assert(commands_view(cmds@) =~= start + Seq::new(
            (i + 1) as nat,
            |j: int| assign_v(param_name(0, j as nat), av[j]),
        )) by {
            assert(commands_view(cmds@) =~= before.push(c@));
        }
        i = i + 1;
    }
    let ghost mid = commands_view(cmds@);
    let c0 = assign(param(1, 0), b0);
    let c1 = call(name);
    cmds.push(c0);
    cmds.push(c1);
    let ghost mid2 = commands_view(cmds@);
    assert(mid2 =~= mid + seq![c0@, c1@]);
    let mut i: usize = 0;
    while i < k
        invariant
            i <= k,
            d@.len() >= k,
            dv == d@.map_values(|x: ScoreHolder| x@),
            commands_view(cmds@) == mid2 + Seq::new(
                i as nat,
                |j: int| assign_v(dv[j], param_name(0, j as nat)),
            ),
        decreases k - i,
    {
        let ghost before = commands_view(cmds@);
        let c = assign(d[i].clone(), param(0, i));
        cmds.push(c);
        assert(commands_view(cmds@) =~= mid2 + Seq::new(
            (i + 1) as nat,
            |j: int| assign_v(dv[j], param_name(0, j as nat)),
        )) by {
            assert(commands_view(cmds@) =~= before.push(c@));
        }
        i = i + 1;
    }
}

/// Appends the intrinsic calls that shift each 64-bit element right by
/// the amount in `b0`.
fn shr_vec64(
    cmds: &mut Vec<Command>,
    a: &Vec<ScoreHolder>,
    b0: &ScoreHolder,
    d: &Vec<ScoreHolder>,
    num: usize,
    name: &str,
)
    requires
        a@.len() >= 2 * num,
        d@.len() == 2 * num,
    ensures
        commands_view(final(cmds)@) == commands_view(old(cmds)@) + Seq::new(
            6 * num as nat,
            |k: int|
                shr_vec64_cmd(
                    d@.map_values(|x: ScoreHolder| x@),
                    a@.map_values(|x: ScoreHolder| x@),
                    b0@,
                    k / 6,
                    k % 6,
                    name@,
                ),
        ),
{
    let ghost start = commands_view(cmds@);
    let ghost av = a@.map_values(|x: ScoreHolder| x@);
    let ghost dv = d@.map_values(|x: ScoreHolder| x@);
    let ghost f = |k: int| shr_vec64_cmd(dv, av, b0@, k / 6, k % 6, name@);
    let alen = a.len();
    let mut i: usize = 0;
    while i < num
        invariant
            i <= num,
            alen == a@.len(),
            a@.len() >= 2 * num,
            d@.len() == 2 * num,
            av == a@.map_values(|x: ScoreHolder| x@),
            dv == d@.map_values(|x: ScoreHolder| x@),
            f == (|k: int| shr_vec64_cmd(dv, av, b0@, k / 6, k % 6, name@)),
            commands_view(cmds@) == start + Seq::new(6 * i as nat, f),
        decreases num - i,
    {
        let ghost before = commands_view(cmds@);
        let c0 = assign(param(0, 0), a[2 * i].clone());
        let c1 = assign(param(0, 1), a[2 * i + 1].clone());
        let c2 = assign(param(1, 0), b0.clone());
        let c3 = call(name);
        let c4 = assign(d[2 * i].clone(), param(0, 0));
        let c5 = assign(d[2 * i + 1].clone(), param(0, 1));
        let mut block = vec![c0, c1, c2, c3, c4, c5];
        let ghost bv = seq![c0@, c1@, c2@, c3@, c4@, c5@];
        assert(commands_view(block@) =~= bv);
        cmds.append(&mut block);
        assert(commands_view(cmds@) =~= before + bv);
        let ghost s_old = Seq::new(6 * i as nat, f);
        let ghost s_new = Seq::new(6 * (i + 1) as nat, f);
        assert(s_new =~= s_old + bv) by {
            assert forall|k: int| 0 <= k < s_new.len() implies s_new[k] == (s_old + bv)[k] by {
                if k >= 6 * i {
                    assert(k / 6 == i && k % 6 == k - 6 * i) by (nonlinear_arith)
                        requires
                            6 * i <= k < 6 * i + 6,
                    ;
                }
            }
        }
        i = i + 1;
    }
}

/// Compiles `dest = operand0 >> operand1`, a logical shift.
#[verifier::rlimit(50)]
pub fn compile_lshr(
    operand0: &Operand,
    operand1: &Operand,
    dest: &LocalName,
    globals: &GlobalTable,
    tys: &Types,
    counter: &mut TempCounter,
) -> (r: Vec<Command>)
    requires
        lshr_ok(*operand0, *operand1, globals.addrs@, *tys, old(counter).next as nat),
    ensures
        (commands_view(r@), final(counter).next as nat) == lshr_v(
            *operand0,
            *operand1,
            dest@,
            globals.addrs@,
            *tys,
            old(counter).next as nat,
        ),
{
    let (mut cmds, op0) = eval_operand(operand0, globals, tys, counter);
    let ghost head = commands_view(cmds@);
    let ty = match type_of(operand0) {
        Some(t) => t,
        None => {
            return cmds;
        },
    };
    match as_const_64(operand1) {
        Some(value) => {
            let mut t = crate::arith::lshr_64_bit_const(
                op0[0].clone(),
                op0[1].clone(),
                #[verifier::truncate] (value as i32),
                dest.duplicate(),
                counter,
            );
            let ghost tv = commands_view(t@);
            cmds.append(&mut t);
            assert(commands_view(cmds@) =~= head + tv);
            cmds
        },
        None => {
            match ty {
                IrType::Vector { element_type, num_elements } => {
                    if is_int_type(element_type, 64) {
                        let d = ScoreHolder::from_local_name(dest.duplicate(), *num_elements * 8);
                        assert(d@.map_values(|x: ScoreHolder| x@) =~= local_words(
                            dest@,
                            (*num_elements * 8) as nat,
                        ));
                        let (mut tmp, op1) = eval_operand(operand1, globals, tys, counter);
                        let ghost tv = commands_view(tmp@);
                        cmds.append(&mut tmp);
                        assert(commands_view(cmds@) =~= head + tv);
                        shr_vec64(&mut cmds, &op0, &op1[0], &d, *num_elements, "intrinsic:lshr64");
                    }
                    cmds
                },
                _ => {
                    let (mut tmp, op1) = eval_operand(operand1, globals, tys, counter);
                    let b0 = op1[0].clone();
                    let k = op0.len();
                    if k == 1 || k == 2 || k == 4 {
                        let d = ScoreHolder::from_local_name(dest.duplicate(), 4 * k);
                        assert(d@.map_values(|x: ScoreHolder| x@) =~= local_words(
                            dest@,
                            (4 * k) as nat,
                        ));
                        let ghost tv = commands_view(tmp@);
                        cmds.append(&mut tmp);
                        assert(commands_view(cmds@) =~= head + tv);
                        let name = if k == 1 {
                            "intrinsic:lshr"
                        } else if k == 2 {
                            "intrinsic:lshr64"
                        } else {
                            "intrinsic:lshr128"
                        };
                        shr_call(&mut cmds, &op0, k, b0, &d, name);
                    }
                    cmds
                },
            }
        },
    }
}

/// The intrinsic for an arithmetic shift right of `k` words.
pub open spec fn ashr_name(k: nat) -> Seq<char> {
    if k == 1 {
        "intrinsic:ashr"@
    } else {
        "intrinsic:ashr64"@
    }
}

/// The commands of `dest = op0 >> op1` (arithmetic) and the counter
/// after: a 64-bit constant amount through the 64-bit intrinsic, values of
/// one or two words through the intrinsic.
pub open spec fn ashr_v(
    op0: Operand,
    op1: Operand,
    dest: LocalNameV,
    g: Seq<(LocalName, u32)>,
    tys: Types,
    n: nat,
) -> (Seq<CommandV>, nat) {
    let e0 = eval_operand_v(op0, g, tys, n);
    let a = e0.1;
    match as_const_int_spec(64, op1) {
        Some(value) => (
            e0.0 + seq![
                assign_v(param_name(0, 0), a[0]),
                assign_v(param_name(0, 1), a[1]),
                set_v(param_name(1, 0), value as i32),
                call_v("intrinsic:ashr64"@),
                assign_v(local_word_name(dest, 0), param_name(0, 0)),
                assign_v(local_word_name(dest, 1), param_name(0, 1)),
            ],
            e0.2,
        ),
        None => {
            let e1 = eval_operand_v(op1, g, tys, e0.2);
            if a.len() == 1 || a.len() == 2 {
                let d = local_words(dest, 4 * a.len());
                (e0.0 + e1.0 + shr_call_v(a, a.len(), e1.1[0], d, ashr_name(a.len())), e1.2)
            } else {
                (e0.0, e1.2)
            }
        },
    }
}

/// Whether `dest = op0 >> op1` (arithmetic) can be compiled.
pub open spec fn ashr_ok(op0: Operand, op1: Operand, g: Seq<(LocalName, u32)>, tys: Types, n: nat) -> bool {
    let e0 = eval_operand_v(op0, g, tys, n);
    &&& eval_operand_ok(op0, g, tys, n)
    &&& match as_const_int_spec(64, op1) {
        Some(_) => e0.1.len() >= 2,
        None => {
            &&& eval_operand_ok(op1, g, tys, e0.2)
            &&& eval_operand_v(op1, g, tys, e0.2).1.len() >= 1
        },
    }
}

/// Compiles `dest = operand0 >> operand1`, an arithmetic shift.
pub fn compile_ashr(
    operand0: &Operand,
    operand1: &Operand,
    dest: &LocalName,
    globals: &GlobalTable,
    tys: &Types,
    counter: &mut TempCounter,
) -> (r: Vec<Command>)
    requires
        ashr_ok(*operand0, *operand1, globals.addrs@, *tys, old(counter).next as nat),
    ensures
        (commands_view(r@), final(counter).next as nat) == ashr_v(
            *operand0,
            *operand1,
            dest@,
            globals.addrs@,
            *tys,
            old(counter).next as nat,
        ),
{
    let (mut cmds, op0) = eval_operand(operand0, globals, tys, counter);
    let ghost head = commands_view(cmds@);
    match as_const_64(operand1) {
        Some(value) => {
            let d = ScoreHolder::from_local_name(dest.duplicate(), 8);
            let c0 = assign(param(0, 0), op0[0].clone());
            let c1 = assign(param(0, 1), op0[1].clone());
            let c2 = assign_lit(param(1, 0), #[verifier::truncate] (value as i32));
            let c3 = call("intrinsic:ashr64");
            let c4 = assign(d[0].clone(), param(0, 0));
            let c5 = assign(d[1].clone(), param(0, 1));
            let mut block = vec![c0, c1, c2, c3, c4, c5];
            let ghost bv = seq![c0@, c1@, c2@, c3@, c4@, c5@];
            assert(commands_view(block@) =~= bv);
            cmds.append(&mut block);
            assert(commands_view(cmds@) =~= head + bv);
            cmds
        },
        None => {
            let (mut tmp, op1) = eval_operand(operand1, globals, tys, counter);
            let b0 = op1[0].clone();
            let k = op0.len();
            if k == 1 || k == 2 {
                let d = ScoreHolder::from_local_name(dest.duplicate(), 4 * k);
                assert(d@.map_values(|x: ScoreHolder| x@) =~= local_words(dest@, (4 * k) as nat));
                let ghost tv = commands_view(tmp@);
                cmds.append(&mut tmp);
                assert(commands_view(cmds@) =~= head + tv);
                let name = if k == 1 {
                    "intrinsic:ashr"
                } else {
                    "intrinsic:ashr64"
                };
                shr_call(&mut cmds, &op0, k, b0, &d, name);
            }
            cmds
        },
    }
}

} // verus!
