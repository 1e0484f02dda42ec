//! The instructions that move values between holders without arithmetic:
//! `select`, the casts between integer widths and pointers, and the
//! one-bit `and` and `or`.
use vstd::prelude::*;
use crate::arith::{exec_if1, exec_if2, exec_if_v, exec_unless, exec_unless_v};
use crate::cir::{Command, CommandV, CondV, McRange, ScoreHolder, commands_view};
use crate::constants::GlobalTable;
use crate::layout::{IrType, Types, layout_fits, type_layout, type_layout_spec};
use crate::locals::{LocalName, LocalNameV, local_word_name, word_count};
use crate::memops::{lemma_below_block, lemma_block_index};
use crate::memory::TempCounter;
use crate::operands::{
    Operand, eval_operand, eval_operand_ok, eval_operand_v, local_words, operand_type, type_of,
};
use crate::ops::{
    BitOp, bitwise_word_ok, bitwise_word_v, compile_bitwise_word, eval_operands, is_int_type, min3,
    operands_ok, operands_v,
};
use crate::registers::{assign, assign_lit, assign_v, make_op_lit, matches_v, op_lit_v, set_v};

verus! {

// ----------------------------------------------------------------------
// Sequences made of equal blocks
// ----------------------------------------------------------------------

/// `count` blocks of `m` commands: command `j` of block `i` is `f(i, j)`.
pub open spec fn blocks_v(count: nat, m: nat, f: spec_fn(int, int) -> CommandV) -> Seq<CommandV> {
    Seq::new(m * count, |k: int| f(k / (m as int), k % (m as int)))
}

/// Adding block `count` to `count` blocks.
pub proof fn lemma_blocks_push(count: nat, m: nat, f: spec_fn(int, int) -> CommandV, b: Seq<CommandV>)
    requires
        m > 0,
        b.len() == m,
        forall|j: int| 0 <= j < m ==> b[j] == f(count as int, j),
    ensures
        blocks_v(count + 1, m, f) == blocks_v(count, m, f) + b,
{
    let s_old = blocks_v(count, m, f);
    let s_new = blocks_v(count + 1, m, f);
    assert(m * (count + 1) == m * count + m) by (nonlinear_arith);
    assert forall|k: int| 0 <= k < s_new.len() implies s_new[k] == (s_old + b)[k] by {
        if k >= m * count {
            lemma_block_index(k, count as int, m as int);
        } else {
            lemma_below_block(k, count as int, m as int);
        }
    }
    assert(s_new =~= s_old + b);
}

/// No blocks.
pub proof fn lemma_blocks_zero(m: nat, f: spec_fn(int, int) -> CommandV)
    ensures
        blocks_v(0, m, f) == Seq::<CommandV>::empty(),
{
    assert(m * 0 == 0) by (nonlinear_arith);
    assert(blocks_v(0, m, f) =~= Seq::<CommandV>::empty());
}

/// The condition that the one-bit value in `c` is 1.
pub open spec fn is_one_v(c: Seq<char>) -> CondV {
    matches_v(c, McRange::Between(1i32, 1i32))
}

/// The condition that the value in `c` is 0.
pub open spec fn is_zero_v(c: Seq<char>) -> CondV {
    matches_v(c, McRange::Between(0i32, 0i32))
}

// ----------------------------------------------------------------------
// Select
// ----------------------------------------------------------------------

/// Command `j` of the pair that selects word `i`: the true word when the
/// condition is 1, the false word otherwise.
pub open spec fn select_cmd(
    c: Seq<char>,
    d: Seq<Seq<char>>,
    t: Seq<Seq<char>>,
    f: Seq<Seq<char>>,
    i: int,
    j: int,
) -> CommandV {
    if j == 0 {
        exec_if_v(seq![is_one_v(c)], assign_v(d[i], t[i]))
    } else {
        exec_unless_v(is_one_v(c), assign_v(d[i], f[i]))
    }
}

/// The commands of `dest = select condition, true_value, false_value` and
/// the counter after: the true value, the false value and the condition
/// are brought into holders in that order, then each word of `dest` is
/// copied from one or the other.
pub open spec fn select_v(
    condition: Operand,
    true_value: Operand,
    false_value: Operand,
    dest: LocalNameV,
    g: Seq<(LocalName, u32)>,
    tys: Types,
    n: nat,
) -> (Seq<CommandV>, nat) {
    let t = eval_operand_v(true_value, g, tys, n);
    let f = eval_operand_v(false_value, g, tys, t.2);
    let c = eval_operand_v(condition, g, tys, f.2);
    let d = local_words(
        dest,
        type_layout_spec(operand_type(true_value).unwrap(), tys).unwrap().size as nat,
    );
    (
        t.0 + f.0 + c.0 + blocks_v(
            min3(t.1.len(), f.1.len(), d.len()),
            2,
            |i: int, j: int| select_cmd(c.1[0], d, t.1, f.1, i, j),
        ),
        c.2,
    )
}

/// Whether a `select` can be compiled: the three operands evaluate in
/// turn, the selected type has a layout, and the condition is one word.
pub open spec fn select_ok(
    condition: Operand,
    true_value: Operand,
    false_value: Operand,
    g: Seq<(LocalName, u32)>,
    tys: Types,
    n: nat,
) -> bool {
    let t = eval_operand_v(true_value, g, tys, n);
    let f = eval_operand_v(false_value, g, tys, t.2);
    &&& eval_operand_ok(true_value, g, tys, n)
    &&& eval_operand_ok(false_value, g, tys, t.2)
    &&& eval_operand_ok(condition, g, tys, f.2)
    &&& operand_type(true_value) matches Some(ty) && layout_fits(ty, tys.named@, tys.named@.len())
    &&& eval_operand_v(condition, g, tys, f.2).1.len() == 1
}

/// Compiles `dest = select condition, true_value, false_value`.
pub fn compile_select(
    condition: &Operand,
    true_value: &Operand,
    false_value: &Operand,
    dest: LocalName,
    globals: &GlobalTable,
    tys: &Types,
    counter: &mut TempCounter,
) -> (r: Vec<Command>)
    requires
        select_ok(*condition, *true_value, *false_value, globals.addrs@, *tys, old(counter).next as nat),
    ensures
        (commands_view(r@), final(counter).next as nat) == select_v(
            *condition,
            *true_value,
            *false_value,
            dest@,
            globals.addrs@,
            *tys,
            old(counter).next as nat,
        ),
{
    let ghost dv = dest@;
    let (mut cmds, true_val) = eval_operand(true_value, globals, tys, counter);
    let ghost a = commands_view(cmds@);
    let (mut tmp, false_val) = eval_operand(false_value, globals, tys, counter);
    let ghost b = commands_view(tmp@);
    cmds.append(&mut tmp);
    let (mut tmp2, cond) = eval_operand(condition, globals, tys, counter);
    let ghost c = commands_view(tmp2@);
    cmds.append(&mut tmp2);
    let ghost head = a + b + c;
    assert(commands_view(cmds@) =~= head);
    let ty = match type_of(true_value) {
        Some(t) => t,
        None => {
            return cmds;
        },
    };
    let size = type_layout(ty, tys).size;
    let d = ScoreHolder::from_local_name(dest, size);
    let cnd = cond[0].clone();
    let ghost vd = d@.map_values(|x: ScoreHolder| x@);
    let ghost vt = true_val@.map_values(|x: ScoreHolder| x@);
    let ghost vf = false_val@.map_values(|x: ScoreHolder| x@);
    assert(vd =~= local_words(dv, size as nat));
    let ghost f = |i: int, j: int| select_cmd(cnd@, vd, vt, vf, i, j);
    let count = if true_val.len() <= false_val.len() && true_val.len() <= d.len() {
        true_val.len()
    } else if false_val.len() <= d.len() {
        false_val.len()
    } else {
        d.len()
    };
    let mut i: usize = 0;
    proof {
        lemma_blocks_zero(2, f);
    }
    while i < count
        invariant
            count == min3(true_val@.len(), false_val@.len(), d@.len()),
            i <= count,
            vd == d@.map_values(|x: ScoreHolder| x@),
            vt == true_val@.map_values(|x: ScoreHolder| x@),
            vf == false_val@.map_values(|x: ScoreHolder| x@),
            f == (|i: int, j: int| select_cmd(cnd@, vd, vt, vf, i, j)),
            commands_view(cmds@) == head + blocks_v(i as nat, 2, f),
        decreases count - i,
    {
        let c0 = exec_if1(
            crate::arith::matches(cnd.clone(), McRange::Between(1, 1)),
            assign(d[i].clone(), true_val[i].clone()),
        );
        let c1 = exec_unless(
            crate::arith::matches(cnd.clone(), McRange::Between(1, 1)),
            assign(d[i].clone(), false_val[i].clone()),
        );
        let ghost before = commands_view(cmds@);
        cmds.push(c0);
        cmds.push(c1);
        assert(commands_view(cmds@) =~= before + seq![c0@, c1@]);
        proof {
            lemma_blocks_push(i as nat, 2, f, seq![c0@, c1@]);
        }
        i = i + 1;
    }
    cmds
}

// ----------------------------------------------------------------------
// Bit casts and pointer casts
// ----------------------------------------------------------------------

/// The commands of a one-word copy of `operand` into `dest`, and the
/// counter after.
pub open spec fn copy_word_v(
    operand: Operand,
    dest: LocalNameV,
    g: Seq<(LocalName, u32)>,
    tys: Types,
    n: nat,
) -> (Seq<CommandV>, nat) {
    let e = eval_operand_v(operand, g, tys, n);
    (e.0.push(assign_v(local_word_name(dest, 0), e.1[0])), e.2)
}

/// Whether `operand` evaluates into at least one holder.
pub open spec fn word_operand_ok(operand: Operand, g: Seq<(LocalName, u32)>, tys: Types, n: nat) -> bool {
    &&& eval_operand_ok(operand, g, tys, n)
    &&& eval_operand_v(operand, g, tys, n).1.len() >= 1
}

/// Copies the first word of `operand` into the first word of `dest`.
fn copy_word(
    operand: &Operand,
    dest: LocalName,
    globals: &GlobalTable,
    tys: &Types,
    counter: &mut TempCounter,
) -> (r: Vec<Command>)
    requires
        word_operand_ok(*operand, globals.addrs@, *tys, old(counter).next as nat),
    ensures
        (commands_view(r@), final(counter).next as nat) == copy_word_v(
            *operand,
            dest@,
            globals.addrs@,
            *tys,
            old(counter).next as nat,
        ),
{
    let (mut cmds, source) = eval_operand(operand, globals, tys, counter);
    let d = ScoreHolder::from_local_name(dest, 4);
    let c = assign(d[0].clone(), source[0].clone());
    let ghost before = commands_view(cmds@);
    cmds.push(c);
    assert(commands_view(cmds@) =~= before.push(c@));
    cmds
}

/// Whether `dest = bitcast operand to to_type` can be compiled: the
/// operand and the result are one word each.
pub open spec fn bitcast_ok(
    operand: Operand,
    to_type: IrType,
    g: Seq<(LocalName, u32)>,
    tys: Types,
    n: nat,
) -> bool {
    &&& eval_operand_ok(operand, g, tys, n)
    &&& eval_operand_v(operand, g, tys, n).1.len() == 1
    &&& layout_fits(to_type, tys.named@, tys.named@.len())
    &&& word_count(type_layout_spec(to_type, tys).unwrap().size as nat) == 1
}

/// Compiles `dest = bitcast operand to to_type`: the word is copied.
pub fn compile_bitcast(
    operand: &Operand,
    to_type: &IrType,
    dest: LocalName,
    globals: &GlobalTable,
    tys: &Types,
    counter: &mut TempCounter,
) -> (r: Vec<Command>)
    requires
        bitcast_ok(*operand, *to_type, globals.addrs@, *tys, old(counter).next as nat),
    ensures
        (commands_view(r@), final(counter).next as nat) == copy_word_v(
            *operand,
            dest@,
            globals.addrs@,
            *tys,
            old(counter).next as nat,
        ),
{
    copy_word(operand, dest, globals, tys, counter)
}

/// Whether `dest = inttoptr operand to to_type` can be compiled: a 32-bit
/// integer becomes a pointer.
pub open spec fn inttoptr_ok(
    operand: Operand,
    to_type: IrType,
    g: Seq<(LocalName, u32)>,
    tys: Types,
    n: nat,
) -> bool {
    &&& operand_type(operand) == Some(IrType::Integer { bits: 32 })
    &&& to_type is Pointer
    &&& word_operand_ok(operand, g, tys, n)
}

/// Compiles `dest = inttoptr operand to to_type`: the word is copied.
pub fn compile_inttoptr(
    operand: &Operand,
    to_type: &IrType,
    dest: LocalName,
    globals: &GlobalTable,
    tys: &Types,
    counter: &mut TempCounter,
) -> (r: Vec<Command>)
    requires
        inttoptr_ok(*operand, *to_type, globals.addrs@, *tys, old(counter).next as nat),
    ensures
        (commands_view(r@), final(counter).next as nat) == copy_word_v(
            *operand,
            dest@,
            globals.addrs@,
            *tys,
            old(counter).next as nat,
        ),
{
    copy_word(operand, dest, globals, tys, counter)
}

/// Whether `to_type` is a vector of 32-bit integers.
pub open spec fn is_word_vector(to_type: IrType) -> bool {
    to_type matches IrType::Vector { element_type, .. } && *element_type == (IrType::Integer {
        bits: 32,
    })
}

/// The commands of `dest = ptrtoint operand to to_type` and the counter
/// after: to a 32-bit integer the word is copied; to a vector of 32-bit
/// integers each element is; to anything else nothing is emitted.
pub open spec fn ptrtoint_v(
    operand: Operand,
    to_type: IrType,
    dest: LocalNameV,
    g: Seq<(LocalName, u32)>,
    tys: Types,
    n: nat,
) -> (Seq<CommandV>, nat) {
    if to_type == (IrType::Integer { bits: 32 }) {
        copy_word_v(operand, dest, g, tys, n)
    } else if is_word_vector(to_type) {
        let e = eval_operand_v(operand, g, tys, n);
        let d = local_words(dest, (4 * to_type->Vector_num_elements) as nat);
        let count = if e.1.len() <= d.len() {
            e.1.len()
        } else {
            d.len()
        };
        (e.0 + Seq::new(count, |i: int| assign_v(d[i], e.1[i])), e.2)
    } else {
        (Seq::empty(), n)
    }
}

/// Whether `dest = ptrtoint operand to to_type` can be compiled: to a
/// 32-bit integer the operand is a pointer.
pub open spec fn ptrtoint_ok(
    operand: Operand,
    to_type: IrType,
    g: Seq<(LocalName, u32)>,
    tys: Types,
    n: nat,
) -> bool {
    &&& to_type == (IrType::Integer { bits: 32 }) ==> {
        &&& operand_type(operand) matches Some(IrType::Pointer { .. })
        &&& word_operand_ok(operand, g, tys, n)
    }
    &&& is_word_vector(to_type) ==> {
        &&& eval_operand_ok(operand, g, tys, n)
        &&& 4 * to_type->Vector_num_elements <= usize::MAX
    }
}

fn is_word_vector_exec(t: &IrType) -> (r: Option<usize>)
    ensures
        r is Some <==> is_word_vector(*t),
        r matches Some(k) ==> k == t->Vector_num_elements,
{
    match t {
        IrType::Vector { element_type, num_elements } => {
            if is_int_type(element_type, 32) {
                Some(*num_elements)
            } else {
                None
            }
        },
        _ => None,
    }
}

/// Compiles `dest = ptrtoint operand to to_type`.
pub fn compile_ptrtoint(
    operand: &Operand,
    to_type: &IrType,
    dest: LocalName,
    globals: &GlobalTable,
    tys: &Types,
    counter: &mut TempCounter,
) -> (r: Vec<Command>)
    requires
        ptrtoint_ok(*operand, *to_type, globals.addrs@, *tys, old(counter).next as nat),
    ensures
        (commands_view(r@), final(counter).next as nat) == ptrtoint_v(
            *operand,
            *to_type,
            dest@,
            globals.addrs@,
            *tys,
            old(counter).next as nat,
        ),
{
    if is_int_type(to_type, 32) {
        return copy_word(operand, dest, globals, tys, counter);
    }
    match is_word_vector_exec(to_type) {
        Some(num_elements) => {
            let ghost dv = dest@;
            let (mut cmds, op) = eval_operand(operand, globals, tys, counter);
            let ghost head = commands_view(cmds@);
            let d = ScoreHolder::from_local_name(dest, 4 * num_elements);
            let ghost vd = d@.map_values(|x: ScoreHolder| x@);
            let ghost vo = op@.map_values(|x: ScoreHolder| x@);
            assert(vd =~= local_words(dv, 4 * num_elements as nat));
            let count = if op.len() <= d.len() {
                op.len()
            } else {
                d.len()
            };
            let mut i: usize = 0;
            while i < count
                invariant
                    count <= op@.len(),
                    count <= d@.len(),
                    i <= count,
                    vd == d@.map_values(|x: ScoreHolder| x@),
                    vo == op@.map_values(|x: ScoreHolder| x@),
                    commands_view(cmds@) == head + Seq::new(i as nat, |k: int| assign_v(vd[k], vo[k])),
                decreases count - i,
            {
                let c = assign(d[i].clone(), op[i].clone());
                assert(vd[i as int] == d@[i as int]@ && vo[i as int] == op@[i as int]@);
                let ghost before = commands_view(cmds@);
                cmds.push(c);
                assert(commands_view(cmds@) =~= before.push(c@));
                assert(Seq::new((i + 1) as nat, |k: int| assign_v(vd[k], vo[k])) =~= Seq::new(
                    i as nat,
                    |k: int| assign_v(vd[k], vo[k]),
                ).push(c@));
                i = i + 1;
            }
            cmds
        },
        None => Vec::new(),
    }
}

// ----------------------------------------------------------------------
// Truncation
// ----------------------------------------------------------------------

/// The commands of `dest = trunc operand to to_type` and the counter
/// after. To 32 bits the low word is copied. To `bits >= 31` bits the
/// words that hold them are copied and the top one is reduced modulo
/// `2^(bits % 32)` when `bits` is not a multiple of 32; to fewer bits the
/// low word is copied and reduced modulo `2^bits`.
pub open spec fn trunc_v(
    operand: Operand,
    to_type: IrType,
    dest: LocalNameV,
    g: Seq<(LocalName, u32)>,
    tys: Types,
    n: nat,
) -> (Seq<CommandV>, nat) {
    let e = eval_operand_v(operand, g, tys, n);
    if to_type == (IrType::Integer { bits: 32 }) {
        copy_word_v(operand, dest, g, tys, n)
    } else {
        let bits = to_type->bits;
        if bits >= 31 {
            let words = ((bits + 31) / 32) as nat;
            (
                e.0 + Seq::new(words, |i: int| assign_v(local_word_name(dest, i as nat), e.1[i]))
                    + if bits % 32 > 0 {
                    seq![
                        op_lit_v(
                            local_word_name(dest, (words - 1) as nat),
                            "%="@,
                            1i32 << ((bits % 32) as u32),
                        ),
                    ]
                } else {
                    Seq::empty()
                },
                e.2,
            )
        } else {
            (
                e.0 + seq![
                    assign_v(local_word_name(dest, 0), e.1[0]),
                    op_lit_v(local_word_name(dest, 0), "%="@, 1i32 << bits),
                ],
                e.2,
            )
        }
    }
}

/// Whether `dest = trunc operand to to_type` can be compiled: the result
/// is an integer and the operand has the words that are copied.
pub open spec fn trunc_ok(
    operand: Operand,
    to_type: IrType,
    g: Seq<(LocalName, u32)>,
    tys: Types,
    n: nat,
) -> bool {
    &&& eval_operand_ok(operand, g, tys, n)
    &&& to_type matches IrType::Integer { bits } && eval_operand_v(operand, g, tys, n).1.len() >= if bits
        >= 31 {
        (bits + 31) / 32
    } else {
        1
    }
}

proof fn lemma_trunc_words(bits: u32)
    requires
        bits >= 31,
    ensures
        word_count(((bits + 7) / 8) as nat) >= (bits + 31) / 32 >= 1,
{
}

/// Compiles `dest = trunc operand to to_type`.
pub fn compile_trunc(
    operand: &Operand,
    to_type: &IrType,
    dest: LocalName,
    globals: &GlobalTable,
    tys: &Types,
    counter: &mut TempCounter,
) -> (r: Vec<Command>)
    requires
        trunc_ok(*operand, *to_type, globals.addrs@, *tys, old(counter).next as nat),
    ensures
        (commands_view(r@), final(counter).next as nat) == trunc_v(
            *operand,
            *to_type,
            dest@,
            globals.addrs@,
            *tys,
            old(counter).next as nat,
        ),
{
    if is_int_type(to_type, 32) {
        return copy_word(operand, dest, globals, tys, counter);
    }
    let bits: u32 = match to_type {
        IrType::Integer { bits } => *bits,
        _ => {
            return Vec::new();
        },
    };
    let ghost dv = dest@;
    let (mut cmds, op) = eval_operand(operand, globals, tys, counter);
    let ghost head = commands_view(cmds@);
    let ghost vo = op@.map_values(|x: ScoreHolder| x@);
    proof {
        crate::registers::lemma_op_symbols();
    }
    if bits >= 31 {
        let words64: u64 = (bits as u64 + 31) / 32;
        let words = words64 as usize;
        let size = ((bits as u64 + 7) / 8) as usize;
        proof {
            lemma_trunc_words(bits);
        }
        let d = ScoreHolder::from_local_name(dest, size);
        let mut i: usize = 0;
        while i < words
            invariant
                words == (bits + 31) / 32,
                words <= op@.len(),
                words <= d@.len(),
                i <= words,
                vo == op@.map_values(|x: ScoreHolder| x@),
                forall|k: int| 0 <= k < d@.len() ==> #[trigger] d@[k]@ == local_word_name(dv, k as nat),
                commands_view(cmds@) == head + Seq::new(
                    i as nat,
                    |k: int| assign_v(local_word_name(dv, k as nat), vo[k]),
                ),
            decreases words - i,
        {
            let c = assign(d[i].clone(), op[i].clone());
            assert(d@[i as int]@ == local_word_name(dv, i as nat) && vo[i as int] == op@[i as int]@);
            let ghost before = commands_view(cmds@);
            cmds.push(c);
            assert(commands_view(cmds@) =~= before.push(c@));
            assert(Seq::new((i + 1) as nat, |k: int| assign_v(local_word_name(dv, k as nat), vo[k]))
                =~= Seq::new(i as nat, |k: int| assign_v(local_word_name(dv, k as nat), vo[k])).push(
                c@,
            ));
            i = i + 1;
        }
        let ghost body = commands_view(cmds@);
        if bits % 32 > 0 {
            let c = make_op_lit(d[words - 1].clone(), "%=", 1i32 << (bits % 32));
            cmds.push(c);
            assert(commands_view(cmds@) =~= body + seq![c@]);
        } else {
            assert(commands_view(cmds@) =~= body + Seq::<CommandV>::empty());
        }
        cmds
    } else {
        let d = ScoreHolder::from_local_name(dest, 4);
        let c0 = assign(d[0].clone(), op[0].clone());
        let c1 = make_op_lit(d[0].clone(), "%=", 1i32 << bits);
        cmds.push(c0);
        cmds.push(c1);
        assert(commands_view(cmds@) =~= head + seq![c0@, c1@]);
        cmds
    }
}

// ----------------------------------------------------------------------
// One-bit and, or
// ----------------------------------------------------------------------

/// `dest = a | b` on one-bit values: 1, unless both are 0.
pub open spec fn bool_or_v(d: Seq<char>, a: Seq<char>, b: Seq<char>) -> Seq<CommandV> {
    seq![set_v(d, 1), exec_if_v(seq![is_zero_v(a), is_zero_v(b)], set_v(d, 0))]
}

/// `dest = a & b` on one-bit values: 0, unless both are 1.
pub open spec fn bool_and_v(d: Seq<char>, a: Seq<char>, b: Seq<char>) -> Seq<CommandV> {
    seq![set_v(d, 0), exec_if_v(seq![is_one_v(a), is_one_v(b)], set_v(d, 1))]
}

/// The commands of `dest = op0 & op1` (for `BitOp::And`) or
/// `dest = op0 | op1` (otherwise) and the counter after. The operands are
/// brought into holders; one-bit values are combined by conditions, and
/// anything else is handed to the word-by-word intrinsic, which brings
/// the operands into holders again.
pub open spec fn and_or_v(
    op: BitOp,
    op0: Operand,
    op1: Operand,
    dest: LocalNameV,
    g: Seq<(LocalName, u32)>,
    tys: Types,
    n: nat,
) -> (Seq<CommandV>, nat) {
    let o = operands_v(op0, op1, g, tys, n);
    if operand_type(op0) == Some(IrType::Integer { bits: 1 }) {
        let d = local_word_name(dest, 0);
        (
            o.0 + if op == BitOp::And {
                bool_and_v(d, o.1[0], o.2[0])
            } else {
                bool_or_v(d, o.1[0], o.2[0])
            },
            o.3,
        )
    } else {
        bitwise_word_v(op0, op1, dest, op, g, tys, o.3)
    }
}

/// Whether `dest = op0 & op1` or `dest = op0 | op1` can be compiled: the
/// operands have one type, with a layout, and evaluate.
pub open spec fn and_or_ok(
    op0: Operand,
    op1: Operand,
    g: Seq<(LocalName, u32)>,
    tys: Types,
    n: nat,
) -> bool {
    let o = operands_v(op0, op1, g, tys, n);
    &&& operand_type(op0) == operand_type(op1)
    &&& operand_type(op0) matches Some(t) && layout_fits(t, tys.named@, tys.named@.len())
    &&& operands_ok(op0, op1, g, tys, n)
    &&& if operand_type(op0) == Some(IrType::Integer { bits: 1 }) {
        o.1.len() >= 1 && o.2.len() >= 1
    } else {
        bitwise_word_ok(op0, op1, g, tys, o.3)
    }
}

/// Compiles `dest = operand0 & operand1` when `op` is `BitOp::And`, and
/// `dest = operand0 | operand1` otherwise.
pub fn compile_and_or(
    op: BitOp,
    operand0: &Operand,
    operand1: &Operand,
    dest: LocalName,
    globals: &GlobalTable,
    tys: &Types,
    counter: &mut TempCounter,
) -> (r: Vec<Command>)
    requires
        and_or_ok(*operand0, *operand1, globals.addrs@, *tys, old(counter).next as nat),
    ensures
        (commands_view(r@), final(counter).next as nat) == and_or_v(
            op,
            *operand0,
            *operand1,
            dest@,
            globals.addrs@,
            *tys,
            old(counter).next as nat,
        ),
{
    let (mut cmds, op0, op1) = eval_operands(operand0, operand1, globals, tys, counter);
    let ghost head = commands_view(cmds@);
    let is_bool = match type_of(operand0) {
        Some(t) => is_int_type(t, 1),
        None => false,
    };
    if is_bool {
        let d = ScoreHolder::from_local_name(dest, 1);
        let d0 = d[0].clone();
        let a = op0[0].clone();
        let b = op1[0].clone();
        let (c0, c1) = match op {
            BitOp::And => {
                (
                    assign_lit(d0.clone(), 0),
                    exec_if2(
                        crate::arith::matches(a, McRange::Between(1, 1)),
                        crate::arith::matches(b, McRange::Between(1, 1)),
                        assign_lit(d0, 1),
                    ),
                )
            },
            _ => {
                (
                    assign_lit(d0.clone(), 1),
                    exec_if2(
                        crate::arith::matches(a, McRange::Between(0, 0)),
                        crate::arith::matches(b, McRange::Between(0, 0)),
                        assign_lit(d0, 0),
                    ),
                )
            },
        };
        cmds.push(c0);
        cmds.push(c1);
        assert(commands_view(cmds@) =~= head + seq![c0@, c1@]);
        cmds
    } else {
        compile_bitwise_word(operand0, operand1, dest, op, globals, tys, counter)
    }
}

} // verus!
