//! Zero and sign extension of integers and vectors to wider types.
use vstd::prelude::*;
use crate::arith::{exec_if1, exec_if_v, exec_unless, exec_unless_v};
use crate::casts::{blocks_v, is_one_v, lemma_blocks_push, lemma_blocks_zero};
use crate::cir::{Command, CommandV, McRange, ScoreHolder, ScoreOpKind, commands_view};
use crate::constants::GlobalTable;
use crate::layout::{IrType, Types, layout_fits, type_layout, type_layout_spec};
use crate::locals::{LocalName, LocalNameV, local_word_name, word_count};
use crate::memory::{TempCounter, get_unique_holder, temp_name};
use crate::operands::{
    Operand, eval_operand, eval_operand_ok, eval_operand_v, local_words, operand_type, type_of,
};
use crate::ops::is_int_type;
use crate::registers::{
    add_lit, add_v, assign, assign_lit, assign_v, const_holder_name, make_op, make_op_lit,
    matches_v, op_v, set_v,
};

verus! {

/// `execute if <holder> matches <range> run <run>`
pub open spec fn when_in_v(holder: Seq<char>, range: McRange, run: CommandV) -> CommandV {
    exec_if_v(seq![matches_v(holder, range)], run)
}

/// Runs `run` when `holder` lies in `range`.
fn when_in(holder: ScoreHolder, range: McRange, run: Command) -> (r: Command)
    ensures
        r@ == when_in_v(holder@, range, run@),
{
    exec_if1(crate::arith::matches(holder, range), run)
}

/// `x %= score`
pub open spec fn mod_lit_v(x: Seq<char>, score: i32) -> CommandV {
    op_v(x, ScoreOpKind::ModAssign, const_holder_name(score))
}

/// `x %= score`
fn mod_lit(x: ScoreHolder, score: i32) -> (r: Command)
    ensures
        r@ == mod_lit_v(x@, score),
{
    proof {
        crate::registers::lemma_op_symbols();
    }
    make_op_lit(x, "%=", score)
}

/// `x /= score`
fn div_lit(x: ScoreHolder, score: i32) -> (r: Command)
    ensures
        r@ == op_v(x@, ScoreOpKind::DivAssign, const_holder_name(score)),
{
    proof {
        crate::registers::lemma_op_symbols();
    }
    make_op_lit(x, "/=", score)
}

/// `x <op> y` for one of `/=`, `%=`, `*=`.
fn op_holders(x: ScoreHolder, kind: ScoreOpKind, y: ScoreHolder) -> (r: Command)
    requires
        kind == ScoreOpKind::DivAssign || kind == ScoreOpKind::ModAssign || kind
            == ScoreOpKind::MulAssign,
    ensures
        r@ == op_v(x@, kind, y@),
{
    proof {
        crate::registers::lemma_op_symbols();
    }
    match kind {
        ScoreOpKind::DivAssign => make_op(x, "/=", y),
        ScoreOpKind::ModAssign => make_op(x, "%=", y),
        _ => make_op(x, "*=", y),
    }
}

/// Pushes `c` at the end of `cmds`.
fn push1(cmds: &mut Vec<Command>, c: Command)
    ensures
        commands_view(final(cmds)@) == commands_view(old(cmds)@).push(c@),
{
    cmds.push(c);
    assert(commands_view(cmds@) =~= commands_view(old(cmds)@).push(c@));
}

/// Sets each holder of `d` from index `from` on to 0.
fn zero_from(cmds: &mut Vec<Command>, d: &Vec<ScoreHolder>, from: usize)
    requires
        from <= d@.len(),
    ensures
        commands_view(final(cmds)@) == commands_view(old(cmds)@) + Seq::new(
            (d@.len() - from) as nat,
            |i: int| set_v(d@[i + from]@, 0i32),
        ),
{
    let ghost start = commands_view(cmds@);
    let mut i: usize = from;
    while i < d.len()
        invariant
            from <= i <= d@.len(),
            commands_view(cmds@) == start + Seq::new(
                (i - from) as nat,
                |k: int| set_v(d@[k + from]@, 0i32),
            ),
        decreases d@.len() - i,
    {
        let c = assign_lit(d[i].clone(), 0);
        let ghost before = commands_view(cmds@);
        cmds.push(c);
        assert(commands_view(cmds@) =~= before.push(c@));
        assert(Seq::new((i + 1 - from) as nat, |k: int| set_v(d@[k + from]@, 0i32)) =~= Seq::new(
            (i - from) as nat,
            |k: int| set_v(d@[k + from]@, 0i32),
        ).push(c@));
        i = i + 1;
    }
    assert(commands_view(cmds@) =~= start + Seq::new(
        (d@.len() - from) as nat,
        |i: int| set_v(d@[i + from]@, 0i32),
    ));
}

// ----------------------------------------------------------------------
// Zero extension
// ----------------------------------------------------------------------

/// Command `j` of the three that unpack element `i` of a vector of four
/// one-bit values, one per byte of `t`, into the word `d[i]`.
pub open spec fn unpack_bit_cmd(d: Seq<Seq<char>>, t: Seq<char>, i: int, j: int) -> CommandV {
    if j == 0 {
        assign_v(d[i], t)
    } else if j == 1 {
        mod_lit_v(d[i], 2)
    } else {
        op_v(t, ScoreOpKind::DivAssign, const_holder_name(256))
    }
}

/// The holders of `d` from `1` on, set to 0.
pub open spec fn zeros_after(d: Seq<Seq<char>>, from: nat) -> Seq<CommandV> {
    Seq::new((d.len() - from) as nat, |i: int| set_v(d[i + from], 0i32))
}

/// The words below `k` that do not start an element of `ets` words, set
/// to 0.
pub open spec fn zero_gaps(d: Seq<Seq<char>>, ets: nat, k: nat) -> Seq<CommandV>
    decreases k,
{
    if k == 0 {
        Seq::empty()
    } else {
        zero_gaps(d, ets, (k - 1) as nat) + if (k - 1) % (ets as int) != 0 {
            seq![set_v(d[k - 1], 0i32)]
        } else {
            Seq::empty()
        }
    }
}

/// The commands that spread a vector of two bytes in the low word `w`
/// over a vector of `to_size` bytes in `d`, with the temporaries numbered
/// from `m`.
pub open spec fn spread_bytes_v(d: Seq<Seq<char>>, w: Seq<char>, to_size: nat, m: nat) -> Seq<CommandV> {
    let ets = to_size / 2;
    let t0 = temp_name(m);
    let t1 = temp_name(m + 1);
    let sc = temp_name(m + 2);
    seq![
        assign_v(t0, w),
        assign_v(t1, w),
        set_v(sc, 256),
        op_v(t1, ScoreOpKind::DivAssign, sc),
        op_v(t0, ScoreOpKind::ModAssign, sc),
        op_v(t1, ScoreOpKind::ModAssign, sc),
        set_v(sc, 1i32 << ((ets % 4 * 8) as u32)),
        op_v(t1, ScoreOpKind::MulAssign, sc),
        assign_v(d[0], t0),
        assign_v(d[(ets / 4) as int], t1),
    ] + zero_gaps(d, ets, to_size / 4)
}

/// The commands that follow the evaluation of the operand of
/// `dest = zext operand to to_type`, and the counter after, with the
/// operand of type `from` in `op`, the result of `to_size` bytes in the
/// holders `d`, and the counter at `m`.
pub open spec fn zext_tail_v(
    from: IrType,
    to_type: IrType,
    to_size: nat,
    op: Seq<Seq<char>>,
    d: Seq<Seq<char>>,
    m: nat,
) -> (Seq<CommandV>, nat) {
    if op.len() == 1 {
        let first = seq![assign_v(d[0], op[0])];
        let zeros = zeros_after(d, 1);
        match from {
            IrType::Integer { bits } => (
                first + (if bits < 32 {
                    seq![mod_lit_v(d[0], 1i32 << bits)]
                } else {
                    Seq::empty()
                }) + zeros,
                m,
            ),
            IrType::Vector { element_type, num_elements } => {
                if num_elements == 4 && *element_type == (IrType::Integer { bits: 1 }) {
                    if *to_type->Vector_element_type == (IrType::Integer { bits: 32 }) {
                        (
                            first + seq![assign_v(temp_name(m), op[0])] + blocks_v(
                                d.len(),
                                3,
                                |i: int, j: int| unpack_bit_cmd(d, temp_name(m), i, j),
                            ),
                            m + 1,
                        )
                    } else {
                        (first + zeros, m)
                    }
                } else if num_elements == 2 && *element_type == (IrType::Integer { bits: 8 }) {
                    (first + spread_bytes_v(d, op[0], to_size, m) + zeros, m + 3)
                } else {
                    (first + zeros, m)
                }
            },
            _ => (first + zeros, m),
        }
    } else {
        match from {
            IrType::Integer { bits } => (
                seq![assign_v(d[0], op[0]), assign_v(d[1], op[1])] + (if bits < 64 {
                    seq![mod_lit_v(d[1], 1i32 << ((bits - 32) as u32))]
                } else {
                    Seq::empty()
                }) + zeros_after(d, 2),
                m,
            ),
            IrType::Vector { element_type, num_elements } => {
                if *element_type == (IrType::Integer { bits: 32 }) {
                    (widen_v(d, op, to_size / (num_elements as nat) / 4), m)
                } else {
                    (Seq::empty(), m)
                }
            },
            _ => (Seq::empty(), m),
        }
    }
}

/// The commands of `dest = zext operand to to_type` and the counter after.
pub open spec fn zext_v(
    operand: Operand,
    to_type: IrType,
    dest: LocalNameV,
    g: Seq<(LocalName, u32)>,
    tys: Types,
    n: nat,
) -> (Seq<CommandV>, nat) {
    let e = eval_operand_v(operand, g, tys, n);
    let size = type_layout_spec(to_type, tys).unwrap().size as nat;
    let t = zext_tail_v(operand_type(operand).unwrap(), to_type, size, e.1, local_words(dest, size), e.2);
    (e.0 + t.0, t.1)
}

/// Whether the tail of a zero extension can be emitted: the operand has
/// one or two words, the result has the words that are written, and the
/// temporaries fit.
pub open spec fn zext_tail_ok(from: IrType, to_type: IrType, to_size: nat, op: Seq<Seq<char>>, m: nat) -> bool {
    let dl = word_count(to_size);
    &&& op.len() == 1 || op.len() == 2
    &&& op.len() == 1 ==> {
        &&& dl >= 1
        &&& from matches IrType::Vector { element_type, num_elements } ==> {
            &&& (num_elements == 4 && *element_type == (IrType::Integer { bits: 1 })) ==> {
                &&& to_type matches IrType::Vector { num_elements: 4, .. }
                &&& m + 1 <= u32::MAX
            }
            &&& (num_elements == 2 && *element_type == (IrType::Integer { bits: 8 })) ==> {
                &&& (to_size / 2) / 4 < dl
                &&& to_size / 4 > 0 ==> to_size / 2 > 0
                &&& m + 3 <= u32::MAX
            }
        }
    }
    &&& op.len() == 2 ==> {
        &&& from matches IrType::Integer { bits } ==> {
            &&& dl >= 2
            &&& bits < 64 ==> bits > 32
        }
        &&& match from {
            IrType::Vector { element_type, num_elements } => *element_type == (IrType::Integer {
                bits: 32,
            }) ==> {
                &&& num_elements > 0
                &&& (to_size / (num_elements as nat)) % 4 == 0
                &&& dl > 0 ==> to_size / (num_elements as nat) / 4 > 0
                &&& dl <= 2 * (to_size / (num_elements as nat) / 4)
            },
            _ => true,
        }
    }
}

/// Whether `dest = zext operand to to_type` can be compiled.
pub open spec fn zext_ok(
    operand: Operand,
    to_type: IrType,
    g: Seq<(LocalName, u32)>,
    tys: Types,
    n: nat,
) -> bool {
    let e = eval_operand_v(operand, g, tys, n);
    &&& eval_operand_ok(operand, g, tys, n)
    &&& layout_fits(to_type, tys.named@, tys.named@.len())
    &&& zext_tail_ok(
        operand_type(operand).unwrap(),
        to_type,
        type_layout_spec(to_type, tys).unwrap().size as nat,
        e.1,
        e.2,
    )
}

/// Unpacks four one-bit values, one per byte of `w`, into the words of
/// `d`.
fn unpack_bits(cmds: &mut Vec<Command>, d: &Vec<ScoreHolder>, w: ScoreHolder, counter: &mut TempCounter)
    requires
        old(counter).next + 1 <= u32::MAX,
    ensures
        commands_view(final(cmds)@) == commands_view(old(cmds)@) + seq![
            assign_v(temp_name(old(counter).next as nat), w@),
        ] + blocks_v(
            d@.len(),
            3,
            |i: int, j: int|
                unpack_bit_cmd(
                    d@.map_values(|x: ScoreHolder| x@),
                    temp_name(old(counter).next as nat),
                    i,
                    j,
                ),
        ),
        final(counter).next == old(counter).next + 1,
{
    proof {
        crate::registers::lemma_op_symbols();
    }
    let ghost vd = d@.map_values(|x: ScoreHolder| x@);
    let tmp = get_unique_holder(counter);
    let ghost tn = tmp@;
    let ghost f = |i: int, j: int| unpack_bit_cmd(vd, tn, i, j);
    let c = assign(tmp.clone(), w);
    push1(cmds, c);
    let ghost head = commands_view(cmds@);
    proof {
        lemma_blocks_zero(3, f);
    }
    let mut i: usize = 0;
    while i < d.len()
        invariant
            i <= d@.len(),
            vd == d@.map_values(|x: ScoreHolder| x@),
            tn == tmp@,
            f == (|i: int, j: int| unpack_bit_cmd(vd, tn, i, j)),
            commands_view(cmds@) == head + blocks_v(i as nat, 3, f),
        decreases d@.len() - i,
    {
        assert(vd[i as int] == d@[i as int]@);
        let c0 = assign(d[i].clone(), tmp.clone());
        let c1 = mod_lit(d[i].clone(), 2);
        let c2 = div_lit(tmp.clone(), 256);
        let ghost before = commands_view(cmds@);
        cmds.push(c0);
        cmds.push(c1);
        cmds.push(c2);
        assert(commands_view(cmds@) =~= before + seq![c0@, c1@, c2@]);
        proof {
            lemma_blocks_push(i as nat, 3, f, seq![c0@, c1@, c2@]);
        }
        i = i + 1;
    }
}

/// Sets to 0 the words below `k` that do not start an element of `ets`
/// words.
fn zero_gaps_exec(cmds: &mut Vec<Command>, d: &Vec<ScoreHolder>, ets: usize, k: usize)
    requires
        k <= d@.len(),
        k > 0 ==> ets > 0,
    ensures
        commands_view(final(cmds)@) == commands_view(old(cmds)@) + zero_gaps(
            d@.map_values(|x: ScoreHolder| x@),
            ets as nat,
            k as nat,
        ),
{
    let ghost start = commands_view(cmds@);
    let ghost vd = d@.map_values(|x: ScoreHolder| x@);
    let mut i: usize = 0;
    while i < k
        invariant
            i <= k <= d@.len(),
            k > 0 ==> ets > 0,
            vd == d@.map_values(|x: ScoreHolder| x@),
            commands_view(cmds@) == start + zero_gaps(vd, ets as nat, i as nat),
        decreases k - i,
    {
        let ghost before = commands_view(cmds@);
        if i % ets != 0 {
            let c = assign_lit(d[i].clone(), 0);
            cmds.push(c);
            assert(commands_view(cmds@) =~= before.push(c@));
            assert(zero_gaps(vd, ets as nat, (i + 1) as nat) =~= zero_gaps(vd, ets as nat, i as nat)
                + seq![c@]);
        } else {
            assert(zero_gaps(vd, ets as nat, (i + 1) as nat) =~= zero_gaps(vd, ets as nat, i as nat)
                + Seq::<CommandV>::empty());
        }
        i = i + 1;
    }
}

/// Spreads two bytes of `w` over the vector in `d` of `to_size` bytes.
fn spread_bytes(
    cmds: &mut Vec<Command>,
    d: &Vec<ScoreHolder>,
    w: ScoreHolder,
    to_size: usize,
    counter: &mut TempCounter,
)
    requires
        old(counter).next + 3 <= u32::MAX,
        (to_size / 2) / 4 < d@.len(),
        to_size / 4 <= d@.len(),
        to_size / 4 > 0 ==> to_size / 2 > 0,
    ensures
        commands_view(final(cmds)@) == commands_view(old(cmds)@) + spread_bytes_v(
            d@.map_values(|x: ScoreHolder| x@),
            w@,
            to_size as nat,
            old(counter).next as nat,
        ),
        final(counter).next == old(counter).next + 3,
{
    proof {
        crate::registers::lemma_op_symbols();
    }
    let ghost start = commands_view(cmds@);
    let ets = to_size / 2;
    let temp0 = get_unique_holder(counter);
    let temp1 = get_unique_holder(counter);
    let score_const = get_unique_holder(counter);
    let c0 = assign(temp0.clone(), w.clone());
    let c1 = assign(temp1.clone(), w);
    let c2 = assign_lit(score_const.clone(), 256);
    let c3 = op_holders(temp1.clone(), ScoreOpKind::DivAssign, score_const.clone());
    let c4 = op_holders(temp0.clone(), ScoreOpKind::ModAssign, score_const.clone());
    let c5 = op_holders(temp1.clone(), ScoreOpKind::ModAssign, score_const.clone());
    let c6 = assign_lit(score_const.clone(), 1i32 << ((ets % 4 * 8) as u32));
    let c7 = op_holders(temp1.clone(), ScoreOpKind::MulAssign, score_const);
    let c8 = assign(d[0].clone(), temp0);
    let c9 = assign(d[ets / 4].clone(), temp1);
    let mut block = vec![c0, c1, c2, c3, c4, c5, c6, c7, c8, c9];
    let ghost bv = seq![c0@, c1@, c2@, c3@, c4@, c5@, c6@, c7@, c8@, c9@];
    assert(commands_view(block@) =~= bv);
    cmds.append(&mut block);
    zero_gaps_exec(cmds, d, ets, to_size / 4);
    assert(commands_view(cmds@) =~= start + spread_bytes_v(
        d@.map_values(|x: ScoreHolder| x@),
        w@,
        to_size as nat,
        (counter.next - 3) as nat,
    ));
}

/// The words of a vector of `d.len()` words whose elements take `ets`
/// words each: the first word of element `k` is `op[k]`, the others 0.
pub open spec fn widen_v(d: Seq<Seq<char>>, op: Seq<Seq<char>>, ets: nat) -> Seq<CommandV> {
    Seq::new(
        d.len(),
        |i: int|
            if i % (ets as int) == 0 {
                assign_v(d[i], op[i / (ets as int)])
            } else {
                set_v(d[i], 0i32)
            },
    )
}

/// Copies the two words of `op` into the vector in `d`, element by
/// element, zeroing the upper words of each element of `ets` words.
fn widen_elements(cmds: &mut Vec<Command>, d: &Vec<ScoreHolder>, op: &Vec<ScoreHolder>, ets: usize)
    requires
        d@.len() > 0 ==> ets > 0,
        d@.len() <= 2 * ets,
        op@.len() == 2,
    ensures
        commands_view(final(cmds)@) == commands_view(old(cmds)@) + widen_v(
            d@.map_values(|x: ScoreHolder| x@),
            op@.map_values(|x: ScoreHolder| x@),
            ets as nat,
        ),
{
    let ghost start = commands_view(cmds@);
    let ghost vd = d@.map_values(|x: ScoreHolder| x@);
    let ghost vo = op@.map_values(|x: ScoreHolder| x@);
    let mut i: usize = 0;
    while i < d.len()
        invariant
            i <= d@.len(),
            d@.len() > 0 ==> ets > 0,
            d@.len() <= 2 * ets,
            op@.len() == 2,
            vd == d@.map_values(|x: ScoreHolder| x@),
            vo == op@.map_values(|x: ScoreHolder| x@),
            commands_view(cmds@) == start + widen_v(vd, vo, ets as nat).take(i as int),
        decreases d@.len() - i,
    {
        let c = if i % ets == 0 {
            assert(i / ets < 2) by (nonlinear_arith)
                requires
                    i < 2 * ets,
                    ets > 0,
            ;
            assert(vo[(i / ets) as int] == op@[(i / ets) as int]@);
            assign(d[i].clone(), op[i / ets].clone())
        } else {
            assign_lit(d[i].clone(), 0)
        };
        assert(c@ == widen_v(vd, vo, ets as nat)[i as int]);
        let ghost before = commands_view(cmds@);
        cmds.push(c);
        assert(commands_view(cmds@) =~= before.push(c@));
        assert(widen_v(vd, vo, ets as nat).take(i + 1) =~= widen_v(vd, vo, ets as nat).take(
            i as int,
        ).push(c@));
        i = i + 1;
    }
    assert(widen_v(vd, vo, ets as nat).take(d@.len() as int) =~= widen_v(vd, vo, ets as nat));
}

fn vector_parts(t: &IrType) -> (r: Option<(&IrType, usize)>)
    ensures
        match r {
            Some((e, k)) => *t == (IrType::Vector { element_type: Box::new(*e), num_elements: k }),
            None => !(t is Vector),
        },
{
    match t {
        IrType::Vector { element_type, num_elements } => Some((&**element_type, *num_elements)),
        _ => None,
    }
}

/// The tail of a zero extension of a one-word operand.
fn zext_one_word(
    cmds: &mut Vec<Command>,
    from: &IrType,
    to_type: &IrType,
    to_size: usize,
    dst: &Vec<ScoreHolder>,
    w: ScoreHolder,
    counter: &mut TempCounter,
)
    requires
        zext_tail_ok(*from, *to_type, to_size as nat, seq![w@], old(counter).next as nat),
        dst@.len() == word_count(to_size as nat),
    ensures
        ({
            let t = zext_tail_v(
                *from,
                *to_type,
                to_size as nat,
                seq![w@],
                dst@.map_values(|x: ScoreHolder| x@),
                old(counter).next as nat,
            );
            &&& commands_view(final(cmds)@) == commands_view(old(cmds)@) + t.0
            &&& final(counter).next == t.1
        }),
{
    let ghost start = commands_view(cmds@);
    let ghost vd = dst@.map_values(|x: ScoreHolder| x@);
    let ghost tail = zext_tail_v(*from, *to_type, to_size as nat, seq![w@], vd, counter.next as nat);
    push1(cmds, assign(dst[0].clone(), w.clone()));
    let zeros_done = match from {
        IrType::Integer { bits } => {
            if *bits < 32 {
                push1(cmds, mod_lit(dst[0].clone(), 1i32 << *bits));
            }
            false
        },
        IrType::Vector { element_type, num_elements } => {
            if *num_elements == 4 && is_int_type(element_type, 1) {
                let to_elem = match vector_parts(to_type) {
                    Some((e, _)) => e,
                    None => {
                        return ;
                    },
                };
                if is_int_type(to_elem, 32) {
                    unpack_bits(cmds, dst, w, counter);
                    true
                } else {
                    false
                }
            } else if *num_elements == 2 && is_int_type(element_type, 8) {
                spread_bytes(cmds, dst, w, to_size, counter);
                false
            } else {
                false
            }
        },
        _ => false,
    };
    if !zeros_done {
        zero_from(cmds, dst, 1);
        assert(Seq::new((dst@.len() - 1) as nat, |i: int| set_v(dst@[i + 1]@, 0i32)) =~= zeros_after(
            vd,
            1,
        ));
    }
    assert(commands_view(cmds@) =~= start + tail.0);
}

/// The tail of a zero extension of a two-word operand.
fn zext_two_words(
    cmds: &mut Vec<Command>,
    from: &IrType,
    to_type: &IrType,
    to_size: usize,
    dst: &Vec<ScoreHolder>,
    op: &Vec<ScoreHolder>,
    m: u32,
)
    requires
        op@.len() == 2,
        zext_tail_ok(*from, *to_type, to_size as nat, op@.map_values(|x: ScoreHolder| x@), m as nat),
        dst@.len() == word_count(to_size as nat),
    ensures
        commands_view(final(cmds)@) == commands_view(old(cmds)@) + zext_tail_v(
            *from,
            *to_type,
            to_size as nat,
            op@.map_values(|x: ScoreHolder| x@),
            dst@.map_values(|x: ScoreHolder| x@),
            m as nat,
        ).0,
{
    let ghost start = commands_view(cmds@);
    let ghost vd = dst@.map_values(|x: ScoreHolder| x@);
    let ghost vo = op@.map_values(|x: ScoreHolder| x@);
    let ghost tail = zext_tail_v(*from, *to_type, to_size as nat, vo, vd, m as nat);
    match from {
        IrType::Integer { bits } => {
            push1(cmds, assign(dst[0].clone(), op[0].clone()));
            push1(cmds, assign(dst[1].clone(), op[1].clone()));
            if *bits < 64 {
                push1(cmds, mod_lit(dst[1].clone(), 1i32 << (*bits - 32)));
            }
            zero_from(cmds, dst, 2);
            assert(Seq::new((dst@.len() - 2) as nat, |i: int| set_v(dst@[i + 2]@, 0i32))
                =~= zeros_after(vd, 2));
        },
        IrType::Vector { element_type, num_elements } => {
            if is_int_type(element_type, 32) {
                let ets = to_size / *num_elements / 4;
                widen_elements(cmds, dst, op, ets);
            }
        },
        _ => {},
    }
    assert(commands_view(cmds@) =~= start + tail.0);
}

/// Compiles `dest = zext operand to to_type`.
pub fn compile_zext(
    operand: &Operand,
    to_type: &IrType,
    dest: LocalName,
    globals: &GlobalTable,
    tys: &Types,
    counter: &mut TempCounter,
) -> (r: Vec<Command>)
    requires
        zext_ok(*operand, *to_type, globals.addrs@, *tys, old(counter).next as nat),
    ensures
        (commands_view(r@), final(counter).next as nat) == zext_v(
            *operand,
            *to_type,
            dest@,
            globals.addrs@,
            *tys,
            old(counter).next as nat,
        ),
{
    let ghost dv = dest@;
    let (mut cmds, op) = eval_operand(operand, globals, tys, counter);
    let ghost head = commands_view(cmds@);
    let ghost vo = op@.map_values(|x: ScoreHolder| x@);
    let to_size = type_layout(to_type, tys).size;
    let dst = ScoreHolder::from_local_name(dest, to_size);
    assert(dst@.map_values(|x: ScoreHolder| x@) =~= local_words(dv, to_size as nat));
    let from = match type_of(operand) {
        Some(t) => t,
        None => {
            return cmds;
        },
    };
    if op.len() == 1 {
        assert(vo =~= seq![op@[0]@]);
        zext_one_word(&mut cmds, from, to_type, to_size, &dst, op[0].clone(), counter);
    } else {
        zext_two_words(&mut cmds, from, to_type, to_size, &dst, &op, counter.next);
    }
    cmds
}

// ----------------------------------------------------------------------
// Sign extension
// ----------------------------------------------------------------------

/// A value of `modu` values copied from `w` into `d`, reduced modulo
/// `modu`, and moved down by `add` when it lies in `lo..=hi`.
pub open spec fn sext_small_v(d: Seq<char>, w: Seq<char>, modu: i32, lo: i32, hi: i32, add: i32) -> Seq<
    CommandV,
> {
    seq![assign_v(d, w), mod_lit_v(d, modu), when_in_v(d, McRange::Between(lo, hi), add_v(d, add))]
}

/// A one-bit value widened to a word: -1 when it is 1, 0 otherwise.
pub open spec fn sext_bool_v(d: Seq<char>, w: Seq<char>) -> Seq<CommandV> {
    seq![exec_if_v(seq![is_one_v(w)], set_v(d, -1i32)), exec_unless_v(is_one_v(w), set_v(d, 0i32))]
}

/// `d1` set to -1 when `d0` is negative.
pub open spec fn fill_high_v(d0: Seq<char>, d1: Seq<char>) -> CommandV {
    when_in_v(d0, McRange::HalfLeft(-1i32), set_v(d1, -1i32))
}

/// The commands that widen a `bits`-bit integer in the words `op` to a
/// 128-bit integer in `d`: the words are copied; when `bits` is not a
/// multiple of 32, the top word is moved down by `2^(bits % 32)` when it
/// equals `2^(bits % 32 - 1)` (twice by `2^30` when `bits % 32` is 31); the
/// remaining words are set to 0. The high words are zero whatever the sign,
/// so only non-negative values come out extended by sign.
pub open spec fn sext_128_v(bits: u32, op: Seq<Seq<char>>, d: Seq<Seq<char>>) -> Seq<CommandV> {
    let words = op.len();
    let b = bits % 32;
    let top = d[words - 1];
    let v = 1i32 << ((b - 1) as u32);
    Seq::new(words, |i: int| assign_v(d[i], op[i])) + (if b > 0 {
        if b == 31 {
            let c = when_in_v(top, McRange::Between(v, v), add_v(top, -1073741824i32));
            seq![c, c]
        } else {
            seq![when_in_v(top, McRange::Between(v, v), add_v(top, (-(1i32 << b)) as i32))]
        }
    } else {
        Seq::empty()
    }) + Seq::new((4 - words) as nat, |i: int| set_v(d[words + i], 0i32))
}

/// A `bits`-bit integer in `w` widened to a narrow integer in `d`: copied,
/// reduced modulo `2^bits`, and moved down by `2^bits` when it equals
/// `2^(bits - 1)`.
pub open spec fn sext_narrow_v(bits: u32, d: Seq<char>, w: Seq<char>) -> Seq<CommandV> {
    let v = 1i32 << ((bits - 1) as u32);
    seq![
        assign_v(d, w),
        mod_lit_v(d, 1i32 << bits),
        when_in_v(d, McRange::Between(v, v), add_v(d, (-(1i32 << bits)) as i32)),
    ]
}

/// Command `j` of the three that widen element `i` of a vector of 32-bit
/// integers to 64 bits.
pub open spec fn sext_elem_cmd(d: Seq<Seq<char>>, op: Seq<Seq<char>>, i: int, j: int) -> CommandV {
    if j == 0 {
        assign_v(d[2 * i], op[i])
    } else if j == 1 {
        set_v(d[2 * i + 1], 0i32)
    } else {
        fill_high_v(d[0], d[1])
    }
}

/// Whether `t` is a vector of integers of `bits` bits.
pub open spec fn is_vector_of(t: IrType, bits: u32) -> bool {
    t matches IrType::Vector { element_type, .. } && *element_type == (IrType::Integer { bits })
}

/// The commands that follow the evaluation of the operand of
/// `dest = sext operand to to_type`, with the operand of type `from` in
/// `op` and the result in the holders `d`.
pub open spec fn sext_tail_v(from: IrType, to_type: IrType, op: Seq<Seq<char>>, d: Seq<Seq<char>>) -> Seq<
    CommandV,
> {
    if to_type == (IrType::Integer { bits: 32 }) {
        if from == (IrType::Integer { bits: 1 }) {
            sext_bool_v(d[0], op[0])
        } else if from == (IrType::Integer { bits: 8 }) {
            sext_small_v(d[0], op[0], 256i32, 128i32, 255i32, -256i32)
        } else {
            sext_small_v(d[0], op[0], 65536i32, 32768i32, 65535i32, -65536i32)
        }
    } else if to_type == (IrType::Integer { bits: 64 }) {
        if from == (IrType::Integer { bits: 32 }) {
            seq![assign_v(d[0], op[0]), set_v(d[1], 0i32), fill_high_v(d[0], d[1])]
        } else if from == (IrType::Integer { bits: 8 }) {
            sext_small_v(d[0], op[0], 256i32, 128i32, 255i32, -256i32).push(fill_high_v(d[0], d[1]))
        } else if from == (IrType::Integer { bits: 16 }) {
            sext_small_v(d[0], op[0], 65536i32, 32768i32, 65535i32, -65536i32).push(fill_high_v(d[0], d[1]))
        } else if from == (IrType::Integer { bits: 1 }) {
            seq![
                set_v(d[0], 0i32),
                exec_if_v(seq![is_one_v(op[0])], set_v(d[0], -1i32)),
                assign_v(d[1], d[0]),
            ]
        } else {
            Seq::empty()
        }
    } else if to_type == (IrType::Integer { bits: 128 }) {
        match from {
            IrType::Integer { bits } => sext_128_v(bits, op, d),
            _ => Seq::empty(),
        }
    } else if to_type == (IrType::Integer { bits: 16 }) || to_type == (IrType::Integer { bits: 8 }) {
        match from {
            IrType::Integer { bits } => sext_narrow_v(bits, d[0], op[0]),
            _ => Seq::empty(),
        }
    } else if is_vector_of(to_type, 64) && is_vector_of(from, 32) {
        blocks_v(to_type->Vector_num_elements as nat, 3, |i: int, j: int| sext_elem_cmd(d, op, i, j))
    } else {
        Seq::empty()
    }
}

/// Whether the tail of a sign extension can be emitted: the source types
/// that each result type takes, and the words that are read.
pub open spec fn sext_tail_ok(from: IrType, to_type: IrType, op: Seq<Seq<char>>) -> bool {
    &&& to_type == (IrType::Integer { bits: 32 }) ==> {
        &&& op.len() >= 1
        &&& from == (IrType::Integer { bits: 1 }) || from == (IrType::Integer { bits: 8 }) || from == (
        IrType::Integer { bits: 16 })
    }
    &&& to_type == (IrType::Integer { bits: 64 }) ==> {
        (from == (IrType::Integer { bits: 32 }) || from == (IrType::Integer { bits: 8 }) || from == (
        IrType::Integer { bits: 16 }) || from == (IrType::Integer { bits: 1 })) ==> op.len() >= 1
    }
    &&& to_type == (IrType::Integer { bits: 128 }) ==> (from is Integer ==> 1 <= op.len() <= 4)
    &&& (to_type == (IrType::Integer { bits: 16 }) || to_type == (IrType::Integer { bits: 8 })) ==> (
    from matches IrType::Integer { bits } ==> 1 <= bits <= 30 && op.len() >= 1)
    &&& is_vector_of(to_type, 64) ==> {
        &&& 8 * to_type->Vector_num_elements <= usize::MAX
        &&& is_vector_of(from, 32) ==> op.len() >= to_type->Vector_num_elements
    }
}

/// The commands of `dest = sext operand to to_type`, and the counter
/// after.
pub open spec fn sext_v(
    operand: Operand,
    to_type: IrType,
    dest: LocalNameV,
    g: Seq<(LocalName, u32)>,
    tys: Types,
    n: nat,
) -> (Seq<CommandV>, nat) {
    let e = eval_operand_v(operand, g, tys, n);
    let size: nat = if to_type == (IrType::Integer { bits: 32 }) {
        4
    } else if to_type == (IrType::Integer { bits: 64 }) {
        8
    } else if to_type == (IrType::Integer { bits: 128 }) {
        16
    } else if to_type == (IrType::Integer { bits: 16 }) {
        2
    } else if to_type == (IrType::Integer { bits: 8 }) {
        1
    } else if to_type is Vector {
        (8 * to_type->Vector_num_elements) as nat
    } else {
        0
    };
    (e.0 + sext_tail_v(operand_type(operand).unwrap(), to_type, e.1, local_words(dest, size)), e.2)
}

/// Whether `dest = sext operand to to_type` can be compiled.
pub open spec fn sext_ok(
    operand: Operand,
    to_type: IrType,
    g: Seq<(LocalName, u32)>,
    tys: Types,
    n: nat,
) -> bool {
    &&& eval_operand_ok(operand, g, tys, n)
    &&& sext_tail_ok(operand_type(operand).unwrap(), to_type, eval_operand_v(operand, g, tys, n).1)
}

/// Appends `sext_small_v(d, w, modu, lo, hi, add)`.
fn sext_small(cmds: &mut Vec<Command>, d: ScoreHolder, w: ScoreHolder, modu: i32, lo: i32, hi: i32, add: i32)
    ensures
        commands_view(final(cmds)@) == commands_view(old(cmds)@) + sext_small_v(d@, w@, modu, lo, hi, add),
{
    let ghost start = commands_view(cmds@);
    push1(cmds, assign(d.clone(), w));
    push1(cmds, mod_lit(d.clone(), modu));
    push1(cmds, when_in(d.clone(), McRange::Between(lo, hi), add_lit(d, add)));
    assert(commands_view(cmds@) =~= start + sext_small_v(d@, w@, modu, lo, hi, add));
}

/// `d1` set to -1 when `d0` is negative.
fn fill_high(d0: ScoreHolder, d1: ScoreHolder) -> (r: Command)
    ensures
        r@ == fill_high_v(d0@, d1@),
{
    when_in(d0, McRange::HalfLeft(-1), assign_lit(d1, -1))
}

/// The tail of a sign extension to 32 bits.
fn sext_to_32(cmds: &mut Vec<Command>, from: &IrType, w: ScoreHolder, d: ScoreHolder)
    ensures
        commands_view(final(cmds)@) == commands_view(old(cmds)@) + sext_tail_v(
            *from,
            IrType::Integer { bits: 32 },
            seq![w@],
            seq![d@],
        ),
{
    let ghost start = commands_view(cmds@);
    if is_int_type(from, 1) {
        let c0 = exec_if1(crate::arith::matches(w.clone(), McRange::Between(1, 1)), assign_lit(d.clone(), -1));
        let c1 = exec_unless(crate::arith::matches(w, McRange::Between(1, 1)), assign_lit(d, 0));
        push1(cmds, c0);
        push1(cmds, c1);
        assert(commands_view(cmds@) =~= start + seq![c0@, c1@]);
    } else if is_int_type(from, 8) {
        sext_small(cmds, d, w, 256, 128, 255, -256);
    } else {
        sext_small(cmds, d, w, 65536, 32768, 65535, -65536);
    }
}

/// The tail of a sign extension to 64 bits.
fn sext_to_64(cmds: &mut Vec<Command>, from: &IrType, op: &Vec<ScoreHolder>, d0: ScoreHolder, d1: ScoreHolder)
    requires
        (*from == (IrType::Integer { bits: 32 }) || *from == (IrType::Integer { bits: 8 }) || *from == (
        IrType::Integer { bits: 16 }) || *from == (IrType::Integer { bits: 1 })) ==> op@.len() >= 1,
    ensures
        commands_view(final(cmds)@) == commands_view(old(cmds)@) + sext_tail_v(
            *from,
            IrType::Integer { bits: 64 },
            op@.map_values(|x: ScoreHolder| x@),
            seq![d0@, d1@],
        ),
{
    let ghost start = commands_view(cmds@);
    if is_int_type(from, 32) {
        push1(cmds, assign(d0.clone(), op[0].clone()));
        push1(cmds, assign_lit(d1.clone(), 0));
        push1(cmds, fill_high(d0, d1));
    } else if is_int_type(from, 8) {
        sext_small(cmds, d0.clone(), op[0].clone(), 256, 128, 255, -256);
        push1(cmds, fill_high(d0, d1));
    } else if is_int_type(from, 16) {
        sext_small(cmds, d0.clone(), op[0].clone(), 65536, 32768, 65535, -65536);
        push1(cmds, fill_high(d0, d1));
    } else if is_int_type(from, 1) {
        push1(cmds, assign_lit(d0.clone(), 0));
        push1(cmds, exec_if1(crate::arith::matches(op[0].clone(), McRange::Between(1, 1)), assign_lit(d0.clone(), -1)));
        push1(cmds, assign(d1, d0));
    }
    assert(commands_view(cmds@) =~= start + sext_tail_v(
        *from,
        IrType::Integer { bits: 64 },
        op@.map_values(|x: ScoreHolder| x@),
        seq![d0@, d1@],
    ));
}

/// The tail of a sign extension of a `bits`-bit integer to 128 bits.
fn sext_to_128(cmds: &mut Vec<Command>, bits: u32, op: &Vec<ScoreHolder>, d: &Vec<ScoreHolder>)
    requires
        1 <= op@.len() <= 4,
        d@.len() == 4,
    ensures
        commands_view(final(cmds)@) == commands_view(old(cmds)@) + sext_128_v(
            bits,
            op@.map_values(|x: ScoreHolder| x@),
            d@.map_values(|x: ScoreHolder| x@),
        ),
{
    let ghost start = commands_view(cmds@);
    let ghost vo = op@.map_values(|x: ScoreHolder| x@);
    let ghost vd = d@.map_values(|x: ScoreHolder| x@);
    let words = op.len();
    let mut i: usize = 0;
    while i < words
        invariant
            words == op@.len(),
            1 <= words <= 4,
            d@.len() == 4,
            i <= words,
            vo == op@.map_values(|x: ScoreHolder| x@),
            vd == d@.map_values(|x: ScoreHolder| x@),
            commands_view(cmds@) == start + Seq::new(i as nat, |k: int| assign_v(vd[k], vo[k])),
        decreases words - i,
    {
        let c = assign(d[i].clone(), op[i].clone());
        assert(c@ == assign_v(vd[i as int], vo[i as int]));
        let ghost before = commands_view(cmds@);
        cmds.push(c);
        assert(commands_view(cmds@) =~= before.push(c@));
        assert(Seq::new((i + 1) as nat, |k: int| assign_v(vd[k], vo[k])) =~= Seq::new(
            i as nat,
            |k: int| assign_v(vd[k], vo[k]),
        ).push(c@));
        i = i + 1;
    }
    let ghost copied = commands_view(cmds@);
    let b = bits % 32;
    if b > 0 {
        let top = d[words - 1].clone();
        let v: i32 = 1i32 << (b - 1);
        proof {
            crate::registers::lemma_op_symbols();
        }
        if b == 31 {
            let c = when_in(top.clone(), McRange::Between(v, v), make_op_lit(top, "-=", 1073741824));
            push1(cmds, c.duplicate());
            push1(cmds, c);
        } else {
            let amount: i32 = 1i32 << b;
            assert(0 < amount <= 1073741824i32) by (bit_vector)
                requires
                    amount == 1i32 << b,
                    b < 31,
            ;
            push1(cmds, when_in(top.clone(), McRange::Between(v, v), make_op_lit(top, "-=", amount)));
        }
    }
    let ghost signed = commands_view(cmds@);
    zero_from(cmds, d, words);
    assert(Seq::new((d@.len() - words) as nat, |k: int| set_v(d@[k + words]@, 0i32)) =~= Seq::new(
        (4 - words) as nat,
        |k: int| set_v(vd[words + k], 0i32),
    ));
    assert(commands_view(cmds@) =~= start + sext_128_v(bits, vo, vd));
}

/// The tail of a sign extension of a `bits`-bit integer to 16 or 8 bits.
fn sext_narrow(cmds: &mut Vec<Command>, bits: u32, w: ScoreHolder, d: ScoreHolder)
    requires
        1 <= bits <= 30,
    ensures
        commands_view(final(cmds)@) == commands_view(old(cmds)@) + sext_narrow_v(bits, d@, w@),
{
    let ghost start = commands_view(cmds@);
    let v: i32 = 1i32 << (bits - 1);
    let p: i32 = 1i32 << bits;
    assert(0 < p <= 1073741824i32) by (bit_vector)
        requires
            p == 1i32 << bits,
            bits <= 30,
    ;
    push1(cmds, assign(d.clone(), w));
    push1(cmds, mod_lit(d.clone(), p));
    push1(cmds, when_in(d.clone(), McRange::Between(v, v), make_op_lit(d, "+=", -p)));
    assert(commands_view(cmds@) =~= start + sext_narrow_v(bits, d@, w@));
}

/// The tail of a sign extension of a vector of 32-bit integers to a
/// vector of `num` 64-bit integers.
fn sext_vector(cmds: &mut Vec<Command>, op: &Vec<ScoreHolder>, d: &Vec<ScoreHolder>, num: usize)
    requires
        op@.len() >= num,
        d@.len() == 2 * num,
        2 * num <= usize::MAX,
    ensures
        commands_view(final(cmds)@) == commands_view(old(cmds)@) + blocks_v(
            num as nat,
            3,
            |i: int, j: int|
                sext_elem_cmd(
                    d@.map_values(|x: ScoreHolder| x@),
                    op@.map_values(|x: ScoreHolder| x@),
                    i,
                    j,
                ),
        ),
{
    let ghost start = commands_view(cmds@);
    let ghost vd = d@.map_values(|x: ScoreHolder| x@);
    let ghost vo = op@.map_values(|x: ScoreHolder| x@);
    let ghost f = |i: int, j: int| sext_elem_cmd(vd, vo, i, j);
    proof {
        lemma_blocks_zero(3, f);
    }
    let mut i: usize = 0;
    while i < num
        invariant
            i <= num,
            op@.len() >= num,
            d@.len() == 2 * num,
            2 * num <= usize::MAX,
            vd == d@.map_values(|x: ScoreHolder| x@),
            vo == op@.map_values(|x: ScoreHolder| x@),
            f == (|i: int, j: int| sext_elem_cmd(vd, vo, i, j)),
            commands_view(cmds@) == start + blocks_v(i as nat, 3, f),
        decreases num - i,
    {
        let c0 = assign(d[2 * i].clone(), op[i].clone());
        let c1 = assign_lit(d[2 * i + 1].clone(), 0);
        let c2 = fill_high(d[0].clone(), d[1].clone());
        assert(vd[2 * i as int] == d@[2 * i as int]@ && vo[i as int] == op@[i as int]@);
        assert(vd[2 * i + 1 as int] == d@[2 * i + 1 as int]@);
        assert(vd[0] == d@[0]@ && vd[1] == d@[1]@);
        let ghost before = commands_view(cmds@);
        cmds.push(c0);
        cmds.push(c1);
        cmds.push(c2);
        assert(commands_view(cmds@) =~= before + seq![c0@, c1@, c2@]);
        proof {
            lemma_blocks_push(i as nat, 3, f, seq![c0@, c1@, c2@]);
        }
        i = i + 1;
    }
}

/// Compiles `dest = sext operand to to_type`.
#[verifier::rlimit(40)]
pub fn compile_sext(
    operand: &Operand,
    to_type: &IrType,
    dest: LocalName,
    globals: &GlobalTable,
    tys: &Types,
    counter: &mut TempCounter,
) -> (r: Vec<Command>)
    requires
        sext_ok(*operand, *to_type, globals.addrs@, *tys, old(counter).next as nat),
    ensures
        (commands_view(r@), final(counter).next as nat) == sext_v(
            *operand,
            *to_type,
            dest@,
            globals.addrs@,
            *tys,
            old(counter).next as nat,
        ),
{
    let ghost dv = dest@;
    let (mut cmds, op) = eval_operand(operand, globals, tys, counter);
    let ghost head = commands_view(cmds@);
    let ghost vo = op@.map_values(|x: ScoreHolder| x@);
    let from = match type_of(operand) {
        Some(t) => t,
        None => {
            return cmds;
        },
    };
    if is_int_type(to_type, 32) {
        let d = ScoreHolder::from_local_name(dest, 4);
        sext_to_32(&mut cmds, from, op[0].clone(), d[0].clone());
        assert(sext_tail_v(*from, *to_type, seq![op@[0]@], seq![d@[0]@]) == sext_tail_v(
            *from,
            *to_type,
            vo,
            local_words(dv, 4),
        ));
    } else if is_int_type(to_type, 64) {
        let d = ScoreHolder::from_local_name(dest, 8);
        sext_to_64(&mut cmds, from, &op, d[0].clone(), d[1].clone());
        assert(sext_tail_v(*from, *to_type, vo, seq![d@[0]@, d@[1]@]) == sext_tail_v(
            *from,
            *to_type,
            vo,
            local_words(dv, 8),
        ));
    } else if is_int_type(to_type, 128) {
        let d = ScoreHolder::from_local_name(dest, 16);
        assert(d@.map_values(|x: ScoreHolder| x@) =~= local_words(dv, 16));
        match from {
            IrType::Integer { bits } => {
                sext_to_128(&mut cmds, *bits, &op, &d);
            },
            _ => {
                assert(commands_view(cmds@) =~= head + Seq::<CommandV>::empty());
            },
        }
    } else if is_int_type(to_type, 16) || is_int_type(to_type, 8) {
        let size: usize = if is_int_type(to_type, 16) {
            2
        } else {
            1
        };
        let d = ScoreHolder::from_local_name(dest, size);
        match from {
            IrType::Integer { bits } => {
                sext_narrow(&mut cmds, *bits, op[0].clone(), d[0].clone());
                assert(sext_narrow_v(*bits, d@[0]@, op@[0]@) == sext_tail_v(
                    *from,
                    *to_type,
                    vo,
                    local_words(dv, size as nat),
                ));
            },
            _ => {
                assert(commands_view(cmds@) =~= head + Seq::<CommandV>::empty());
            },
        }
    } else {
        match vector_parts(to_type) {
            Some((elem, num)) => {
                if is_int_type(elem, 64) {
                    let d = ScoreHolder::from_local_name(dest, 8 * num);
                    assert(d@.map_values(|x: ScoreHolder| x@) =~= local_words(dv, 8 * num as nat));
                    let from_is_words = match vector_parts(from) {
                        Some((fe, _)) => is_int_type(fe, 32),
                        None => false,
                    };
                    if from_is_words {
                        sext_vector(&mut cmds, &op, &d, num);
                    } else {
                        assert(commands_view(cmds@) =~= head + Seq::<CommandV>::empty());
                    }
                } else {
                    assert(commands_view(cmds@) =~= head + Seq::<CommandV>::empty());
                }
            },
            None => {
                assert(commands_view(cmds@) =~= head + Seq::<CommandV>::empty());
            },
        }
    }
    cmds
}

} // verus!
