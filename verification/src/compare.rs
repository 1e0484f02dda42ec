//! Integer comparisons of single words, 64-bit integers, two-word values
//! and vectors.
use vstd::prelude::*;
use crate::arith::{IntPredicate, exec_if1, exec_if2, exec_if_v, exec_unless, exec_unless_v};
use crate::casts::is_one_v;
use crate::cir::{
    Command, CommandV, CondV, ExecuteCondition, McRange, Relation, ScoreHolder, ScoreOpKind,
    commands_view,
};
use crate::constants::GlobalTable;
use crate::layout::{IrType, Types};
use crate::locals::{LocalName, LocalNameV, local_word_name};
use crate::memory::{TempCounter, get_unique_holder, temp_name};
use crate::operands::{Operand, operand_type, type_of};
use crate::ops::{eval_operands, is_int_type, operands_ok, operands_v};
use crate::registers::{
    assign, assign_lit, assign_v, const_holder_name, make_op, make_op_lit, matches_v, op_v,
    relation_cond_v, set_v,
};

verus! {

// ----------------------------------------------------------------------
// The word comparisons this module builds on
// ----------------------------------------------------------------------

/// The commands that set `d` to whether `pred` holds between the words
/// `t` and `s`.
pub open spec fn word_test_v(t: Seq<char>, s: Seq<char>, pred: IntPredicate, d: Seq<char>) -> Seq<CommandV> {
    crate::arith::icmp_v(t, s, pred, d)
}

/// The commands that set `d` to whether `lhs relation rhs` holds between
/// the words read as unsigned numbers.
pub open spec fn unsigned_order_v(lhs: Seq<char>, rhs: Seq<char>, d: Seq<char>, relation: Relation) -> Seq<
    CommandV,
> {
    crate::arith::unsigned_cmp_v(lhs, rhs, d, relation)
}

/// The command that stores into `d` whether `t relation s` holds (or,
/// when `normal` is false, fails).
pub open spec fn signed_order_v(t: Seq<char>, s: Seq<char>, d: Seq<char>, relation: Relation, normal: bool) -> CommandV {
    crate::arith::signed_cmp_v(t, s, d, relation, normal)
}

fn word_test(t: ScoreHolder, s: ScoreHolder, pred: IntPredicate, d: ScoreHolder) -> (r: Vec<Command>)
    ensures
        commands_view(r@) == word_test_v(t@, s@, pred, d@),
{
    crate::arith::compile_normal_icmp(t, s, &pred, d)
}

fn unsigned_order(lhs: ScoreHolder, rhs: ScoreHolder, d: ScoreHolder, relation: Relation) -> (r: Vec<Command>)
    requires
        relation != Relation::Eq,
    ensures
        commands_view(r@) == unsigned_order_v(lhs@, rhs@, d@, relation),
{
    crate::arith::compile_unsigned_cmp(lhs, rhs, d, relation)
}

fn signed_order(t: ScoreHolder, s: ScoreHolder, d: ScoreHolder, relation: Relation, normal: bool) -> (r: Command)
    ensures
        r@ == signed_order_v(t@, s@, d@, relation, normal),
{
    crate::arith::compile_signed_cmp(t, s, d, relation, normal)
}

/// The commands `cmds`, each run only when `cond` holds.
pub open spec fn guarded_v(cmds: Seq<CommandV>, cond: CondV) -> Seq<CommandV> {
    cmds.map_values(|c: CommandV| exec_if_v(seq![cond], c))
}

/// The commands `cmds`, each run only when `cond` fails.
pub open spec fn unguarded_v(cmds: Seq<CommandV>, cond: CondV) -> Seq<CommandV> {
    cmds.map_values(|c: CommandV| exec_unless_v(cond, c))
}

/// Wraps each command in a condition: when `unless`, the command runs
/// when `cond` fails, otherwise when it holds.
fn guard_each(cmds: Vec<Command>, cond: &ExecuteCondition, unless: bool) -> (r: Vec<Command>)
    ensures
        commands_view(r@) == if unless {
            unguarded_v(commands_view(cmds@), cond@)
        } else {
            guarded_v(commands_view(cmds@), cond@)
        },
{
    let ghost src = commands_view(cmds@);
    let ghost target = if unless {
        unguarded_v(src, cond@)
    } else {
        guarded_v(src, cond@)
    };
    let mut out: Vec<Command> = Vec::new();
    let mut i: usize = 0;
    while i < cmds.len()
        invariant
            i <= cmds@.len(),
            src == commands_view(cmds@),
            target == if unless {
                unguarded_v(src, cond@)
            } else {
                guarded_v(src, cond@)
            },
            commands_view(out@) == target.take(i as int),
        decreases cmds@.len() - i,
    {
        let c = if unless {
            exec_unless(cond.duplicate(), cmds[i].duplicate())
        } else {
            exec_if1(cond.duplicate(), cmds[i].duplicate())
        };
        assert(c@ == target[i as int]);
        let ghost before = commands_view(out@);
        out.push(c);
        assert(commands_view(out@) =~= before.push(c@));
        assert(target.take(i + 1) =~= target.take(i as int).push(c@));
        i = i + 1;
    }
    assert(target.take(cmds@.len() as int) =~= target);
    out
}

/// Appends `more` to `cmds`.
fn append_all(cmds: &mut Vec<Command>, more: Vec<Command>)
    ensures
        commands_view(final(cmds)@) == commands_view(old(cmds)@) + commands_view(more@),
{
    let mut m = more;
    let ghost mv = commands_view(m@);
    cmds.append(&mut m);
    assert(commands_view(cmds@) =~= commands_view(old(cmds)@) + mv);
}

/// Pushes `c` at the end of `cmds`.
fn push1(cmds: &mut Vec<Command>, c: Command)
    ensures
        commands_view(final(cmds)@) == commands_view(old(cmds)@).push(c@),
{
    cmds.push(c);
    assert(commands_view(cmds@) =~= commands_view(old(cmds)@).push(c@));
}

// ----------------------------------------------------------------------
// 64-bit integers
// ----------------------------------------------------------------------

/// `d = (t == s)` (or `d = (t != s)` for `NE`) on two-word values: the
/// result is set, then flipped when both word pairs are equal.
pub open spec fn wide_eq_v(pred: IntPredicate, t: Seq<Seq<char>>, s: Seq<Seq<char>>, d: Seq<char>) -> Seq<
    CommandV,
> {
    let is_eq = pred == IntPredicate::EQ;
    seq![
        set_v(d, if is_eq { 0i32 } else { 1i32 }),
        exec_if_v(
            seq![relation_cond_v(t[0], Relation::Eq, s[0]), relation_cond_v(t[1], Relation::Eq, s[1])],
            set_v(d, if is_eq { 1i32 } else { 0i32 }),
        ),
    ]
}

/// The relations that an ordering predicate on 64-bit integers compares
/// the high words and the low words by.
pub open spec fn order_relations(pred: IntPredicate) -> (Relation, Relation) {
    match pred {
        IntPredicate::UGT => (Relation::GreaterThan, Relation::GreaterThan),
        IntPredicate::UGE => (Relation::GreaterThan, Relation::GreaterThanEq),
        IntPredicate::ULT => (Relation::LessThan, Relation::LessThan),
        IntPredicate::ULE => (Relation::LessThan, Relation::LessThanEq),
        IntPredicate::SGT | IntPredicate::SGE => (Relation::LessThan, Relation::LessThan),
        _ => (Relation::GreaterThan, Relation::GreaterThan),
    }
}

/// The closing commands of a 64-bit ordering: `d` is 1 when the high
/// words decided it (`hi` is 1), or when they are equal (`eq` is 1) and
/// the low words decided it (`lo` is 1).
pub open spec fn decide_v(d: Seq<char>, hi: Seq<char>, eq: Seq<char>, lo: Seq<char>) -> Seq<CommandV> {
    seq![
        set_v(d, 0i32),
        exec_if_v(seq![is_one_v(hi)], set_v(d, 1i32)),
        exec_if_v(seq![is_one_v(eq), is_one_v(lo)], set_v(d, 1i32)),
    ]
}

/// Whether a predicate is one of the unsigned orderings.
pub open spec fn is_unsigned_order(pred: IntPredicate) -> bool {
    pred == IntPredicate::UGT || pred == IntPredicate::UGE || pred == IntPredicate::ULT || pred
        == IntPredicate::ULE
}

/// Whether a predicate is one of the signed orderings.
pub open spec fn is_signed_order(pred: IntPredicate) -> bool {
    pred == IntPredicate::SGT || pred == IntPredicate::SGE || pred == IntPredicate::SLT || pred
        == IntPredicate::SLE
}

/// The commands that order two 64-bit integers (low word first in `t` and
/// `s`) by `pred` into `d`, with temporaries numbered from `m`, and the
/// counter after. Unsigned orderings compare the high words, the low
/// words and the equality of the high words; signed ones compare the high
/// words as signed numbers and the low words as unsigned numbers, in the
/// direction that the sign of the first high word selects. Equality
/// predicates give nothing here.
pub open spec fn wide_order_v(pred: IntPredicate, t: Seq<Seq<char>>, s: Seq<Seq<char>>, d: Seq<char>, m: nat) -> (
    Seq<CommandV>,
    nat,
) {
    let hi = temp_name(m);
    let eq = temp_name(m + 1);
    let lo = temp_name(m + 2);
    let (rh, rl) = order_relations(pred);
    if is_unsigned_order(pred) {
        (
            unsigned_order_v(t[1], s[1], hi, rh) + unsigned_order_v(t[0], s[0], lo, rl) + seq![
                signed_order_v(t[1], s[1], eq, Relation::Eq, true),
            ] + decide_v(d, hi, eq, lo),
            m + 3,
        )
    } else if is_signed_order(pred) {
        let greater = pred == IntPredicate::SGT || pred == IntPredicate::SGE;
        let or_eq = pred == IntPredicate::SGE || pred == IntPredicate::SLE;
        (
            seq![
                signed_order_v(
                    t[1],
                    s[1],
                    hi,
                    if greater {
                        Relation::LessThan
                    } else {
                        Relation::GreaterThan
                    },
                    true,
                ),
            ] + unguarded_v(
                unsigned_order_v(
                    t[0],
                    s[0],
                    lo,
                    if greater {
                        Relation::LessThan
                    } else {
                        Relation::GreaterThan
                    },
                ),
                matches_v(t[1], McRange::HalfLeft(-1i32)),
            ) + guarded_v(
                unsigned_order_v(
                    t[0],
                    s[0],
                    lo,
                    if greater {
                        Relation::GreaterThan
                    } else {
                        Relation::LessThan
                    },
                ),
                matches_v(t[1], McRange::HalfRight(0i32)),
            ) + seq![signed_order_v(t[1], s[1], eq, Relation::Eq, true)] + (if or_eq {
                seq![signed_order_v(t[0], s[0], lo, Relation::Eq, true)]
            } else {
                Seq::empty()
            }) + decide_v(d, hi, eq, lo),
            m + 3,
        )
    } else {
        (Seq::empty(), m)
    }
}

/// The closing commands of a 64-bit ordering.
fn decide(cmds: &mut Vec<Command>, d: ScoreHolder, hi: ScoreHolder, eq: ScoreHolder, lo: ScoreHolder)
    ensures
        commands_view(final(cmds)@) == commands_view(old(cmds)@) + decide_v(d@, hi@, eq@, lo@),
{
    let ghost start = commands_view(cmds@);
    push1(cmds, assign_lit(d.clone(), 0));
    push1(cmds, exec_if1(crate::arith::matches(hi, McRange::Between(1, 1)), assign_lit(d.clone(), 1)));
    push1(
        cmds,
        exec_if2(
            crate::arith::matches(eq, McRange::Between(1, 1)),
            crate::arith::matches(lo, McRange::Between(1, 1)),
            assign_lit(d.clone(), 1),
        ),
    );
    assert(commands_view(cmds@) =~= start + decide_v(d@, hi@, eq@, lo@));
}

fn one_cmd(c: Command) -> (r: Vec<Command>)
    ensures
        commands_view(r@) == seq![c@],
{
    let v = vec![c];
    assert(commands_view(v@) =~= seq![c@]);
    v
}

/// Orders two 64-bit integers by `pred` into `d`.
#[verifier::rlimit(40)]
fn wide_order(
    cmds: &mut Vec<Command>,
    pred: IntPredicate,
    t_lo: ScoreHolder,
    t_hi: ScoreHolder,
    s_lo: ScoreHolder,
    s_hi: ScoreHolder,
    d: ScoreHolder,
    counter: &mut TempCounter,
)
    requires
        old(counter).next + 3 <= u32::MAX,
    ensures
        ({
            let r = wide_order_v(
                pred,
                seq![t_lo@, t_hi@],
                seq![s_lo@, s_hi@],
                d@,
                old(counter).next as nat,
            );
            &&& commands_view(final(cmds)@) == commands_view(old(cmds)@) + r.0
            &&& final(counter).next as nat == r.1
        }),
{
    let ghost start = commands_view(cmds@);
    let ghost m = counter.next as nat;
    let ghost r = wide_order_v(pred, seq![t_lo@, t_hi@], seq![s_lo@, s_hi@], d@, m);
    match pred {
        IntPredicate::UGT | IntPredicate::UGE | IntPredicate::ULT | IntPredicate::ULE => {
            let hi = get_unique_holder(counter);
            let eq = get_unique_holder(counter);
            let lo = get_unique_holder(counter);
            let (rh, rl) = match pred {
                IntPredicate::UGT => (Relation::GreaterThan, Relation::GreaterThan),
                IntPredicate::UGE => (Relation::GreaterThan, Relation::GreaterThanEq),
                IntPredicate::ULT => (Relation::LessThan, Relation::LessThan),
                _ => (Relation::LessThan, Relation::LessThanEq),
            };
            append_all(cmds, unsigned_order(t_hi.clone(), s_hi.clone(), hi.clone(), rh));
            append_all(cmds, unsigned_order(t_lo, s_lo, lo.clone(), rl));
            push1(cmds, signed_order(t_hi, s_hi, eq.clone(), Relation::Eq, true));
            decide(cmds, d, hi, eq, lo);
            assert(commands_view(cmds@) =~= start + r.0);
        },
        IntPredicate::SGT | IntPredicate::SGE | IntPredicate::SLT | IntPredicate::SLE => {
            let greater = match pred {
                IntPredicate::SGT | IntPredicate::SGE => true,
                _ => false,
            };
            let or_eq = match pred {
                IntPredicate::SGE | IntPredicate::SLE => true,
                _ => false,
            };
            let hi = get_unique_holder(counter);
            let eq = get_unique_holder(counter);
            let lo = get_unique_holder(counter);
            let (first, second) = if greater {
                (Relation::LessThan, Relation::GreaterThan)
            } else {
                (Relation::GreaterThan, Relation::LessThan)
            };
            push1(cmds, signed_order(t_hi.clone(), s_hi.clone(), hi.clone(), first, true));
            let neg = crate::arith::matches(t_hi.clone(), McRange::HalfLeft(-1));
            let a = unsigned_order(t_lo.clone(), s_lo.clone(), lo.clone(), first);
            append_all(cmds, guard_each(a, &neg, true));
            let non_neg = crate::arith::matches(t_hi.clone(), McRange::HalfRight(0));
            let b = unsigned_order(t_lo.clone(), s_lo.clone(), lo.clone(), second);
            append_all(cmds, guard_each(b, &non_neg, false));
            push1(cmds, signed_order(t_hi, s_hi, eq.clone(), Relation::Eq, true));
            if or_eq {
                push1(cmds, signed_order(t_lo, s_lo, lo.clone(), Relation::Eq, true));
            }
            decide(cmds, d, hi, eq, lo);
            assert(commands_view(cmds@) =~= start + r.0);
        },
        _ => {
            assert(commands_view(cmds@) =~= start + r.0);
        },
    }
}

// ----------------------------------------------------------------------
// Vectors
// ----------------------------------------------------------------------

/// The commands that compare the first `k` elements of two vectors of
/// 32-bit integers, each into `db`, and add each result into byte `i` of
/// `d`.
pub open spec fn vec_words_test_v(
    pred: IntPredicate,
    t: Seq<Seq<char>>,
    s: Seq<Seq<char>>,
    db: Seq<char>,
    d: Seq<char>,
    k: nat,
) -> Seq<CommandV>
    decreases k,
{
    if k == 0 {
        Seq::empty()
    } else {
        let i = k - 1;
        vec_words_test_v(pred, t, s, db, d, i as nat) + word_test_v(t[i], s[i], pred, db) + seq![
            op_v(db, ScoreOpKind::MulAssign, const_holder_name(1i32 << ((8 * i) as u32))),
            op_v(d, ScoreOpKind::AddAssign, db),
        ]
    }
}

/// The commands that isolate byte `b` of `w` in `x`: shifted to the top,
/// then down to the bottom.
pub open spec fn isolate_byte_v(x: Seq<char>, w: Seq<char>, b: nat) -> Seq<CommandV> {
    seq![
        assign_v(x, w),
        op_v(x, ScoreOpKind::MulAssign, const_holder_name(1i32 << ((8 * (3 - b)) as u32))),
        op_v(x, ScoreOpKind::DivAssign, const_holder_name(1i32 << ((8 * b) as u32))),
    ]
}

/// The commands that compare the first `k` bytes of two vectors of four
/// 8-bit integers packed in `t` and `s`, each through `tb` and `sb` into
/// `db`, and add each result into byte `b` of `d`.
pub open spec fn vec_bytes_test_v(
    pred: IntPredicate,
    t: Seq<char>,
    s: Seq<char>,
    tb: Seq<char>,
    sb: Seq<char>,
    db: Seq<char>,
    d: Seq<char>,
    k: nat,
) -> Seq<CommandV>
    decreases k,
{
    if k == 0 {
        Seq::empty()
    } else {
        let b = (k - 1) as nat;
        vec_bytes_test_v(pred, t, s, tb, sb, db, d, b) + isolate_byte_v(tb, t, b) + isolate_byte_v(
            sb,
            s,
            b,
        ) + word_test_v(tb, sb, pred, db) + seq![
            op_v(db, ScoreOpKind::MulAssign, const_holder_name(1i32 << ((8 * b) as u32))),
            op_v(d, ScoreOpKind::AddAssign, db),
        ]
    }
}

fn mul_lit(x: ScoreHolder, score: i32) -> (r: Command)
    ensures
        r@ == op_v(x@, ScoreOpKind::MulAssign, const_holder_name(score)),
{
    proof {
        crate::registers::lemma_op_symbols();
    }
    make_op_lit(x, "*=", score)
}

fn div_lit(x: ScoreHolder, score: i32) -> (r: Command)
    ensures
        r@ == op_v(x@, ScoreOpKind::DivAssign, const_holder_name(score)),
{
    proof {
        crate::registers::lemma_op_symbols();
    }
    make_op_lit(x, "/=", score)
}

fn add_holder(x: ScoreHolder, y: ScoreHolder) -> (r: Command)
    ensures
        r@ == op_v(x@, ScoreOpKind::AddAssign, y@),
{
    proof {
        crate::registers::lemma_op_symbols();
    }
    make_op(x, "+=", y)
}

/// Compares vectors of 32-bit integers element by element into the bytes
/// of `d`.
fn vec_words_test(
    cmds: &mut Vec<Command>,
    pred: IntPredicate,
    t: &Vec<ScoreHolder>,
    s: &Vec<ScoreHolder>,
    db: ScoreHolder,
    d: ScoreHolder,
    count: usize,
)
    requires
        count <= t@.len(),
        count <= s@.len(),
        count <= 4,
    ensures
        commands_view(final(cmds)@) == commands_view(old(cmds)@) + vec_words_test_v(
            pred,
            t@.map_values(|x: ScoreHolder| x@),
            s@.map_values(|x: ScoreHolder| x@),
            db@,
            d@,
            count as nat,
        ),
{
    let ghost start = commands_view(cmds@);
    let ghost vt = t@.map_values(|x: ScoreHolder| x@);
    let ghost vs = s@.map_values(|x: ScoreHolder| x@);
    let mut i: usize = 0;
    while i < count
        invariant
            i <= count <= 4,
            count <= t@.len(),
            count <= s@.len(),
            vt == t@.map_values(|x: ScoreHolder| x@),
            vs == s@.map_values(|x: ScoreHolder| x@),
            commands_view(cmds@) == start + vec_words_test_v(pred, vt, vs, db@, d@, i as nat),
        decreases count - i,
    {
        let ghost before = commands_view(cmds@);
        append_all(cmds, word_test(t[i].clone(), s[i].clone(), pred, db.clone()));
        let shift: u32 = 8 * (i as u32);
        push1(cmds, mul_lit(db.clone(), 1i32 << shift));
        push1(cmds, add_holder(d.clone(), db.clone()));
        assert(vt[i as int] == t@[i as int]@ && vs[i as int] == s@[i as int]@);
        assert(commands_view(cmds@) =~= start + vec_words_test_v(pred, vt, vs, db@, d@, (i + 1) as nat));
        i = i + 1;
    }
}

/// Compares two vectors of four bytes packed in `t` and `s` byte by byte
/// into the bytes of `d`.
fn vec_bytes_test(
    cmds: &mut Vec<Command>,
    pred: IntPredicate,
    t: ScoreHolder,
    s: ScoreHolder,
    tb: ScoreHolder,
    sb: ScoreHolder,
    db: ScoreHolder,
    d: ScoreHolder,
)
    ensures
        commands_view(final(cmds)@) == commands_view(old(cmds)@) + vec_bytes_test_v(
            pred,
            t@,
            s@,
            tb@,
            sb@,
            db@,
            d@,
            4,
        ),
{
    let ghost start = commands_view(cmds@);
    let mut b: u32 = 0;
    while b < 4
        invariant
            b <= 4,
            commands_view(cmds@) == start + vec_bytes_test_v(pred, t@, s@, tb@, sb@, db@, d@, b as nat),
        decreases 4 - b,
    {
        push1(cmds, assign(tb.clone(), t.clone()));
        push1(cmds, mul_lit(tb.clone(), 1i32 << (8 * (3 - b))));
        push1(cmds, div_lit(tb.clone(), 1i32 << (8 * b)));
        push1(cmds, assign(sb.clone(), s.clone()));
        push1(cmds, mul_lit(sb.clone(), 1i32 << (8 * (3 - b))));
        push1(cmds, div_lit(sb.clone(), 1i32 << (8 * b)));
        append_all(cmds, word_test(tb.clone(), sb.clone(), pred, db.clone()));
        push1(cmds, mul_lit(db.clone(), 1i32 << (8 * b)));
        push1(cmds, add_holder(d.clone(), db.clone()));
        assert(commands_view(cmds@) =~= start + vec_bytes_test_v(
            pred,
            t@,
            s@,
            tb@,
            sb@,
            db@,
            d@,
            (b + 1) as nat,
        ));
        b = b + 1;
    }
}

// ----------------------------------------------------------------------
// Single and two-word values
// ----------------------------------------------------------------------

/// The commands that compare `t` and `s` by `pred` into `d`, when they are
/// not 64-bit integers or vectors: one word each is compared directly;
/// two words each compare the high words, then the low words when the
/// high words are equal; one word against two settles the high word of
/// `s` first and compares the low words when it is 0; anything else gives
/// nothing.
pub open spec fn scalar_test_v(pred: IntPredicate, t: Seq<Seq<char>>, s: Seq<Seq<char>>, d: Seq<char>) -> Seq<
    CommandV,
> {
    if t.len() == 1 && s.len() == 1 {
        word_test_v(t[0], s[0], pred, d)
    } else if t.len() == 2 && s.len() == 2 {
        word_test_v(t[1], s[1], pred, d) + guarded_v(
            word_test_v(t[0], s[0], pred, d),
            relation_cond_v(t[1], Relation::Eq, s[1]),
        )
    } else if t.len() == 1 && s.len() == 2 {
        let pre = match pred {
            IntPredicate::SGT | IntPredicate::SGE => seq![
                exec_if_v(seq![matches_v(s[1], McRange::HalfRight(1i32))], set_v(d, 1i32)),
            ],
            IntPredicate::SLT | IntPredicate::SLE => seq![
                exec_if_v(seq![matches_v(s[1], McRange::HalfLeft(-1i32))], set_v(d, 1i32)),
            ],
            IntPredicate::EQ | IntPredicate::ULE | IntPredicate::ULT => Seq::empty(),
            _ => seq![
                exec_unless_v(matches_v(s[1], McRange::Between(0i32, 0i32)), set_v(d, 1i32)),
            ],
        };
        pre + guarded_v(word_test_v(t[0], s[0], pred, d), matches_v(s[1], McRange::Between(0i32, 0i32)))
    } else {
        Seq::empty()
    }
}

/// Compares one- or two-word values.
fn scalar_test(cmds: &mut Vec<Command>, pred: IntPredicate, t: &Vec<ScoreHolder>, s: &Vec<ScoreHolder>, d: ScoreHolder)
    ensures
        commands_view(final(cmds)@) == commands_view(old(cmds)@) + scalar_test_v(
            pred,
            t@.map_values(|x: ScoreHolder| x@),
            s@.map_values(|x: ScoreHolder| x@),
            d@,
        ),
{
    let ghost start = commands_view(cmds@);
    let ghost vt = t@.map_values(|x: ScoreHolder| x@);
    let ghost vs = s@.map_values(|x: ScoreHolder| x@);
    if t.len() != 1 || s.len() != 1 {
        if t.len() == 2 && s.len() == 2 {
            append_all(cmds, word_test(t[1].clone(), s[1].clone(), pred, d.clone()));
            let conditionals = word_test(t[0].clone(), s[0].clone(), pred, d);
            let cond = crate::arith::relation_cond(t[1].clone(), Relation::Eq, s[1].clone());
            append_all(cmds, guard_each(conditionals, &cond, false));
        } else if t.len() == 1 && s.len() == 2 {
            match pred {
                IntPredicate::SGT | IntPredicate::SGE => {
                    push1(
                        cmds,
                        exec_if1(
                            crate::arith::matches(s[1].clone(), McRange::HalfRight(1)),
                            assign_lit(d.clone(), 1),
                        ),
                    );
                },
                IntPredicate::SLT | IntPredicate::SLE => {
                    push1(
                        cmds,
                        exec_if1(
                            crate::arith::matches(s[1].clone(), McRange::HalfLeft(-1)),
                            assign_lit(d.clone(), 1),
                        ),
                    );
                },
                IntPredicate::EQ | IntPredicate::ULE | IntPredicate::ULT => {},
                _ => {
                    push1(
                        cmds,
                        exec_unless(
                            crate::arith::matches(s[1].clone(), McRange::Between(0, 0)),
                            assign_lit(d.clone(), 1),
                        ),
                    );
                },
            }
            let conditionals = word_test(t[0].clone(), s[0].clone(), pred, d);
            let cond = crate::arith::matches(s[1].clone(), McRange::Between(0, 0));
            append_all(cmds, guard_each(conditionals, &cond, false));
        }
    } else {
        append_all(cmds, word_test(t[0].clone(), s[0].clone(), pred, d));
    }
    assert(commands_view(cmds@) =~= start + scalar_test_v(pred, vt, vs, d@));
}

// ----------------------------------------------------------------------
// The comparison instruction
// ----------------------------------------------------------------------

/// Whether `ty` is a vector of `bits`-bit integers.
pub open spec fn vector_of(ty: IrType, bits: u32) -> bool {
    ty matches IrType::Vector { element_type, .. } && *element_type == (IrType::Integer { bits })
}

/// The smaller of two lengths.
pub open spec fn min2(a: nat, b: nat) -> nat {
    if a <= b {
        a
    } else {
        b
    }
}

/// The commands that follow the evaluation of the operands of
/// `dest = icmp pred op0, op1` on values of type `ty`, with the operands
/// in `t` and `s` and the counter at `m`, and the counter after. 64-bit
/// equality compares both word pairs; 64-bit orderings go through
/// [`wide_order_v`]; vectors of 32-bit integers and of four bytes give one
/// result byte per element; other vectors give nothing; anything else is
/// compared by [`scalar_test_v`].
pub open spec fn compare_tail_v(
    pred: IntPredicate,
    ty: IrType,
    t: Seq<Seq<char>>,
    s: Seq<Seq<char>>,
    dest: LocalNameV,
    m: nat,
) -> (Seq<CommandV>, nat) {
    let d = local_word_name(dest, 0);
    if ty == (IrType::Integer { bits: 64 }) {
        if pred == IntPredicate::EQ || pred == IntPredicate::NE {
            (wide_eq_v(pred, t, s, d), m)
        } else {
            wide_order_v(pred, t, s, d, m)
        }
    } else if vector_of(ty, 32) {
        (vec_words_test_v(pred, t, s, temp_name(m), d, min2(t.len(), s.len())), m + 1)
    } else if ty == (IrType::Vector { element_type: Box::new(IrType::Integer { bits: 8 }), num_elements: 4 }) {
        (vec_bytes_test_v(pred, t[0], s[0], temp_name(m), temp_name(m + 1), temp_name(m + 2), d, 4), m + 3)
    } else if ty is Vector {
        (Seq::empty(), m)
    } else {
        (scalar_test_v(pred, t, s, d), m)
    }
}

/// Whether the tail of a comparison can be emitted: 64-bit integers have
/// two words, vectors of 32-bit integers have one to four elements, and
/// the temporaries fit.
pub open spec fn compare_tail_ok(pred: IntPredicate, ty: IrType, t: Seq<Seq<char>>, s: Seq<Seq<char>>, m: nat) -> bool {
    if ty == (IrType::Integer { bits: 64 }) {
        &&& t.len() >= 2
        &&& s.len() >= 2
        &&& !(pred == IntPredicate::EQ || pred == IntPredicate::NE) ==> m + 3 <= u32::MAX
    } else if vector_of(ty, 32) {
        &&& 1 <= ty->Vector_num_elements <= 4
        &&& min2(t.len(), s.len()) <= 4
        &&& m + 1 <= u32::MAX
    } else if ty == (IrType::Vector { element_type: Box::new(IrType::Integer { bits: 8 }), num_elements: 4 }) {
        &&& t.len() >= 1
        &&& s.len() >= 1
        &&& m + 3 <= u32::MAX
    } else {
        true
    }
}

/// The commands of `dest = icmp pred operand0, operand1` and the counter
/// after: both operands are brought into holders, then compared.
pub open spec fn compare_v(
    pred: IntPredicate,
    op0: Operand,
    op1: Operand,
    dest: LocalNameV,
    g: Seq<(LocalName, u32)>,
    tys: Types,
    n: nat,
) -> (Seq<CommandV>, nat) {
    let o = operands_v(op0, op1, g, tys, n);
    let tl = compare_tail_v(pred, operand_type(op0).unwrap(), o.1, o.2, dest, o.3);
    (o.0 + tl.0, tl.1)
}

/// Whether `dest = icmp pred operand0, operand1` can be compiled.
pub open spec fn compare_ok(
    pred: IntPredicate,
    op0: Operand,
    op1: Operand,
    g: Seq<(LocalName, u32)>,
    tys: Types,
    n: nat,
) -> bool {
    let o = operands_v(op0, op1, g, tys, n);
    &&& operands_ok(op0, op1, g, tys, n)
    &&& operand_type(op0) is Some
    &&& compare_tail_ok(pred, operand_type(op0).unwrap(), o.1, o.2, o.3)
}

fn vector_shape(ty: &IrType) -> (r: (bool, bool))
    ensures
        r.0 == vector_of(*ty, 32),
        r.1 == (*ty == (IrType::Vector { element_type: Box::new(IrType::Integer { bits: 8 }), num_elements: 4 })),
{
    match ty {
        IrType::Vector { element_type, num_elements } => {
            (is_int_type(element_type, 32), is_int_type(element_type, 8) && *num_elements == 4)
        },
        _ => (false, false),
    }
}

fn is_vector(ty: &IrType) -> (r: bool)
    ensures
        r == ty is Vector,
{
    match ty {
        IrType::Vector { .. } => true,
        _ => false,
    }
}

/// Compiles `dest = icmp pred operand0, operand1`.
#[verifier::rlimit(40)]
pub fn compile_int_compare(
    pred: IntPredicate,
    operand0: &Operand,
    operand1: &Operand,
    dest: LocalName,
    globals: &GlobalTable,
    tys: &Types,
    counter: &mut TempCounter,
) -> (r: Vec<Command>)
    requires
        compare_ok(pred, *operand0, *operand1, globals.addrs@, *tys, old(counter).next as nat),
    ensures
        (commands_view(r@), final(counter).next as nat) == compare_v(
            pred,
            *operand0,
            *operand1,
            dest@,
            globals.addrs@,
            *tys,
            old(counter).next as nat,
        ),
{
    let ghost dv = dest@;
    let (mut cmds, t, s) = eval_operands(operand0, operand1, globals, tys, counter);
    let ghost head = commands_view(cmds@);
    let ghost vt = t@.map_values(|x: ScoreHolder| x@);
    let ghost vs = s@.map_values(|x: ScoreHolder| x@);
    let ghost m = counter.next as nat;
    let ty = match type_of(operand0) {
        Some(ty) => ty,
        None => {
            return cmds;
        },
    };
    let ghost tail = compare_tail_v(pred, *ty, vt, vs, dv, m);
    let d = ScoreHolder::from_local_name(dest, 1)[0].clone();
    let (words, bytes) = vector_shape(ty);
    if is_int_type(ty, 64) {
        let is_eq = match pred {
            IntPredicate::EQ => true,
            _ => false,
        };
        let is_ne = match pred {
            IntPredicate::NE => true,
            _ => false,
        };
        if is_eq || is_ne {
            push1(&mut cmds, assign_lit(d.clone(), if is_eq { 0 } else { 1 }));
            push1(
                &mut cmds,
                exec_if2(
                    crate::arith::relation_cond(t[0].clone(), Relation::Eq, s[0].clone()),
                    crate::arith::relation_cond(t[1].clone(), Relation::Eq, s[1].clone()),
                    assign_lit(d, if is_eq { 1 } else { 0 }),
                ),
            );
        } else {
            wide_order(&mut cmds, pred, t[0].clone(), t[1].clone(), s[0].clone(), s[1].clone(), d, counter);
            assert(seq![vt[0], vt[1]] =~= vt.take(2));
            assert(wide_order_v(pred, seq![vt[0], vt[1]], seq![vs[0], vs[1]], d@, m) == wide_order_v(
                pred,
                vt,
                vs,
                d@,
                m,
            ));
        }
    } else if words {
        let db = get_unique_holder(counter);
        let count = if t.len() <= s.len() {
            t.len()
        } else {
            s.len()
        };
        vec_words_test(&mut cmds, pred, &t, &s, db, d, count);
    } else if bytes {
        let tb = get_unique_holder(counter);
        let sb = get_unique_holder(counter);
        let db = get_unique_holder(counter);
        vec_bytes_test(&mut cmds, pred, t[0].clone(), s[0].clone(), tb, sb, db, d);
    } else if is_vector(ty) {
    } else {
        scalar_test(&mut cmds, pred, &t, &s, d);
    }
    assert(commands_view(cmds@) =~= head + tail.0);
    cmds
}

} // verus!
