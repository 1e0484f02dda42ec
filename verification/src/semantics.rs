//! What score commands do to the scores on the objective, for the
//! commands that move and compare 32-bit words, and the laws that the
//! arithmetic and comparison lowerings obey under that meaning.
use vstd::prelude::*;
use crate::arith::{
    IntPredicate, add_32_with_carry_v, exec_if_v, exec_unless_v, icmp_v, if_v, negative, non_negative,
    unless_v,
    signed_cmp_v, unsigned_cmp_v,
};
use crate::cir::{CommandV, CondKindV, CondV, McRange, Relation, ScoreOpKind, StoreKindV, SubCmdV,
    TargetV,
};
use crate::casts::is_one_v;
use crate::extend::sext_small_v;
use crate::layout::IrType;
use crate::shifts::shl_word_const_v;
use crate::registers::{
    add_v, assign_v, const_holder_name, matches_v, objective, op_v, relation_cond_v, set_v,
};

verus! {

/// The scores of named holders on the objective; absent holders score 0.
pub type Scores = Map<Seq<char>, int>;

/// The score of `h`.
pub open spec fn score(s: Scores, h: Seq<char>) -> int {
    if s.dom().contains(h) {
        s[h]
    } else {
        0
    }
}

/// `x` wrapped into the signed 32-bit range, as scores wrap.
pub open spec fn wrap32(x: int) -> int {
    let m = x % 0x1_0000_0000;
    if m >= 0x8000_0000 {
        m - 0x1_0000_0000
    } else {
        m
    }
}

/// A signed 32-bit word read as an unsigned number.
pub open spec fn unsigned(x: int) -> int {
    if x < 0 {
        x + 0x1_0000_0000
    } else {
        x
    }
}

/// Whether `v` lies in `r`.
pub open spec fn in_range(v: int, r: McRange) -> bool {
    match r {
        McRange::Between(lo, hi) => lo <= v <= hi,
        McRange::HalfLeft(hi) => v <= hi,
        McRange::HalfRight(lo) => lo <= v,
    }
}

/// Whether `a relation b`.
pub open spec fn relates(a: int, relation: Relation, b: int) -> bool {
    match relation {
        Relation::LessThan => a < b,
        Relation::LessThanEq => a <= b,
        Relation::Eq => a == b,
        Relation::GreaterThan => a > b,
        Relation::GreaterThanEq => a >= b,
    }
}

/// Whether a score condition holds; conditions on blocks, on other
/// objectives or on selectors are outside this model and count as failing.
pub open spec fn cond_holds(c: CondV, s: Scores) -> bool {
    match c {
        CondV::Score { target: TargetV::Uuid(t), target_obj, kind } => target_obj == objective()
            && match kind {
            CondKindV::Matches(r) => in_range(score(s, t), r),
            CondKindV::Relation { relation, source: TargetV::Uuid(src), source_obj } => source_obj
                == objective() && relates(score(s, t), relation, score(s, src)),
            _ => false,
        },
        _ => false,
    }
}

/// Whether every condition sub-command passes (`if` holds, `unless` fails).
pub open spec fn conditions_pass(subs: Seq<SubCmdV>, s: Scores) -> bool {
    forall|i: int|
        0 <= i < subs.len() ==> match #[trigger] subs[i] {
            SubCmdV::Condition { is_unless, cond } => cond_holds(cond, s) != is_unless,
            _ => true,
        }
}

/// The effect of a score operation with holders on both sides. A division
/// by a positive score rounds down, and a modulo by a positive score takes
/// the remainder that lies between 0 and the modulus; division and modulo
/// by other scores, minimum, maximum and swap are outside this model.
pub open spec fn run_op(s: Scores, t: Seq<char>, kind: ScoreOpKind, src: Seq<char>) -> Scores {
    match kind {
        ScoreOpKind::Assign => s.insert(t, score(s, src)),
        ScoreOpKind::AddAssign => s.insert(t, wrap32(score(s, t) + score(s, src))),
        ScoreOpKind::SubAssign => s.insert(t, wrap32(score(s, t) - score(s, src))),
        ScoreOpKind::MulAssign => s.insert(t, wrap32(score(s, t) * score(s, src))),
        ScoreOpKind::DivAssign => if score(s, src) > 0 {
            s.insert(t, score(s, t) / score(s, src))
        } else {
            s
        },
        ScoreOpKind::ModAssign => if score(s, src) > 0 {
            s.insert(t, score(s, t) % score(s, src))
        } else {
            s
        },
        _ => s,
    }
}

/// The effect of a simple (non-`execute`) score command.
pub open spec fn run_simple(c: CommandV, s: Scores) -> Scores {
    match c {
        CommandV::ScoreOp {
            target: TargetV::Uuid(t),
            target_obj,
            kind,
            source: TargetV::Uuid(src),
            source_obj,
        } => if target_obj == objective() && source_obj == objective() {
            run_op(s, t, kind, src)
        } else {
            s
        },
        CommandV::ScoreSet { target: TargetV::Uuid(t), target_obj, score: v } => if target_obj
            == objective() {
            s.insert(t, v as int)
        } else {
            s
        },
        CommandV::ScoreAdd { target: TargetV::Uuid(t), target_obj, score: v } => if target_obj
            == objective() {
            s.insert(t, wrap32(score(s, t) + v))
        } else {
            s
        },
        _ => s,
    }
}

/// The effect of a command: an `execute` runs its command when its
/// conditions pass, and without a command it stores into each `store
/// success score` holder whether they passed. Other commands are simple.
pub open spec fn run_command(c: CommandV, s: Scores) -> Scores {
    match c {
        CommandV::Execute { subcommands, run } => match run {
            Some(b) => if conditions_pass(subcommands, s) {
                run_simple(*b, s)
            } else {
                s
            },
            None => store_success(subcommands, s, if conditions_pass(subcommands, s) {
                1
            } else {
                0
            }),
        },
        _ => run_simple(c, s),
    }
}

/// Stores `v` into every `store success score` holder of `subs`.
pub open spec fn store_success(subs: Seq<SubCmdV>, s: Scores, v: int) -> Scores
    decreases subs.len(),
{
    if subs.len() == 0 {
        s
    } else {
        let s1 = store_success(subs.drop_last(), s, v);
        match subs.last() {
            SubCmdV::Store {
                is_success: true,
                kind: StoreKindV::Score { target: TargetV::Uuid(t), objective: o },
            } => if o == objective() {
                s1.insert(t, v)
            } else {
                s1
            },
            _ => s1,
        }
    }
}

/// The effect of running commands one after the other.
pub open spec fn run_commands(cmds: Seq<CommandV>, s: Scores) -> Scores
    decreases cmds.len(),
{
    if cmds.len() == 0 {
        s
    } else {
        run_command(cmds.last(), run_commands(cmds.drop_last(), s))
    }
}

/// Running `a` then `b` is running their concatenation.
pub proof fn lemma_run_concat(a: Seq<CommandV>, b: Seq<CommandV>, s: Scores)
    ensures
        run_commands(a + b, s) == run_commands(b, run_commands(a, s)),
    decreases b.len(),
{
    if b.len() == 0 {
        assert(a + b =~= a);
    } else {
        lemma_run_concat(a, b.drop_last(), s);
        assert((a + b).drop_last() =~= a + b.drop_last());
        assert((a + b).last() == b.last());
    }
}

pub(crate) proof fn lemma_run_one(c: CommandV, s: Scores)
    ensures
        run_commands(seq![c], s) == run_command(c, s),
{
    assert(seq![c].drop_last() =~= Seq::<CommandV>::empty());
    assert(run_commands(seq![c].drop_last(), s) == s);
}

pub(crate) proof fn lemma_run_prefix(cmds: Seq<CommandV>, s: Scores)
    requires
        cmds.len() > 0,
    ensures
        run_commands(cmds, s) == run_commands(cmds.drop_first(), run_command(cmds[0], s)),
{
    lemma_run_concat(seq![cmds[0]], cmds.drop_first(), s);
    assert(seq![cmds[0]] + cmds.drop_first() =~= cmds);
    lemma_run_one(cmds[0], s);
}

/// Whether the 32-bit words in a scoreboard are all in the signed range.
pub open spec fn is_word(x: int) -> bool {
    i32::MIN <= x <= i32::MAX
}

pub(crate) proof fn lemma_exec_if_conds(conds: Seq<CondV>, s: Scores)
    ensures
        conditions_pass(conds.map_values(|c: CondV| if_v(c)), s) <==> (forall|i: int|
            0 <= i < conds.len() ==> cond_holds(#[trigger] conds[i], s)),
{
    let subs = conds.map_values(|c: CondV| if_v(c));
    if conditions_pass(subs, s) {
        assert forall|i: int| 0 <= i < conds.len() implies cond_holds(#[trigger] conds[i], s) by {
            assert(subs[i] == if_v(conds[i]));
        }
    }
    if forall|i: int| 0 <= i < conds.len() ==> cond_holds(#[trigger] conds[i], s) {
        assert forall|i: int| 0 <= i < subs.len() implies match #[trigger] subs[i] {
            SubCmdV::Condition { is_unless, cond } => cond_holds(cond, s) != is_unless,
            _ => true,
        } by {
            assert(subs[i] == if_v(conds[i]));
            assert(cond_holds(conds[i], s));
        }
    }
}

/// `add_32_with_carry` adds two words with wrap-around, and runs the
/// carry command exactly when the unsigned addition carries out of the
/// word: here the carry command sets a flag that starts at zero.
pub proof fn lemma_add_32_with_carry(
    op0: Seq<char>,
    op1: Seq<char>,
    dest: Seq<char>,
    flag: Seq<char>,
    s: Scores,
)
    requires
        op0 != op1,
        op0 != dest,
        op1 != dest,
        flag != op0,
        flag != op1,
        flag != dest,
        is_word(score(s, op0)),
        is_word(score(s, op1)),
        score(s, flag) == 0,
    ensures
        ({
            let r = run_commands(add_32_with_carry_v(op0, op1, dest, set_v(flag, 1)), s);
            &&& score(r, dest) == wrap32(score(s, op0) + score(s, op1))
            &&& score(r, flag) == (if unsigned(score(s, op0)) + unsigned(score(s, op1))
                >= 0x1_0000_0000 {
                1int
            } else {
                0int
            })
            &&& score(r, op0) == score(s, op0)
            &&& score(r, op1) == score(s, op1)
        }),
{
    let a = score(s, op0);
    let b = score(s, op1);
    let cmds = add_32_with_carry_v(op0, op1, dest, set_v(flag, 1));
    let s1 = run_command(cmds[0], s);
    let s2 = run_command(cmds[1], s1);
    assert(score(s2, dest) == wrap32(a + b));
    let d = wrap32(a + b);
    assert(d == a + b || d == a + b - 0x1_0000_0000 || d == a + b + 0x1_0000_0000);
    assert(is_word(d));
    let c2 = seq![matches_v(op0, negative()), matches_v(op1, negative())];
    let c3 = seq![
        matches_v(op0, negative()),
        matches_v(op1, non_negative()),
        matches_v(dest, non_negative()),
    ];
    let c4 = seq![
        matches_v(op0, non_negative()),
        matches_v(op1, negative()),
        matches_v(dest, non_negative()),
    ];
    lemma_exec_if_conds(c2, s2);
    let s3 = run_command(cmds[2], s2);
    assert(cmds[2] == exec_if_v(c2, set_v(flag, 1)));
    lemma_exec_if_conds(c3, s3);
    let s4 = run_command(cmds[3], s3);
    assert(cmds[3] == exec_if_v(c3, set_v(flag, 1)));
    lemma_exec_if_conds(c4, s4);
    let s5 = run_command(cmds[4], s4);
    assert(cmds[4] == exec_if_v(c4, set_v(flag, 1)));
    assert(score(s3, op0) == a && score(s3, op1) == b && score(s3, dest) == d);
    assert(score(s4, op0) == a && score(s4, op1) == b && score(s4, dest) == d);
    assert(cond_holds(c2[0], s2) == (a < 0));
    assert(cond_holds(c2[1], s2) == (b < 0));
    assert(cond_holds(c3[0], s3) == (a < 0));
    assert(cond_holds(c3[1], s3) == (b >= 0));
    assert(cond_holds(c3[2], s3) == (d >= 0));
    assert(cond_holds(c4[0], s4) == (a >= 0));
    assert(cond_holds(c4[1], s4) == (b < 0));
    assert(cond_holds(c4[2], s4) == (d >= 0));
    lemma_run_prefix(cmds, s);
    lemma_run_prefix(cmds.drop_first(), s1);
    lemma_run_prefix(cmds.drop_first().drop_first(), s2);
    lemma_run_prefix(cmds.drop_first().drop_first().drop_first(), s3);
    lemma_run_prefix(cmds.drop_first().drop_first().drop_first().drop_first(), s4);
    assert(cmds.drop_first().drop_first().drop_first().drop_first().drop_first() =~= Seq::<
        CommandV,
    >::empty());
    assert(run_commands(cmds, s) == s5);
}

/// The unsigned comparison that `compile_unsigned_cmp` makes with an
/// ordering relation.
pub open spec fn unsigned_relates(a: int, relation: Relation, b: int) -> bool {
    relates(unsigned(a), relation, unsigned(b))
}

/// After the commands of `compile_unsigned_cmp`, the destination holds 1
/// when the words compare by `relation` as unsigned numbers, and 0 when
/// they do not; the compared words are left as they were.
pub proof fn lemma_unsigned_cmp(
    lhs: Seq<char>,
    rhs: Seq<char>,
    dest: Seq<char>,
    relation: Relation,
    s: Scores,
)
    requires
        relation != Relation::Eq,
        lhs != dest,
        rhs != dest,
        is_word(score(s, lhs)),
        is_word(score(s, rhs)),
    ensures
        ({
            let r = run_commands(unsigned_cmp_v(lhs, rhs, dest, relation), s);
            &&& score(r, dest) == (if unsigned_relates(score(s, lhs), relation, score(s, rhs)) {
                1int
            } else {
                0int
            })
            &&& score(r, lhs) == score(s, lhs)
            &&& score(r, rhs) == score(s, rhs)
            &&& forall|h: Seq<char>| h != dest ==> #[trigger] score(r, h) == score(s, h)
        }),
{
    let a = score(s, lhs);
    let b = score(s, rhs);
    let cmds = unsigned_cmp_v(lhs, rhs, dest, relation);
    let invert = crate::arith::unsigned_flags(relation).0;
    let or_eq = crate::arith::unsigned_flags(relation).1;
    let hit = set_v(dest, if invert { 0i32 } else { 1i32 });
    let c1 = seq![
        matches_v(lhs, non_negative()),
        matches_v(rhs, non_negative()),
        relation_cond_v(lhs, Relation::LessThan, rhs),
    ];
    let c2 = seq![
        matches_v(lhs, negative()),
        matches_v(rhs, negative()),
        relation_cond_v(lhs, Relation::LessThan, rhs),
    ];
    let c3 = seq![matches_v(lhs, non_negative()), matches_v(rhs, negative())];
    let c4 = seq![relation_cond_v(lhs, Relation::Eq, rhs)];
    let s0 = run_command(cmds[0], s);
    assert(score(s0, lhs) == a && score(s0, rhs) == b);
    lemma_exec_if_conds(c1, s0);
    assert(cmds[1] == exec_if_v(c1, hit));
    let s1 = run_command(cmds[1], s0);
    assert(score(s1, lhs) == a && score(s1, rhs) == b);
    lemma_exec_if_conds(c2, s1);
    assert(cmds[2] == exec_if_v(c2, hit));
    let s2 = run_command(cmds[2], s1);
    assert(score(s2, lhs) == a && score(s2, rhs) == b);
    lemma_exec_if_conds(c3, s2);
    assert(cmds[3] == exec_if_v(c3, hit));
    let s3 = run_command(cmds[3], s2);
    assert(score(s3, lhs) == a && score(s3, rhs) == b);
    assert forall|h: Seq<char>| h != dest implies #[trigger] score(s3, h) == score(s, h) by {
        assert(score(s0, h) == score(s, h));
        assert(score(s1, h) == score(s, h));
        assert(score(s2, h) == score(s, h));
    }
    assert(cond_holds(c1[0], s0) == (a >= 0));
    assert(cond_holds(c1[1], s0) == (b >= 0));
    assert(cond_holds(c1[2], s0) == (a < b));
    assert(cond_holds(c2[0], s1) == (a < 0));
    assert(cond_holds(c2[1], s1) == (b < 0));
    assert(cond_holds(c2[2], s1) == (a < b));
    assert(cond_holds(c3[0], s2) == (a >= 0));
    assert(cond_holds(c3[1], s2) == (b < 0));
    let less = unsigned(a) < unsigned(b);
    assert(score(s3, dest) == (if less != invert { 1int } else { 0int }));
    lemma_run_prefix(cmds, s);
    lemma_run_prefix(cmds.drop_first(), s0);
    lemma_run_prefix(cmds.drop_first().drop_first(), s1);
    lemma_run_prefix(cmds.drop_first().drop_first().drop_first(), s2);
    let rest = cmds.drop_first().drop_first().drop_first().drop_first();
    if or_eq {
        assert(rest =~= seq![exec_if_v(c4, hit)]);
        lemma_run_one(exec_if_v(c4, hit), s3);
        lemma_exec_if_conds(c4, s3);
        assert(cond_holds(c4[0], s3) == (a == b));
        let s4 = run_command(exec_if_v(c4, hit), s3);
        assert(run_commands(cmds, s) == s4);
    } else {
        assert(rest =~= Seq::<CommandV>::empty());
        assert(run_commands(cmds, s) == s3);
    }
}

/// Whether `predicate` holds between two words.
pub open spec fn predicate_holds(predicate: IntPredicate, a: int, b: int) -> bool {
    match predicate {
        IntPredicate::EQ => a == b,
        IntPredicate::NE => a != b,
        IntPredicate::UGT => unsigned(a) > unsigned(b),
        IntPredicate::UGE => unsigned(a) >= unsigned(b),
        IntPredicate::ULT => unsigned(a) < unsigned(b),
        IntPredicate::ULE => unsigned(a) <= unsigned(b),
        IntPredicate::SGT => a > b,
        IntPredicate::SGE => a >= b,
        IntPredicate::SLT => a < b,
        IntPredicate::SLE => a <= b,
    }
}

pub(crate) proof fn lemma_signed_cmp(
    target: Seq<char>,
    source: Seq<char>,
    dest: Seq<char>,
    relation: Relation,
    normal: bool,
    s: Scores,
)
    ensures
        ({
            let r = run_command(signed_cmp_v(target, source, dest, relation, normal), s);
            &&& score(r, dest) == (if relates(score(s, target), relation, score(s, source))
                == normal {
                1int
            } else {
                0int
            })
            &&& forall|h: Seq<char>| h != dest ==> score(r, h) == score(s, h)
        }),
{
    let c = signed_cmp_v(target, source, dest, relation, normal);
    if let CommandV::Execute { subcommands, run } = c {
        let passed = conditions_pass(subcommands, s);
        let cond = relation_cond_v(target, relation, source);
        assert(passed == (cond_holds(cond, s) != !normal)) by {
            if passed {
                assert(match subcommands[1] {
                    SubCmdV::Condition { is_unless, cond } => cond_holds(cond, s) != is_unless,
                    _ => true,
                });
            }
        }
        let v: int = if passed { 1 } else { 0 };
        let first = subcommands.drop_last();
        assert(first.drop_last() =~= Seq::<SubCmdV>::empty());
        assert(store_success(first.drop_last(), s, v) == s);
        assert(first.last() == subcommands[0]);
        assert(store_success(first, s, v) == s.insert(dest, v));
        assert(store_success(subcommands, s, v) == s.insert(dest, v));
    }
}

/// After the commands of `compile_normal_icmp`, the destination holds 1
/// when `predicate` holds between the two words and 0 when it does not;
/// the compared words are left as they were.
pub proof fn lemma_icmp(
    target: Seq<char>,
    source: Seq<char>,
    predicate: IntPredicate,
    dest: Seq<char>,
    s: Scores,
)
    requires
        target != dest,
        source != dest,
        is_word(score(s, target)),
        is_word(score(s, source)),
    ensures
        ({
            let r = run_commands(icmp_v(target, source, predicate, dest), s);
            &&& score(r, dest) == (if predicate_holds(predicate, score(s, target), score(s, source)) {
                1int
            } else {
                0int
            })
            &&& score(r, target) == score(s, target)
            &&& score(r, source) == score(s, source)
        }),
{
    let a = score(s, target);
    let b = score(s, source);
    match predicate {
        IntPredicate::ULT => lemma_unsigned_cmp(target, source, dest, Relation::LessThan, s),
        IntPredicate::ULE => lemma_unsigned_cmp(target, source, dest, Relation::LessThanEq, s),
        IntPredicate::UGT => lemma_unsigned_cmp(target, source, dest, Relation::GreaterThan, s),
        IntPredicate::UGE => lemma_unsigned_cmp(target, source, dest, Relation::GreaterThanEq, s),
        _ => {
            let (rel, normal) = match predicate {
                IntPredicate::SGE => (Relation::GreaterThanEq, true),
                IntPredicate::SGT => (Relation::GreaterThan, true),
                IntPredicate::SLT => (Relation::LessThan, true),
                IntPredicate::SLE => (Relation::LessThanEq, true),
                IntPredicate::EQ => (Relation::Eq, true),
                _ => (Relation::Eq, false),
            };
            let c = signed_cmp_v(target, source, dest, rel, normal);
            assert(icmp_v(target, source, predicate, dest) == seq![c]);
            lemma_run_one(c, s);
            lemma_signed_cmp(target, source, dest, rel, normal, s);
        },
    }
}

/// Running the two commands of `invert` on a word gives its bitwise
/// complement `-(v + 1)`, and running them twice gives the word back,
/// where the constant holder `%%-1` holds -1.
pub proof fn lemma_invert(t: Seq<char>, s: Scores)
    requires
        t != const_holder_name(-1i32),
        score(s, const_holder_name(-1i32)) == -1,
        is_word(score(s, t)),
    ensures
        ({
            let cmds = seq![add_v(t, 1), op_v(t, ScoreOpKind::MulAssign, const_holder_name(-1i32))];
            let r = run_commands(cmds, s);
            &&& score(r, t) == -(score(s, t) + 1)
            &&& score(run_commands(cmds, r), t) == score(s, t)
            &&& score(r, const_holder_name(-1i32)) == -1
        }),
{
    let c = const_holder_name(-1i32);
    let cmds = seq![add_v(t, 1), op_v(t, ScoreOpKind::MulAssign, c)];
    assert forall|s0: Scores| score(s0, c) == -1 && is_word(#[trigger] score(s0, t)) implies {
        let r0 = run_commands(cmds, s0);
        &&& score(r0, t) == -(score(s0, t) + 1)
        &&& score(r0, c) == -1
    } by {
        let v = score(s0, t);
        lemma_run_prefix(cmds, s0);
        let s1 = run_command(cmds[0], s0);
        assert(score(s1, t) == wrap32(v + 1));
        assert(score(s1, c) == -1);
        lemma_run_prefix(cmds.drop_first(), s1);
        assert(cmds.drop_first().drop_first() =~= Seq::<CommandV>::empty());
        let s2 = run_command(cmds[1], s1);
        assert(score(s2, t) == wrap32(wrap32(v + 1) * -1));
        if v == 0x7fff_ffff {
            assert(wrap32(v + 1) == -0x8000_0000);
            assert(wrap32(-0x8000_0000 * -1) == -0x8000_0000);
        } else {
            assert(wrap32(v + 1) == v + 1);
            assert(wrap32((v + 1) * -1) == -(v + 1));
        }
    }
}

/// The three guards of `add_32_with_carry`, on two words `a`, `b` and their
/// wrapped sum `d`, are never true together, and one of them is true
/// exactly when the unsigned addition carries out of the word: so the carry
/// command runs once on a carry and not at all otherwise, whatever that
/// command is, as long as it leaves the operands and the sum alone.
pub proof fn lemma_carry_guards(a: int, b: int)
    requires
        is_word(a),
        is_word(b),
    ensures
        ({
            let d = wrap32(a + b);
            let g2 = a < 0 && b < 0;
            let g3 = a < 0 && b >= 0 && d >= 0;
            let g4 = a >= 0 && b < 0 && d >= 0;
            &&& !(g2 && g3) && !(g2 && g4) && !(g3 && g4)
            &&& (g2 || g3 || g4) == (unsigned(a) + unsigned(b) >= 0x1_0000_0000)
        }),
{
    let d = wrap32(a + b);
    assert(d == a + b || d == a + b - 0x1_0000_0000 || d == a + b + 0x1_0000_0000);
}


/// A selected word is the true word when the condition holds 1, and the
/// false word otherwise.
pub proof fn lemma_select_word(c: Seq<char>, d: Seq<char>, t: Seq<char>, f: Seq<char>, s: Scores)
    requires
        d != c,
    ensures
        ({
            let cmds = seq![
                exec_if_v(seq![is_one_v(c)], assign_v(d, t)),
                exec_unless_v(is_one_v(c), assign_v(d, f)),
            ];
            score(run_commands(cmds, s), d) == if score(s, c) == 1 {
                score(s, t)
            } else {
                score(s, f)
            }
        }),
{
    let cmds = seq![
        exec_if_v(seq![is_one_v(c)], assign_v(d, t)),
        exec_unless_v(is_one_v(c), assign_v(d, f)),
    ];
    lemma_exec_if_conds(seq![is_one_v(c)], s);
    lemma_run_prefix(cmds, s);
    let s1 = run_command(cmds[0], s);
    assert(score(s1, c) == score(s, c));
    lemma_run_prefix(cmds.drop_first(), s1);
    assert(cmds.drop_first().drop_first() =~= Seq::<CommandV>::empty());
    assert(seq![is_one_v(c)][0] == is_one_v(c));
    assert(cond_holds(is_one_v(c), s) == (score(s, c) == 1));
    assert(cond_holds(is_one_v(c), s1) == (score(s, c) == 1));
    let subs = seq![unless_v(is_one_v(c))];
    assert(subs[0] == unless_v(is_one_v(c)));
    assert(conditions_pass(subs, s1) == (score(s, c) != 1));
    assert(cmds[1] == exec_unless_v(is_one_v(c), assign_v(d, f)));
    if score(s, c) == 1 {
        assert(score(s1, d) == score(s, t));
    } else {
        assert(s1 == s);
    }
}

/// A byte widened by sign to a word: the low byte of the source, read as
/// a signed byte, where the constant holder `%%256` holds 256.
pub proof fn lemma_sext_byte(d: Seq<char>, w: Seq<char>, s: Scores)
    requires
        d != const_holder_name(256i32),
        score(s, const_holder_name(256i32)) == 256,
    ensures
        ({
            let v = score(s, w) % 256;
            let r = run_commands(sext_small_v(d, w, 256i32, 128i32, 255i32, -256i32), s);
            score(r, d) == if v >= 128 {
                v - 256
            } else {
                v
            }
        }),
{
    let cmds = sext_small_v(d, w, 256i32, 128i32, 255i32, -256i32);
    let v = score(s, w) % 256;
    lemma_run_prefix(cmds, s);
    let s1 = run_command(cmds[0], s);
    assert(score(s1, d) == score(s, w));
    assert(score(s1, const_holder_name(256i32)) == 256);
    lemma_run_prefix(cmds.drop_first(), s1);
    let s2 = run_command(cmds[1], s1);
    assert(score(s2, d) == v);
    let rest = cmds.drop_first().drop_first();
    lemma_run_prefix(rest, s2);
    assert(rest.drop_first() =~= Seq::<CommandV>::empty());
    let conds = seq![matches_v(d, McRange::Between(128i32, 255i32))];
    lemma_exec_if_conds(conds, s2);
    assert(conds[0] == matches_v(d, McRange::Between(128i32, 255i32)));
    assert(rest[0] == exec_if_v(conds, add_v(d, -256i32)));
    assert(0 <= v < 256);
    assert(wrap32(v - 256) == v - 256);
}


/// The word case of the compiled arithmetic: copying the first operand
/// into the destination and applying the operation with the second leaves
/// the wrapped sum, difference or product in the destination.
pub proof fn lemma_word_arith(d: Seq<char>, a: Seq<char>, b: Seq<char>, kind: ScoreOpKind, s: Scores)
    requires
        d != b,
        kind == ScoreOpKind::AddAssign || kind == ScoreOpKind::SubAssign || kind == ScoreOpKind::MulAssign,
    ensures
        ({
            let r = run_commands(seq![assign_v(d, a), op_v(d, kind, b)], s);
            score(r, d) == match kind {
                ScoreOpKind::AddAssign => wrap32(score(s, a) + score(s, b)),
                ScoreOpKind::SubAssign => wrap32(score(s, a) - score(s, b)),
                _ => wrap32(score(s, a) * score(s, b)),
            }
        }),
{
    let cmds = seq![assign_v(d, a), op_v(d, kind, b)];
    lemma_run_prefix(cmds, s);
    let s1 = run_command(cmds[0], s);
    assert(score(s1, d) == score(s, a));
    assert(score(s1, b) == score(s, b));
    lemma_run_prefix(cmds.drop_first(), s1);
    assert(cmds.drop_first().drop_first() =~= Seq::<CommandV>::empty());
}

/// A 32-bit word shifted left by a constant `c` is multiplied by
/// `1 << c` with wrap-around, where the constant holder for `1 << c` holds
/// that value.
pub proof fn lemma_shl_word_const(a0: Seq<char>, d: Seq<char>, c: i32, s: Scores)
    requires
        d != const_holder_name(1i32 << c),
        score(s, const_holder_name(1i32 << c)) == (1i32 << c) as int,
    ensures
        score(
            run_commands(shl_word_const_v(a0, d, c, IrType::Integer { bits: 32 }), s),
            d,
        ) == wrap32(score(s, a0) * ((1i32 << c) as int)),
{
    let cmds = shl_word_const_v(a0, d, c, IrType::Integer { bits: 32 });
    assert(cmds =~= seq![assign_v(d, a0), op_v(d, ScoreOpKind::MulAssign, const_holder_name(1i32 << c))]);
    lemma_word_arith(d, a0, const_holder_name(1i32 << c), ScoreOpKind::MulAssign, s);
}

} // verus!
