//! What the compiled integer operations compute, stated on the numbers the
//! words stand for: sign extension, 64-bit comparison, 64-bit shift left by
//! a constant, 64-bit multiplication and constant address offsets.
use vstd::prelude::*;
use crate::arith::{IntPredicate, mul_64_bit_v, signed_cmp_v, unsigned_cmp_v};
use crate::cir::{CommandV, McRange, Relation, ScoreOpKind};
use crate::constants::{Constant, elem_stride, struct_fields};
use crate::gep::{GepState, gep_v, gep_walk_v};
use crate::operands::{Operand, operand_type};
use crate::compare::{compare_tail_v, decide_v, order_relations, wide_eq_v, wide_order_v};
use crate::extend::{sext_small_v, sext_tail_v};
use crate::layout::{IrType, Types, offset_of_ok, offset_of_spec};
use crate::locals::{LocalNameV, local_word_name};
use crate::memory::temp_name;
use crate::registers::{add_v, assign_v, call_v, const_holder_name, matches_v, param_name, return_name, set_v};
use crate::semantics::{
    Scores, is_word, lemma_exec_if_conds, lemma_run_concat, lemma_run_prefix, lemma_signed_cmp,
    lemma_unsigned_cmp, relates, run_command, run_commands, score, unsigned, wrap32,
};
use crate::arith::exec_if_v;

verus! {

// ----------------------------------------------------------------------
// Sign extension
// ----------------------------------------------------------------------

/// The low `bits` bits of `w`, read as a signed number of that width.
pub open spec fn signed_low(w: int, bits: nat) -> int {
    let m = vstd::arithmetic::power2::pow2(bits) as int;
    let v = w % m;
    if v >= m / 2 {
        v - m
    } else {
        v
    }
}

proof fn lemma_sext_small(d: Seq<char>, w: Seq<char>, modu: i32, lo: i32, hi: i32, add: i32, s: Scores)
    requires
        modu == 256 || modu == 65536,
        lo == modu / 2,
        hi == modu - 1,
        add == -modu,
        d != const_holder_name(modu),
        score(s, const_holder_name(modu)) == modu,
    ensures
        ({
            let v = score(s, w) % (modu as int);
            let r = run_commands(sext_small_v(d, w, modu, lo, hi, add), s);
            score(r, d) == if v >= modu / 2 {
                v - modu
            } else {
                v
            }
        }),
{
    let cmds = sext_small_v(d, w, modu, lo, hi, add);
    let v = score(s, w) % (modu as int);
    lemma_run_prefix(cmds, s);
    let s1 = run_command(cmds[0], s);
    assert(score(s1, d) == score(s, w));
    assert(score(s1, const_holder_name(modu)) == modu);
    lemma_run_prefix(cmds.drop_first(), s1);
    let s2 = run_command(cmds[1], s1);
    assert(score(s2, d) == v);
    let rest = cmds.drop_first().drop_first();
    lemma_run_prefix(rest, s2);
    assert(rest.drop_first() =~= Seq::<CommandV>::empty());
    let conds = seq![matches_v(d, McRange::Between(lo, hi))];
    lemma_exec_if_conds(conds, s2);
    assert(conds[0] == matches_v(d, McRange::Between(lo, hi)));
    assert(rest[0] == exec_if_v(conds, add_v(d, add)));
    assert(0 <= v < modu);
    assert(wrap32(v - modu) == v - modu);
}

/// Widening a byte to a word by sign: the result is the low 8 bits of the
/// source read as a signed byte, where the constant holder `%%256` holds
/// 256.
pub proof fn lemma_sext_byte_to_word(op: Seq<Seq<char>>, d: Seq<Seq<char>>, s: Scores)
    requires
        op.len() >= 1,
        d.len() >= 1,
        d[0] != const_holder_name(256i32),
        score(s, const_holder_name(256i32)) == 256,
    ensures
        score(
            run_commands(sext_tail_v(IrType::Integer { bits: 8 }, IrType::Integer { bits: 32 }, op, d), s),
            d[0],
        ) == signed_low(score(s, op[0]), 8),
{
    lemma_sext_small(d[0], op[0], 256i32, 128i32, 255i32, -256i32, s);
    vstd::arithmetic::power2::lemma2_to64();
}

/// Widening a halfword to a word by sign: the result is the low 16 bits
/// of the source read as a signed halfword, where the constant holder
/// `%%65536` holds 65536.
pub proof fn lemma_sext_halfword_to_word(op: Seq<Seq<char>>, d: Seq<Seq<char>>, s: Scores)
    requires
        op.len() >= 1,
        d.len() >= 1,
        d[0] != const_holder_name(65536i32),
        score(s, const_holder_name(65536i32)) == 65536,
    ensures
        score(
            run_commands(sext_tail_v(IrType::Integer { bits: 16 }, IrType::Integer { bits: 32 }, op, d), s),
            d[0],
        ) == signed_low(score(s, op[0]), 16),
{
    lemma_sext_small(d[0], op[0], 65536i32, 32768i32, 65535i32, -65536i32, s);
    vstd::arithmetic::power2::lemma2_to64();
}

// ----------------------------------------------------------------------
// 64-bit comparison
// ----------------------------------------------------------------------

/// The unsigned 64-bit number that the words `lo`, `hi` stand for.
pub open spec fn unsigned64(lo: int, hi: int) -> int {
    unsigned(lo) + 0x1_0000_0000 * unsigned(hi)
}

/// Whether `pred` holds between two unsigned 64-bit numbers, for equality
/// and the unsigned orderings.
pub open spec fn holds64(pred: IntPredicate, a: int, b: int) -> bool {
    match pred {
        IntPredicate::EQ => a == b,
        IntPredicate::NE => a != b,
        IntPredicate::UGT => a > b,
        IntPredicate::UGE => a >= b,
        IntPredicate::ULT => a < b,
        _ => a <= b,
    }
}

proof fn lemma_decide(d: Seq<char>, hi: Seq<char>, eq: Seq<char>, lo: Seq<char>, s: Scores)
    requires
        d != hi,
        d != eq,
        d != lo,
    ensures
        score(run_commands(decide_v(d, hi, eq, lo), s), d) == if score(s, hi) == 1 || (score(s, eq) == 1
            && score(s, lo) == 1) {
            1int
        } else {
            0int
        },
{
    let cmds = decide_v(d, hi, eq, lo);
    lemma_run_prefix(cmds, s);
    let s1 = run_command(cmds[0], s);
    lemma_run_prefix(cmds.drop_first(), s1);
    let c1 = seq![crate::casts::is_one_v(hi)];
    lemma_exec_if_conds(c1, s1);
    assert(c1[0] == crate::casts::is_one_v(hi));
    let s2 = run_command(cmds[1], s1);
    let rest = cmds.drop_first().drop_first();
    lemma_run_prefix(rest, s2);
    assert(rest.drop_first() =~= Seq::<CommandV>::empty());
    let c2 = seq![crate::casts::is_one_v(eq), crate::casts::is_one_v(lo)];
    lemma_exec_if_conds(c2, s2);
    assert(c2[0] == crate::casts::is_one_v(eq));
    assert(c2[1] == crate::casts::is_one_v(lo));
    assert(score(s2, eq) == score(s, eq) && score(s2, lo) == score(s, lo));
}

proof fn lemma_unsigned_decompose(a0: int, a1: int, b0: int, b1: int)
    requires
        is_word(a0),
        is_word(a1),
        is_word(b0),
        is_word(b1),
    ensures
        (unsigned64(a0, a1) == unsigned64(b0, b1)) == (a0 == b0 && a1 == b1),
        (unsigned64(a0, a1) < unsigned64(b0, b1)) == (unsigned(a1) < unsigned(b1) || (a1 == b1 && unsigned(a0)
            < unsigned(b0))),
{
}

/// A 64-bit comparison by equality or by an unsigned ordering leaves 1 in
/// the result exactly when the predicate holds between the unsigned 64-bit
/// numbers that the operands' word pairs stand for, and 0 otherwise. The
/// result holder and the three temporaries are distinct from one another
/// and from the operands' words.
pub proof fn lemma_wide_compare(
    pred: IntPredicate,
    t: Seq<Seq<char>>,
    u: Seq<Seq<char>>,
    dest: LocalNameV,
    m: nat,
    s: Scores,
)
    requires
        pred == IntPredicate::EQ || pred == IntPredicate::NE || pred == IntPredicate::UGT || pred
            == IntPredicate::UGE || pred == IntPredicate::ULT || pred == IntPredicate::ULE,
        t.len() >= 2,
        u.len() >= 2,
        is_word(score(s, t[0])),
        is_word(score(s, t[1])),
        is_word(score(s, u[0])),
        is_word(score(s, u[1])),
        ({
            let hs = seq![local_word_name(dest, 0), temp_name(m), temp_name(m + 1), temp_name(m + 2)];
            &&& forall|i: int, j: int| 0 <= i < j < 4 ==> hs[i] != hs[j]
            &&& forall|i: int| 0 <= i < 4 ==> hs[i] != t[0] && hs[i] != t[1] && hs[i] != u[0] && hs[i] != u[1]
        }),
    ensures
        score(
            run_commands(compare_tail_v(pred, IrType::Integer { bits: 64 }, t, u, dest, m).0, s),
            local_word_name(dest, 0),
        ) == if holds64(pred, unsigned64(score(s, t[0]), score(s, t[1])), unsigned64(score(s, u[0]), score(s, u[1]))) {
            1int
        } else {
            0int
        },
{
    let d = local_word_name(dest, 0);
    let hi = temp_name(m);
    let eq = temp_name(m + 1);
    let lo = temp_name(m + 2);
    let hs = seq![d, hi, eq, lo];
    assert(hs[0] == d && hs[1] == hi && hs[2] == eq && hs[3] == lo);
    assert(d != hi && d != eq && d != lo && hi != eq && hi != lo && eq != lo);
    assert(d != t[0] && d != t[1] && d != u[0] && d != u[1]);
    assert(hi != t[0] && hi != t[1] && hi != u[0] && hi != u[1]);
    assert(lo != t[0] && lo != t[1] && lo != u[0] && lo != u[1]);
    let a0 = score(s, t[0]);
    let a1 = score(s, t[1]);
    let b0 = score(s, u[0]);
    let b1 = score(s, u[1]);
    lemma_unsigned_decompose(a0, a1, b0, b1);
    lemma_unsigned_decompose(b0, b1, a0, a1);
    if pred == IntPredicate::EQ || pred == IntPredicate::NE {
        let cmds = wide_eq_v(pred, t, u, d);
        let is_eq = pred == IntPredicate::EQ;
        lemma_run_prefix(cmds, s);
        let s1 = run_command(cmds[0], s);
        lemma_run_prefix(cmds.drop_first(), s1);
        assert(cmds.drop_first().drop_first() =~= Seq::<CommandV>::empty());
        let c = seq![
            crate::registers::relation_cond_v(t[0], Relation::Eq, u[0]),
            crate::registers::relation_cond_v(t[1], Relation::Eq, u[1]),
        ];
        lemma_exec_if_conds(c, s1);
        assert(c[0] == crate::registers::relation_cond_v(t[0], Relation::Eq, u[0]));
        assert(c[1] == crate::registers::relation_cond_v(t[1], Relation::Eq, u[1]));
        assert(score(s1, t[0]) == a0 && score(s1, t[1]) == a1 && score(s1, u[0]) == b0 && score(s1, u[1]) == b1);
    } else {
        let (rh, rl) = order_relations(pred);
        let pa = unsigned_cmp_v(t[1], u[1], hi, rh);
        let pb = unsigned_cmp_v(t[0], u[0], lo, rl);
        let pc = seq![signed_cmp_v(t[1], u[1], eq, Relation::Eq, true)];
        let pd = decide_v(d, hi, eq, lo);
        let cmds = wide_order_v(pred, t, u, d, m).0;
        assert(cmds == pa + pb + pc + pd);
        lemma_run_concat(pa + pb + pc, pd, s);
        lemma_run_concat(pa + pb, pc, s);
        lemma_run_concat(pa, pb, s);
        lemma_unsigned_cmp(t[1], u[1], hi, rh, s);
        let sa = run_commands(pa, s);
        assert(score(sa, t[0]) == a0 && score(sa, u[0]) == b0 && score(sa, t[1]) == a1 && score(sa, u[1]) == b1);
        lemma_unsigned_cmp(t[0], u[0], lo, rl, sa);
        let sb = run_commands(pb, sa);
        assert(score(sb, hi) == score(sa, hi));
        assert(score(sb, t[1]) == a1 && score(sb, u[1]) == b1);
        lemma_signed_cmp(t[1], u[1], eq, Relation::Eq, true, sb);
        crate::semantics::lemma_run_one(pc[0], sb);
        let sc = run_commands(pc, sb);
        assert(score(sc, hi) == score(sa, hi));
        assert(score(sc, lo) == score(sb, lo));
        lemma_decide(d, hi, eq, lo, sc);
    }
}

// ----------------------------------------------------------------------
// 64-bit shift left by a constant
// ----------------------------------------------------------------------

/// `1 << k` on a word is `2^k` for `k` up to 30.
proof fn lemma_shl_one(k: u64)
    requires
        k <= 30,
    ensures
        (1i32 << k) as int == vstd::arithmetic::power2::pow2(k as nat),
{
    assert((1i32 << k) as u32 == (1u32 << (k as u32))) by (bit_vector)
        requires
            k <= 30,
    ;
    assert((1i32 << k) >= 0) by (bit_vector)
        requires
            k <= 30,
    ;
    vstd::bits::lemma_u32_pow2_no_overflow(k as nat);
    vstd::bits::lemma_u32_shl_is_mul(1u32, k as u32);
}

/// `1 << k` on a word is `2^k` taken as a word, for `k` up to 31.
proof fn lemma_shl_word(k: u64)
    requires
        k <= 31,
    ensures
        (1i32 << k) as int == wrap32(vstd::arithmetic::power2::pow2(k as nat) as int),
{
    if k <= 30 {
        lemma_shl_one(k);
    } else {
        assert((1i32 << k) == -0x8000_0000i32) by (bit_vector)
            requires
                k == 31,
        ;
        vstd::arithmetic::power2::lemma2_to64();
    }
}

/// Multiplying by a word taken from `x` wraps like multiplying by `x`.
proof fn lemma_wrap_mul(v: int, x: int)
    ensures
        wrap32(v * wrap32(x)) == wrap32(v * x),
{
    lemma_unsigned_wrap(x);
    vstd::arithmetic::div_mod::lemma_mul_mod_noop_right(v, wrap32(x), 0x1_0000_0000);
    vstd::arithmetic::div_mod::lemma_mul_mod_noop_right(v, x, 0x1_0000_0000);
}

/// A word read as unsigned is the word's value modulo `2^32`.
proof fn lemma_unsigned_wrap(x: int)
    ensures
        unsigned(wrap32(x)) == x % 0x1_0000_0000,
        wrap32(x) % 0x1_0000_0000 == x % 0x1_0000_0000,
{
}

/// Shifting the 64-bit number in the words `(a0, a1)` left by a constant
/// `shift` from 2 to 31 leaves in `(lo, hi)` the shifted number modulo
/// `2^64`: the low word holds the low 32 bits of `a0 * 2^shift`, and the
/// high word `a1 * 2^shift` plus the bits that left the low word,
/// `a0 / 2^(32 - shift)`. The high word is such that `a1 * 2^shift` stays
/// below `2^32`, the low word is not negative, and the holders are
/// distinct.
pub proof fn lemma_shl64_const(
    a0: Seq<char>,
    a1: Seq<char>,
    lo: Seq<char>,
    hi: Seq<char>,
    shift: u64,
    max_bound: i32,
    m: nat,
    s: Scores,
)
    requires
        2 <= shift <= 31,
        0 <= score(s, a0) <= i32::MAX,
        0 <= score(s, a1),
        score(s, a1) * vstd::arithmetic::power2::pow2(shift as nat) < 0x1_0000_0000,
        ({
            let hs = seq![a0, a1, lo, hi, temp_name(m), temp_name(m + 1)];
            forall|i: int, j: int| 0 <= i < j < 6 ==> hs[i] != hs[j]
        }),
    ensures
        ({
            let r = run_commands(crate::shifts::shl_intra64_v(a0, a1, lo, hi, shift, max_bound, m), s);
            let p = vstd::arithmetic::power2::pow2(shift as nat) as int;
            let q = vstd::arithmetic::power2::pow2((32 - shift) as nat) as int;
            let x = score(s, a0) + 0x1_0000_0000 * score(s, a1);
            &&& unsigned(score(r, lo)) == (score(s, a0) * p) % 0x1_0000_0000
            &&& unsigned(score(r, hi)) == score(s, a1) * p + score(s, a0) / q
            &&& unsigned64(score(r, lo), score(r, hi)) == (x * p) % 0x1_0000_0000_0000_0000
        }),
{
    let tmp = temp_name(m);
    let tmp2 = temp_name(m + 1);
    let hs = seq![a0, a1, lo, hi, tmp, tmp2];
    assert(hs[0] == a0 && hs[1] == a1 && hs[2] == lo && hs[3] == hi && hs[4] == tmp && hs[5] == tmp2);
    let v0 = score(s, a0);
    let v1 = score(s, a1);
    let p = vstd::arithmetic::power2::pow2(shift as nat) as int;
    let q = vstd::arithmetic::power2::pow2((32 - shift) as nat) as int;
    lemma_shl_word(shift);
    lemma_shl_one((32 - shift) as u64);
    lemma_wrap_mul(v0, p);
    lemma_wrap_mul(v1, p);
    vstd::arithmetic::power2::lemma_pow2_adds(shift as nat, (32 - shift) as nat);
    vstd::arithmetic::power2::lemma2_to64();
    assert(p * q == 0x1_0000_0000);
    vstd::arithmetic::power2::lemma_pow2_pos(shift as nat);
    vstd::arithmetic::power2::lemma_pow2_pos((32 - shift) as nat);
    let cmds = crate::shifts::shl_intra64_v(a0, a1, lo, hi, shift, max_bound, m);
    assert(cmds.len() == 10);
    // Run the ten commands one by one.
    lemma_run_prefix(cmds, s);
    let s0 = run_command(cmds[0], s);
    assert(s0 == s);
    let c1 = cmds.drop_first();
    lemma_run_prefix(c1, s0);
    let s1 = run_command(c1[0], s0);
    let c2 = c1.drop_first();
    lemma_run_prefix(c2, s1);
    let s2 = run_command(c2[0], s1);
    let c3 = c2.drop_first();
    lemma_run_prefix(c3, s2);
    let s3 = run_command(c3[0], s2);
    assert(score(s3, tmp) == wrap32(p));
    let c4 = c3.drop_first();
    lemma_run_prefix(c4, s3);
    let s4 = run_command(c4[0], s3);
    assert(score(s4, lo) == wrap32(v0 * p));
    let c5 = c4.drop_first();
    lemma_run_prefix(c5, s4);
    let s5 = run_command(c5[0], s4);
    assert(score(s5, hi) == wrap32(v1 * p));
    let c6 = c5.drop_first();
    lemma_run_prefix(c6, s5);
    let s6 = run_command(c6[0], s5);
    let c7 = c6.drop_first();
    lemma_run_prefix(c7, s6);
    let s7 = run_command(c7[0], s6);
    assert(score(s7, tmp) == q);
    let c8 = c7.drop_first();
    lemma_run_prefix(c8, s7);
    let s8 = run_command(c8[0], s7);
    assert(score(s8, tmp2) == v0 / q);
    let c9 = c8.drop_first();
    lemma_run_prefix(c9, s8);
    let s9 = run_command(c9[0], s8);
    assert(c9.drop_first() =~= Seq::<CommandV>::empty());
    let c = v0 / q;
    assert(score(s9, hi) == wrap32(wrap32(v1 * p) + c));
    assert(score(s9, lo) == wrap32(v0 * p));
    // The arithmetic.
    assert(0 <= v0 * p) by (nonlinear_arith)
        requires
            0 <= v0,
            0 < p,
    ;
    assert(0 <= v1 * p) by (nonlinear_arith)
        requires
            0 <= v1,
            0 < p,
    ;
    assert(0 <= c < p) by {
        vstd::arithmetic::div_mod::lemma_div_pos_is_pos(v0, q);
        assert(v0 < p * q);
        vstd::arithmetic::div_mod::lemma_div_by_multiple_is_strongly_ordered(v0, p * q, p, q);
        vstd::arithmetic::div_mod::lemma_div_by_multiple(p, q);
        vstd::arithmetic::mul::lemma_mul_is_commutative(p, q);
    }
    // v1 * p is a multiple of p below 2^32, so adding c < p stays below 2^32.
    assert(v1 * p + c < 0x1_0000_0000) by {
        assert(v1 * p <= 0x1_0000_0000 - p) by (nonlinear_arith)
            requires
                v1 * p < p * q,
                p * q == 0x1_0000_0000,
                0 < p,
                0 <= v1,
        {
            assert(v1 < q);
            assert(v1 <= q - 1);
            assert(v1 * p <= (q - 1) * p);
        }
    }
    lemma_unsigned_wrap(v0 * p);
    lemma_unsigned_wrap(wrap32(v1 * p) + c);
    lemma_unsigned_wrap(v1 * p);
    vstd::arithmetic::div_mod::lemma_add_mod_noop(wrap32(v1 * p), c, 0x1_0000_0000);
    vstd::arithmetic::div_mod::lemma_add_mod_noop(v1 * p, c, 0x1_0000_0000);
    vstd::arithmetic::div_mod::lemma_small_mod((v1 * p + c) as nat, 0x1_0000_0000);
    assert(unsigned(score(s9, hi)) == v1 * p + c);
    // The whole number.
    let x = v0 + 0x1_0000_0000 * v1;
    assert((v0 * p) / 0x1_0000_0000 == c) by {
        vstd::arithmetic::div_mod::lemma_div_denominator(v0 * p, p, q);
        vstd::arithmetic::mul::lemma_mul_is_commutative(v0, p);
        vstd::arithmetic::div_mod::lemma_div_by_multiple(v0, p);
    }
    vstd::arithmetic::div_mod::lemma_fundamental_div_mod(v0 * p, 0x1_0000_0000);
    assert(x * p == (v0 * p) % 0x1_0000_0000 + 0x1_0000_0000 * (v1 * p + c)) by (nonlinear_arith)
        requires
            x == v0 + 0x1_0000_0000 * v1,
            v0 * p == 0x1_0000_0000 * c + (v0 * p) % 0x1_0000_0000,
    ;
    let total = (v0 * p) % 0x1_0000_0000 + 0x1_0000_0000 * (v1 * p + c);
    assert(0 <= total < 0x1_0000_0000_0000_0000) by (nonlinear_arith)
        requires
            0 <= (v0 * p) % 0x1_0000_0000 < 0x1_0000_0000,
            0 <= v1 * p + c < 0x1_0000_0000,
            total == (v0 * p) % 0x1_0000_0000 + 0x1_0000_0000 * (v1 * p + c),
    ;
    vstd::arithmetic::div_mod::lemma_small_mod(total as nat, 0x1_0000_0000_0000_0000);
}

// ----------------------------------------------------------------------
// 64-bit multiplication
// ----------------------------------------------------------------------

/// What the intrinsic `intrinsic:mul_32_to_64` is taken to do: it puts
/// the full unsigned product of the words in `%param0%0` and `%param1%0`
/// into `%return%0` (low word) and `%return%1` (high word), and changes
/// nothing else.
pub open spec fn mul_32_to_64_effect(s: Scores) -> Scores {
    let p = unsigned(score(s, param_name(0, 0))) * unsigned(score(s, param_name(1, 0)));
    s.insert(return_name(0), wrap32(p)).insert(return_name(1), wrap32(p / 0x1_0000_0000))
}

/// Running commands with calls of `intrinsic:mul_32_to_64` doing what
/// [`mul_32_to_64_effect`] says; other calls change nothing.
pub open spec fn run_with_mul(cmds: Seq<CommandV>, s: Scores) -> Scores
    decreases cmds.len(),
{
    if cmds.len() == 0 {
        s
    } else {
        let p = run_with_mul(cmds.drop_last(), s);
        if cmds.last() == call_v("intrinsic:mul_32_to_64"@) {
            mul_32_to_64_effect(p)
        } else {
            run_command(cmds.last(), p)
        }
    }
}

proof fn lemma_run_with_mul_first(cmds: Seq<CommandV>, s: Scores)
    requires
        cmds.len() > 0,
    ensures
        run_with_mul(cmds, s) == run_with_mul(
            cmds.drop_first(),
            run_with_mul(seq![cmds[0]], s),
        ),
    decreases cmds.len(),
{
    if cmds.len() == 1 {
        assert(cmds.drop_first() =~= Seq::<CommandV>::empty());
        assert(cmds =~= seq![cmds[0]]);
    } else {
        lemma_run_with_mul_first(cmds.drop_last(), s);
        assert(cmds.drop_last().drop_first() =~= cmds.drop_first().drop_last());
        assert(cmds.drop_first().last() == cmds.last());
    }
}

proof fn lemma_run_with_mul_one(c: CommandV, s: Scores)
    ensures
        run_with_mul(seq![c], s) == if c == call_v("intrinsic:mul_32_to_64"@) {
            mul_32_to_64_effect(s)
        } else {
            run_command(c, s)
        },
{
    assert(seq![c].drop_last() =~= Seq::<CommandV>::empty());
    assert(seq![c].last() == c);
    assert(run_with_mul(seq![c].drop_last(), s) == s);
}

proof fn lemma_prod_expand(x: int, e: int, y: int, f: int)
    ensures
        (x + 0x1_0000_0000 * e) * (y + 0x1_0000_0000 * f) == x * y + 0x1_0000_0000 * (x * f + e * y
            + 0x1_0000_0000 * (e * f)),
{
    assert((x + 0x1_0000_0000 * e) * (y + 0x1_0000_0000 * f) == x * y + 0x1_0000_0000 * (x * f + e * y
        + 0x1_0000_0000 * (e * f))) by (nonlinear_arith);
}

proof fn lemma_wrap_sum(x: int, y: int)
    ensures
        (wrap32(x) + wrap32(y)) % 0x1_0000_0000 == (x + y) % 0x1_0000_0000,
        (wrap32(x) + y) % 0x1_0000_0000 == (x + y) % 0x1_0000_0000,
{
    lemma_unsigned_wrap(x);
    lemma_unsigned_wrap(y);
    vstd::arithmetic::div_mod::lemma_add_mod_noop(wrap32(x), wrap32(y), 0x1_0000_0000);
    vstd::arithmetic::div_mod::lemma_add_mod_noop(x, y, 0x1_0000_0000);
    vstd::arithmetic::div_mod::lemma_add_mod_noop(wrap32(x), y, 0x1_0000_0000);
}

/// Multiplying the 64-bit numbers in the words `(a0, a1)` and `(b0, b1)`
/// leaves in the destination words their product modulo `2^64`, when the
/// intrinsic `intrinsic:mul_32_to_64` gives the full product of its two
/// parameters. The holders involved are distinct.
pub proof fn lemma_mul64(
    a0: Seq<char>,
    a1: Seq<char>,
    b0: Seq<char>,
    b1: Seq<char>,
    dlo: Seq<char>,
    dhi: Seq<char>,
    s: Scores,
)
    requires
        is_word(score(s, a0)),
        is_word(score(s, a1)),
        is_word(score(s, b0)),
        is_word(score(s, b1)),
        ({
            let hs = seq![a0, a1, b0, b1, dlo, dhi, param_name(0, 0), param_name(1, 0), return_name(0), return_name(1)];
            forall|i: int, j: int| 0 <= i < j < 10 ==> hs[i] != hs[j]
        }),
    ensures
        ({
            let r = run_with_mul(mul_64_bit_v(a0, a1, b0, b1, dlo, dhi), s);
            unsigned64(score(r, dlo), score(r, dhi)) == (unsigned64(score(s, a0), score(s, a1))
                * unsigned64(score(s, b0), score(s, b1))) % 0x1_0000_0000_0000_0000
        }),
{
    let p0 = param_name(0, 0);
    let p1 = param_name(1, 0);
    let r0 = return_name(0);
    let r1 = return_name(1);
    let hs = seq![a0, a1, b0, b1, dlo, dhi, p0, p1, r0, r1];
    assert(hs[0] == a0 && hs[1] == a1 && hs[2] == b0 && hs[3] == b1 && hs[4] == dlo && hs[5] == dhi);
    assert(hs[6] == p0 && hs[7] == p1 && hs[8] == r0 && hs[9] == r1);
    let x0 = score(s, a0);
    let x1 = score(s, a1);
    let y0 = score(s, b0);
    let y1 = score(s, b1);
    let mm: int = 0x1_0000_0000;
    let cmds = mul_64_bit_v(a0, a1, b0, b1, dlo, dhi);
    assert(cmds.len() == 9);
    // Run the commands one by one.
    lemma_run_with_mul_first(cmds, s);
    lemma_run_with_mul_one(cmds[0], s);
    let s1 = run_with_mul(seq![cmds[0]], s);
    let c1 = cmds.drop_first();
    lemma_run_with_mul_first(c1, s1);
    lemma_run_with_mul_one(c1[0], s1);
    let s2 = run_with_mul(seq![c1[0]], s1);
    let c2 = c1.drop_first();
    lemma_run_with_mul_first(c2, s2);
    lemma_run_with_mul_one(c2[0], s2);
    let s3 = run_with_mul(seq![c2[0]], s2);
    let pp = unsigned(x0) * unsigned(y0);
    assert(score(s3, r0) == wrap32(pp));
    assert(score(s3, r1) == wrap32(pp / mm));
    assert(score(s3, p0) == x0 && score(s3, p1) == y0);
    let c3 = c2.drop_first();
    lemma_run_with_mul_first(c3, s3);
    lemma_run_with_mul_one(c3[0], s3);
    let s4 = run_with_mul(seq![c3[0]], s3);
    let c4 = c3.drop_first();
    lemma_run_with_mul_first(c4, s4);
    lemma_run_with_mul_one(c4[0], s4);
    let s5 = run_with_mul(seq![c4[0]], s4);
    let c5 = c4.drop_first();
    lemma_run_with_mul_first(c5, s5);
    lemma_run_with_mul_one(c5[0], s5);
    let s6 = run_with_mul(seq![c5[0]], s5);
    assert(score(s6, p0) == wrap32(x0 * y1));
    let c6 = c5.drop_first();
    lemma_run_with_mul_first(c6, s6);
    lemma_run_with_mul_one(c6[0], s6);
    let s7 = run_with_mul(seq![c6[0]], s6);
    assert(score(s7, p1) == wrap32(y0 * x1));
    let c7 = c6.drop_first();
    lemma_run_with_mul_first(c7, s7);
    lemma_run_with_mul_one(c7[0], s7);
    let s8 = run_with_mul(seq![c7[0]], s7);
    let h7 = wrap32(pp / mm) + wrap32(x0 * y1);
    assert(score(s8, dhi) == wrap32(h7));
    let c8 = c7.drop_first();
    assert(c8 =~= seq![c8[0]]);
    lemma_run_with_mul_one(c8[0], s8);
    let s9 = run_with_mul(seq![c8[0]], s8);
    let h8 = wrap32(h7) + wrap32(y0 * x1);
    assert(score(s9, dhi) == wrap32(h8));
    assert(score(s9, dlo) == wrap32(pp));
    // The arithmetic.
    let u0 = unsigned(x0);
    let u1 = unsigned(x1);
    let v0 = unsigned(y0);
    let v1 = unsigned(y1);
    let y = pp / mm + x0 * y1 + y0 * x1;
    lemma_unsigned_wrap(h8);
    lemma_wrap_sum(h7, y0 * x1);
    lemma_wrap_sum(pp / mm, x0 * y1);
    vstd::arithmetic::div_mod::lemma_add_mod_noop(h7, y0 * x1, mm);
    vstd::arithmetic::div_mod::lemma_add_mod_noop(pp / mm + x0 * y1, y0 * x1, mm);
    assert(unsigned(score(s9, dhi)) == y % mm);
    lemma_unsigned_wrap(pp);
    assert(unsigned(score(s9, dlo)) == pp % mm);
    // Unsigned and signed words differ by multiples of 2^32.
    let e0: int = if x0 < 0 { 1 } else { 0 };
    let e1: int = if x1 < 0 { 1 } else { 0 };
    let f0: int = if y0 < 0 { 1 } else { 0 };
    let f1: int = if y1 < 0 { 1 } else { 0 };
    assert(u0 == x0 + mm * e0 && u1 == x1 + mm * e1 && v0 == y0 + mm * f0 && v1 == y1 + mm * f1);
    lemma_prod_expand(x0, e0, y1, f1);
    lemma_prod_expand(x1, e1, y0, f0);
    let k = x0 * f1 + e0 * y1 + 0x1_0000_0000 * (e0 * f1) + (x1 * f0 + e1 * y0 + 0x1_0000_0000 * (e1 * f0));
    let xx = pp / mm + u0 * v1 + u1 * v0;
    assert(u0 * v1 == x0 * y1 + 0x1_0000_0000 * (x0 * f1 + e0 * y1 + 0x1_0000_0000 * (e0 * f1)));
    assert(u1 * v0 == x1 * y0 + 0x1_0000_0000 * (x1 * f0 + e1 * y0 + 0x1_0000_0000 * (e1 * f0)));
    assert(x1 * y0 == y0 * x1) by (nonlinear_arith);
    assert(xx == y + 0x1_0000_0000 * k);
    vstd::arithmetic::div_mod::lemma_mod_multiples_vanish(k, y, mm);
    assert(xx % mm == y % mm);
    vstd::arithmetic::div_mod::lemma_fundamental_div_mod(pp, mm);
    vstd::arithmetic::div_mod::lemma_fundamental_div_mod(xx, mm);
    let a = u0 + 0x1_0000_0000 * u1;
    let b = v0 + 0x1_0000_0000 * v1;
    let low = pp % mm + 0x1_0000_0000 * (xx % mm);
    lemma_prod_expand(u0, u1, v0, v1);
    assert(a * b == u0 * v0 + 0x1_0000_0000 * (u0 * v1 + u1 * v0) + 0x1_0000_0000 * (0x1_0000_0000 * (u1 * v1))) by (nonlinear_arith)
        requires
            a * b == u0 * v0 + 0x1_0000_0000 * (u0 * v1 + u1 * v0 + 0x1_0000_0000 * (u1 * v1)),
    ;
    assert(a * b == low + 0x1_0000_0000_0000_0000 * (xx / mm + u1 * v1));
    assert(0 <= low < 0x1_0000_0000_0000_0000);
    vstd::arithmetic::div_mod::lemma_mod_multiples_vanish(xx / mm + u1 * v1, low, 0x1_0000_0000_0000_0000);
    vstd::arithmetic::div_mod::lemma_small_mod(low as nat, 0x1_0000_0000_0000_0000);
}

// ----------------------------------------------------------------------
// Constant address offsets
// ----------------------------------------------------------------------

/// The value of an index that is a non-negative 32-bit integer constant
/// below `2^31`.
pub open spec fn const_index(op: Operand) -> Option<int> {
    match op {
        Operand::Constant { value: Constant::Int { bits: 32, value }, .. } => if value < 0x8000_0000 {
            Some(value as int)
        } else {
            None
        },
        _ => None,
    }
}

/// The offset and the type reached after the first `k` of the constant
/// indices `idx`, starting at type `ty`: through a pointer, into an array
/// or into a vector each index adds that many padded elements of the
/// element type; into a structure it adds the offset of that field and
/// moves to the field's type. A pointer or an array moves to its element
/// type; a vector stays.
pub open spec fn const_walk(ty: IrType, idx: Seq<int>, k: nat, tys: Types) -> (int, IrType)
    decreases k,
{
    if k == 0 || k > idx.len() {
        (0, ty)
    } else {
        let p = const_walk(ty, idx, (k - 1) as nat, tys);
        let c = idx[k - 1];
        match p.1 {
            IrType::Pointer { pointee, .. } => (p.0 + c * elem_stride(*pointee, tys), *pointee),
            IrType::Array { element_type, .. } => (p.0 + c * elem_stride(*element_type, tys), *element_type),
            IrType::Vector { element_type, .. } => (p.0 + c * elem_stride(*element_type, tys), p.1),
            _ => match struct_fields(p.1, tys) {
                Some(f) => (p.0 + offset_of_spec(f.0, f.1, c as nat, tys.named@).unwrap(), f.0@[c]),
                None => p,
            },
        }
    }
}

/// Whether each of the first `k` indices walks through a pointer or into
/// an array or a vector whose padded element size is a 32-bit integer, or
/// into an existing field of a structure whose offset is a 32-bit integer.
pub open spec fn walks_through(ty: IrType, idx: Seq<int>, k: nat, tys: Types) -> bool
    decreases k,
{
    if k == 0 || k > idx.len() {
        true
    } else {
        let p = const_walk(ty, idx, (k - 1) as nat, tys);
        let c = idx[k - 1];
        &&& walks_through(ty, idx, (k - 1) as nat, tys)
        &&& match p.1 {
            IrType::Pointer { pointee, .. } => 0 <= elem_stride(*pointee, tys) <= i32::MAX,
            IrType::Array { element_type, .. } => 0 <= elem_stride(*element_type, tys) <= i32::MAX,
            IrType::Vector { element_type, .. } => 0 <= elem_stride(*element_type, tys) <= i32::MAX,
            _ => match struct_fields(p.1, tys) {
                Some(f) => {
                    &&& c < f.0@.len()
                    &&& offset_of_ok(f.0, f.1, c as nat, tys.named@)
                    &&& 0 <= offset_of_spec(f.0, f.1, c as nat, tys.named@).unwrap() <= i32::MAX
                },
                None => false,
            },
        }
    }
}

/// The constant values of the indices.
pub open spec fn index_values(indices: Seq<Operand>) -> Seq<int> {
    indices.map_values(|op: Operand| const_index(op).unwrap())
}

proof fn lemma_small_cast(v: u64)
    requires
        v < 0x8000_0000,
    ensures
        (v as i32) as int == v as int,
{
    assert((v as i32) as int == v as int) by (bit_vector)
        requires
            v < 0x8000_0000,
    ;
}

proof fn lemma_word_cast(x: int)
    requires
        i32::MIN <= x <= i32::MAX,
    ensures
        (x as i32) as int == x,
{
}

proof fn lemma_gep_walk_const(
    st0: GepState,
    indices: Seq<Operand>,
    k: nat,
    dest: LocalNameV,
    g: Seq<(crate::locals::LocalName, u32)>,
    tys: Types,
)
    requires
        st0.offset == 0,
        st0.cmds == Seq::<CommandV>::empty(),
        k <= indices.len(),
        forall|i: int| 0 <= i < indices.len() ==> (#[trigger] const_index(indices[i])) is Some,
        walks_through(st0.ty, index_values(indices), k, tys),
    ensures
        ({
            let st = gep_walk_v(st0, indices, k, dest, g, tys);
            let w = const_walk(st0.ty, index_values(indices), k, tys);
            &&& st.offset == w.0
            &&& st.ty == w.1
            &&& st.cmds == Seq::<CommandV>::empty()
            &&& st.n == st0.n
        }),
    decreases k,
{
    if k > 0 {
        lemma_gep_walk_const(st0, indices, (k - 1) as nat, dest, g, tys);
        let idx = index_values(indices);
        let op = indices[k - 1];
        assert(const_index(op) is Some);
        if let Operand::Constant { value: Constant::Int { bits, value }, .. } = op {
            lemma_small_cast(value);
            assert(idx[k - 1] == value as int);
            let p = const_walk(st0.ty, idx, (k - 1) as nat, tys);
            match p.1 {
                IrType::Pointer { pointee, .. } => {
                    lemma_word_cast(elem_stride(*pointee, tys));
                    vstd::arithmetic::mul::lemma_mul_is_commutative(elem_stride(*pointee, tys), value as int);
                },
                IrType::Array { element_type, .. } => {
                    lemma_word_cast(elem_stride(*element_type, tys));
                },
                IrType::Vector { element_type, .. } => {
                    lemma_word_cast(elem_stride(*element_type, tys));
                },
                _ => {
                    if let Some(f) = struct_fields(p.1, tys) {
                        lemma_word_cast(offset_of_spec(f.0, f.1, value as nat, tys.named@).unwrap());
                    }
                },
            }
        }
    }
}

/// The address computed from a pointer local by constant indices is the
/// pointer plus the sum, over the indices, of each index times the padded
/// size of the element it walks over (through a pointer, into an array or
/// a vector), or of the offset of the field it selects (into a structure),
/// when that sum is a 32-bit integer.
pub proof fn lemma_gep_const_offset(
    address: Operand,
    indices: Seq<Operand>,
    dest: LocalNameV,
    address_text: Seq<char>,
    indices_text: Seq<char>,
    g: Seq<(crate::locals::LocalName, u32)>,
    tys: Types,
    n: nat,
    s: Scores,
)
    requires
        address matches Operand::Local { ty, .. } && ty is Pointer,
        forall|i: int| 0 <= i < indices.len() ==> (#[trigger] const_index(indices[i])) is Some,
        walks_through(operand_type(address).unwrap(), index_values(indices), indices.len(), tys),
        i32::MIN <= const_walk(operand_type(address).unwrap(), index_values(indices), indices.len(), tys).0
            <= i32::MAX,
    ensures
        ({
            let name = address->Local_name;
            let r = run_commands(gep_v(address, indices, dest, address_text, indices_text, g, tys, n).0, s);
            score(r, local_word_name(dest, 0)) == wrap32(score(s, local_word_name(name@, 0)) + const_walk(
                operand_type(address).unwrap(),
                index_values(indices),
                indices.len(),
                tys,
            ).0)
        }),
{
    let ty = operand_type(address).unwrap();
    let st0 = GepState { offset: 0, ty, cmds: Seq::empty(), n };
    lemma_gep_walk_const(st0, indices, indices.len(), dest, g, tys);
    let st = gep_walk_v(st0, indices, indices.len(), dest, g, tys);
    let off = st.offset;
    lemma_word_cast(off);
    let name = address->Local_name;
    let a0 = local_word_name(name@, 0);
    let d0 = local_word_name(dest, 0);
    assert(crate::locals::word_count(4) == 1);
    assert(crate::operands::local_words(name@, 4) =~= seq![a0]);
    let cmds = gep_v(address, indices, dest, address_text, indices_text, g, tys, n).0;
    assert(cmds =~= seq![cmds[0], assign_v(d0, a0), add_v(d0, off as i32)]);
    lemma_run_prefix(cmds, s);
    let s1 = run_command(cmds[0], s);
    assert(s1 == s);
    let c1 = cmds.drop_first();
    lemma_run_prefix(c1, s1);
    let s2 = run_command(c1[0], s1);
    let c2 = c1.drop_first();
    lemma_run_prefix(c2, s2);
    assert(c2.drop_first() =~= Seq::<CommandV>::empty());
}

} // verus!
