//! What the memory commands do: a machine of scores, memory words kept in
//! blocks, and the pointer entity that marks one of those blocks. Running
//! `intrinsic:setptr` moves the pointer entity to the block of the address
//! in `%ptr`; reads and writes through the pointer act on that block. The
//! laws here say that the stack, the condition stack and the pointer give
//! back what was put in.
use vstd::prelude::*;
use crate::cir::{
    CommandV, DataKindV, DataTargetV, FunctionIdV, ModifySourceV, StoreKindV, SubCmdV, TargetV,
};
use crate::memory::{address_place, coords_text, set_memory_v};
use crate::registers::{
    add_v, assign_v, call_v, memory_path, objective, pop_v, ptr_selector_v, push_v, read_ptr_v,
    set_v, write_ptr_const_v, write_ptr_v,
};
use crate::frame::{pops, pushes, saved};
use crate::semantics::{Scores, is_word, run_command, score, wrap32};
use crate::text::{lemma_nat_text_digits, lemma_nat_text_inj, nat_text};

verus! {

/// Scores, the memory words by the position text of their block, and the
/// position of the block the pointer entity marks.
pub struct Machine {
    pub scores: Scores,
    pub memory: Map<Seq<char>, int>,
    pub marker: Seq<char>,
}

/// The position text of the block that holds the word at `address`.
pub open spec fn place_of(address: int) -> Seq<char> {
    let p = address_place(address);
    coords_text(p.0, p.1, p.2)
}

/// The memory word in the block at `pos`; a block never written holds 0.
pub open spec fn cell(m: Machine, pos: Seq<char>) -> int {
    if m.memory.dom().contains(pos) {
        m.memory[pos]
    } else {
        0
    }
}

/// The machine with its scores replaced.
pub open spec fn with_scores(m: Machine, s: Scores) -> Machine {
    Machine { scores: s, memory: m.memory, marker: m.marker }
}

/// The machine with the word under the pointer replaced by `v`.
pub open spec fn write_here(m: Machine, v: int) -> Machine {
    Machine { scores: m.scores, memory: m.memory.insert(m.marker, v), marker: m.marker }
}

/// The effect of an `execute at @e[tag=ptr]` command with the given
/// sub-commands and run command: a read of the word under the pointer
/// into a holder, a write of a holder's score or of a constant into it.
pub open spec fn at_ptr_step(subs: Seq<SubCmdV>, run: CommandV, m: Machine) -> Machine {
    if subs.len() == 2 {
        match subs[1] {
            SubCmdV::Store { is_success: false, kind: StoreKindV::Score { target: TargetV::Uuid(t), objective: o } } => match run {
                CommandV::Data { target: DataTargetV::Block(pos), kind: DataKindV::Get { path, scale } } =>
                    if o == objective() && pos == "~ ~ ~"@ && path == memory_path() && scale == 1 {
                    with_scores(m, m.scores.insert(t, cell(m, m.marker)))
                } else {
                    m
                },
                _ => m,
            },
            SubCmdV::Store { is_success: false, kind: StoreKindV::Data { target: DataTargetV::Block(pos), path, ty, scale } } => match run {
                CommandV::ScoreGet { target: TargetV::Uuid(t), target_obj } =>
                    if target_obj == objective() && pos == "~ ~ ~"@ && path == memory_path() && ty == "int"@ && scale == 1 {
                    write_here(m, score(m.scores, t))
                } else {
                    m
                },
                _ => m,
            },
            _ => m,
        }
    } else if subs.len() == 1 {
        match run {
            CommandV::Data { target: DataTargetV::Block(pos), kind: DataKindV::Modify { path, source: ModifySourceV::Value(v), .. } } =>
                if pos == "~ ~ ~"@ && path == memory_path() {
                write_here(m, v as int)
            } else {
                m
            },
            _ => m,
        }
    } else {
        m
    }
}

/// The effect of one command on the machine.
pub open spec fn mstep(c: CommandV, m: Machine) -> Machine {
    match c {
        CommandV::FuncCall(id) => if id == (FunctionIdV { name: "intrinsic:setptr"@, sub: 0 }) {
            Machine { scores: m.scores, memory: m.memory, marker: place_of(score(m.scores, "%ptr"@)) }
        } else {
            m
        },
        CommandV::Execute { subcommands, run: Some(b) } => if subcommands.len() > 0 && subcommands[0]
            == (SubCmdV::At { target: ptr_selector_v() }) {
            at_ptr_step(subcommands, *b, m)
        } else {
            with_scores(m, run_command(c, m.scores))
        },
        CommandV::Data { target: DataTargetV::Block(pos), kind: DataKindV::Modify { path, source: ModifySourceV::Value(v), .. } } =>
            if path == memory_path() {
            Machine { scores: m.scores, memory: m.memory.insert(pos, v as int), marker: m.marker }
        } else {
            m
        },
        _ => with_scores(m, run_command(c, m.scores)),
    }
}

/// The effect of running commands one after the other.
pub open spec fn mrun(cmds: Seq<CommandV>, m: Machine) -> Machine
    decreases cmds.len(),
{
    if cmds.len() == 0 {
        m
    } else {
        mstep(cmds.last(), mrun(cmds.drop_last(), m))
    }
}

proof fn lemma_mrun_concat(a: Seq<CommandV>, b: Seq<CommandV>, m: Machine)
    ensures
        mrun(a + b, m) == mrun(b, mrun(a, m)),
    decreases b.len(),
{
    if b.len() == 0 {
        assert(a + b =~= a);
    } else {
        lemma_mrun_concat(a, b.drop_last(), m);
        assert((a + b).drop_last() =~= a + b.drop_last());
    }
}

proof fn lemma_mrun_first(cmds: Seq<CommandV>, m: Machine)
    requires
        cmds.len() > 0,
    ensures
        mrun(cmds, m) == mrun(cmds.drop_first(), mstep(cmds[0], m)),
{
    lemma_mrun_concat(seq![cmds[0]], cmds.drop_first(), m);
    assert(seq![cmds[0]] + cmds.drop_first() =~= cmds);
    assert(seq![cmds[0]].drop_last() =~= Seq::<CommandV>::empty());
    assert(mrun(seq![cmds[0]].drop_last(), m) == m);
    assert(mrun(seq![cmds[0]], m) == mstep(cmds[0], m));
}

proof fn lemma_mrun2(c0: CommandV, c1: CommandV, m: Machine)
    ensures
        mrun(seq![c0, c1], m) == mstep(c1, mstep(c0, m)),
{
    lemma_mrun_first(seq![c0, c1], m);
    assert(seq![c0, c1].drop_first() =~= seq![c1]);
    lemma_mrun_first(seq![c1], mstep(c0, m));
    assert(seq![c1].drop_first() =~= Seq::<CommandV>::empty());
}

/// A read through the pointer gives back what a write through the pointer
/// just stored.
pub proof fn lemma_write_then_read(a: Seq<char>, b: Seq<char>, m: Machine)
    ensures
        score(mrun(seq![write_ptr_v(a), read_ptr_v(b)], m).scores, b) == score(m.scores, a),
{
    lemma_mrun2(write_ptr_v(a), read_ptr_v(b), m);
}

/// Writing a constant through the pointer has the effect of writing a
/// holder that scores that constant.
pub proof fn lemma_write_const_is_write(v: i32, h: Seq<char>, m: Machine)
    requires
        score(m.scores, h) == v,
    ensures
        mstep(write_ptr_const_v(v), m) == mstep(write_ptr_v(h), m),
{
}

/// Writing a word at a constant address has the effect, on memory, of
/// setting the pointer to that address and writing through it.
pub proof fn lemma_set_memory(v: i32, address: i32, m: Machine)
    ensures
        mrun(seq![set_memory_v(v, address as int)], m).memory == mrun(
            seq![set_v("%ptr"@, address), call_v("intrinsic:setptr"@), write_ptr_const_v(v)],
            m,
        ).memory,
{
    let cmds = seq![set_v("%ptr"@, address), call_v("intrinsic:setptr"@), write_ptr_const_v(v)];
    lemma_mrun_first(cmds, m);
    let m1 = mstep(cmds[0], m);
    assert(score(m1.scores, "%ptr"@) == address);
    lemma_mrun2(cmds[1], cmds[2], m1);
    assert(cmds.drop_first() =~= seq![cmds[1], cmds[2]]);
    lemma_mrun_first(seq![set_memory_v(v, address as int)], m);
    assert(seq![set_memory_v(v, address as int)].drop_first() =~= Seq::<CommandV>::empty());
}

/// The commands that push onto the stack whose pointer is `sp`.
pub open spec fn push_with(sp: Seq<char>, target: Seq<char>) -> Seq<CommandV> {
    seq![
        assign_v("%ptr"@, sp),
        call_v("intrinsic:setptr"@),
        write_ptr_v(target),
        add_v(sp, 4),
    ]
}

/// The commands that pop from the stack whose pointer is `sp`.
pub open spec fn pop_with(sp: Seq<char>, target: Seq<char>) -> Seq<CommandV> {
    seq![
        add_v(sp, -4i32),
        assign_v("%ptr"@, sp),
        call_v("intrinsic:setptr"@),
        read_ptr_v(target),
    ]
}

proof fn lemma_push_pop_with(sp: Seq<char>, a: Seq<char>, b: Seq<char>, m: Machine)
    requires
        sp != "%ptr"@,
        a != sp,
        a != "%ptr"@,
        b != sp,
        b != "%ptr"@,
        is_word(score(m.scores, sp) + 4),
        score(m.scores, sp) >= i32::MIN,
    ensures
        ({
            let r = mrun(push_with(sp, a) + pop_with(sp, b), m);
            &&& score(r.scores, b) == score(m.scores, a)
            &&& score(r.scores, sp) == score(m.scores, sp)
        }),
{
    let p = score(m.scores, sp);
    let v = score(m.scores, a);
    let pu = push_with(sp, a);
    let po = pop_with(sp, b);
    lemma_mrun_concat(pu, po, m);
    lemma_mrun_first(pu, m);
    let m1 = mstep(pu[0], m);
    assert(score(m1.scores, "%ptr"@) == p);
    let t1 = pu.drop_first();
    lemma_mrun_first(t1, m1);
    let m2 = mstep(t1[0], m1);
    assert(m2.marker == place_of(p));
    let t2 = t1.drop_first();
    lemma_mrun2(t2[0], t2[1], m2);
    assert(t2 =~= seq![t2[0], t2[1]]);
    let m3 = mstep(t2[0], m2);
    assert(score(m3.scores, a) == v);
    assert(cell(m3, place_of(p)) == v);
    let m4 = mstep(t2[1], m3);
    assert(score(m4.scores, sp) == wrap32(p + 4));
    assert(wrap32(p + 4) == p + 4);
    assert(cell(m4, place_of(p)) == v);
    lemma_mrun_first(po, m4);
    let n1 = mstep(po[0], m4);
    assert(score(n1.scores, sp) == wrap32(p + 4 - 4));
    assert(wrap32(p) == p);
    let u1 = po.drop_first();
    lemma_mrun_first(u1, n1);
    let n2 = mstep(u1[0], n1);
    assert(score(n2.scores, "%ptr"@) == p);
    let u2 = u1.drop_first();
    lemma_mrun2(u2[0], u2[1], n2);
    assert(u2 =~= seq![u2[0], u2[1]]);
    let n3 = mstep(u2[0], n2);
    assert(n3.marker == place_of(p));
    assert(cell(n3, place_of(p)) == v);
}

/// Pushing a holder and then popping into another gives the second the
/// first's score and leaves the stack pointer where it was, for a stack
/// pointer with room for a word.
pub proof fn lemma_push_pop(a: Seq<char>, b: Seq<char>, m: Machine)
    requires
        a != "%stackptr"@,
        a != "%ptr"@,
        b != "%stackptr"@,
        b != "%ptr"@,
        is_word(score(m.scores, "%stackptr"@) + 4),
        score(m.scores, "%stackptr"@) >= i32::MIN,
    ensures
        ({
            let r = mrun(push_v(a) + pop_v(b), m);
            &&& score(r.scores, b) == score(m.scores, a)
            &&& score(r.scores, "%stackptr"@) == score(m.scores, "%stackptr"@)
        }),
{
    assert(push_v(a) =~= push_with("%stackptr"@, a));
    assert(pop_v(b) =~= pop_with("%stackptr"@, b));
    assert("%stackptr"@ != "%ptr"@) by {
        reveal_strlit("%stackptr");
        reveal_strlit("%ptr");
        assert("%stackptr"@.len() != "%ptr"@.len());
    }
    lemma_push_pop_with("%stackptr"@, a, b, m);
}

/// The same for the condition stack: pushing with `push_cond_stack` and
/// popping with `pop_cond_stack` gives the value back and leaves the
/// condition stack pointer where it was.
pub proof fn lemma_cond_push_pop(a: Seq<char>, b: Seq<char>, m: Machine)
    requires
        a != "%condstackptr"@,
        a != "%ptr"@,
        b != "%condstackptr"@,
        b != "%ptr"@,
        is_word(score(m.scores, "%condstackptr"@) + 4),
        score(m.scores, "%condstackptr"@) >= i32::MIN,
    ensures
        ({
            let push = seq![
                assign_v("%ptr"@, "%condstackptr"@),
                call_v("intrinsic:setptr"@),
                write_ptr_v(a),
                add_v("%condstackptr"@, 4),
            ];
            let pop = seq![
                add_v("%condstackptr"@, -4i32),
                assign_v("%ptr"@, "%condstackptr"@),
                call_v("intrinsic:setptr"@),
                read_ptr_v(b),
            ];
            let r = mrun(push + pop, m);
            &&& score(r.scores, b) == score(m.scores, a)
            &&& score(r.scores, "%condstackptr"@) == score(m.scores, "%condstackptr"@)
        }),
{
    assert("%condstackptr"@ != "%ptr"@) by {
        reveal_strlit("%condstackptr");
        reveal_strlit("%ptr");
        assert("%condstackptr"@.len() != "%ptr"@.len());
    }
    lemma_push_pop_with("%condstackptr"@, a, b, m);
}

// ----------------------------------------------------------------------
// Saving and restoring registers
// ----------------------------------------------------------------------

/// Whether `s` is a run of decimal digits.
pub open spec fn all_digits(s: Seq<char>) -> bool {
    forall|i: int| 0 <= i < s.len() ==> '0' <= #[trigger] s[i] <= '9'
}

proof fn lemma_split_at_space(a1: Seq<char>, b1: Seq<char>, a2: Seq<char>, b2: Seq<char>)
    requires
        all_digits(a1),
        all_digits(a2),
        a1 + seq![' '] + b1 == a2 + seq![' '] + b2,
    ensures
        a1 == a2,
        b1 == b2,
{
    let x = a1 + seq![' '] + b1;
    let y = a2 + seq![' '] + b2;
    if a1.len() < a2.len() {
        assert(x[a1.len() as int] == ' ');
        assert(y[a1.len() as int] == a2[a1.len() as int]);
    } else if a2.len() < a1.len() {
        assert(y[a2.len() as int] == ' ');
        assert(x[a2.len() as int] == a1[a2.len() as int]);
    } else {
        assert(a1 =~= x.subrange(0, a1.len() as int));
        assert(a2 =~= y.subrange(0, a2.len() as int));
        assert(b1 =~= x.subrange((a1.len() + 1) as int, x.len() as int));
        assert(b2 =~= y.subrange((a2.len() + 1) as int, y.len() as int));
    }
}

proof fn lemma_coords_inj(x1: int, y1: int, z1: int, x2: int, y2: int, z2: int)
    requires
        x1 >= 0, y1 >= 0, z1 >= 0, x2 >= 0, y2 >= 0, z2 >= 0,
        coords_text(x1, y1, z1) == coords_text(x2, y2, z2),
    ensures
        x1 == x2 && y1 == y2 && z1 == z2,
{
    reveal_strlit(" ");
    assert(" "@ =~= seq![' ']);
    lemma_nat_text_digits(x1 as nat);
    lemma_nat_text_digits(x2 as nat);
    lemma_nat_text_digits(y1 as nat);
    lemma_nat_text_digits(y2 as nat);
    let a = nat_text(x1 as nat);
    let b = nat_text(x2 as nat);
    let c = nat_text(y1 as nat);
    let d = nat_text(y2 as nat);
    let e = nat_text(z1 as nat);
    let f = nat_text(z2 as nat);
    assert(coords_text(x1, y1, z1) =~= a + seq![' '] + (c + seq![' '] + e));
    assert(coords_text(x2, y2, z2) =~= b + seq![' '] + (d + seq![' '] + f));
    lemma_split_at_space(a, c + seq![' '] + e, b, d + seq![' '] + f);
    lemma_split_at_space(c, e, d, f);
    lemma_nat_text_inj(x1 as nat, x2 as nat);
    lemma_nat_text_inj(y1 as nat, y2 as nat);
    lemma_nat_text_inj(z1 as nat, z2 as nat);
}

/// Whether `a` is the address of a memory word: aligned and within the
/// blocks that hold memory.
pub open spec fn word_address(a: int) -> bool {
    0 <= a < 131072 && a % 4 == 0
}

/// Different word addresses are kept in different blocks.
pub proof fn lemma_place_distinct(a: int, b: int)
    requires
        word_address(a),
        word_address(b),
        a != b,
    ensures
        place_of(a) != place_of(b),
{
    let pa = address_place(a);
    let pb = address_place(b);
    assert(pa.0 >= 0 && pa.1 >= 0 && pa.2 >= 0 && pb.0 >= 0 && pb.1 >= 0 && pb.2 >= 0);
    if place_of(a) == place_of(b) {
        lemma_coords_inj(pa.0, pa.1, pa.2, pb.0, pb.1, pb.2);
        let wa = a / 4;
        let wb = b / 4;
        assert(wa == (wa / 16 / 16) % 128 * 256 + (wa / 16) % 16 * 16 + wa % 16) by (nonlinear_arith)
            requires 0 <= wa < 32768;
        assert(wb == (wb / 16 / 16) % 128 * 256 + (wb / 16) % 16 * 16 + wb % 16) by (nonlinear_arith)
            requires 0 <= wb < 32768;
        assert(wa == wb);
        assert(a == wa * 4 && b == wb * 4);
    }
}

/// Whether a holder is neither the stack pointer nor the pointer register.
pub open spec fn plain_reg(h: Seq<char>) -> bool {
    h != "%stackptr"@ && h != "%ptr"@
}

proof fn lemma_push_step(a: Seq<char>, m: Machine)
    requires
        plain_reg(a),
    ensures
        ({
            let p = score(m.scores, "%stackptr"@);
            let r = mrun(push_v(a), m);
            &&& score(r.scores, "%stackptr"@) == wrap32(p + 4)
            &&& cell(r, place_of(p)) == score(m.scores, a)
            &&& forall|q: Seq<char>| q != place_of(p) ==> #[trigger] cell(r, q) == cell(m, q)
            &&& forall|h: Seq<char>| plain_reg(h) ==> #[trigger] score(r.scores, h) == score(m.scores, h)
        }),
{
    let pu = push_v(a);
    lemma_mrun_first(pu, m);
    let m1 = mstep(pu[0], m);
    let t1 = pu.drop_first();
    lemma_mrun_first(t1, m1);
    let m2 = mstep(t1[0], m1);
    let t2 = t1.drop_first();
    lemma_mrun2(t2[0], t2[1], m2);
    assert(t2 =~= seq![t2[0], t2[1]]);
}

/// Pushing registers one after another from a stack pointer `p` stores
/// register `i` at `p + 4 i`, advances the stack pointer past them, and
/// leaves every other register and every other memory word alone.
#[verifier::rlimit(50)]
#[verifier::spinoff_prover]
pub proof fn lemma_pushes(rs: Seq<Seq<char>>, m: Machine)
    requires
        forall|i: int| 0 <= i < rs.len() ==> plain_reg(#[trigger] rs[i]),
        word_address(score(m.scores, "%stackptr"@)),
        score(m.scores, "%stackptr"@) + 4 * rs.len() < 131072,
    ensures
        ({
            let p = score(m.scores, "%stackptr"@);
            let r = mrun(pushes(rs), m);
            &&& score(r.scores, "%stackptr"@) == p + 4 * rs.len()
            &&& forall|i: int| 0 <= i < rs.len() ==> #[trigger] cell(r, place_of(p + 4 * i)) == score(m.scores, rs[i])
            &&& forall|h: Seq<char>| plain_reg(h) ==> #[trigger] score(r.scores, h) == score(m.scores, h)
        }),
    decreases rs.len(),
{
    let p = score(m.scores, "%stackptr"@);
    if rs.len() == 0 {
        assert(pushes(rs) =~= Seq::<CommandV>::empty());
    } else {
        let init = rs.drop_last();
        lemma_pushes(init, m);
        let mi = mrun(pushes(init), m);
        lemma_mrun_concat(pushes(init), push_v(rs.last()), m);
        lemma_push_step(rs.last(), mi);
        let r = mrun(pushes(rs), m);
        let k = init.len();
        assert(score(mi.scores, "%stackptr"@) == p + 4 * k);
        assert(wrap32(p + 4 * k + 4) == p + 4 * k + 4);
        assert forall|i: int| 0 <= i < rs.len() implies #[trigger] cell(r, place_of(p + 4 * i)) == score(m.scores, rs[i]) by {
            if i < k {
                assert(word_address(p + 4 * i));
                assert(word_address(p + 4 * k));
                lemma_place_distinct(p + 4 * i, p + 4 * k);
                assert(init[i] == rs[i]);
            } else {
                assert(score(mi.scores, rs.last()) == score(m.scores, rs.last()));
            }
        }
    }
}

proof fn lemma_pop_step(t: Seq<char>, m: Machine)
    requires
        plain_reg(t),
    ensures
        ({
            let p = score(m.scores, "%stackptr"@);
            let r = mrun(pop_v(t), m);
            &&& score(r.scores, "%stackptr"@) == wrap32(p - 4)
            &&& score(r.scores, t) == cell(m, place_of(wrap32(p - 4)))
            &&& r.memory == m.memory
            &&& forall|h: Seq<char>| plain_reg(h) && h != t ==> #[trigger] score(r.scores, h) == score(m.scores, h)
        }),
{
    let po = pop_v(t);
    lemma_mrun_first(po, m);
    let n1 = mstep(po[0], m);
    let u1 = po.drop_first();
    lemma_mrun_first(u1, n1);
    let n2 = mstep(u1[0], n1);
    let u2 = u1.drop_first();
    lemma_mrun2(u2[0], u2[1], n2);
    assert(u2 =~= seq![u2[0], u2[1]]);
}

/// Popping into the registers `qs` one after another from a stack pointer
/// `p` gives register `k` the word at `p - 4 (k + 1)`, moves the stack
/// pointer down past them, and leaves memory alone.
#[verifier::rlimit(50)]
#[verifier::spinoff_prover]
pub proof fn lemma_pops(qs: Seq<Seq<char>>, m: Machine)
    requires
        forall|i: int| 0 <= i < qs.len() ==> plain_reg(#[trigger] qs[i]),
        forall|i: int, j: int| 0 <= i < j < qs.len() ==> qs[i] != qs[j],
        score(m.scores, "%stackptr"@) - 4 * qs.len() >= 0,
        score(m.scores, "%stackptr"@) < 131072,
    ensures
        ({
            let p = score(m.scores, "%stackptr"@);
            let r = mrun(pops(qs), m);
            &&& score(r.scores, "%stackptr"@) == p - 4 * qs.len()
            &&& forall|k: int| 0 <= k < qs.len() ==> #[trigger] score(r.scores, qs[k]) == cell(m, place_of(p - 4 * (k + 1)))
            &&& r.memory == m.memory
            &&& forall|h: Seq<char>| plain_reg(h) && !qs.contains(h) ==> #[trigger] score(r.scores, h) == score(m.scores, h)
        }),
    decreases qs.len(),
{
    let p = score(m.scores, "%stackptr"@);
    if qs.len() == 0 {
        assert(pops(qs) =~= Seq::<CommandV>::empty());
    } else {
        let init = qs.drop_last();
        assert forall|i: int, j: int| 0 <= i < j < init.len() implies init[i] != init[j] by {
            assert(init[i] == qs[i] && init[j] == qs[j]);
        }
        lemma_pops(init, m);
        let mi = mrun(pops(init), m);
        lemma_mrun_concat(pops(init), pop_v(qs.last()), m);
        let k = init.len();
        let t = qs.last();
        lemma_pop_step(t, mi);
        assert(wrap32(p - 4 * k - 4) == p - 4 * k - 4);
        let r = mrun(pops(qs), m);
        assert(score(r.scores, t) == cell(m, place_of(p - 4 * (k + 1))));
        assert forall|j: int| 0 <= j < qs.len() implies #[trigger] score(r.scores, qs[j]) == cell(m, place_of(p - 4 * (j + 1))) by {
            if j < k {
                assert(init[j] == qs[j]);
                assert(qs[j] != t);
            }
        }
        assert forall|h: Seq<char>| plain_reg(h) && !qs.contains(h) implies #[trigger] score(r.scores, h) == score(m.scores, h) by {
            if init.contains(h) {
                let j = choose|j: int| 0 <= j < init.len() && init[j] == h;
                assert(qs[j] == h);
            }
            assert(h != t) by {
                assert(qs[qs.len() - 1] == t);
            }
        }
    }
}

/// Saving registers with `save_regs` and restoring them with `load_regs`
/// gives every saved register, the frame pointer among them, its value
/// from before the save, and puts the stack pointer back, whatever runs in
/// between, as long as that code leaves the frame pointer as the save set
/// it and the saved words as the save wrote them. The saved registers are
/// distinct, none is the stack pointer or the pointer register, and they
/// fit on the stack.
pub proof fn lemma_save_load(regs: Seq<Seq<char>>, m: Machine, m2: Machine)
    requires
        forall|i: int| 0 <= i < saved(regs).len() ==> plain_reg(#[trigger] saved(regs)[i]),
        forall|i: int, j: int| 0 <= i < j < saved(regs).len() ==> saved(regs)[i] != saved(regs)[j],
        word_address(score(m.scores, "%stackptr"@)),
        score(m.scores, "%stackptr"@) + 4 * saved(regs).len() < 131072,
        ({
            let m1 = mrun(pushes(saved(regs)) + seq![assign_v("%stackbaseptr"@, "%stackptr"@)], m);
            &&& score(m2.scores, "%stackbaseptr"@) == score(m1.scores, "%stackbaseptr"@)
            &&& forall|i: int|
                0 <= i < saved(regs).len() ==> #[trigger] cell(m2, place_of(score(m.scores, "%stackptr"@) + 4 * i))
                    == cell(m1, place_of(score(m.scores, "%stackptr"@) + 4 * i))
        }),
    ensures
        ({
            let r = mrun(seq![assign_v("%stackptr"@, "%stackbaseptr"@)] + pops(saved(regs).reverse()), m2);
            &&& forall|i: int| 0 <= i < saved(regs).len() ==> #[trigger] score(r.scores, saved(regs)[i]) == score(m.scores, saved(regs)[i])
            &&& score(r.scores, "%stackptr"@) == score(m.scores, "%stackptr"@)
        }),
{
    let sv = saved(regs);
    let n = sv.len();
    let p = score(m.scores, "%stackptr"@);
    lemma_pushes(sv, m);
    let mi = mrun(pushes(sv), m);
    lemma_mrun_concat(pushes(sv), seq![assign_v("%stackbaseptr"@, "%stackptr"@)], m);
    lemma_mrun_first(seq![assign_v("%stackbaseptr"@, "%stackptr"@)], mi);
    assert(seq![assign_v("%stackbaseptr"@, "%stackptr"@)].drop_first() =~= Seq::<CommandV>::empty());
    let m1 = mrun(pushes(sv) + seq![assign_v("%stackbaseptr"@, "%stackptr"@)], m);
    assert(m1.memory == mi.memory);
    assert(score(m1.scores, "%stackbaseptr"@) == p + 4 * n);
    let first = seq![assign_v("%stackptr"@, "%stackbaseptr"@)];
    let qs = sv.reverse();
    lemma_mrun_concat(first, pops(qs), m2);
    lemma_mrun_first(first, m2);
    assert(first.drop_first() =~= Seq::<CommandV>::empty());
    let m3 = mrun(first, m2);
    assert(score(m3.scores, "%stackptr"@) == p + 4 * n);
    assert(m3.memory == m2.memory);
    assert forall|i: int| 0 <= i < qs.len() implies plain_reg(#[trigger] qs[i]) by {
        assert(qs[i] == sv[n - 1 - i]);
    }
    assert forall|i: int, j: int| 0 <= i < j < qs.len() implies qs[i] != qs[j] by {
        assert(qs[i] == sv[n - 1 - i] && qs[j] == sv[n - 1 - j]);
    }
    lemma_pops(qs, m3);
    let r = mrun(first + pops(qs), m2);
    assert forall|i: int| 0 <= i < n implies #[trigger] score(r.scores, sv[i]) == score(m.scores, sv[i]) by {
        let k = n - 1 - i;
        assert(qs[k] == sv[i]);
        assert(p + 4 * n - 4 * (k + 1) == p + 4 * i);
        assert(cell(m3, place_of(p + 4 * i)) == cell(m2, place_of(p + 4 * i)));
        assert(cell(m2, place_of(p + 4 * i)) == cell(m1, place_of(p + 4 * i)));
        assert(cell(m1, place_of(p + 4 * i)) == cell(mi, place_of(p + 4 * i)));
    }
}

} // verus!
