//! Multi-word arithmetic, comparisons and byte shifts, lowered to score
//! operations on 32-bit words.
use vstd::prelude::*;
use crate::cir::{
    Command, CommandV, CondV, ExecuteCondKind, ExecuteCondition, ExecuteStoreKind,
    ExecuteSubCmd, Execute, McRange, Relation, ScoreHolder, ScoreOpKind, StoreKindV, SubCmdV,
    commands_view,
};
use crate::locals::{LocalName, local_word_name};
use crate::memory::{TempCounter, get_unique_holder, temp_name};
use crate::registers::{
    add_v, assign, assign_lit, assign_v, call, call_v, comment_v, const_holder_name, holder_v,
    make_op, make_op_lit, matches_v, objective, objective_string, op_v, param, param_name,
    relation_cond_v, return_holder, return_name, set_v, uuid,
};
use crate::text::{i32_text, int_text, nat_text, u64_text};

verus! {

// ----------------------------------------------------------------------
// Conditions
// ----------------------------------------------------------------------

/// An `if` sub-command.
pub open spec fn if_v(c: CondV) -> SubCmdV {
    SubCmdV::Condition { is_unless: false, cond: c }
}

/// `execute if <c1> if <c2> ... run <run>`
pub open spec fn exec_if_v(conds: Seq<CondV>, run: CommandV) -> CommandV {
    CommandV::Execute {
        subcommands: conds.map_values(|c: CondV| if_v(c)),
        run: Some(Box::new(run)),
    }
}

/// The condition that `holder` lies in `range`.
pub fn matches(holder: ScoreHolder, range: McRange) -> (r: ExecuteCondition)
    ensures
        r@ == matches_v(holder@, range),
{
    ExecuteCondition::Score {
        target: uuid(holder),
        target_obj: objective_string(),
        kind: ExecuteCondKind::Matches(range),
    }
}

/// The condition that `target` stands in `relation` to `source`.
pub fn relation_cond(target: ScoreHolder, relation: Relation, source: ScoreHolder) -> (r:
    ExecuteCondition)
    ensures
        r@ == relation_cond_v(target@, relation, source@),
{
    ExecuteCondition::Score {
        target: uuid(target),
        target_obj: objective_string(),
        kind: ExecuteCondKind::Relation {
            relation,
            source: uuid(source),
            source_obj: objective_string(),
        },
    }
}

/// Runs `run` when all of `conds` hold.
pub fn exec_if(conds: Vec<ExecuteCondition>, run: Command) -> (r: Command)
    ensures
        r@ == exec_if_v(conds@.map_values(|c: ExecuteCondition| c@), run@),
{
    let ghost cv = conds@.map_values(|c: ExecuteCondition| c@);
    let mut e = Execute::new();
    let n = conds.len();
    let mut i: usize = 0;
    while i < n
        invariant
            n == conds@.len(),
            i <= n,
            e.subcommands@.len() == i,
            forall|k: int|
                0 <= k < i ==> #[trigger] e.subcommands@[k]@ == if_v(conds@[k]@),
            e.run is None,
        decreases n - i,
    {
        e.with_if(conds[i].duplicate());
        i = i + 1;
    }
    e.with_run(run);
    assert(e.subcommands@.map_values(|s: ExecuteSubCmd| s@) =~= cv.map_values(|c: CondV| if_v(c)));
    Command::Execute(e)
}

/// Runs `run` when `cond` holds.
pub fn exec_if1(cond: ExecuteCondition, run: Command) -> (r: Command)
    ensures
        r@ == exec_if_v(seq![cond@], run@),
{
    let ghost cv = cond@;
    let conds = vec![cond];
    assert(conds@.map_values(|c: ExecuteCondition| c@) =~= seq![cv]);
    exec_if(conds, run)
}

/// Runs `run` when both conditions hold.
pub fn exec_if2(c0: ExecuteCondition, c1: ExecuteCondition, run: Command) -> (r: Command)
    ensures
        r@ == exec_if_v(seq![c0@, c1@], run@),
{
    let ghost v0 = c0@;
    let ghost v1 = c1@;
    let conds = vec![c0, c1];
    assert(conds@.map_values(|c: ExecuteCondition| c@) =~= seq![v0, v1]);
    exec_if(conds, run)
}

/// An `unless` sub-command.
pub open spec fn unless_v(c: CondV) -> SubCmdV {
    SubCmdV::Condition { is_unless: true, cond: c }
}

/// `execute unless <c> run <run>`
pub open spec fn exec_unless_v(c: CondV, run: CommandV) -> CommandV {
    CommandV::Execute { subcommands: seq![unless_v(c)], run: Some(Box::new(run)) }
}

/// Runs `run` when `cond` fails.
pub fn exec_unless(cond: ExecuteCondition, run: Command) -> (r: Command)
    ensures
        r@ == exec_unless_v(cond@, run@),
{
    let mut e = Execute::new();
    e.with_unless(cond);
    e.with_run(run);
    assert(e.subcommands@.map_values(|s: ExecuteSubCmd| s@) =~= seq![unless_v(cond@)]);
    Command::Execute(e)
}

/// The range `..=-1` of negative scores.
pub open spec fn negative() -> McRange {
    McRange::HalfLeft(-1i32)
}

/// The range `0..` of non-negative scores.
pub open spec fn non_negative() -> McRange {
    McRange::HalfRight(0i32)
}

// ----------------------------------------------------------------------
// Addition and multiplication
// ----------------------------------------------------------------------

/// The commands of `add_32_with_carry(op0, op1, dest, on_carry)`.
pub open spec fn add_32_with_carry_v(
    op0: Seq<char>,
    op1: Seq<char>,
    dest: Seq<char>,
    on_carry: CommandV,
) -> Seq<CommandV> {
    seq![
        assign_v(dest, op0),
        op_v(dest, ScoreOpKind::AddAssign, op1),
        exec_if_v(seq![matches_v(op0, negative()), matches_v(op1, negative())], on_carry),
        exec_if_v(
            seq![
                matches_v(op0, negative()),
                matches_v(op1, non_negative()),
                matches_v(dest, non_negative()),
            ],
            on_carry,
        ),
        exec_if_v(
            seq![
                matches_v(op0, non_negative()),
                matches_v(op1, negative()),
                matches_v(dest, non_negative()),
            ],
            on_carry,
        ),
    ]
}

/// `dest = op0 + op1` on 32-bit words, running `on_carry` when the
/// unsigned addition carries out of the word.
pub fn add_32_with_carry(
    op0: ScoreHolder,
    op1: ScoreHolder,
    dest: ScoreHolder,
    on_carry: Command,
) -> (r: Vec<Command>)
    ensures
        commands_view(r@) == add_32_with_carry_v(op0@, op1@, dest@, on_carry@),
{
    let c0 = assign(dest.clone(), op0.clone());
    let c1 = make_op(dest.clone(), "+=", op1.clone());
    let ghost carry = on_carry@;
    let ca = on_carry.duplicate();
    let cb = on_carry.duplicate();
    let conds2 = vec![matches(op0.clone(), McRange::HalfLeft(-1)), matches(op1.clone(), McRange::HalfLeft(-1))];
    let ghost v2 = conds2@.map_values(|c: ExecuteCondition| c@);
    assert(v2 =~= seq![matches_v(op0@, negative()), matches_v(op1@, negative())]);
    let c2 = exec_if(conds2, ca);
    let conds3 = vec![
        matches(op0.clone(), McRange::HalfLeft(-1)),
        matches(op1.clone(), McRange::HalfRight(0)),
        matches(dest.clone(), McRange::HalfRight(0)),
    ];
    let ghost v3 = conds3@.map_values(|c: ExecuteCondition| c@);
    assert(v3 =~= seq![
        matches_v(op0@, negative()),
        matches_v(op1@, non_negative()),
        matches_v(dest@, non_negative()),
    ]);
    let c3 = exec_if(conds3, cb);
    let conds4 = vec![
        matches(op0, McRange::HalfRight(0)),
        matches(op1, McRange::HalfLeft(-1)),
        matches(dest, McRange::HalfRight(0)),
    ];
    let ghost v4 = conds4@.map_values(|c: ExecuteCondition| c@);
    assert(v4 =~= seq![
        matches_v(op0@, non_negative()),
        matches_v(op1@, negative()),
        matches_v(dest@, non_negative()),
    ]);
    let c4 = exec_if(conds4, on_carry);
    proof {
        crate::registers::lemma_op_symbols();
    }
    let r = vec![c0, c1, c2, c3, c4];
    assert(commands_view(r@) =~= seq![c0@, c1@, c2@, c3@, c4@]);
    r
}

/// The commands of `add_64_bit`.
pub open spec fn add_64_bit_v(
    op0_lo: Seq<char>,
    op0_hi: Seq<char>,
    op1_lo: Seq<char>,
    op1_hi: Seq<char>,
    dest_lo: Seq<char>,
    dest_hi: Seq<char>,
) -> Seq<CommandV> {
    seq![assign_v(dest_hi, op0_hi), op_v(dest_hi, ScoreOpKind::AddAssign, op1_hi)]
        + add_32_with_carry_v(op0_lo, op1_lo, dest_lo, add_v(dest_hi, 1))
}

/// 64-bit addition of two values held in two words each, into the local
/// `dest`.
pub fn add_64_bit(
    op0_lo: ScoreHolder,
    op0_hi: ScoreHolder,
    op1_lo: ScoreHolder,
    op1_hi: ScoreHolder,
    dest: LocalName,
) -> (r: Vec<Command>)
    ensures
        commands_view(r@) == add_64_bit_v(
            op0_lo@,
            op0_hi@,
            op1_lo@,
            op1_hi@,
            local_word_name(dest@, 0),
            local_word_name(dest@, 1),
        ),
{
    let ghost dv = dest@;
    let holders = ScoreHolder::from_local_name(dest, 8);
    let dest_lo = holders[0].clone();
    let dest_hi = holders[1].clone();
    let mut cmds: Vec<Command> = Vec::new();
    cmds.push(assign(dest_hi.clone(), op0_hi));
    proof {
        crate::registers::lemma_op_symbols();
    }
    cmds.push(make_op(dest_hi.clone(), "+=", op1_hi));
    let ghost head = commands_view(cmds@);
    let carry = make_op_lit(dest_hi, "+=", 1);
    let mut tail = add_32_with_carry(op0_lo, op1_lo, dest_lo, carry);
    let ghost tv = commands_view(tail@);
    cmds.append(&mut tail);
    assert(commands_view(cmds@) =~= head + tv);
    cmds
}

/// The commands of `mul_64_bit`.
pub open spec fn mul_64_bit_v(
    op0_lo: Seq<char>,
    op0_hi: Seq<char>,
    op1_lo: Seq<char>,
    op1_hi: Seq<char>,
    dest_lo: Seq<char>,
    dest_hi: Seq<char>,
) -> Seq<CommandV> {
    seq![
        assign_v(param_name(0, 0), op0_lo),
        assign_v(param_name(1, 0), op1_lo),
        call_v("intrinsic:mul_32_to_64"@),
        assign_v(dest_lo, return_name(0)),
        assign_v(dest_hi, return_name(1)),
        op_v(param_name(0, 0), ScoreOpKind::MulAssign, op1_hi),
        op_v(param_name(1, 0), ScoreOpKind::MulAssign, op0_hi),
        op_v(dest_hi, ScoreOpKind::AddAssign, param_name(0, 0)),
        op_v(dest_hi, ScoreOpKind::AddAssign, param_name(1, 0)),
    ]
}

/// 64-bit multiplication: the full product of the low words, plus the
/// cross products added into the high word.
pub fn mul_64_bit(
    op0_lo: ScoreHolder,
    op0_hi: ScoreHolder,
    op1_lo: ScoreHolder,
    op1_hi: ScoreHolder,
    dest: LocalName,
) -> (r: Vec<Command>)
    ensures
        commands_view(r@) == mul_64_bit_v(
            op0_lo@,
            op0_hi@,
            op1_lo@,
            op1_hi@,
            local_word_name(dest@, 0),
            local_word_name(dest@, 1),
        ),
{
    let holders = ScoreHolder::from_local_name(dest, 8);
    let dest_lo = holders[0].clone();
    let dest_hi = holders[1].clone();
    proof {
        crate::registers::lemma_op_symbols();
    }
    let c0 = assign(param(0, 0), op0_lo);
    let c1 = assign(param(1, 0), op1_lo);
    let c2 = call("intrinsic:mul_32_to_64");
    let c3 = assign(dest_lo, return_holder(0));
    let c4 = assign(dest_hi.clone(), return_holder(1));
    let c5 = make_op(param(0, 0), "*=", op1_hi);
    let c6 = make_op(param(1, 0), "*=", op0_hi);
    let c7 = make_op(dest_hi.clone(), "+=", param(0, 0));
    let c8 = make_op(dest_hi, "+=", param(1, 0));
    let r = vec![c0, c1, c2, c3, c4, c5, c6, c7, c8];
    assert(commands_view(r@) =~= seq![c0@, c1@, c2@, c3@, c4@, c5@, c6@, c7@, c8@]);
    r
}

/// The commands of `add_128_bit`, with the three temporaries it uses.
pub open spec fn add_128_bit_v(
    op0: Seq<Seq<char>>,
    op1: Seq<Seq<char>>,
    dest: Seq<Seq<char>>,
    carry0: Seq<char>,
    carry1: Seq<char>,
    carried: Seq<char>,
) -> Seq<CommandV> {
    seq![
        assign_v(dest[3], op0[3]),
        op_v(dest[3], ScoreOpKind::AddAssign, op1[3]),
        set_v(carry0, 0),
    ] + add_32_with_carry_v(op0[0], op1[0], dest[0], set_v(carry0, 1)) + seq![set_v(carry1, 0)]
        + add_32_with_carry_v(op0[1], carry0, carried, set_v(carry1, 1)) + add_32_with_carry_v(
        carried,
        op1[1],
        dest[1],
        set_v(carry1, 1),
    ) + add_32_with_carry_v(op0[2], carry1, carried, add_v(dest[3], 1)) + add_32_with_carry_v(
        carried,
        op1[2],
        dest[2],
        add_v(dest[3], 1),
    )
}

/// 128-bit addition of two values held in four words each, into the
/// local `dest`, with the carries kept in fresh temporaries.
pub fn add_128_bit(
    op0_0: ScoreHolder,
    op0_1: ScoreHolder,
    op0_2: ScoreHolder,
    op0_3: ScoreHolder,
    op1_0: ScoreHolder,
    op1_1: ScoreHolder,
    op1_2: ScoreHolder,
    op1_3: ScoreHolder,
    dest: LocalName,
    counter: &mut TempCounter,
) -> (r: Vec<Command>)
    requires
        old(counter).next + 3 <= u32::MAX,
    ensures
        final(counter).next == old(counter).next + 3,
        commands_view(r@) == add_128_bit_v(
            seq![op0_0@, op0_1@, op0_2@, op0_3@],
            seq![op1_0@, op1_1@, op1_2@, op1_3@],
            seq![
                local_word_name(dest@, 0),
                local_word_name(dest@, 1),
                local_word_name(dest@, 2),
                local_word_name(dest@, 3),
            ],
            temp_name(old(counter).next as nat),
            temp_name(old(counter).next as nat + 1),
            temp_name(old(counter).next as nat + 2),
        ),
{
    let holders = ScoreHolder::from_local_name(dest, 16);
    let dest_0 = holders[0].clone();
    let dest_1 = holders[1].clone();
    let dest_2 = holders[2].clone();
    let dest_3 = holders[3].clone();
    let carry0 = get_unique_holder(counter);
    let carry1 = get_unique_holder(counter);
    let carried = get_unique_holder(counter);
    proof {
        crate::registers::lemma_op_symbols();
    }
    let mut cmds: Vec<Command> = Vec::new();
    cmds.push(assign(dest_3.clone(), op0_3));
    cmds.push(make_op(dest_3.clone(), "+=", op1_3));
    cmds.push(assign_lit(carry0.clone(), 0));
    let ghost v0 = commands_view(cmds@);

    let mut t1 = add_32_with_carry(op0_0, op1_0, dest_0, assign_lit(carry0.clone(), 1));
    let ghost v1 = commands_view(t1@);
    cmds.append(&mut t1);
    assert(commands_view(cmds@) =~= v0 + v1);

    cmds.push(assign_lit(carry1.clone(), 0));
    let ghost v2 = commands_view(cmds@);

    let mut t2 = add_32_with_carry(op0_1, carry0, carried.clone(), assign_lit(carry1.clone(), 1));
    let ghost w2 = commands_view(t2@);
    cmds.append(&mut t2);
    assert(commands_view(cmds@) =~= v2 + w2);
    let ghost v3 = commands_view(cmds@);

    let mut t3 = add_32_with_carry(carried.clone(), op1_1, dest_1, assign_lit(carry1.clone(), 1));
    let ghost w3 = commands_view(t3@);
    cmds.append(&mut t3);
    assert(commands_view(cmds@) =~= v3 + w3);
    let ghost v4 = commands_view(cmds@);

    let mut t4 = add_32_with_carry(op0_2, carry1, carried.clone(), make_op_lit(dest_3.clone(), "+=", 1));
    let ghost w4 = commands_view(t4@);
    cmds.append(&mut t4);
    assert(commands_view(cmds@) =~= v4 + w4);
    let ghost v5 = commands_view(cmds@);

    let mut t5 = add_32_with_carry(carried, op1_2, dest_2, make_op_lit(dest_3, "+=", 1));
    let ghost w5 = commands_view(t5@);
    cmds.append(&mut t5);
    assert(commands_view(cmds@) =~= v5 + w5);
    cmds
}

// ----------------------------------------------------------------------
// Shifts
// ----------------------------------------------------------------------

/// A call of the logical-shift-right intrinsic.
pub open spec fn lshr_call_v() -> CommandV {
    call_v("intrinsic:lshr"@)
}

/// The commands of `lshr_64_bit_const`.
pub open spec fn lshr_64_bit_const_v(
    op0_lo: Seq<char>,
    op0_hi: Seq<char>,
    amount: i32,
    dest_lo: Seq<char>,
    dest_hi: Seq<char>,
    temp: Seq<char>,
) -> Seq<CommandV> {
    if amount >= 32 {
        if amount > 32 {
            seq![
                set_v(dest_hi, 0),
                assign_v(param_name(0, 0), op0_hi),
                set_v(param_name(1, 0), (amount - 32) as i32),
                lshr_call_v(),
                assign_v(dest_lo, param_name(0, 0)),
            ]
        } else {
            seq![set_v(dest_hi, 0), assign_v(dest_lo, op0_hi)]
        }
    } else {
        seq![
            assign_v(temp, op0_hi),
            op_v(temp, ScoreOpKind::ModAssign, const_holder_name(1i32 << (amount as u32))),
        ] + (if amount > 0 {
            seq![
                op_v(
                    temp,
                    ScoreOpKind::MulAssign,
                    const_holder_name(1i32 << ((32 - amount) as u32)),
                ),
            ]
        } else {
            Seq::empty()
        }) + seq![
            assign_v(param_name(0, 0), op0_hi),
            set_v(param_name(1, 0), amount),
            lshr_call_v(),
            assign_v(dest_hi, param_name(0, 0)),
            assign_v(param_name(0, 0), op0_lo),
            set_v(param_name(1, 0), amount),
            lshr_call_v(),
            assign_v(dest_lo, param_name(0, 0)),
            op_v(dest_lo, ScoreOpKind::AddAssign, temp),
        ]
    }
}

/// Logical shift right of a 64-bit value in two words by the constant
/// `amount`, into the local `dest`. Below 32 it moves the bits that
/// cross from the high word with a temporary.
pub fn lshr_64_bit_const(
    op0_lo: ScoreHolder,
    op0_hi: ScoreHolder,
    amount: i32,
    dest: LocalName,
    counter: &mut TempCounter,
) -> (r: Vec<Command>)
    requires
        0 <= amount,
        amount < 32 ==> old(counter).next < u32::MAX,
    ensures
        amount >= 32 ==> final(counter).next == old(counter).next,
        amount < 32 ==> final(counter).next == old(counter).next + 1,
        commands_view(r@) == lshr_64_bit_const_v(
            op0_lo@,
            op0_hi@,
            amount,
            local_word_name(dest@, 0),
            local_word_name(dest@, 1),
            temp_name(old(counter).next as nat),
        ),
{
    let holders = ScoreHolder::from_local_name(dest, 8);
    let dest_lo = holders[0].clone();
    let dest_hi = holders[1].clone();
    proof {
        crate::registers::lemma_op_symbols();
    }
    if amount >= 32 {
        if amount > 32 {
            let c0 = assign_lit(dest_hi, 0);
            let c1 = assign(param(0, 0), op0_hi);
            let c2 = assign_lit(param(1, 0), amount - 32);
            let c3 = call("intrinsic:lshr");
            let c4 = assign(dest_lo, param(0, 0));
            let r = vec![c0, c1, c2, c3, c4];
            assert(commands_view(r@) =~= seq![c0@, c1@, c2@, c3@, c4@]);
            r
        } else {
            let c0 = assign_lit(dest_hi, 0);
            let c1 = assign(dest_lo, op0_hi);
            let r = vec![c0, c1];
            assert(commands_view(r@) =~= seq![c0@, c1@]);
            r
        }
    } else {
        let temp = get_unique_holder(counter);
        let mut cmds: Vec<Command> = Vec::new();
        cmds.push(assign(temp.clone(), op0_hi.clone()));
        let m: i32 = 1i32 << (amount as u32);
        cmds.push(make_op_lit(temp.clone(), "%=", m));
        let ghost v0 = commands_view(cmds@);
        if amount > 0 {
            let k: i32 = 1i32 << ((32 - amount) as u32);
            cmds.push(make_op_lit(temp.clone(), "*=", k));
        }
        let ghost v1 = commands_view(cmds@);
        let c0 = assign(param(0, 0), op0_hi);
        let c1 = assign_lit(param(1, 0), amount);
        let c2 = call("intrinsic:lshr");
        let c3 = assign(dest_hi, param(0, 0));
        let c4 = assign(param(0, 0), op0_lo);
        let c5 = assign_lit(param(1, 0), amount);
        let c6 = call("intrinsic:lshr");
        let c7 = assign(dest_lo.clone(), param(0, 0));
        let c8 = make_op(dest_lo, "+=", temp);
        let mut rest = vec![c0, c1, c2, c3, c4, c5, c6, c7, c8];
        let ghost w = commands_view(rest@);
        assert(w =~= seq![c0@, c1@, c2@, c3@, c4@, c5@, c6@, c7@, c8@]);
        cmds.append(&mut rest);
        assert(commands_view(cmds@) =~= v1 + w);
        assert(v1 =~= seq![
            assign_v(temp_name(old(counter).next as nat), op0_hi@),
            op_v(
                temp_name(old(counter).next as nat),
                ScoreOpKind::ModAssign,
                const_holder_name(1i32 << (amount as u32)),
            ),
        ] + (if amount > 0 {
            seq![
                op_v(
                    temp_name(old(counter).next as nat),
                    ScoreOpKind::MulAssign,
                    const_holder_name(1i32 << ((32 - amount) as u32)),
                ),
            ]
        } else {
            Seq::empty()
        }));
        cmds
    }
}

/// Multiplications of `holder` by 256, `n` times.
pub open spec fn times_256_v(holder: Seq<char>, n: nat) -> Seq<CommandV> {
    Seq::new(n, |i: int| op_v(holder, ScoreOpKind::MulAssign, const_holder_name(256)))
}

/// Divisions of `holder` by 256, `n` times.
pub open spec fn div_256_v(holder: Seq<char>, n: nat) -> Seq<CommandV> {
    Seq::new(n, |i: int| op_v(holder, ScoreOpKind::DivAssign, const_holder_name(256)))
}

/// The text `<prefix><n><suffix>`.
pub open spec fn numbered_text(prefix: Seq<char>, n: nat, suffix: Seq<char>) -> Seq<char> {
    prefix + nat_text(n) + suffix
}

fn numbered(prefix: &str, n: u32, suffix: &str) -> (r: String)
    ensures
        r@ == numbered_text(prefix@, n as nat, suffix@),
{
    let mut s = String::from_str(prefix);
    let t = u64_text(n as u64);
    s.append(t.as_str());
    s.append(suffix);
    s
}

/// Appends `count` copies of `holder <op> 256`.
fn push_by_256(cmds: &mut Vec<Command>, holder: &ScoreHolder, op: &str, count: u32)
    requires
        op@ == "*="@ || op@ == "/="@,
    ensures
        commands_view(final(cmds)@) == commands_view(old(cmds)@) + Seq::new(
            count as nat,
            |i: int|
                op_v(
                    holder@,
                    crate::registers::op_kind_of(op@).unwrap(),
                    const_holder_name(256),
                ),
        ),
{
    let ghost start = commands_view(cmds@);
    let mut i: u32 = 0;
    proof {
        crate::registers::lemma_op_symbols();
    }
    while i < count
        invariant
            i <= count,
            op@ == "*="@ || op@ == "/="@,
            commands_view(cmds@) =~= start + Seq::new(
                i as nat,
                |k: int|
                    op_v(
                        holder@,
                        crate::registers::op_kind_of(op@).unwrap(),
                        const_holder_name(256),
                    ),
            ),
        decreases count - i,
    {
        proof {
            crate::registers::lemma_op_symbols();
        }
        let ghost before = commands_view(cmds@);
        let c = make_op_lit(holder.clone(), op, 256);
        cmds.push(c);
        assert(commands_view(cmds@) =~= before + seq![c@]);
        i = i + 1;
    }
}

/// Multiplies `holder` by 256 `byte` times, shifting it left by whole bytes.
pub fn shift_left_bytes(holder: ScoreHolder, byte: u32) -> (r: Vec<Command>)
    requires
        byte < 4,
    ensures
        commands_view(r@) == seq![
            comment_v(numbered_text("shift_left_bytes by "@, byte as nat, " bytes"@)),
        ] + times_256_v(holder@, byte as nat),
{
    let mut cmds: Vec<Command> = Vec::new();
    cmds.push(Command::Comment(numbered("shift_left_bytes by ", byte, " bytes")));
    proof {
        crate::registers::lemma_op_symbols();
    }
    push_by_256(&mut cmds, &holder, "*=", byte);
    assert(commands_view(cmds@) =~= seq![
        comment_v(numbered_text("shift_left_bytes by "@, byte as nat, " bytes"@)),
    ] + times_256_v(holder@, byte as nat));
    cmds
}

/// Divides `holder` by 256 `byte` times.
pub fn shift_right_bytes(holder: ScoreHolder, byte: u32) -> (r: Vec<Command>)
    requires
        byte < 4,
    ensures
        commands_view(r@) == seq![
            comment_v(numbered_text("shift_right_bytes by "@, byte as nat, " bytes"@)),
        ] + div_256_v(holder@, byte as nat),
{
    let mut cmds: Vec<Command> = Vec::new();
    cmds.push(Command::Comment(numbered("shift_right_bytes by ", byte, " bytes")));
    proof {
        crate::registers::lemma_op_symbols();
    }
    push_by_256(&mut cmds, &holder, "/=", byte);
    assert(commands_view(cmds@) =~= seq![
        comment_v(numbered_text("shift_right_bytes by "@, byte as nat, " bytes"@)),
    ] + div_256_v(holder@, byte as nat));
    cmds
}

/// The commands of `zero_low_bytes(holder, bytes)`.
pub open spec fn zero_low_bytes_v(holder: Seq<char>, bytes: nat) -> Seq<CommandV> {
    seq![
        comment_v("zero "@ + nat_text(bytes) + " lowest bytes of "@ + holder),
        assign_v(param_name(0, 0), holder),
        set_v(param_name(1, 0), (bytes * 8) as i32),
        lshr_call_v(),
        assign_v(holder, param_name(0, 0)),
    ] + times_256_v(holder, bytes)
}

/// Clears the lowest `bytes` bytes of `holder`: a logical shift right by
/// that many bytes, then a multiplication by 256 for each of them.
pub fn zero_low_bytes(holder: ScoreHolder, bytes: u32) -> (r: Vec<Command>)
    requires
        bytes * 8 <= i32::MAX,
    ensures
        commands_view(r@) == zero_low_bytes_v(holder@, bytes as nat),
{
    let mut text = numbered("zero ", bytes, " lowest bytes of ");
    text.append(holder.as_str());
    let mut cmds: Vec<Command> = Vec::new();
    cmds.push(Command::Comment(text));
    cmds.push(assign(param(0, 0), holder.clone()));
    cmds.push(assign_lit(param(1, 0), bytes as i32 * 8));
    cmds.push(call("intrinsic:lshr"));
    cmds.push(assign(holder.clone(), param(0, 0)));
    proof {
        crate::registers::lemma_op_symbols();
    }
    let ghost head = commands_view(cmds@);
    push_by_256(&mut cmds, &holder, "*=", bytes);
    assert(commands_view(cmds@) =~= zero_low_bytes_v(holder@, bytes as nat));
    cmds
}

/// The commands of `truncate_to(holder, bytes)` with the temporary `top`.
pub open spec fn truncate_to_v(holder: Seq<char>, bytes: nat, top: Seq<char>) -> Seq<CommandV> {
    seq![
        comment_v("truncate "@ + holder + " to "@ + nat_text(bytes) + " bytes"@),
        assign_v(top, holder),
    ] + zero_low_bytes_v(top, bytes) + seq![op_v(holder, ScoreOpKind::SubAssign, top)]
}

/// Keeps only the lowest `bytes` bytes of `holder`, by subtracting a
/// copy with those bytes cleared.
pub fn truncate_to(holder: ScoreHolder, bytes: u32, counter: &mut TempCounter) -> (r: Vec<Command>)
    requires
        bytes < 4,
        old(counter).next < u32::MAX,
    ensures
        final(counter).next == old(counter).next + 1,
        commands_view(r@) == truncate_to_v(holder@, bytes as nat, temp_name(old(counter).next as nat)),
{
    let top_bits = get_unique_holder(counter);
    let mut text = String::from_str("truncate ");
    text.append(holder.as_str());
    text.append(" to ");
    let t = u64_text(bytes as u64);
    text.append(t.as_str());
    text.append(" bytes");
    let mut cmds: Vec<Command> = Vec::new();
    cmds.push(Command::Comment(text));
    cmds.push(assign(top_bits.clone(), holder.clone()));
    let ghost head = commands_view(cmds@);
    let mut z = zero_low_bytes(top_bits.clone(), bytes);
    let ghost zv = commands_view(z@);
    cmds.append(&mut z);
    proof {
        crate::registers::lemma_op_symbols();
    }
    let last = make_op(holder, "-=", top_bits);
    let ghost lv = last@;
    cmds.push(last);
    assert(commands_view(cmds@) =~= head + zv + seq![lv]);
    cmds
}

// ----------------------------------------------------------------------
// Comparisons
// ----------------------------------------------------------------------

/// `(invert, or_eq)` for an unsigned comparison by `relation`.
pub open spec fn unsigned_flags(relation: Relation) -> (bool, bool) {
    match relation {
        Relation::LessThan => (false, false),
        Relation::LessThanEq => (false, true),
        Relation::GreaterThanEq => (true, false),
        _ => (true, true),
    }
}

/// The commands of `compile_unsigned_cmp`.
pub open spec fn unsigned_cmp_v(
    lhs: Seq<char>,
    rhs: Seq<char>,
    dest: Seq<char>,
    relation: Relation,
) -> Seq<CommandV> {
    let (invert, or_eq) = unsigned_flags(relation);
    let hit = set_v(dest, if invert { 0i32 } else { 1i32 });
    seq![
        set_v(dest, if invert { 1i32 } else { 0i32 }),
        exec_if_v(
            seq![
                matches_v(lhs, non_negative()),
                matches_v(rhs, non_negative()),
                relation_cond_v(lhs, Relation::LessThan, rhs),
            ],
            hit,
        ),
        exec_if_v(
            seq![
                matches_v(lhs, negative()),
                matches_v(rhs, negative()),
                relation_cond_v(lhs, Relation::LessThan, rhs),
            ],
            hit,
        ),
        exec_if_v(seq![matches_v(lhs, non_negative()), matches_v(rhs, negative())], hit),
    ] + if or_eq {
        seq![exec_if_v(seq![relation_cond_v(lhs, Relation::Eq, rhs)], hit)]
    } else {
        Seq::empty()
    }
}

/// Sets `dest` to 1 when `lhs relation rhs` holds between the words read
/// as unsigned 32-bit numbers, and to 0 otherwise. `relation` is an
/// ordering, not `Eq`.
pub fn compile_unsigned_cmp(
    lhs: ScoreHolder,
    rhs: ScoreHolder,
    dest: ScoreHolder,
    relation: Relation,
) -> (r: Vec<Command>)
    requires
        relation != Relation::Eq,
    ensures
        commands_view(r@) == unsigned_cmp_v(lhs@, rhs@, dest@, relation),
{
    let (invert, or_eq) = match relation {
        Relation::LessThan => (false, false),
        Relation::LessThanEq => (false, true),
        Relation::GreaterThanEq => (true, false),
        _ => (true, true),
    };
    let base: i32 = if invert { 1 } else { 0 };
    let hit: i32 = if invert { 0 } else { 1 };
    let c0 = assign_lit(dest.clone(), base);

    let conds1 = vec![
        matches(lhs.clone(), McRange::HalfRight(0)),
        matches(rhs.clone(), McRange::HalfRight(0)),
        relation_cond(lhs.clone(), Relation::LessThan, rhs.clone()),
    ];
    assert(conds1@.map_values(|c: ExecuteCondition| c@) =~= seq![
        matches_v(lhs@, non_negative()),
        matches_v(rhs@, non_negative()),
        relation_cond_v(lhs@, Relation::LessThan, rhs@),
    ]);
    let c1 = exec_if(conds1, assign_lit(dest.clone(), hit));

    let conds2 = vec![
        matches(lhs.clone(), McRange::HalfLeft(-1)),
        matches(rhs.clone(), McRange::HalfLeft(-1)),
        relation_cond(lhs.clone(), Relation::LessThan, rhs.clone()),
    ];
    assert(conds2@.map_values(|c: ExecuteCondition| c@) =~= seq![
        matches_v(lhs@, negative()),
        matches_v(rhs@, negative()),
        relation_cond_v(lhs@, Relation::LessThan, rhs@),
    ]);
    let c2 = exec_if(conds2, assign_lit(dest.clone(), hit));

    let conds3 = vec![matches(lhs.clone(), McRange::HalfRight(0)), matches(rhs.clone(), McRange::HalfLeft(-1))];
    assert(conds3@.map_values(|c: ExecuteCondition| c@) =~= seq![
        matches_v(lhs@, non_negative()),
        matches_v(rhs@, negative()),
    ]);
    let c3 = exec_if(conds3, assign_lit(dest.clone(), hit));

    let mut cmds = vec![c0, c1, c2, c3];
    assert(commands_view(cmds@) =~= seq![c0@, c1@, c2@, c3@]);
    if or_eq {
        let conds4 = vec![relation_cond(lhs, Relation::Eq, rhs)];
        assert(conds4@.map_values(|c: ExecuteCondition| c@) =~= seq![
            relation_cond_v(lhs@, Relation::Eq, rhs@),
        ]);
        let c4 = exec_if(conds4, assign_lit(dest, hit));
        let ghost before = commands_view(cmds@);
        cmds.push(c4);
        assert(commands_view(cmds@) =~= before + seq![c4@]);
    } else {
        assert(commands_view(cmds@) =~= commands_view(cmds@) + Seq::<CommandV>::empty());
    }
    cmds
}

/// `execute store success score dest rust (if|unless) score target rust
/// <relation> source rust`
pub open spec fn signed_cmp_v(
    target: Seq<char>,
    source: Seq<char>,
    dest: Seq<char>,
    relation: Relation,
    normal: bool,
) -> CommandV {
    CommandV::Execute {
        subcommands: seq![
            SubCmdV::Store {
                is_success: true,
                kind: StoreKindV::Score { target: holder_v(dest), objective: objective() },
            },
            SubCmdV::Condition {
                is_unless: !normal,
                cond: relation_cond_v(target, relation, source),
            },
        ],
        run: None,
    }
}

/// Stores into `dest` whether `target relation source` holds between the
/// words read as signed numbers (or, when `normal` is false, fails).
pub fn compile_signed_cmp(
    target: ScoreHolder,
    source: ScoreHolder,
    dest: ScoreHolder,
    relation: Relation,
    normal: bool,
) -> (r: Command)
    ensures
        r@ == signed_cmp_v(target@, source@, dest@, relation, normal),
{
    let mut cmd = Execute::new();
    cmd.with_subcmd(
        ExecuteSubCmd::Store {
            is_success: true,
            kind: ExecuteStoreKind::Score { target: uuid(dest), objective: objective_string() },
        },
    );
    cmd.with_subcmd(
        ExecuteSubCmd::Condition { is_unless: !normal, cond: relation_cond(target, relation, source) },
    );
    let r = Command::Execute(cmd);
    assert(cmd.subcommands@.map_values(|s: ExecuteSubCmd| s@) =~= seq![
        cmd.subcommands@[0]@,
        cmd.subcommands@[1]@,
    ]);
    r
}

/// An integer comparison predicate.
#[derive(Debug, Clone, Copy, PartialEq, Eq)]
pub enum IntPredicate {
    EQ,
    NE,
    UGT,
    UGE,
    ULT,
    ULE,
    SGT,
    SGE,
    SLT,
    SLE,
}

/// The commands of `compile_normal_icmp`.
pub open spec fn icmp_v(
    target: Seq<char>,
    source: Seq<char>,
    predicate: IntPredicate,
    dest: Seq<char>,
) -> Seq<CommandV> {
    match predicate {
        IntPredicate::SGE => seq![signed_cmp_v(target, source, dest, Relation::GreaterThanEq, true)],
        IntPredicate::SGT => seq![signed_cmp_v(target, source, dest, Relation::GreaterThan, true)],
        IntPredicate::SLT => seq![signed_cmp_v(target, source, dest, Relation::LessThan, true)],
        IntPredicate::SLE => seq![signed_cmp_v(target, source, dest, Relation::LessThanEq, true)],
        IntPredicate::EQ => seq![signed_cmp_v(target, source, dest, Relation::Eq, true)],
        IntPredicate::NE => seq![signed_cmp_v(target, source, dest, Relation::Eq, false)],
        IntPredicate::ULT => unsigned_cmp_v(target, source, dest, Relation::LessThan),
        IntPredicate::ULE => unsigned_cmp_v(target, source, dest, Relation::LessThanEq),
        IntPredicate::UGT => unsigned_cmp_v(target, source, dest, Relation::GreaterThan),
        IntPredicate::UGE => unsigned_cmp_v(target, source, dest, Relation::GreaterThanEq),
    }
}

/// Sets `dest` to whether `predicate` holds between the 32-bit words in
/// `target` and `source`.
pub fn compile_normal_icmp(
    target: ScoreHolder,
    source: ScoreHolder,
    predicate: &IntPredicate,
    dest: ScoreHolder,
) -> (r: Vec<Command>)
    ensures
        commands_view(r@) == icmp_v(target@, source@, *predicate, dest@),
{
    let one = |c: Command| -> (v: Vec<Command>)
        ensures
            commands_view(v@) == seq![c@],
        {
            let v = vec![c];
            assert(commands_view(v@) =~= seq![c@]);
            v
        };
    match predicate {
        IntPredicate::SGE => one(compile_signed_cmp(target, source, dest, Relation::GreaterThanEq, true)),
        IntPredicate::SGT => one(compile_signed_cmp(target, source, dest, Relation::GreaterThan, true)),
        IntPredicate::SLT => one(compile_signed_cmp(target, source, dest, Relation::LessThan, true)),
        IntPredicate::SLE => one(compile_signed_cmp(target, source, dest, Relation::LessThanEq, true)),
        IntPredicate::EQ => one(compile_signed_cmp(target, source, dest, Relation::Eq, true)),
        IntPredicate::NE => one(compile_signed_cmp(target, source, dest, Relation::Eq, false)),
        IntPredicate::ULT => compile_unsigned_cmp(target, source, dest, Relation::LessThan),
        IntPredicate::ULE => compile_unsigned_cmp(target, source, dest, Relation::LessThanEq),
        IntPredicate::UGT => compile_unsigned_cmp(target, source, dest, Relation::GreaterThan),
        IntPredicate::UGE => compile_unsigned_cmp(target, source, dest, Relation::GreaterThanEq),
    }
}

} // verus!
