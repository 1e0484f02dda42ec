//! The ends of basic blocks: where control goes next, and the commands
//! that hand control to the next block within the command budget of a
//! tick, or resume it in the next tick.
use vstd::prelude::*;
use crate::cir::{
    CondV, Command, CommandV, Function, FunctionV, DataKindV, DataModifyKind, DataTargetV, ExecuteCondKind,
    ExecuteCondition, FunctionId, FunctionIdV, McRange, ModifySourceV, ScoreHolder, ScoreOpKind,
    Data, DataKind, DataModifySource, DataTarget, Execute, ExecuteSubCmd, FuncCall, Relation,
    Selector, SelectorArg, SelectorVariable, SetBlock, SetBlockKind, SubCmdV, Target, TargetV,
    Teleport, Tellraw, commands_view,
};
use crate::constants::{
    Constant, GlobalTable, const_int_bits, eval_const_ok, eval_const_spec, eval_constant,
    int_bits_of,
};
use crate::frame::{holder_views, load_regs, pops, pushes, save_regs, saved};
use crate::holders::{insert_holder, lemma_sorted_unique, sorted_names, strictly_sorted};
use crate::layout::{IrType, Types, layout_fits, type_layout, type_layout_spec};
use crate::locals::{LocalName, LocalNameV, clean, clean_text};
use crate::memory::{MaybeConst, MaybeConstV, TempCounter, get_unique_holder, temp_name};
use crate::operands::{
    Operand, eval_operand, eval_operand_ok, eval_operand_v, local_words, operand_type, type_of,
};
use crate::registers::{
    add_v, assign, assign_lit, assign_v, cmd_count, cmd_limit, comment_v, const_holder_name,
    make_op_lit, mark_todo, mark_unreachable, matches_v, objective_string, op_lit_v,
    relation_cond_v, return_holder, return_name, set_v, temp_fn_ptr, uuid, add_lit, argptr, call,
    call_v, param, param_name, ptr, read_ptr, read_ptr_v,
};
use crate::link::CALL_PREFIX;
use crate::starts::FuncStarts;
use crate::render::id_text;
use crate::text::{has_prefix, nat_text, u64_text};

verus! {

/// The condition under which a way out of a block is taken.
pub enum BlockEdge {
    /// Always.
    Always,
    /// When the boolean in `value` is true, or with `inverted`, false.
    Cond { value: ScoreHolder, inverted: bool },
    /// When `value` equals `expected`.
    SwitchCond { value: ScoreHolder, expected: i32 },
    /// When `value` equals none of `not_expected`.
    SwitchDefault { value: ScoreHolder, not_expected: Vec<i32> },
}

/// The view of a [`BlockEdge`].
pub enum BlockEdgeV {
    Always,
    Cond { value: Seq<char>, inverted: bool },
    SwitchCond { value: Seq<char>, expected: i32 },
    SwitchDefault { value: Seq<char>, not_expected: Seq<i32> },
}

impl View for BlockEdge {
    type V = BlockEdgeV;

    open spec fn view(&self) -> BlockEdgeV {
        match self {
            BlockEdge::Always => BlockEdgeV::Always,
            BlockEdge::Cond { value, inverted } => BlockEdgeV::Cond { value: value@, inverted: *inverted },
            BlockEdge::SwitchCond { value, expected } => BlockEdgeV::SwitchCond {
                value: value@,
                expected: *expected,
            },
            BlockEdge::SwitchDefault { value, not_expected } => BlockEdgeV::SwitchDefault {
                value: value@,
                not_expected: not_expected@,
            },
        }
    }
}

/// The condition that `holder` equals `v`.
pub open spec fn equals_v(holder: Seq<char>, v: i32) -> CondV {
    matches_v(holder, McRange::Between(v, v))
}

/// The conditions of an edge as sub-commands of an `execute`: a boolean
/// edge tests its value against one (negated when inverted), a case edge
/// tests for its value, and the default edge tests against every case.
pub open spec fn edge_conds_v(e: BlockEdgeV) -> Seq<SubCmdV> {
    match e {
        BlockEdgeV::Always => Seq::empty(),
        BlockEdgeV::Cond { value, inverted } => seq![
            SubCmdV::Condition { is_unless: inverted, cond: equals_v(value, 1) },
        ],
        BlockEdgeV::SwitchCond { value, expected } => seq![
            SubCmdV::Condition { is_unless: false, cond: equals_v(value, expected) },
        ],
        BlockEdgeV::SwitchDefault { value, not_expected } => Seq::new(
            not_expected.len(),
            |i: int| SubCmdV::Condition { is_unless: true, cond: equals_v(value, not_expected[i]) },
        ),
    }
}

/// The condition that `holder` equals `v`.
fn equals(holder: ScoreHolder, v: i32) -> (r: ExecuteCondition)
    ensures
        r@ == equals_v(holder@, v),
{
    ExecuteCondition::Score {
        target: uuid(holder),
        target_obj: objective_string(),
        kind: ExecuteCondKind::Matches(McRange::Between(v, v)),
    }
}

impl BlockEdge {
    /// The conditions of the edge, each with whether it is negated.
    pub fn into_conds(self) -> (r: Vec<(ExecuteCondition, bool)>)
        ensures
            r@.map_values(
                |p: (ExecuteCondition, bool)| SubCmdV::Condition { is_unless: p.1, cond: p.0@ },
            ) == edge_conds_v(self@),
    {
        let ghost ev = self@;
        let mut out: Vec<(ExecuteCondition, bool)> = Vec::new();
        match self {
            BlockEdge::Always => {},
            BlockEdge::Cond { value, inverted } => {
                out.push((equals(value, 1), inverted));
            },
            BlockEdge::SwitchCond { value, expected } => {
                out.push((equals(value, expected), false));
            },
            BlockEdge::SwitchDefault { value, not_expected } => {
                let mut i: usize = 0;
                while i < not_expected.len()
                    invariant
                        i <= not_expected@.len(),
                        out@.len() == i,
                        forall|j: int|
                            0 <= j < i ==> #[trigger] out@[j] == (
                                out@[j].0,
                                true,
                            ) && out@[j].0@ == equals_v(value@, not_expected@[j]),
                    decreases not_expected.len() - i,
                {
                    out.push((equals(value.clone(), not_expected[i]), true));
                    i = i + 1;
                }
            },
        }
        assert(out@.map_values(
            |p: (ExecuteCondition, bool)| SubCmdV::Condition { is_unless: p.1, cond: p.0@ },
        ) =~= edge_conds_v(ev));
        out
    }
}

/// Where control goes after a block: along the first edge whose
/// conditions hold, or into one function.
pub enum BlockExit {
    Edges(Vec<(BlockEdge, FunctionId)>),
    Call(FunctionId),
}

/// The view of a [`BlockExit`].
pub enum BlockExitV {
    Edges(Seq<(BlockEdgeV, FunctionIdV)>),
    Call(FunctionIdV),
}

/// The views of a list of edges.
pub open spec fn edges_view(es: Seq<(BlockEdge, FunctionId)>) -> Seq<(BlockEdgeV, FunctionIdV)> {
    es.map_values(|e: (BlockEdge, FunctionId)| (e.0@, e.1@))
}

impl View for BlockExit {
    type V = BlockExitV;

    open spec fn view(&self) -> BlockExitV {
        match self {
            BlockExit::Edges(es) => BlockExitV::Edges(edges_view(es@)),
            BlockExit::Call(id) => BlockExitV::Call(id@),
        }
    }
}

/// The text a block name has in an identifier: the name with whitespace
/// replaced by `_`, or the number.
pub open spec fn block_label(b: LocalNameV) -> Seq<char> {
    match b {
        LocalNameV::Name(s) => clean_text(s),
        LocalNameV::Number(n) => nat_text(n),
    }
}

/// The identifier of block `block` of the function named `func`.
pub open spec fn block_id_v(func: Seq<char>, block: LocalNameV) -> FunctionIdV {
    FunctionIdV { name: "rust:"@ + func + "/"@ + block_label(block), sub: 0 }
}

/// The identifier of block `block` of the function named `func`.
pub fn block_id(func: &str, block: &LocalName) -> (r: FunctionId)
    ensures
        r@ == block_id_v(func@, block@),
{
    let mut name = String::from_str("rust:");
    name.append(func);
    name.append("/");
    let label = match block {
        LocalName::Name(s) => clean(s.as_str()),
        LocalName::Number(n) => u64_text(*n as u64),
    };
    name.append(label.as_str());
    proof {
        reveal_strlit("rust:");
        reveal_strlit("/");
    }
    FunctionId { name, sub: 0 }
}

/// The terminator of a basic block.
pub enum Terminator {
    /// Return, with the returned operand (and its rendering for comments).
    Ret { operand: Option<Operand>, operand_text: String },
    /// Jump to `dest`.
    Br { dest: LocalName },
    /// Jump on a boolean.
    CondBr { condition: Operand, true_dest: LocalName, false_dest: LocalName },
    /// Jump on an integer: to the block of the case it equals, or to the
    /// default block.
    Switch { operand: Operand, dests: Vec<(Constant, LocalName)>, default_dest: LocalName },
    Unreachable,
    Resume,
    Invoke,
    /// Any other terminator.
    Other,
}

/// `tellraw @a` with a message.
pub open spec fn tell_all_v(message: Seq<char>) -> CommandV {
    CommandV::Tellraw {
        target: TargetV::Selector { var: SelectorVariable::AllPlayers, args: Seq::empty() },
        message,
    }
}

/// The function that returns to the caller.
pub open spec fn return_id_v() -> FunctionIdV {
    FunctionIdV { name: "rust:__langcraft_return"@, sub: 0 }
}

/// The commands that restore the registers `clobbers` on the way out.
pub open spec fn restore_v(clobbers: Seq<Seq<char>>) -> Seq<CommandV> {
    seq![assign_v("%stackptr"@, "%stackbaseptr"@)] + pops(saved(clobbers).reverse())
}

/// The value a switch compares, after the operand's words `words`, with
/// the counter at `n`: a word as it is; a halfword or a byte reduced to
/// its width in a new temporary; anything else a new temporary set to
/// zero. The commands, the holder, and the counter after.
pub open spec fn switch_value_v(ty: Option<IrType>, words: Seq<Seq<char>>, n: nat) -> (
    Seq<CommandV>,
    Seq<char>,
    nat,
) {
    let tmp = temp_name(n);
    match ty {
        Some(IrType::Integer { bits }) => if bits == 32 {
            (Seq::empty(), words[0], n)
        } else if bits == 16 {
            (seq![assign_v(tmp, words[0]), op_lit_v(tmp, "%="@, 65536)], tmp, n + 1)
        } else if bits == 8 {
            (seq![assign_v(tmp, words[0]), op_lit_v(tmp, "%="@, 256)], tmp, n + 1)
        } else {
            (seq![set_v(tmp, 0)], tmp, n + 1)
        },
        _ => (seq![set_v(tmp, 0)], tmp, n + 1),
    }
}

/// Whether a case value of a switch is an 8-, 16- or 32-bit constant.
pub open spec fn case_typed(c: Constant) -> bool {
    const_int_bits(c) == Some(8u32) || const_int_bits(c) == Some(16u32) || const_int_bits(c) == Some(
        32u32,
    )
}

/// The scores of the first `k` case values, and the counter after.
pub open spec fn case_scores(
    cases: Seq<(Constant, LocalName)>,
    k: nat,
    g: Seq<(LocalName, u32)>,
    tys: Types,
    n: nat,
) -> (Seq<i32>, nat)
    decreases k,
{
    if k == 0 || k > cases.len() {
        (Seq::empty(), n)
    } else {
        let p = case_scores(cases, (k - 1) as nat, g, tys, n);
        let e = eval_const_spec(cases[k - 1].0, g, tys, p.1);
        (
            p.0.push(
                match e.0 {
                    MaybeConstV::Const(c) => c,
                    _ => 0,
                },
            ),
            e.1,
        )
    }
}

/// Whether the first `k` case values are integer constants of a switched
/// width that evaluate to scores.
pub open spec fn cases_ok(
    cases: Seq<(Constant, LocalName)>,
    k: nat,
    g: Seq<(LocalName, u32)>,
    tys: Types,
    n: nat,
) -> bool
    decreases k,
{
    if k == 0 || k > cases.len() {
        true
    } else {
        let p = case_scores(cases, (k - 1) as nat, g, tys, n);
        let e = eval_const_spec(cases[k - 1].0, g, tys, p.1);
        &&& cases_ok(cases, (k - 1) as nat, g, tys, n)
        &&& case_typed(cases[k - 1].0)
        &&& eval_const_ok(cases[k - 1].0, g, tys, p.1)
        &&& e.1 <= u32::MAX
        &&& e.0 is Const
    }
}

/// The edges of a switch on `value`: one per case, to its block.
pub open spec fn case_edges_v(
    func: Seq<char>,
    cases: Seq<(Constant, LocalName)>,
    value: Seq<char>,
    scores: Seq<i32>,
) -> Seq<(BlockEdgeV, FunctionIdV)> {
    Seq::new(
        cases.len(),
        |i: int|
            (
                BlockEdgeV::SwitchCond { value, expected: scores[i] },
                block_id_v(func, cases[i].1@),
            ),
    )
}

/// What a terminator compiles to in the function named `func` whose
/// clobbered registers are `clobbers`: the commands, where control goes,
/// and the counter after.
pub open spec fn terminator_v(
    func: Seq<char>,
    term: Terminator,
    clobbers: Seq<Seq<char>>,
    g: Seq<(LocalName, u32)>,
    tys: Types,
    n: nat,
) -> (Seq<CommandV>, BlockExitV, nat) {
    match term {
        Terminator::Ret { operand, operand_text } => match operand {
            None => (
                seq![comment_v("return"@)] + restore_v(clobbers),
                BlockExitV::Call(return_id_v()),
                n,
            ),
            Some(op) => {
                let e = eval_operand_v(op, g, tys, n);
                (
                    seq![comment_v("return operand "@ + operand_text@)] + e.0 + Seq::new(
                        e.1.len(),
                        |i: int| assign_v(return_name(i as nat), e.1[i]),
                    ) + restore_v(clobbers),
                    BlockExitV::Call(return_id_v()),
                    e.2,
                )
            },
        },
        Terminator::Br { dest } => (
            Seq::empty(),
            BlockExitV::Edges(seq![(BlockEdgeV::Always, block_id_v(func, dest@))]),
            n,
        ),
        Terminator::CondBr { condition, true_dest, false_dest } => {
            let e = eval_operand_v(condition, g, tys, n);
            (
                e.0,
                BlockExitV::Edges(
                    seq![
                        (BlockEdgeV::Cond { value: e.1[0], inverted: false }, block_id_v(func, true_dest@)),
                        (BlockEdgeV::Cond { value: e.1[0], inverted: true }, block_id_v(func, false_dest@)),
                    ],
                ),
                e.2,
            )
        },
        Terminator::Switch { operand, dests, default_dest } => {
            let e = eval_operand_v(operand, g, tys, n);
            let v = switch_value_v(operand_type(operand), e.1, e.2);
            let first = case_scores(dests@, dests@.len(), g, tys, v.2);
            let second = case_scores(dests@, dests@.len(), g, tys, first.1);
            (
                e.0 + v.0,
                BlockExitV::Edges(
                    case_edges_v(func, dests@, v.1, first.0).push(
                        (
                            BlockEdgeV::SwitchDefault { value: v.1, not_expected: second.0 },
                            block_id_v(func, default_dest@),
                        ),
                    ),
                ),
                second.1,
            )
        },
        Terminator::Unreachable => (
            seq![comment_v("!INTERPRETER: UNREACHABLE"@), tell_all_v("ENTERED UNREACHABLE CODE"@)],
            BlockExitV::Edges(Seq::empty()),
            n,
        ),
        Terminator::Resume => (
            seq![comment_v("!INTERPRETER: TODO"@), tell_all_v("OH NO EXCEPTION HANDLING TOOD"@)],
            BlockExitV::Edges(Seq::empty()),
            n,
        ),
        _ => (Seq::empty(), BlockExitV::Edges(Seq::empty()), n),
    }
}

/// Whether a terminator can be compiled with the counter at `n`: it is
/// one of the handled kinds, its operands evaluate, a condition is one
/// word, a switched value has a word, and its cases evaluate to scores.
pub open spec fn terminator_ok(term: Terminator, g: Seq<(LocalName, u32)>, tys: Types, n: nat) -> bool {
    match term {
        Terminator::Ret { operand, .. } => match operand {
            Some(op) => eval_operand_ok(op, g, tys, n),
            None => true,
        },
        Terminator::CondBr { condition, .. } => {
            &&& eval_operand_ok(condition, g, tys, n)
            &&& eval_operand_v(condition, g, tys, n).1.len() == 1
        },
        Terminator::Switch { operand, dests, .. } => {
            let e = eval_operand_v(operand, g, tys, n);
            let v = switch_value_v(operand_type(operand), e.1, e.2);
            let first = case_scores(dests@, dests@.len(), g, tys, v.2);
            &&& eval_operand_ok(operand, g, tys, n)
            &&& e.1.len() >= 1
            &&& e.2 < u32::MAX
            &&& cases_ok(dests@, dests@.len(), g, tys, v.2)
            &&& cases_ok(dests@, dests@.len(), g, tys, first.1)
        },
        Terminator::Other => false,
        _ => true,
    }
}

/// `tellraw @a` with a message.
fn tell_all(message: &str) -> (r: Command)
    ensures
        r@ == tell_all_v(message@),
{
    let target = Target::Selector(Selector { var: SelectorVariable::AllPlayers, args: Vec::new() });
    assert(target@ == TargetV::Selector { var: SelectorVariable::AllPlayers, args: Seq::empty() })
        by {
        if let Target::Selector(sel) = target {
            assert(sel.args@.map_values(|a: SelectorArg| a@) =~= Seq::<Seq<char>>::empty());
        }
    }
    Command::Tellraw(Tellraw { target, message: String::from_str(message) })
}

proof fn lemma_cases_ok_prefix(
    cases: Seq<(Constant, LocalName)>,
    j: nat,
    k: nat,
    g: Seq<(LocalName, u32)>,
    tys: Types,
    n: nat,
)
    requires
        j <= k <= cases.len(),
        cases_ok(cases, k, g, tys, n),
    ensures
        cases_ok(cases, j, g, tys, n),
    decreases k,
{
    if j < k {
        lemma_cases_ok_prefix(cases, j, (k - 1) as nat, g, tys, n);
    }
}

/// The scores of the case values of a switch.
fn case_values(
    cases: &Vec<(Constant, LocalName)>,
    globals: &GlobalTable,
    tys: &Types,
    counter: &mut TempCounter,
) -> (r: Vec<i32>)
    requires
        cases_ok(cases@, cases@.len(), globals.addrs@, *tys, old(counter).next as nat),
    ensures
        r@.len() == cases@.len(),
        (r@, final(counter).next as nat) == case_scores(
            cases@,
            cases@.len(),
            globals.addrs@,
            *tys,
            old(counter).next as nat,
        ),
{
    let ghost g = globals.addrs@;
    let ghost n0 = counter.next as nat;
    let mut out: Vec<i32> = Vec::new();
    let mut i: usize = 0;
    while i < cases.len()
        invariant
            i <= cases@.len(),
            g == globals.addrs@,
            cases_ok(cases@, cases@.len(), g, *tys, n0),
            out@.len() == i,
            (out@, counter.next as nat) == case_scores(cases@, i as nat, g, *tys, n0),
        decreases cases.len() - i,
    {
        proof {
            lemma_cases_ok_prefix(cases@, (i + 1) as nat, cases@.len(), g, *tys, n0);
        }
        let m = eval_constant(&cases[i].0, globals, tys, counter);
        let c: i32 = match m {
            MaybeConst::Const(c) => c,
            MaybeConst::NonConst(..) => 0,
        };
        out.push(c);
        i = i + 1;
    }
    out
}

/// The commands of a return: a comment, the returned value moved into
/// the return registers, and the registers restored.
fn compile_ret(
    operand: &Option<Operand>,
    operand_text: &String,
    clobbers: Vec<ScoreHolder>,
    globals: &GlobalTable,
    tys: &Types,
    counter: &mut TempCounter,
) -> (r: Vec<Command>)
    requires
        *operand matches Some(op) ==> eval_operand_ok(op, globals.addrs@, *tys, old(counter).next as nat),
    ensures
        ({
            let t = terminator_v(
                Seq::empty(),
                Terminator::Ret { operand: *operand, operand_text: *operand_text },
                holder_views(clobbers@),
                globals.addrs@,
                *tys,
                old(counter).next as nat,
            );
            &&& commands_view(r@) == t.0
            &&& final(counter).next as nat == t.2
        }),
{
            let mut cmds: Vec<Command> = Vec::new();
            match operand {
                None => {
                    let c0 = Command::Comment(String::from_str("return"));
                    cmds.push(c0);
                    assert(commands_view(cmds@) =~= seq![c0@]);
                },
                Some(op) => {
                    let mut text = String::from_str("return operand ");
                    text.append(operand_text.as_str());
                    proof {
                        reveal_strlit("return operand ");
                    }
                    let c0 = Command::Comment(text);
                    cmds.push(c0);
                    let (mut tmp, source) = eval_operand(op, globals, tys, counter);
                    let ghost tv = commands_view(tmp@);
                    let ghost sv = source@.map_values(|x: ScoreHolder| x@);
                    cmds.append(&mut tmp);
                    assert(commands_view(cmds@) =~= seq![c0@] + tv);
                    let ghost head = commands_view(cmds@);
                    let mut idx: usize = 0;
                    while idx < source.len()
                        invariant
                            idx <= source@.len(),
                            sv == source@.map_values(|x: ScoreHolder| x@),
                            commands_view(cmds@) == head + Seq::new(
                                idx as nat,
                                |i: int| assign_v(return_name(i as nat), sv[i]),
                            ),
                        decreases source.len() - idx,
                    {
                        let c = assign(return_holder(idx), source[idx].clone());
                        let ghost before = commands_view(cmds@);
                        cmds.push(c);
                        assert(commands_view(cmds@) =~= before.push(c@));
                        assert(commands_view(cmds@) =~= head + Seq::new(
                            (idx + 1) as nat,
                            |i: int| assign_v(return_name(i as nat), sv[i]),
                        ));
                        idx = idx + 1;
                    }
                },
            }
            let ghost head = commands_view(cmds@);
            let mut tail = load_regs(clobbers);
            let ghost rv = commands_view(tail@);
            cmds.append(&mut tail);
            assert(commands_view(cmds@) =~= head + rv);
                cmds
}

/// The commands and the edges of a switch.
fn compile_switch(
    parent_name: &str,
    operand: &Operand,
    dests: &Vec<(Constant, LocalName)>,
    default_dest: &LocalName,
    globals: &GlobalTable,
    tys: &Types,
    counter: &mut TempCounter,
) -> (r: (Vec<Command>, BlockExit))
    requires
        terminator_ok(
            Terminator::Switch { operand: *operand, dests: *dests, default_dest: *default_dest },
            globals.addrs@,
            *tys,
            old(counter).next as nat,
        ),
    ensures
        ({
            let t = terminator_v(
                parent_name@,
                Terminator::Switch { operand: *operand, dests: *dests, default_dest: *default_dest },
                Seq::empty(),
                globals.addrs@,
                *tys,
                old(counter).next as nat,
            );
            &&& commands_view(r.0@) == t.0
            &&& r.1@ == t.1
            &&& final(counter).next as nat == t.2
        }),
{
            let (mut cmds, op) = eval_operand(operand, globals, tys, counter);
            let ghost head = commands_view(cmds@);
            let ghost n1 = counter.next as nat;
            let bits: u32 = match type_of(operand) {
                Some(IrType::Integer { bits }) => *bits,
                _ => 0,
            };
            let value = if bits == 32 {
                op[0].clone()
            } else if bits == 16 || bits == 8 {
                let tmp = get_unique_holder(counter);
                let c0 = assign(tmp.clone(), op[0].clone());
                proof {
                    crate::registers::lemma_op_symbols();
                }
                let c1 = make_op_lit(tmp.clone(), "%=", if bits == 16 { 65536 } else { 256 });
                cmds.push(c0);
                cmds.push(c1);
                assert(commands_view(cmds@) =~= head + seq![c0@, c1@]);
                tmp
            } else {
                let tmp = get_unique_holder(counter);
                let c0 = assign_lit(tmp.clone(), 0);
                cmds.push(c0);
                assert(commands_view(cmds@) =~= head + seq![c0@]);
                tmp
            };
            let ghost v = switch_value_v(operand_type(*operand), op@.map_values(|x: ScoreHolder| x@), n1);
            assert(commands_view(cmds@) == head + v.0 && value@ == v.1 && counter.next as nat == v.2);
            let first = case_values(dests, globals, tys, counter);
            let mut edges: Vec<(BlockEdge, FunctionId)> = Vec::new();
            let mut i: usize = 0;
            while i < dests.len()
                invariant
                    i <= dests@.len(),
                    first@.len() == dests@.len(),
                    edges_view(edges@) == case_edges_v(parent_name@, dests@, value@, first@).take(
                        i as int,
                    ),
                decreases dests.len() - i,
            {
                let id = block_id(parent_name, &dests[i].1);
                let e = BlockEdge::SwitchCond { value: value.clone(), expected: first[i] };
                let ghost before = edges_view(edges@);
                edges.push((e, id));
                assert(edges_view(edges@) =~= before.push((e@, id@)));
                assert(case_edges_v(parent_name@, dests@, value@, first@).take(i + 1) =~= case_edges_v(
                    parent_name@,
                    dests@,
                    value@,
                    first@,
                ).take(i as int).push((e@, id@)));
                i = i + 1;
            }
            let second = case_values(dests, globals, tys, counter);
            let d = block_id(parent_name, default_dest);
            let last = BlockEdge::SwitchDefault { value, not_expected: second };
            let ghost before = edges_view(edges@);
            let ghost lv = (last@, d@);
            edges.push((last, d));
            assert(edges_view(edges@) =~= before.push(lv));
            assert(case_edges_v(parent_name@, dests@, v.1, first@).take(dests@.len() as int)
                =~= case_edges_v(parent_name@, dests@, v.1, first@));
            (cmds, BlockExit::Edges(edges))
        }

/// Compiles the terminator `term` of a block of the function named
/// `parent_name`, whose clobbered registers are `clobbers`: the commands
/// to run, and where control goes next.
pub fn compile_terminator(
    parent_name: &str,
    term: &Terminator,
    clobbers: Vec<ScoreHolder>,
    globals: &GlobalTable,
    tys: &Types,
    counter: &mut TempCounter,
) -> (r: (Vec<Command>, BlockExit))
    requires
        terminator_ok(*term, globals.addrs@, *tys, old(counter).next as nat),
    ensures
        ({
            let t = terminator_v(
                parent_name@,
                *term,
                holder_views(clobbers@),
                globals.addrs@,
                *tys,
                old(counter).next as nat,
            );
            &&& commands_view(r.0@) == t.0
            &&& r.1@ == t.1
            &&& final(counter).next as nat == t.2
        }),
{
    let ghost g = globals.addrs@;
    let ghost cv = holder_views(clobbers@);
    match term {
        Terminator::Ret { operand, operand_text } => {
            let cmds = compile_ret(operand, operand_text, clobbers, globals, tys, counter);
            (cmds, BlockExit::Call(FunctionId::new("rust:__langcraft_return")))
        },
        Terminator::Br { dest } => {
            let edges = vec![(BlockEdge::Always, block_id(parent_name, dest))];
            assert(edges_view(edges@) =~= seq![(BlockEdgeV::Always, block_id_v(parent_name@, dest@))]);
            (Vec::new(), BlockExit::Edges(edges))
        },
        Terminator::CondBr { condition, true_dest, false_dest } => {
            let (cmds, cond) = eval_operand(condition, globals, tys, counter);
            let t = block_id(parent_name, true_dest);
            let f = block_id(parent_name, false_dest);
            let edges = vec![
                (BlockEdge::Cond { value: cond[0].clone(), inverted: false }, t),
                (BlockEdge::Cond { value: cond[0].clone(), inverted: true }, f),
            ];
            assert(edges_view(edges@) =~= seq![
                (BlockEdgeV::Cond { value: cond@[0]@, inverted: false }, block_id_v(parent_name@, true_dest@)),
                (BlockEdgeV::Cond { value: cond@[0]@, inverted: true }, block_id_v(parent_name@, false_dest@)),
            ]);
            (cmds, BlockExit::Edges(edges))
        },
        Terminator::Switch { operand, dests, default_dest } => compile_switch(
            parent_name,
            operand,
            dests,
            default_dest,
            globals,
            tys,
            counter,
        ),
        Terminator::Unreachable => {
            let c0 = mark_unreachable();
            let c1 = tell_all("ENTERED UNREACHABLE CODE");
            let cmds = vec![c0, c1];
            assert(commands_view(cmds@) =~= seq![c0@, c1@]);
            let edges: Vec<(BlockEdge, FunctionId)> = Vec::new();
            assert(edges_view(edges@) =~= Seq::<(BlockEdgeV, FunctionIdV)>::empty());
            (cmds, BlockExit::Edges(edges))
        },
        Terminator::Resume => {
            let c0 = mark_todo();
            let c1 = tell_all("OH NO EXCEPTION HANDLING TOOD");
            let cmds = vec![c0, c1];
            assert(commands_view(cmds@) =~= seq![c0@, c1@]);
            let edges: Vec<(BlockEdge, FunctionId)> = Vec::new();
            assert(edges_view(edges@) =~= Seq::<(BlockEdgeV, FunctionIdV)>::empty());
            (cmds, BlockExit::Edges(edges))
        },
        _ => {
            let cmds: Vec<Command> = Vec::new();
            let edges: Vec<(BlockEdge, FunctionId)> = Vec::new();
            assert(commands_view(cmds@) =~= Seq::<CommandV>::empty());
            assert(edges_view(edges@) =~= Seq::<(BlockEdgeV, FunctionIdV)>::empty());
            (cmds, BlockExit::Edges(edges))
        },
    }
}

// ----------------------------------------------------------------------
// Handing control to the next block
// ----------------------------------------------------------------------

/// How a block ends.
pub enum BlockEnd {
    /// A call of the function named after the call marker.
    StaticCall(String),
    /// A call through the function pointer in the holder.
    DynCall(ScoreHolder),
    /// The block's own terminator.
    Normal(Terminator),
}

/// How a block ends, as the contracts see it.
pub enum EndV {
    /// A call marked for linking: the marker's text.
    StaticCall(Seq<char>),
    /// A call through the function pointer in the named holder.
    DynCall(Seq<char>),
    /// The terminator of the basic block.
    Normal(Terminator),
}

/// The view of a block end.
pub open spec fn end_view(e: BlockEnd) -> EndV {
    match e {
        BlockEnd::StaticCall(s) => EndV::StaticCall(s@),
        BlockEnd::DynCall(h) => EndV::DynCall(h@),
        BlockEnd::Normal(t) => EndV::Normal(t),
    }
}

/// The function a static call marker names: the text after the marker.
pub open spec fn callee_of(marker: Seq<char>) -> Seq<char> {
    marker.skip(CALL_PREFIX@.len() as int)
}

/// The commands a block end runs and where control goes, with the
/// counter after: a static call goes to the start of the named function
/// when it is known, or else to the function of that name; a dynamic
/// call stores the pointer and goes through the dispatcher; a terminator
/// compiles as such.
pub open spec fn end_exit_v(
    end: EndV,
    func: Seq<char>,
    clobbers: Seq<Seq<char>>,
    starts: Map<Seq<char>, FunctionIdV>,
    g: Seq<(LocalName, u32)>,
    tys: Types,
    n: nat,
) -> (Seq<CommandV>, BlockExitV, nat) {
    match end {
        EndV::StaticCall(marker) => {
            let callee = callee_of(marker);
            if starts.contains_key(callee) {
                (Seq::empty(), BlockExitV::Edges(seq![(BlockEdgeV::Always, starts[callee])]), n)
            } else {
                (Seq::empty(), BlockExitV::Call(FunctionIdV { name: "rust:"@ + callee, sub: 0 }), n)
            }
        },
        EndV::DynCall(h) => (
            seq![assign_v("%%tempfuncptr"@, h)],
            BlockExitV::Call(FunctionIdV { name: "rust:__langcraft_call"@, sub: 0 }),
            n,
        ),
        EndV::Normal(t) => terminator_v(func, t, clobbers, g, tys, n),
    }
}

/// Whether a block end can be compiled: a static call carries the call
/// marker and is not the copy intrinsic, and a terminator compiles.
pub open spec fn end_ok(end: EndV, g: Seq<(LocalName, u32)>, tys: Types, n: nat) -> bool {
    match end {
        EndV::StaticCall(marker) => has_prefix(marker, CALL_PREFIX@) && marker
            != "!FIXUPCALL intrinsic:memcpy"@,
        EndV::DynCall(_) => true,
        EndV::Normal(t) => terminator_ok(t, g, tys, n),
    }
}

/// The entities tagged as the next command block.
pub open spec fn next_block_v() -> TargetV {
    TargetV::Selector { var: SelectorVariable::AllEntities, args: seq!["tag=next"@] }
}

/// The condition that the tick still has room for commands.
pub open spec fn under_limit_v() -> SubCmdV {
    SubCmdV::Condition {
        is_unless: false,
        cond: relation_cond_v("%%cmdcount"@, Relation::LessThan, "%%CMD_LIMIT"@),
    }
}

/// The condition that the tick has used up its commands.
pub open spec fn over_limit_v() -> SubCmdV {
    SubCmdV::Condition {
        is_unless: false,
        cond: relation_cond_v("%%cmdcount"@, Relation::GreaterThanEq, "%%CMD_LIMIT"@),
    }
}

/// `execute <subs> run <run>`
pub open spec fn exec_v(subs: Seq<SubCmdV>, run: CommandV) -> CommandV {
    CommandV::Execute { subcommands: subs, run: Some(Box::new(run)) }
}

/// Sets the command of the block at `pos` to a call of `id`.
pub open spec fn set_command_v(pos: Seq<char>, id: FunctionIdV) -> CommandV {
    CommandV::Data {
        target: DataTargetV::Block(pos),
        kind: DataKindV::Modify {
            path: "Command"@,
            kind: DataModifyKind::Overwrite,
            source: ModifySourceV::ValueString("function "@ + id_text(id)),
        },
    }
}

/// A block placed at `pos`, replacing what was there.
pub open spec fn place_v(pos: Seq<char>, block: Seq<char>) -> CommandV {
    CommandV::SetBlock { pos, block, kind: SetBlockKind::Replace }
}

/// The commands that hand control on: while the tick has room, the next
/// command block is set to call the destination (of the first edge whose
/// conditions hold) and the next marker moves here; once the tick is used
/// up, the resume block is set to call the destination instead, the next
/// block is cleared, the clock is started again and the count reset.
pub open spec fn handoff_v(exit: BlockExitV) -> Seq<CommandV> {
    let under = under_limit_v();
    let over = over_limit_v();
    let at_next = SubCmdV::At { target: next_block_v() };
    let next = match exit {
        BlockExitV::Edges(es) => Seq::new(
            es.len(),
            |i: int| exec_v(seq![under, at_next] + edge_conds_v(es[i].0), set_command_v("~ ~ ~"@, es[i].1)),
        ),
        BlockExitV::Call(id) => seq![exec_v(seq![under, at_next], CommandV::FuncCall(id))],
    };
    let resume = match exit {
        BlockExitV::Edges(es) => Seq::new(
            es.len(),
            |i: int| exec_v(seq![over] + edge_conds_v(es[i].0), set_command_v("-2 1 1"@, es[i].1)),
        ),
        BlockExitV::Call(id) => seq![
            exec_v(seq![over, SubCmdV::Positioned { pos: "-2 1 1"@ }], CommandV::FuncCall(id)),
        ],
    };
    next + seq![
        exec_v(seq![under], CommandV::Teleport { target: next_block_v(), pos: "~ ~ ~"@ }),
    ] + resume + seq![
        exec_v(seq![over, at_next], place_v("~ ~ ~"@, "minecraft:air"@)),
        exec_v(seq![over], place_v("-2 1 0"@, "minecraft:redstone_block"@)),
        exec_v(seq![over], set_v("%%cmdcount"@, 0)),
    ]
}

/// The commands that end a block of `body_cmds` commands and the counter
/// after: what the block end runs, then, where no edge leaves, the block
/// and the clock cleared; otherwise the command count raised and the
/// hand-off to the next block.
pub open spec fn block_end_v(
    end: EndV,
    body_cmds: nat,
    func: Seq<char>,
    clobbers: Seq<Seq<char>>,
    starts: Map<Seq<char>, FunctionIdV>,
    g: Seq<(LocalName, u32)>,
    tys: Types,
    n: nat,
) -> (Seq<CommandV>, nat) {
    let x = end_exit_v(end, func, clobbers, starts, g, tys, n);
    match x.1 {
        BlockExitV::Edges(es) => if es.len() == 0 {
            (x.0 + seq![place_v("~ ~ ~"@, "minecraft:air"@), place_v("-2 0 0"@, "minecraft:air"@)], x.2)
        } else {
            (x.0 + seq![add_v("%%cmdcount"@, ((body_cmds as i32) + 10) as i32)] + handoff_v(x.1), x.2)
        },
        BlockExitV::Call(_) => (
            x.0 + seq![add_v("%%cmdcount"@, ((body_cmds as i32) + 10) as i32)] + handoff_v(x.1),
            x.2,
        ),
    }
}

/// `execute <subs> run <run>`
fn exec_with(subs: Vec<ExecuteSubCmd>, run: Command) -> (r: Command)
    ensures
        r@ == exec_v(subs@.map_values(|s: ExecuteSubCmd| s@), run@),
{
    Command::Execute(Execute { subcommands: subs, run: Some(Box::new(run)) })
}

/// The entities tagged as the next command block.
fn next_block() -> (r: Target)
    ensures
        r@ == next_block_v(),
{
    let args = vec![SelectorArg(String::from_str("tag=next"))];
    let t = Target::Selector(Selector { var: SelectorVariable::AllEntities, args });
    proof {
        reveal_strlit("tag=next");
    }
    assert(args@.map_values(|a: SelectorArg| a@) =~= seq!["tag=next"@]);
    t
}

/// The condition that the command count stands in `relation` to the
/// limit.
fn count_vs_limit(relation: Relation) -> (r: ExecuteSubCmd)
    ensures
        r@ == (SubCmdV::Condition {
            is_unless: false,
            cond: relation_cond_v("%%cmdcount"@, relation, "%%CMD_LIMIT"@),
        }),
{
    ExecuteSubCmd::Condition {
        is_unless: false,
        cond: ExecuteCondition::Score {
            target: uuid(cmd_count()),
            target_obj: objective_string(),
            kind: ExecuteCondKind::Relation {
                relation,
                source: uuid(cmd_limit()),
                source_obj: objective_string(),
            },
        },
    }
}

/// Sets the command of the block at `pos` to a call of `id`.
fn set_command(pos: &str, id: FunctionId) -> (r: Command)
    ensures
        r@ == set_command_v(pos@, id@),
{
    let text = crate::render::call_to_text(&FuncCall { id });
    Command::Data(
        Data {
            target: DataTarget::Block(String::from_str(pos)),
            kind: DataKind::Modify {
                path: String::from_str("Command"),
                kind: DataModifyKind::Overwrite,
                source: DataModifySource::ValueString(text),
            },
        },
    )
}

/// A block placed at `pos`, replacing what was there.
fn place(pos: &str, block: &str) -> (r: Command)
    ensures
        r@ == place_v(pos@, block@),
{
    Command::SetBlock(
        SetBlock {
            pos: String::from_str(pos),
            block: String::from_str(block),
            kind: SetBlockKind::Replace,
        },
    )
}

/// The sub-commands of an edge's conditions after `head`.
fn with_edge(head: Vec<ExecuteSubCmd>, edge: BlockEdge) -> (r: Vec<ExecuteSubCmd>)
    ensures
        r@.map_values(|s: ExecuteSubCmd| s@) == head@.map_values(|s: ExecuteSubCmd| s@)
            + edge_conds_v(edge@),
{
    let ghost hv = head@.map_values(|s: ExecuteSubCmd| s@);
    let ghost ev = edge@;
    let conds = edge.into_conds();
    let ghost cv = conds@.map_values(
        |p: (ExecuteCondition, bool)| SubCmdV::Condition { is_unless: p.1, cond: p.0@ },
    );
    let mut out = head;
    let mut i: usize = 0;
    while i < conds.len()
        invariant
            i <= conds@.len(),
            cv == conds@.map_values(
                |p: (ExecuteCondition, bool)| SubCmdV::Condition { is_unless: p.1, cond: p.0@ },
            ),
            out@.map_values(|s: ExecuteSubCmd| s@) == hv + cv.take(i as int),
        decreases conds.len() - i,
    {
        let (c, u) = match &conds[i] {
            (c, u) => (c.duplicate(), *u),
        };
        let ghost before = out@.map_values(|s: ExecuteSubCmd| s@);
        out.push(ExecuteSubCmd::Condition { is_unless: u, cond: c });
        assert(out@.map_values(|s: ExecuteSubCmd| s@) =~= before.push(cv[i as int]));
        assert(cv.take(i + 1) =~= cv.take(i as int).push(cv[i as int]));
        i = i + 1;
    }
    assert(cv.take(conds@.len() as int) =~= cv);
    out
}

impl BlockEdge {
    /// A copy of the edge.
    pub fn duplicate(&self) -> (r: BlockEdge)
        ensures
            r@ == self@,
    {
        match self {
            BlockEdge::Always => BlockEdge::Always,
            BlockEdge::Cond { value, inverted } => BlockEdge::Cond { value: value.clone(), inverted: *inverted },
            BlockEdge::SwitchCond { value, expected } => BlockEdge::SwitchCond {
                value: value.clone(),
                expected: *expected,
            },
            BlockEdge::SwitchDefault { value, not_expected } => {
                let mut copy: Vec<i32> = Vec::new();
                let mut i: usize = 0;
                while i < not_expected.len()
                    invariant
                        i <= not_expected@.len(),
                        copy@ == not_expected@.take(i as int),
                    decreases not_expected.len() - i,
                {
                    copy.push(not_expected[i]);
                    assert(not_expected@.take(i + 1) =~= not_expected@.take(i as int).push(
                        not_expected@[i as int],
                    ));
                    i = i + 1;
                }
                assert(not_expected@.take(not_expected@.len() as int) =~= not_expected@);
                BlockEdge::SwitchDefault { value: value.clone(), not_expected: copy }
            },
        }
    }
}

/// The commands and the destination of a block end.
fn end_exit(
    block_end: &BlockEnd,
    parent_name: &str,
    clobbers: Vec<ScoreHolder>,
    func_starts: &FuncStarts,
    globals: &GlobalTable,
    tys: &Types,
    counter: &mut TempCounter,
) -> (r: (Vec<Command>, BlockExit))
    requires
        end_ok(end_view(*block_end), globals.addrs@, *tys, old(counter).next as nat),
    ensures
        end_exit_v(
            end_view(*block_end),
            parent_name@,
            holder_views(clobbers@),
            func_starts@,
            globals.addrs@,
            *tys,
            old(counter).next as nat,
        ) == (commands_view(r.0@), r.1@, final(counter).next as nat),
{
    match block_end {
        BlockEnd::StaticCall(marker) => {
            let k = CALL_PREFIX.unicode_len();
            let n = marker.as_str().unicode_len();
            let callee = marker.as_str().substring_char(k, n);
            let cmds: Vec<Command> = Vec::new();
            assert(commands_view(cmds@) =~= Seq::<CommandV>::empty());
            assert(callee@ =~= callee_of(marker@));
            match func_starts.get(callee) {
                Some(id) => {
                    let edges = vec![(BlockEdge::Always, id.clone())];
                    assert(edges_view(edges@) =~= seq![(BlockEdgeV::Always, func_starts@[callee@])]);
                    (cmds, BlockExit::Edges(edges))
                },
                None => {
                    let mut name = String::from_str("rust:");
                    name.append(callee);
                    proof {
                        reveal_strlit("rust:");
                    }
                    (cmds, BlockExit::Call(FunctionId { name, sub: 0 }))
                },
            }
        },
        BlockEnd::DynCall(h) => {
            let c0 = assign(temp_fn_ptr(), h.clone());
            let cmds = vec![c0];
            assert(commands_view(cmds@) =~= seq![c0@]);
            (cmds, BlockExit::Call(FunctionId::new("rust:__langcraft_call")))
        },
        BlockEnd::Normal(t) => compile_terminator(parent_name, t, clobbers, globals, tys, counter),
    }
}

/// The commands that hand control to the next block.
fn handoff(exit: &BlockExit) -> (r: Vec<Command>)
    ensures
        commands_view(r@) == handoff_v(exit@),
{
    let ghost xv = exit@;
    let under = count_vs_limit(Relation::LessThan);
    let over = count_vs_limit(Relation::GreaterThanEq);
    let ghost uv = under@;
    let ghost ov = over@;
    let ghost at_next = SubCmdV::At { target: next_block_v() };
    let mut cmds: Vec<Command> = Vec::new();
    match exit {
        BlockExit::Edges(es) => {
            let ghost ev = edges_view(es@);
            let mut i: usize = 0;
            while i < es.len()
                invariant
                    i <= es@.len(),
                    ev == edges_view(es@),
                    uv == under_limit_v(),
                    at_next == (SubCmdV::At { target: next_block_v() }),
                    commands_view(cmds@) == Seq::new(
                        i as nat,
                        |j: int|
                            exec_v(
                                seq![uv, at_next] + edge_conds_v(ev[j].0),
                                set_command_v("~ ~ ~"@, ev[j].1),
                            ),
                    ),
                decreases es.len() - i,
            {
                let head = vec![count_vs_limit(Relation::LessThan), ExecuteSubCmd::At { target: next_block() }];
                assert(head@.map_values(|s: ExecuteSubCmd| s@) =~= seq![uv, at_next]);
                let subs = with_edge(head, es[i].0.duplicate());
                let c = exec_with(subs, set_command("~ ~ ~", es[i].1.clone()));
                let ghost before = commands_view(cmds@);
                cmds.push(c);
                assert(commands_view(cmds@) =~= before.push(c@));
                assert(commands_view(cmds@) =~= Seq::new(
                    (i + 1) as nat,
                    |j: int|
                        exec_v(
                            seq![uv, at_next] + edge_conds_v(ev[j].0),
                            set_command_v("~ ~ ~"@, ev[j].1),
                        ),
                ));
                i = i + 1;
            }
        },
        BlockExit::Call(id) => {
            let subs = vec![count_vs_limit(Relation::LessThan), ExecuteSubCmd::At { target: next_block() }];
            assert(subs@.map_values(|s: ExecuteSubCmd| s@) =~= seq![uv, at_next]);
            let c = exec_with(subs, Command::FuncCall(FuncCall { id: id.clone() }));
            cmds.push(c);
            assert(commands_view(cmds@) =~= seq![c@]);
        },
    }
    let ghost next_part = commands_view(cmds@);
    let subs = vec![count_vs_limit(Relation::LessThan)];
    assert(subs@.map_values(|s: ExecuteSubCmd| s@) =~= seq![uv]);
    let tp = exec_with(subs, Command::Teleport(Teleport { target: next_block(), pos: String::from_str("~ ~ ~") }));
    cmds.push(tp);
    assert(commands_view(cmds@) =~= next_part.push(tp@));
    let ghost head2 = commands_view(cmds@);
    let mut resume: Vec<Command> = Vec::new();
    match exit {
        BlockExit::Edges(es) => {
            let ghost ev = edges_view(es@);
            let mut i: usize = 0;
            while i < es.len()
                invariant
                    i <= es@.len(),
                    ev == edges_view(es@),
                    ov == over_limit_v(),
                    commands_view(resume@) == Seq::new(
                        i as nat,
                        |j: int|
                            exec_v(seq![ov] + edge_conds_v(ev[j].0), set_command_v("-2 1 1"@, ev[j].1)),
                    ),
                decreases es.len() - i,
            {
                let head = vec![count_vs_limit(Relation::GreaterThanEq)];
                assert(head@.map_values(|s: ExecuteSubCmd| s@) =~= seq![ov]);
                let subs = with_edge(head, es[i].0.duplicate());
                let c = exec_with(subs, set_command("-2 1 1", es[i].1.clone()));
                let ghost before = commands_view(resume@);
                resume.push(c);
                assert(commands_view(resume@) =~= before.push(c@));
                assert(commands_view(resume@) =~= Seq::new(
                    (i + 1) as nat,
                    |j: int|
                        exec_v(seq![ov] + edge_conds_v(ev[j].0), set_command_v("-2 1 1"@, ev[j].1)),
                ));
                i = i + 1;
            }
        },
        BlockExit::Call(id) => {
            let subs = vec![
                count_vs_limit(Relation::GreaterThanEq),
                ExecuteSubCmd::Positioned { pos: String::from_str("-2 1 1") },
            ];
            assert(subs@.map_values(|s: ExecuteSubCmd| s@) =~= seq![
                ov,
                SubCmdV::Positioned { pos: "-2 1 1"@ },
            ]);
            let c = exec_with(subs, Command::FuncCall(FuncCall { id: id.clone() }));
            resume.push(c);
            assert(commands_view(resume@) =~= seq![c@]);
        },
    }
    let ghost rv = commands_view(resume@);
    cmds.append(&mut resume);
    assert(commands_view(cmds@) =~= head2 + rv);
    let ghost head3 = commands_view(cmds@);
    let s0 = vec![count_vs_limit(Relation::GreaterThanEq), ExecuteSubCmd::At { target: next_block() }];
    assert(s0@.map_values(|s: ExecuteSubCmd| s@) =~= seq![ov, at_next]);
    let c0 = exec_with(s0, place("~ ~ ~", "minecraft:air"));
    let s1 = vec![count_vs_limit(Relation::GreaterThanEq)];
    assert(s1@.map_values(|s: ExecuteSubCmd| s@) =~= seq![ov]);
    let c1 = exec_with(s1, place("-2 1 0", "minecraft:redstone_block"));
    let s2 = vec![count_vs_limit(Relation::GreaterThanEq)];
    assert(s2@.map_values(|s: ExecuteSubCmd| s@) =~= seq![ov]);
    let c2 = exec_with(s2, assign_lit(cmd_count(), 0));
    let mut tail = vec![c0, c1, c2];
    assert(commands_view(tail@) =~= seq![c0@, c1@, c2@]);
    cmds.append(&mut tail);
    assert(commands_view(cmds@) =~= head3 + seq![c0@, c1@, c2@]);
    assert(commands_view(cmds@) =~= handoff_v(xv));
    cmds
}

/// Compiles the end of a block of `body_cmds` commands of the function
/// named `parent_name`: what the block end runs, then the hand-off to the
/// next block within the tick's command budget, or, where control goes
/// nowhere, the block and the clock cleared.
pub fn compile_block_end(
    block_end: &BlockEnd,
    body_cmds: usize,
    parent_name: &str,
    clobbers: Vec<ScoreHolder>,
    func_starts: &FuncStarts,
    globals: &GlobalTable,
    tys: &Types,
    counter: &mut TempCounter,
) -> (r: Vec<Command>)
    requires
        end_ok(end_view(*block_end), globals.addrs@, *tys, old(counter).next as nat),
        (body_cmds as i32) + 10 <= i32::MAX,
    ensures
        (commands_view(r@), final(counter).next as nat) == block_end_v(
            end_view(*block_end),
            body_cmds as nat,
            parent_name@,
            holder_views(clobbers@),
            func_starts@,
            globals.addrs@,
            *tys,
            old(counter).next as nat,
        ),
{
    let (mut cmds, exit) = end_exit(block_end, parent_name, clobbers, func_starts, globals, tys, counter);
    let ghost head = commands_view(cmds@);
    let no_edges = match &exit {
        BlockExit::Edges(es) => es.len() == 0,
        BlockExit::Call(_) => false,
    };
    if no_edges {
        let c0 = place("~ ~ ~", "minecraft:air");
        let c1 = place("-2 0 0", "minecraft:air");
        let mut tail = vec![c0, c1];
        assert(commands_view(tail@) =~= seq![c0@, c1@]);
        cmds.append(&mut tail);
        assert(commands_view(cmds@) =~= head + seq![c0@, c1@]);
        return cmds;
    }
    proof {
        crate::registers::lemma_op_symbols();
    }
    let c0 = make_op_lit(cmd_count(), "+=", body_cmds as i32 + 10);
    cmds.push(c0);
    let mut rest = handoff(&exit);
    let ghost rv = commands_view(rest@);
    cmds.append(&mut rest);
    assert(commands_view(cmds@) =~= head + seq![c0@] + rv);
    cmds
}

// ----------------------------------------------------------------------
// Finishing blocks
// ----------------------------------------------------------------------

/// A parameter of a function.
pub struct Parameter {
    pub name: LocalName,
    pub ty: IrType,
}

/// What a block needs to know of its function: its name, its parameters,
/// and whether it takes further arguments through the argument pointer.
pub struct FunctionSig {
    pub name: String,
    pub parameters: Vec<Parameter>,
    pub is_var_arg: bool,
}

/// A block of a function before its end is compiled: whether it starts
/// the function (and so saves registers and takes the arguments), its
/// commands so far, how it ends, and its function.
pub struct AbstractBlock<'a> {
    pub needs_prolog: bool,
    pub body: Function,
    pub term: BlockEnd,
    pub parent: &'a FunctionSig,
}

/// The holders of the words of the first `k` parameters.
pub open spec fn param_holders(ps: Seq<Parameter>, k: nat, tys: Types) -> Seq<Seq<char>>
    decreases k,
{
    if k == 0 || k > ps.len() {
        Seq::empty()
    } else {
        param_holders(ps, (k - 1) as nat, tys) + local_words(
            ps[k - 1].name@,
            type_layout_spec(ps[k - 1].ty, tys).unwrap().size as nat,
        )
    }
}

/// The commands that take the first `k` arguments: from the parameter
/// registers, or, for a function with variable arguments, one word after
/// another from where the argument pointer points.
pub open spec fn arg_moves(ps: Seq<Parameter>, k: nat, var_arg: bool, tys: Types) -> Seq<CommandV>
    decreases k,
{
    if k == 0 || k > ps.len() {
        Seq::empty()
    } else {
        let words = local_words(
            ps[k - 1].name@,
            type_layout_spec(ps[k - 1].ty, tys).unwrap().size as nat,
        );
        arg_moves(ps, (k - 1) as nat, var_arg, tys) + if var_arg {
            Seq::new(4 * words.len(), |i: int| var_arg_cmd(words[i / 4], i % 4))
        } else {
            Seq::new(words.len(), |w: int| assign_v(words[w], param_name((k - 1) as nat, w as nat)))
        }
    }
}

/// Command `j` of the four that read one word of a variable argument into
/// `h`.
pub open spec fn var_arg_cmd(h: Seq<char>, j: int) -> CommandV {
    if j == 0 {
        assign_v("%ptr"@, "%argptr"@)
    } else if j == 1 {
        call_v("intrinsic:setptr"@)
    } else if j == 2 {
        read_ptr_v(h)
    } else {
        add_v("%argptr"@, 4)
    }
}

/// The registers a block saves and restores: those its function clobbers
/// and the words of its parameters, in the order of their names.
pub open spec fn block_clobbers(func_clobbers: Seq<Seq<char>>, ps: Seq<Parameter>, tys: Types) -> Seq<
    Seq<char>,
> {
    sorted_names(func_clobbers.to_set() + param_holders(ps, ps.len(), tys).to_set())
}

/// The commands that start a function: the registers saved, then the
/// arguments taken.
pub open spec fn prolog_v(clobbers: Seq<Seq<char>>, sig: FunctionSig, tys: Types) -> Seq<CommandV> {
    pushes(saved(clobbers)) + seq![assign_v("%stackbaseptr"@, "%stackptr"@)] + arg_moves(
        sig.parameters@,
        sig.parameters@.len(),
        sig.is_var_arg,
        tys,
    )
}

/// A block of commands before its end is compiled, as the contracts see
/// it.
pub struct BlockV {
    pub needs_prolog: bool,
    pub body: FunctionV,
    pub end: EndV,
}

/// The view of a block of commands.
pub open spec fn block_view(b: AbstractBlock) -> BlockV {
    BlockV { needs_prolog: b.needs_prolog, body: b.body@, end: end_view(b.term) }
}

/// The finished block of `b`, a block of the function `parent`, and the
/// counter after: the prolog where the block starts its function, its
/// commands, and the compiled block end.
pub open spec fn reify_block_v(
    b: BlockV,
    parent: FunctionSig,
    func_clobbers: Seq<Seq<char>>,
    starts: Map<Seq<char>, FunctionIdV>,
    g: Seq<(LocalName, u32)>,
    tys: Types,
    n: nat,
) -> (FunctionV, nat) {
    let c = block_clobbers(func_clobbers, parent.parameters@, tys);
    let body = if b.needs_prolog {
        prolog_v(c, parent, tys)
    } else {
        Seq::<CommandV>::empty()
    } + b.body.cmds;
    let e = block_end_v(b.end, body.len(), parent.name@, c, starts, g, tys, n);
    (FunctionV { id: b.body.id, cmds: body + e.0 }, e.1)
}

/// Whether the block `b` of the function `parent` can be finished: its
/// function's registers are in order, its parameters have layouts, and its
/// end compiles.
pub open spec fn reify_block_ok(
    b: BlockV,
    parent: FunctionSig,
    func_clobbers: Seq<Seq<char>>,
    g: Seq<(LocalName, u32)>,
    tys: Types,
    n: nat,
) -> bool {
    let c = block_clobbers(func_clobbers, parent.parameters@, tys);
    let body = if b.needs_prolog {
        prolog_v(c, parent, tys)
    } else {
        Seq::<CommandV>::empty()
    } + b.body.cmds;
    &&& strictly_sorted(func_clobbers)
    &&& forall|i: int|
        0 <= i < parent.parameters@.len() ==> layout_fits(
            (#[trigger] parent.parameters@[i]).ty,
            tys.named@,
            tys.named@.len(),
        )
    &&& body.len() <= usize::MAX
    &&& (body.len() as i32) + 10 <= i32::MAX
    &&& end_ok(b.end, g, tys, n)
}

/// The finished block and the counter after.
pub open spec fn reify_v(
    b: AbstractBlock,
    func_clobbers: Seq<Seq<char>>,
    starts: Map<Seq<char>, FunctionIdV>,
    g: Seq<(LocalName, u32)>,
    tys: Types,
    n: nat,
) -> (FunctionV, nat) {
    reify_block_v(block_view(b), *b.parent, func_clobbers, starts, g, tys, n)
}

/// Whether a block can be finished.
pub open spec fn reify_ok(
    b: AbstractBlock,
    func_clobbers: Seq<Seq<char>>,
    g: Seq<(LocalName, u32)>,
    tys: Types,
    n: nat,
) -> bool {
    reify_block_ok(block_view(b), *b.parent, func_clobbers, g, tys, n)
}

proof fn lemma_push_to_set(s: Seq<Seq<char>>, x: Seq<char>)
    ensures
        s.push(x).to_set() =~= s.to_set().insert(x),
{
    assert forall|y: Seq<char>| s.push(x).to_set().contains(y) implies s.to_set().insert(x).contains(
        y,
    ) by {
        let a = choose|a: int| 0 <= a < s.push(x).len() && s.push(x)[a] == y;
        if a < s.len() {
            assert(s[a] == y);
        }
    }
    assert forall|y: Seq<char>| s.to_set().insert(x).contains(y) implies s.push(x).to_set().contains(
        y,
    ) by {
        if y == x {
            assert(s.push(x)[s.len() as int] == y);
        } else {
            let a = choose|a: int| 0 <= a < s.len() && s[a] == y;
            assert(s.push(x)[a] == y);
        }
    }
}

/// The words of the parameters added to the function's registers.
fn clobber_set(func_clobbers: &Vec<ScoreHolder>, ps: &Vec<Parameter>, tys: &Types) -> (r: Vec<
    ScoreHolder,
>)
    requires
        strictly_sorted(holder_views(func_clobbers@)),
        forall|i: int|
            0 <= i < ps@.len() ==> layout_fits((#[trigger] ps@[i]).ty, tys.named@, tys.named@.len()),
    ensures
        holder_views(r@) == block_clobbers(holder_views(func_clobbers@), ps@, *tys),
{
    let ghost fv = holder_views(func_clobbers@);
    let mut set: Vec<ScoreHolder> = Vec::new();
    let mut i: usize = 0;
    while i < func_clobbers.len()
        invariant
            i <= func_clobbers@.len(),
            fv == holder_views(func_clobbers@),
            holder_views(set@) == fv.take(i as int),
        decreases func_clobbers.len() - i,
    {
        let h = func_clobbers[i].clone();
        let ghost prev = holder_views(set@);
        set.push(h);
        assert(holder_views(set@) =~= prev.push(h@));
        assert(fv.take(i + 1) =~= fv.take(i as int).push(fv[i as int]));
        i = i + 1;
    }
    assert(fv.take(fv.len() as int) =~= fv);
    let mut k: usize = 0;
    while k < ps.len()
        invariant
            k <= ps@.len(),
            forall|i: int|
                0 <= i < ps@.len() ==> layout_fits((#[trigger] ps@[i]).ty, tys.named@, tys.named@.len()),
            strictly_sorted(holder_views(set@)),
            holder_views(set@).to_set() == fv.to_set() + param_holders(ps@, k as nat, *tys).to_set(),
        decreases ps.len() - k,
    {
        let l = type_layout(&ps[k].ty, tys);
        let words = ScoreHolder::from_local_name(ps[k].name.duplicate(), l.size);
        let ghost wv = holder_views(words@);
        assert(wv =~= local_words(ps@[k as int].name@, l.size as nat));
        let ghost start = holder_views(set@).to_set();
        let mut j: usize = 0;
        while j < words.len()
            invariant
                j <= words@.len(),
                wv == holder_views(words@),
                strictly_sorted(holder_views(set@)),
                holder_views(set@).to_set() == start + wv.take(j as int).to_set(),
            decreases words.len() - j,
        {
            let ghost before = holder_views(set@).to_set();
            insert_holder(&mut set, words[j].clone());
            assert(wv.take(j + 1).to_set() =~= wv.take(j as int).to_set().insert(wv[j as int])) by {
                assert(wv.take(j + 1) =~= wv.take(j as int).push(wv[j as int]));
                lemma_push_to_set(wv.take(j as int), wv[j as int]);
            }
            assert(holder_views(set@).to_set() =~= start + wv.take(j + 1).to_set());
            j = j + 1;
        }
        assert(wv.take(wv.len() as int) =~= wv);
        proof {
            let prev = param_holders(ps@, k as nat, *tys);
            assert(param_holders(ps@, (k + 1) as nat, *tys) == prev + wv);
            assert((prev + wv).to_set() =~= prev.to_set() + wv.to_set()) by {
                assert forall|x: Seq<char>| (prev + wv).to_set().contains(x) implies (prev.to_set()
                    + wv.to_set()).contains(x) by {
                    let a = choose|a: int| 0 <= a < (prev + wv).len() && (prev + wv)[a] == x;
                    if a < prev.len() {
                        assert(prev[a] == x);
                    } else {
                        assert(wv[a - prev.len()] == x);
                    }
                }
                assert forall|x: Seq<char>| (prev.to_set() + wv.to_set()).contains(x) implies (prev
                    + wv).to_set().contains(x) by {
                    if prev.to_set().contains(x) {
                        let a = choose|a: int| 0 <= a < prev.len() && prev[a] == x;
                        assert((prev + wv)[a] == x);
                    } else {
                        let a = choose|a: int| 0 <= a < wv.len() && wv[a] == x;
                        assert((prev + wv)[prev.len() + a] == x);
                    }
                }
            }
            assert(holder_views(set@).to_set() =~= fv.to_set() + param_holders(
                ps@,
                (k + 1) as nat,
                *tys,
            ).to_set());
        }
        k = k + 1;
    }
    proof {
        let s = fv.to_set() + param_holders(ps@, ps@.len(), *tys).to_set();
        assert(strictly_sorted(holder_views(set@)) && holder_views(set@).to_set() == s);
        let c = sorted_names(s);
        lemma_sorted_unique(holder_views(set@), c);
    }
    set
}

/// A copy of a list of holders.
fn copy_holders(hs: &Vec<ScoreHolder>) -> (r: Vec<ScoreHolder>)
    ensures
        holder_views(r@) == holder_views(hs@),
{
    let mut out: Vec<ScoreHolder> = Vec::new();
    let mut i: usize = 0;
    while i < hs.len()
        invariant
            i <= hs@.len(),
            holder_views(out@) == holder_views(hs@).take(i as int),
        decreases hs.len() - i,
    {
        let h = hs[i].clone();
        let ghost prev = holder_views(out@);
        out.push(h);
        assert(holder_views(out@) =~= prev.push(h@));
        assert(holder_views(hs@).take(i + 1) =~= holder_views(hs@).take(i as int).push(
            holder_views(hs@)[i as int],
        ));
        i = i + 1;
    }
    assert(holder_views(hs@).take(hs@.len() as int) =~= holder_views(hs@));
    out
}

/// The commands that take the arguments of the function `sig`.
fn take_arguments(sig: &FunctionSig, tys: &Types) -> (r: Vec<Command>)
    requires
        forall|i: int|
            0 <= i < sig.parameters@.len() ==> layout_fits(
                (#[trigger] sig.parameters@[i]).ty,
                tys.named@,
                tys.named@.len(),
            ),
    ensures
        commands_view(r@) == arg_moves(sig.parameters@, sig.parameters@.len(), sig.is_var_arg, *tys),
{
    let ghost ps = sig.parameters@;
    let mut cmds: Vec<Command> = Vec::new();
    let mut k: usize = 0;
    while k < sig.parameters.len()
        invariant
            k <= ps.len(),
            ps == sig.parameters@,
            forall|i: int| 0 <= i < ps.len() ==> layout_fits((#[trigger] ps[i]).ty, tys.named@, tys.named@.len()),
            commands_view(cmds@) == arg_moves(ps, k as nat, sig.is_var_arg, *tys),
        decreases ps.len() - k,
    {
        let l = type_layout(&sig.parameters[k].ty, tys);
        let words = ScoreHolder::from_local_name(sig.parameters[k].name.duplicate(), l.size);
        let ghost wv = holder_views(words@);
        assert(wv =~= local_words(ps[k as int].name@, l.size as nat));
        let ghost head = commands_view(cmds@);
        let mut j: usize = 0;
        if sig.is_var_arg {
            while j < words.len()
                invariant
                    j <= words@.len(),
                    wv == holder_views(words@),
                    commands_view(cmds@) == head + Seq::new(4 * j as nat, |i: int| var_arg_cmd(wv[i / 4], i % 4)),
                decreases words.len() - j,
            {
                let c0 = assign(ptr(), argptr());
                let c1 = call("intrinsic:setptr");
                let c2 = read_ptr(words[j].clone());
                let c3 = add_lit(argptr(), 4);
                let mut block = vec![c0, c1, c2, c3];
                let ghost bv = seq![c0@, c1@, c2@, c3@];
                assert(commands_view(block@) =~= bv);
                let ghost before = commands_view(cmds@);
                cmds.append(&mut block);
                assert(commands_view(cmds@) =~= before + bv);
                let ghost s_old = Seq::new(4 * j as nat, |i: int| var_arg_cmd(wv[i / 4], i % 4));
                let ghost s_new = Seq::new(4 * (j + 1) as nat, |i: int| var_arg_cmd(wv[i / 4], i % 4));
                assert(s_new =~= s_old + bv) by {
                    assert forall|i: int| 0 <= i < s_new.len() implies s_new[i] == (s_old + bv)[i] by {
                        if i >= 4 * j {
                            assert(i / 4 == j && i % 4 == i - 4 * j) by (nonlinear_arith)
                                requires
                                    4 * j <= i < 4 * j + 4,
                            ;
                        } else {
                            assert(i / 4 < j) by (nonlinear_arith)
                                requires
                                    0 <= i < 4 * j,
                            ;
                        }
                    }
                }
                j = j + 1;
            }
            assert(commands_view(cmds@) =~= arg_moves(ps, (k + 1) as nat, sig.is_var_arg, *tys));
        } else {
            while j < words.len()
                invariant
                    j <= words@.len(),
                    wv == holder_views(words@),
                    commands_view(cmds@) == head + Seq::new(
                        j as nat,
                        |w: int| assign_v(wv[w], param_name(k as nat, w as nat)),
                    ),
                decreases words.len() - j,
            {
                let c = assign(words[j].clone(), param(k, j));
                let ghost before = commands_view(cmds@);
                cmds.push(c);
                assert(commands_view(cmds@) =~= before.push(c@));
                assert(commands_view(cmds@) =~= head + Seq::new(
                    (j + 1) as nat,
                    |w: int| assign_v(wv[w], param_name(k as nat, w as nat)),
                ));
                j = j + 1;
            }
            assert(commands_view(cmds@) =~= arg_moves(ps, (k + 1) as nat, sig.is_var_arg, *tys));
        }
        k = k + 1;
    }
    cmds
}

/// Finishes a block: the prolog where the block starts its function,
/// then its commands, then its compiled end, where the registers it saves
/// and restores are those its function clobbers (`func_clobbers`, in the
/// order of their names) and the words of its parameters.
pub fn reify_block(
    block: AbstractBlock,
    func_clobbers: &Vec<ScoreHolder>,
    func_starts: &FuncStarts,
    globals: &GlobalTable,
    tys: &Types,
    counter: &mut TempCounter,
) -> (r: Function)
    requires
        reify_ok(block, holder_views(func_clobbers@), globals.addrs@, *tys, old(counter).next as nat),
    ensures
        (r@, final(counter).next as nat) == reify_v(
            block,
            holder_views(func_clobbers@),
            func_starts@,
            globals.addrs@,
            *tys,
            old(counter).next as nat,
        ),
{
    let ghost b = block;
    let clobbers = clobber_set(func_clobbers, &block.parent.parameters, tys);
    let AbstractBlock { needs_prolog, body, term, parent } = block;
    let mut cmds: Vec<Command> = Vec::new();
    if needs_prolog {
        cmds = save_regs(copy_holders(&clobbers));
        let ghost head = commands_view(cmds@);
        let mut moves = take_arguments(parent, tys);
        let ghost mv = commands_view(moves@);
        cmds.append(&mut moves);
        assert(commands_view(cmds@) =~= head + mv);
    }
    let Function { id, cmds: mut body_cmds } = body;
    let ghost pv = commands_view(cmds@);
    let ghost bv = commands_view(body_cmds@);
    cmds.append(&mut body_cmds);
    assert(commands_view(cmds@) =~= pv + bv);
    let n = cmds.len();
    let mut end = compile_block_end(&term, n, parent.name.as_str(), clobbers, func_starts, globals, tys, counter);
    let ghost ev = commands_view(end@);
    let ghost before = commands_view(cmds@);
    cmds.append(&mut end);
    assert(commands_view(cmds@) =~= before + ev);
    Function { id, cmds }
}

} // verus!
