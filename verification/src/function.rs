//! Splitting the basic blocks of a function into blocks of commands: a
//! call that returns to a separate block ends the current one, and each
//! basic block records itself in `%phi` before its terminator runs.
use vstd::prelude::*;
use crate::blocks::{
    AbstractBlock, BlockEnd, BlockV, EndV, FunctionSig, Terminator, block_id, block_id_v, block_view, end_view,
};
use crate::cir::{
    Command, CommandV, CondKindV, CondV, Execute, ExecuteCondKind, ExecuteCondition,
    ExecuteStoreKind, ExecuteSubCmd, Function, FunctionId, FunctionIdV, FunctionV, ScoreGet,
    ScoreHolder, StoreKindV, SubCmdV, Target, TargetV, commands_view, valid_holder,
};
use crate::constants::GlobalTable;
use crate::frame::holder_views;
use crate::holders::{insert_holder, lemma_sorted_unique, sorted_names, strictly_sorted};
use crate::instrs::{Instruction, compile_instr, instr_ok, instr_v};
use crate::layout::Types;
use crate::locals::{LocalName, LocalNameV};
use crate::memory::TempCounter;
use crate::program::BuildOptions;
use crate::registers::{assign_lit, phi_holder, print_entry, print_entry_v, set_v};
use crate::render::{id_text, id_to_text};
use crate::text::{drop_first_chars, has_prefix, join, starts_with, str_eq};

verus! {

/// A basic block of the source program: its name, its instructions and its
/// terminator.
pub struct BasicBlock {
    pub name: LocalName,
    pub instrs: Vec<Instruction>,
    pub term: Terminator,
}

/// A function of the source program: its signature and its basic blocks.
pub struct IrFunction {
    pub sig: FunctionSig,
    pub basic_blocks: Vec<BasicBlock>,
}

/// The views of blocks of commands.
pub open spec fn block_views(bs: Seq<AbstractBlock>) -> Seq<BlockV> {
    bs.map_values(|b: AbstractBlock| block_view(b))
}

// ----------------------------------------------------------------------
// The holders a command names
// ----------------------------------------------------------------------

/// The holder a target names, if it names one.
pub open spec fn target_holders(t: TargetV) -> Seq<Seq<char>> {
    match t {
        TargetV::Uuid(h) => seq![h],
        _ => Seq::empty(),
    }
}

/// The holders a sub-command of `execute` names: those of a score
/// condition and of a `store ... score` target.
pub open spec fn sub_holders(s: SubCmdV) -> Seq<Seq<char>> {
    match s {
        SubCmdV::Condition { cond, .. } => match cond {
            CondV::Score { target, kind, .. } => target_holders(target) + match kind {
                CondKindV::Relation { source, .. } => target_holders(source),
                CondKindV::Matches(_) => Seq::empty(),
            },
            _ => Seq::empty(),
        },
        SubCmdV::Store { kind, .. } => match kind {
            StoreKindV::Score { target, .. } => target_holders(target),
            _ => Seq::empty(),
        },
        _ => Seq::empty(),
    }
}

/// The holders named by the first `k` sub-commands.
pub open spec fn subs_holders(subs: Seq<SubCmdV>, k: nat) -> Seq<Seq<char>>
    decreases k,
{
    if k == 0 || k > subs.len() {
        Seq::empty()
    } else {
        subs_holders(subs, (k - 1) as nat) + sub_holders(subs[k - 1])
    }
}

/// The score holders a command names: the targets and sources of score
/// commands, and those of the conditions, the score stores and the command
/// of an `execute`. These are the registers a function that runs the
/// command may change, and so saves.
pub open spec fn cmd_holders(c: CommandV) -> Seq<Seq<char>>
    decreases c,
{
    match c {
        CommandV::ScoreOp { target, source, .. } => target_holders(target) + target_holders(source),
        CommandV::ScoreSet { target, .. } => target_holders(target),
        CommandV::ScoreAdd { target, .. } => target_holders(target),
        CommandV::ScoreGet { target, .. } => target_holders(target),
        CommandV::Execute { subcommands, run } => subs_holders(subcommands, subcommands.len())
            + match run {
            Some(b) => cmd_holders(*b),
            None => Seq::empty(),
        },
        _ => Seq::empty(),
    }
}

/// The holders named by the commands `cs`.
pub open spec fn cmds_holders(cs: Seq<CommandV>) -> Set<Seq<char>> {
    Set::new(
        |h: Seq<char>| exists|j: int| 0 <= j < cs.len() && #[trigger] cmd_holders(cs[j]).contains(h),
    )
}

/// The holders named anywhere in the bodies of `bs`: the registers the
/// function made of them uses.
pub open spec fn blocks_holders(bs: Seq<BlockV>) -> Set<Seq<char>> {
    Set::new(
        |h: Seq<char>|
            exists|k: int| 0 <= k < bs.len() && #[trigger] cmds_holders(bs[k].body.cmds).contains(h),
    )
}

proof fn lemma_cmds_holders_push(cs: Seq<CommandV>, c: CommandV)
    ensures
        cmds_holders(cs.push(c)) == cmds_holders(cs) + cmd_holders(c).to_set(),
{
    let ds = cs.push(c);
    assert forall|h: Seq<char>| cmds_holders(ds).contains(h) <==> (cmds_holders(cs) + cmd_holders(
        c,
    ).to_set()).contains(h) by {
        if cmds_holders(ds).contains(h) {
            let j = choose|j: int| 0 <= j < ds.len() && #[trigger] cmd_holders(ds[j]).contains(h);
            if j < cs.len() {
                assert(cmd_holders(cs[j]).contains(h));
            } else {
                assert(cmd_holders(c).contains(h));
            }
        }
        if cmds_holders(cs).contains(h) {
            let j = choose|j: int| 0 <= j < cs.len() && #[trigger] cmd_holders(cs[j]).contains(h);
            assert(ds[j] == cs[j]);
            assert(cmd_holders(ds[j]).contains(h));
        }
        if cmd_holders(c).contains(h) {
            assert(ds[cs.len() as int] == c);
            assert(cmd_holders(ds[cs.len() as int]).contains(h));
        }
    }
    assert(cmds_holders(ds) =~= cmds_holders(cs) + cmd_holders(c).to_set());
}

proof fn lemma_blocks_holders_push(bs: Seq<BlockV>, b: BlockV)
    ensures
        blocks_holders(bs.push(b)) == blocks_holders(bs) + cmds_holders(b.body.cmds),
{
    let ds = bs.push(b);
    assert forall|h: Seq<char>| blocks_holders(ds).contains(h) <==> (blocks_holders(bs) + cmds_holders(
        b.body.cmds,
    )).contains(h) by {
        if blocks_holders(ds).contains(h) {
            let k = choose|k: int| 0 <= k < ds.len() && #[trigger] cmds_holders(ds[k].body.cmds).contains(h);
            if k < bs.len() {
                assert(cmds_holders(bs[k].body.cmds).contains(h));
            }
        }
        if blocks_holders(bs).contains(h) {
            let k = choose|k: int| 0 <= k < bs.len() && #[trigger] cmds_holders(bs[k].body.cmds).contains(h);
            assert(ds[k] == bs[k]);
            assert(cmds_holders(ds[k].body.cmds).contains(h));
        }
        if cmds_holders(b.body.cmds).contains(h) {
            assert(ds[bs.len() as int] == b);
            assert(cmds_holders(ds[bs.len() as int].body.cmds).contains(h));
        }
    }
    assert(blocks_holders(ds) =~= blocks_holders(bs) + cmds_holders(b.body.cmds));
}

/// Whether `set` lists increasing holder names.
pub open spec fn holder_set_ok(set: Seq<ScoreHolder>) -> bool {
    strictly_sorted(holder_views(set))
}

/// The names in a concatenation are those of either part.
pub proof fn lemma_concat_to_set(a: Seq<Seq<char>>, b: Seq<Seq<char>>)
    ensures
        (a + b).to_set() == a.to_set() + b.to_set(),
{
    let ab = a + b;
    assert forall|x: Seq<char>| ab.to_set().contains(x) <==> (a.to_set() + b.to_set()).contains(x) by {
        if ab.to_set().contains(x) {
            let i = choose|i: int| 0 <= i < ab.len() && ab[i] == x;
            if i < a.len() {
                assert(a[i] == x);
            } else {
                assert(b[i - a.len()] == x);
            }
        }
        if a.to_set().contains(x) {
            let i = choose|i: int| 0 <= i < a.len() && a[i] == x;
            assert(ab[i] == x);
        }
        if b.to_set().contains(x) {
            let i = choose|i: int| 0 <= i < b.len() && b[i] == x;
            assert(ab[a.len() + i] == x);
        }
    }
    assert(ab.to_set() =~= a.to_set() + b.to_set());
}

proof fn lemma_single_to_set(h: Seq<char>)
    ensures
        seq![h].to_set() == set![h],
{
    assert(seq![h][0] == h);
    assert(seq![h].to_set() =~= set![h]);
}

fn add_target(set: &mut Vec<ScoreHolder>, t: &Target)
    requires
        holder_set_ok(old(set)@),
    ensures
        holder_set_ok(final(set)@),
        holder_views(final(set)@).to_set() == holder_views(old(set)@).to_set() + target_holders(
            t@,
        ).to_set(),
{
    match t {
        Target::Uuid(h) => {
            insert_holder(set, h.clone());
            proof {
                lemma_single_to_set(h@);
            }
            assert(holder_views(old(set)@).to_set().insert(h@) =~= holder_views(old(set)@).to_set()
                + set![h@]);
        },
        Target::Selector(_) => {
            assert(target_holders(t@).to_set() =~= Set::<Seq<char>>::empty());
            assert(holder_views(old(set)@).to_set() + Set::<Seq<char>>::empty() =~= holder_views(
                old(set)@,
            ).to_set());
        },
    }
}

fn add_sub(set: &mut Vec<ScoreHolder>, s: &ExecuteSubCmd)
    requires
        holder_set_ok(old(set)@),
    ensures
        holder_set_ok(final(set)@),
        holder_views(final(set)@).to_set() == holder_views(old(set)@).to_set() + sub_holders(
            s@,
        ).to_set(),
{
    let ghost start = holder_views(set@).to_set();
    match s {
        ExecuteSubCmd::Condition { cond, .. } => match cond {
            ExecuteCondition::Score { target, kind, .. } => {
                add_target(set, target);
                match kind {
                    ExecuteCondKind::Relation { source, .. } => {
                        add_target(set, source);
                        proof {
                            lemma_concat_to_set(target_holders(target@), target_holders(source@));
                        }
                        assert(sub_holders(s@).to_set() =~= target_holders(target@).to_set()
                            + target_holders(source@).to_set());
                    },
                    ExecuteCondKind::Matches(_) => {
                        assert(sub_holders(s@) =~= target_holders(target@));
                        assert(holder_views(set@).to_set() =~= start + sub_holders(s@).to_set());
                    },
                }
                assert(holder_views(set@).to_set() =~= start + sub_holders(s@).to_set());
            },
            _ => {
                assert(sub_holders(s@).to_set() =~= Set::<Seq<char>>::empty());
                assert(start + sub_holders(s@).to_set() =~= start);
            },
        },
        ExecuteSubCmd::Store { kind, .. } => match kind {
            ExecuteStoreKind::Score { target, .. } => {
                add_target(set, target);
            },
            _ => {
                assert(sub_holders(s@).to_set() =~= Set::<Seq<char>>::empty());
                assert(start + sub_holders(s@).to_set() =~= start);
            },
        },
        _ => {
            assert(sub_holders(s@).to_set() =~= Set::<Seq<char>>::empty());
            assert(start + sub_holders(s@).to_set() =~= start);
        },
    }
}

/// Adds the holders `c` names to the increasing list `set`.
fn add_cmd_holders(set: &mut Vec<ScoreHolder>, c: &Command)
    requires
        holder_set_ok(old(set)@),
    ensures
        holder_set_ok(final(set)@),
        holder_views(final(set)@).to_set() == holder_views(old(set)@).to_set() + cmd_holders(
            c@,
        ).to_set(),
    decreases c,
{
    let ghost start = holder_views(set@).to_set();
    match c {
        Command::ScoreOp(o) => {
            add_target(set, &o.target);
            add_target(set, &o.source);
            proof {
                lemma_concat_to_set(target_holders(o.target@), target_holders(o.source@));
            }
            assert(cmd_holders(c@).to_set() =~= target_holders(o.target@).to_set() + target_holders(
                o.source@,
            ).to_set());
            assert(holder_views(set@).to_set() =~= start + cmd_holders(c@).to_set());
        },
        Command::ScoreSet(o) => {
            add_target(set, &o.target);
        },
        Command::ScoreAdd(o) => {
            add_target(set, &o.target);
        },
        Command::ScoreGet(o) => {
            add_target(set, &o.target);
        },
        Command::Execute(e) => {
            let ghost subs = e.subcommands@.map_values(|s: ExecuteSubCmd| s@);
            let mut i: usize = 0;
            while i < e.subcommands.len()
                invariant
                    i <= e.subcommands@.len(),
                    subs == e.subcommands@.map_values(|s: ExecuteSubCmd| s@),
                    holder_set_ok(set@),
                    holder_views(set@).to_set() == start + subs_holders(subs, i as nat).to_set(),
                decreases e.subcommands.len() - i,
            {
                add_sub(set, &e.subcommands[i]);
                assert(subs_holders(subs, (i + 1) as nat) == subs_holders(subs, i as nat) + sub_holders(
                    subs[i as int],
                ));
                proof {
                    lemma_concat_to_set(subs_holders(subs, i as nat), sub_holders(subs[i as int]));
                }
                assert(holder_views(set@).to_set() =~= start + subs_holders(subs, (i + 1) as nat).to_set());
                i = i + 1;
            }
            let ghost mid = holder_views(set@).to_set();
            match &e.run {
                Some(b) => {
                    add_cmd_holders(set, b);
                    assert(cmd_holders(c@) == subs_holders(subs, subs.len()) + cmd_holders(b@));
                    proof {
                        lemma_concat_to_set(subs_holders(subs, subs.len()), cmd_holders(b@));
                    }
                    assert(holder_views(set@).to_set() =~= start + cmd_holders(c@).to_set());
                },
                None => {
                    assert(cmd_holders(c@) =~= subs_holders(subs, subs.len()));
                },
            }
        },
        _ => {
            assert(cmd_holders(c@).to_set() =~= Set::<Seq<char>>::empty());
            assert(start + cmd_holders(c@).to_set() =~= start);
        },
    }
}

// ----------------------------------------------------------------------
// Return addresses named after their block
// ----------------------------------------------------------------------

/// The holder that carries the return address pushed before a call.
pub open spec fn fixup_name() -> Seq<char> {
    "%%fixup_return_addr"@
}

/// The holder of the return address pushed in the block `id`.
pub open spec fn block_fixup_name(id: FunctionIdV) -> Seq<char> {
    id_text(id) + fixup_name()
}

/// `c` with a push of the return address renamed after the block `id`, so
/// that linking can tell the blocks' return addresses apart. A name that
/// is not a valid holder is left as it is.
pub open spec fn rename_v(c: CommandV, id: FunctionIdV) -> CommandV {
    match c {
        CommandV::Execute { subcommands, run: Some(b) } => match *b {
            CommandV::ScoreGet { target: TargetV::Uuid(h), target_obj } => if h == fixup_name()
                && valid_holder(block_fixup_name(id)) {
                CommandV::Execute {
                    subcommands,
                    run: Some(
                        Box::new(
                            CommandV::ScoreGet {
                                target: TargetV::Uuid(block_fixup_name(id)),
                                target_obj,
                            },
                        ),
                    ),
                }
            } else {
                c
            },
            _ => c,
        },
        _ => c,
    }
}

/// The block with its return-address pushes renamed.
pub open spec fn rename_block(b: BlockV) -> BlockV {
    BlockV {
        body: FunctionV {
            id: b.body.id,
            cmds: b.body.cmds.map_values(|c: CommandV| rename_v(c, b.body.id)),
        },
        ..b
    }
}

fn is_fixup_target(t: &Target) -> (r: bool)
    ensures
        r == (t@ matches TargetV::Uuid(h) && h == fixup_name()),
{
    match t {
        Target::Uuid(h) => {
            proof {
                reveal_strlit("%%fixup_return_addr");
            }
            str_eq(h.as_str(), "%%fixup_return_addr")
        },
        _ => false,
    }
}

/// Renames a push of the return address in `c` after the block `id`.
fn rename_fixup(c: Command, id: &FunctionId) -> (r: Command)
    ensures
        r@ == rename_v(c@, id@),
{
    let ghost cv = c@;
    proof {
        reveal_with_fuel(crate::cir::command_view, 2);
    }
    match c {
        Command::Execute(e) => {
            let Execute { subcommands, run } = e;
            match run {
                Some(b) => {
                    let inner = *b;
                    match inner {
                        Command::ScoreGet(g) => {
                            if is_fixup_target(&g.target) {
                                let t = id_to_text(id);
                                proof {
                                    reveal_strlit("%%fixup_return_addr");
                                }
                                let name = join(t.as_str(), "%%fixup_return_addr");
                                let ghost nv = name@;
                                assert(nv == block_fixup_name(id@));
                                match ScoreHolder::new(name) {
                                    Ok(h) => {
                                        assert(valid_holder(nv));
                                        let ghost subs = subcommands@.map_values(|s: ExecuteSubCmd| s@);
                                        assert(cv == CommandV::Execute {
                                            subcommands: subs,
                                            run: Some(Box::new(CommandV::ScoreGet { target: g.target@, target_obj: g.target_obj@ })),
                                        });
                                        assert(h@ == nv);
                                        let run = Command::ScoreGet(
                                            ScoreGet { target: Target::Uuid(h), target_obj: g.target_obj },
                                        );
                                        let r = Command::Execute(Execute { subcommands, run: Some(Box::new(run)) });
                                        assert(r@ == rename_v(cv, id@));
                                        r
                                    },
                                    Err(_) => {
                                        assert(!valid_holder(nv));
                                        let r = Command::Execute(
                                            Execute { subcommands, run: Some(Box::new(Command::ScoreGet(g))) },
                                        );
                                        assert(r@ == cv);
                                        r
                                    },
                                }
                            } else {
                                Command::Execute(Execute { subcommands, run: Some(Box::new(Command::ScoreGet(g))) })
                            }
                        },
                        other => Command::Execute(Execute { subcommands, run: Some(Box::new(other)) }),
                    }
                },
                None => Command::Execute(Execute { subcommands, run: None }),
            }
        },
        other => other,
    }
}

// ----------------------------------------------------------------------
// Splitting a basic block
// ----------------------------------------------------------------------

/// The identifier of sub-block `k` of block `block` of the function `func`.
pub open spec fn sub_id(func: Seq<char>, block: LocalNameV, k: nat) -> FunctionIdV {
    FunctionIdV { name: block_id_v(func, block).name, sub: k }
}

/// The commands a block starts with: the announcement of the block when
/// blocks are traced.
pub open spec fn entry_cmds(id: FunctionIdV, trace: bool) -> Seq<CommandV> {
    if trace {
        seq![print_entry_v(id)]
    } else {
        Seq::empty()
    }
}

/// The text of a call marker.
pub open spec fn static_marker() -> Seq<char> {
    "!FIXUPCALL"@
}

/// The text that starts a call through a pointer, before the pointer's
/// holder.
pub open spec fn dyn_marker() -> Seq<char> {
    "!DYNCALL "@
}

/// Whether `c` marks a call that ends a block: a call marker, or a marker
/// of a call through a pointer followed by a holder's name.
pub open spec fn marker_ok(c: CommandV) -> bool {
    c matches CommandV::Comment(t) && (has_prefix(t, static_marker()) || (has_prefix(t, dyn_marker())
        && valid_holder(t.skip(9))))
}

/// How a block that ends with the marker `c` ends.
pub open spec fn marker_end(c: CommandV) -> EndV {
    match c {
        CommandV::Comment(t) => if has_prefix(t, static_marker()) {
            EndV::StaticCall(t)
        } else {
            EndV::DynCall(t.skip(9))
        },
        _ => EndV::DynCall(Seq::empty()),
    }
}

/// Where the splitting of a basic block stands: the finished blocks, the
/// commands of the current one, its number, and the counter.
pub struct SplitV {
    pub done: Seq<BlockV>,
    pub cur: Seq<CommandV>,
    pub k: nat,
    pub n: nat,
}

/// One instruction more: its commands join the current block, or, for a
/// call that returns to a separate block, the current block ends with the
/// call and a new one starts with what follows the call. The first block
/// of the first basic block starts the function.
#[verifier::opaque]
pub open spec fn step_v(
    s: SplitV,
    instr: Instruction,
    func: Seq<char>,
    block: LocalNameV,
    idx: nat,
    trace: bool,
    names: Seq<LocalNameV>,
    g: Seq<(LocalName, u32)>,
    tys: Types,
) -> SplitV {
    let o = instr_v(instr, names, g, tys, s.n);
    match o.1 {
        None => SplitV { done: s.done, cur: s.cur + o.0, k: s.k, n: o.2 },
        Some(after) => SplitV {
            done: s.done.push(
                BlockV {
                    needs_prolog: idx == 0 && s.k == 0,
                    body: FunctionV { id: sub_id(func, block, s.k), cmds: s.cur + o.0.drop_last() },
                    end: marker_end(o.0.last()),
                },
            ),
            cur: entry_cmds(sub_id(func, block, s.k + 1), trace) + after,
            k: s.k + 1,
            n: o.2,
        },
    }
}

/// A step does not look at the blocks already finished.
proof fn lemma_step_shift(
    s: SplitV,
    instr: Instruction,
    func: Seq<char>,
    block: LocalNameV,
    idx: nat,
    trace: bool,
    names: Seq<LocalNameV>,
    g: Seq<(LocalName, u32)>,
    tys: Types,
)
    ensures
        ({
            let st = step_v(SplitV { done: Seq::empty(), ..s }, instr, func, block, idx, trace, names, g, tys);
            &&& step_v(s, instr, func, block, idx, trace, names, g, tys) == SplitV { done: s.done + st.done, ..st }
            &&& s.k <= st.k <= s.k + 1
        }),
{
    reveal(step_v);
    let st = step_v(SplitV { done: Seq::empty(), ..s }, instr, func, block, idx, trace, names, g, tys);
    let full = step_v(s, instr, func, block, idx, trace, names, g, tys);
    assert(full.done =~= s.done + st.done);
}

/// Whether one more instruction can be added: it compiles, and a call
/// that ends the block ends with its marker.
pub open spec fn step_ok(
    s: SplitV,
    instr: Instruction,
    names: Seq<LocalNameV>,
    g: Seq<(LocalName, u32)>,
    tys: Types,
) -> bool {
    let o = instr_v(instr, names, g, tys, s.n);
    &&& instr_ok(instr, names, g, tys, s.n)
    &&& o.1 is Some ==> o.0.len() > 0 && marker_ok(o.0.last())
}

/// The splitting after the first `i` instructions, with the counter at `n`
/// at the start.
pub open spec fn split_v(
    instrs: Seq<Instruction>,
    i: nat,
    func: Seq<char>,
    block: LocalNameV,
    idx: nat,
    trace: bool,
    names: Seq<LocalNameV>,
    g: Seq<(LocalName, u32)>,
    tys: Types,
    n: nat,
) -> SplitV
    decreases i,
{
    if i == 0 || i > instrs.len() {
        SplitV { done: Seq::empty(), cur: entry_cmds(sub_id(func, block, 0), trace), k: 0, n }
    } else {
        step_v(
            split_v(instrs, (i - 1) as nat, func, block, idx, trace, names, g, tys, n),
            instrs[i - 1],
            func,
            block,
            idx,
            trace,
            names,
            g,
            tys,
        )
    }
}

/// Whether the first `i` instructions can be split.
pub open spec fn split_ok(
    instrs: Seq<Instruction>,
    i: nat,
    func: Seq<char>,
    block: LocalNameV,
    idx: nat,
    trace: bool,
    names: Seq<LocalNameV>,
    g: Seq<(LocalName, u32)>,
    tys: Types,
    n: nat,
) -> bool
    decreases i,
{
    if i == 0 || i > instrs.len() {
        true
    } else {
        &&& split_ok(instrs, (i - 1) as nat, func, block, idx, trace, names, g, tys, n)
        &&& step_ok(
            split_v(instrs, (i - 1) as nat, func, block, idx, trace, names, g, tys, n),
            instrs[i - 1],
            names,
            g,
            tys,
        )
    }
}

proof fn lemma_split_ok_prefix(
    instrs: Seq<Instruction>,
    i: nat,
    j: nat,
    func: Seq<char>,
    block: LocalNameV,
    idx: nat,
    trace: bool,
    names: Seq<LocalNameV>,
    g: Seq<(LocalName, u32)>,
    tys: Types,
    n: nat,
)
    requires
        i <= j <= instrs.len(),
        split_ok(instrs, j, func, block, idx, trace, names, g, tys, n),
    ensures
        split_ok(instrs, i, func, block, idx, trace, names, g, tys, n),
    decreases j - i,
{
    if i < j {
        lemma_split_ok_prefix(instrs, i, (j - 1) as nat, func, block, idx, trace, names, g, tys, n);
    }
}

/// The blocks of commands of a basic block, and the counter after: the
/// blocks its calls split it into, the last of which records the basic
/// block's position in `%phi` and ends with its terminator.
pub open spec fn basic_block_v(
    name: LocalNameV,
    instrs: Seq<Instruction>,
    term: Terminator,
    idx: nat,
    func: Seq<char>,
    trace: bool,
    names: Seq<LocalNameV>,
    g: Seq<(LocalName, u32)>,
    tys: Types,
    n: nat,
) -> (Seq<BlockV>, nat) {
    let s = split_v(instrs, instrs.len(), func, name, idx, trace, names, g, tys, n);
    (
        s.done.push(
            BlockV {
                needs_prolog: idx == 0 && s.k == 0,
                body: FunctionV {
                    id: sub_id(func, name, s.k),
                    cmds: s.cur.push(set_v("%phi"@, idx as i32)),
                },
                end: EndV::Normal(term),
            },
        ),
        s.n,
    )
}

/// The names of basic blocks.
pub open spec fn block_names(bbs: Seq<BasicBlock>) -> Seq<LocalNameV> {
    bbs.map_values(|b: BasicBlock| b.name@)
}

/// The blocks of commands of the first `j` basic blocks of `bbs`, and the
/// counter after.
pub open spec fn blocks_v(
    bbs: Seq<BasicBlock>,
    j: nat,
    func: Seq<char>,
    trace: bool,
    g: Seq<(LocalName, u32)>,
    tys: Types,
    n: nat,
) -> (Seq<BlockV>, nat)
    decreases j,
{
    if j == 0 || j > bbs.len() {
        (Seq::empty(), n)
    } else {
        let p = blocks_v(bbs, (j - 1) as nat, func, trace, g, tys, n);
        let b = bbs[j - 1];
        let q = basic_block_v(
            b.name@,
            b.instrs@,
            b.term,
            (j - 1) as nat,
            func,
            trace,
            block_names(bbs),
            g,
            tys,
            p.1,
        );
        (p.0 + q.0, q.1)
    }
}

/// Whether the first `j` basic blocks of `bbs` compile.
pub open spec fn blocks_ok(
    bbs: Seq<BasicBlock>,
    j: nat,
    func: Seq<char>,
    trace: bool,
    g: Seq<(LocalName, u32)>,
    tys: Types,
    n: nat,
) -> bool
    decreases j,
{
    if j == 0 || j > bbs.len() {
        true
    } else {
        let p = blocks_v(bbs, (j - 1) as nat, func, trace, g, tys, n);
        let b = bbs[j - 1];
        &&& blocks_ok(bbs, (j - 1) as nat, func, trace, g, tys, n)
        &&& split_ok(
            b.instrs@,
            b.instrs@.len(),
            func,
            b.name@,
            (j - 1) as nat,
            trace,
            block_names(bbs),
            g,
            tys,
            p.1,
        )
    }
}

proof fn lemma_blocks_ok_prefix(
    bbs: Seq<BasicBlock>,
    i: nat,
    j: nat,
    func: Seq<char>,
    trace: bool,
    g: Seq<(LocalName, u32)>,
    tys: Types,
    n: nat,
)
    requires
        i <= j <= bbs.len(),
        blocks_ok(bbs, j, func, trace, g, tys, n),
    ensures
        blocks_ok(bbs, i, func, trace, g, tys, n),
    decreases j - i,
{
    if i < j {
        lemma_blocks_ok_prefix(bbs, i, (j - 1) as nat, func, trace, g, tys, n);
    }
}

proof fn lemma_blocks_v_len(
    bbs: Seq<BasicBlock>,
    j: nat,
    func: Seq<char>,
    trace: bool,
    g: Seq<(LocalName, u32)>,
    tys: Types,
    n: nat,
)
    requires
        j <= bbs.len(),
    ensures
        blocks_v(bbs, j, func, trace, g, tys, n).0.len() >= j,
    decreases j,
{
    if j > 0 {
        lemma_blocks_v_len(bbs, (j - 1) as nat, func, trace, g, tys, n);
    }
}

/// The blocks of commands of a function named `func` with basic blocks
/// `bbs`, with the return-address pushes renamed after their blocks, and
/// the counter after.
pub open spec fn function_v(
    bbs: Seq<BasicBlock>,
    func: Seq<char>,
    trace: bool,
    g: Seq<(LocalName, u32)>,
    tys: Types,
    n: nat,
) -> (Seq<BlockV>, nat) {
    let b = blocks_v(bbs, bbs.len(), func, trace, g, tys, n);
    (b.0.map_values(|x: BlockV| rename_block(x)), b.1)
}

/// Whether a function compiles: it has a basic block, their positions fit
/// in a score, and each of them compiles.
pub open spec fn function_ok(
    bbs: Seq<BasicBlock>,
    func: Seq<char>,
    trace: bool,
    g: Seq<(LocalName, u32)>,
    tys: Types,
    n: nat,
) -> bool {
    &&& bbs.len() > 0
    &&& bbs.len() <= i32::MAX
    &&& blocks_ok(bbs, bbs.len(), func, trace, g, tys, n)
}

// ----------------------------------------------------------------------
// Compiling a function
// ----------------------------------------------------------------------

/// How a block that ends with the call marker `c` ends.
fn marker_to_end(c: Command) -> (r: BlockEnd)
    requires
        marker_ok(c@),
    ensures
        end_view(r) == marker_end(c@),
{
    proof {
        reveal_strlit("!FIXUPCALL");
        reveal_strlit("!DYNCALL ");
    }
    match c {
        Command::Comment(t) => {
            if starts_with(t.as_str(), "!FIXUPCALL") {
                BlockEnd::StaticCall(t)
            } else {
                let rest = drop_first_chars(t.as_str(), 9);
                assert(rest@ == t@.skip(9));
                match ScoreHolder::new(rest) {
                    Ok(h) => BlockEnd::DynCall(h),
                    Err(e) => {
                        proof {
                            assert(false);
                        }
                        BlockEnd::StaticCall(e)
                    },
                }
            }
        },
        _ => {
            proof {
                assert(false);
            }
            BlockEnd::StaticCall(String::new())
        },
    }
}

/// The commands a block starts with.
fn entry(trace: bool, id: &FunctionId) -> (r: Vec<Command>)
    ensures
        commands_view(r@) == entry_cmds(id@, trace),
{
    let mut r: Vec<Command> = Vec::new();
    if trace {
        let c = print_entry(id);
        r.push(c);
        assert(commands_view(r@) =~= seq![c@]);
    } else {
        assert(commands_view(r@) =~= Seq::<CommandV>::empty());
    }
    r
}

/// Appends `b` to `cs`, giving the joined views.
fn append_cmds(cs: &mut Vec<Command>, b: Vec<Command>)
    ensures
        commands_view(final(cs)@) == commands_view(old(cs)@) + commands_view(b@),
{
    let ghost bv = commands_view(b@);
    let mut b = b;
    cs.append(&mut b);
    assert(commands_view(cs@) =~= commands_view(old(cs)@) + bv);
}

/// Adds one instruction to the splitting of a basic block: `out` gets the
/// block that a call ends, `cur` the commands of the current block.
#[verifier::rlimit(40)]
fn split_step<'a>(
    out: &mut Vec<AbstractBlock<'a>>,
    cur: &mut Vec<Command>,
    cur_id: &mut FunctionId,
    k: &mut usize,
    base: &FunctionId,
    sig: &'a FunctionSig,
    name: &LocalName,
    instr: &Instruction,
    idx: usize,
    trace: bool,
    names: &Vec<LocalName>,
    globals: &GlobalTable,
    tys: &Types,
    counter: &mut TempCounter,
)
    requires
        *old(k) < usize::MAX,
        base@ == block_id_v(sig.name@, name@),
        old(cur_id)@ == sub_id(sig.name@, name@, *old(k) as nat),
        step_ok(
            SplitV { done: Seq::empty(), cur: commands_view(old(cur)@), k: *old(k) as nat, n: old(counter).next as nat },
            *instr,
            names@.map_values(|x: LocalName| x@),
            globals.addrs@,
            *tys,
        ),
        forall|j: int| 0 <= j < old(out)@.len() ==> #[trigger] old(out)@[j].parent == sig,
    ensures
        ({
            let st = step_v(
                SplitV { done: Seq::empty(), cur: commands_view(old(cur)@), k: *old(k) as nat, n: old(counter).next as nat },
                *instr,
                sig.name@,
                name@,
                idx as nat,
                trace,
                names@.map_values(|x: LocalName| x@),
                globals.addrs@,
                *tys,
            );
            &&& block_views(final(out)@) == block_views(old(out)@) + st.done
            &&& commands_view(final(cur)@) == st.cur
            &&& *final(k) == st.k
            &&& final(counter).next == st.n
            &&& final(cur_id)@ == sub_id(sig.name@, name@, st.k)
        }),
        forall|j: int| 0 <= j < final(out)@.len() ==> #[trigger] final(out)@[j].parent == sig,
{
    proof {
        reveal(step_v);
    }
    let ghost nv = names@.map_values(|x: LocalName| x@);
    let ghost o = instr_v(*instr, nv, globals.addrs@, *tys, old(counter).next as nat);
    let ghost cur0 = commands_view(cur@);
    let (mut before, after) = compile_instr(instr, names, globals, tys, counter);
    match after {
        None => {
            append_cmds(cur, before);
            assert(block_views(out@) =~= block_views(old(out)@) + Seq::<BlockV>::empty());
        },
        Some(after) => {
            let last = before.pop().unwrap();
            assert(commands_view(before@) =~= o.0.drop_last());
            assert(last@ == o.0.last());
            let end = marker_to_end(last);
            append_cmds(cur, before);
            let mut finished: Vec<Command> = Vec::new();
            std::mem::swap(cur, &mut finished);
            let mut finished_id = FunctionId { name: base.name.clone(), sub: *k + 1 };
            std::mem::swap(cur_id, &mut finished_id);
            let b = AbstractBlock {
                needs_prolog: idx == 0 && *k == 0,
                body: Function { id: finished_id, cmds: finished },
                term: end,
                parent: sig,
            };
            let ghost bv = block_view(b);
            out.push(b);
            assert(block_views(out@) =~= block_views(old(out)@) + seq![bv]);
            *k = *k + 1;
            let mut fresh = entry(trace, cur_id);
            append_cmds(&mut fresh, after);
            *cur = fresh;
        },
    }
}

/// Compiles the basic block `name` at position `idx`, with instructions
/// `instrs` and terminator `term`, of the function `sig`, and appends its
/// blocks of commands to `out`.
#[verifier::rlimit(100)]
#[verifier::spinoff_prover]
fn compile_basic_block<'a>(
    out: &mut Vec<AbstractBlock<'a>>,
    sig: &'a FunctionSig,
    name: &LocalName,
    instrs: &Vec<Instruction>,
    term: Terminator,
    idx: usize,
    trace: bool,
    names: &Vec<LocalName>,
    globals: &GlobalTable,
    tys: &Types,
    counter: &mut TempCounter,
)
    requires
        idx <= i32::MAX,
        split_ok(
            instrs@,
            instrs@.len(),
            sig.name@,
            name@,
            idx as nat,
            trace,
            names@.map_values(|x: LocalName| x@),
            globals.addrs@,
            *tys,
            old(counter).next as nat,
        ),
        forall|k: int| 0 <= k < old(out)@.len() ==> #[trigger] old(out)@[k].parent == sig,
    ensures
        block_views(final(out)@) == block_views(old(out)@) + basic_block_v(
            name@,
            instrs@,
            term,
            idx as nat,
            sig.name@,
            trace,
            names@.map_values(|x: LocalName| x@),
            globals.addrs@,
            *tys,
            old(counter).next as nat,
        ).0,
        final(counter).next == basic_block_v(
            name@,
            instrs@,
            term,
            idx as nat,
            sig.name@,
            trace,
            names@.map_values(|x: LocalName| x@),
            globals.addrs@,
            *tys,
            old(counter).next as nat,
        ).1,
        forall|k: int| 0 <= k < final(out)@.len() ==> #[trigger] final(out)@[k].parent == sig,
{
    let ghost nv = names@.map_values(|x: LocalName| x@);
    let ghost n0 = counter.next as nat;
    let ghost start = block_views(out@);
    let ghost fname = sig.name@;
    let base = block_id(sig.name.as_str(), name);
    let mut k: usize = 0;
    let mut cur_id = FunctionId { name: base.name.clone(), sub: 0 };
    let mut cur = entry(trace, &cur_id);
    let mut i: usize = 0;
    while i < instrs.len()
        invariant
            i <= instrs@.len(),
            k <= i,
            base@ == block_id_v(fname, name@),
            fname == sig.name@,
            nv == names@.map_values(|x: LocalName| x@),
            split_ok(instrs@, instrs@.len(), fname, name@, idx as nat, trace, nv, globals.addrs@, *tys, n0),
            ({
                let sv = split_v(instrs@, i as nat, fname, name@, idx as nat, trace, nv, globals.addrs@, *tys, n0);
                &&& block_views(out@) == start + sv.done
                &&& commands_view(cur@) == sv.cur
                &&& k == sv.k
                &&& counter.next == sv.n
            }),
            cur_id@ == sub_id(fname, name@, k as nat),
            forall|j: int| 0 <= j < out@.len() ==> #[trigger] out@[j].parent == sig,
        decreases instrs.len() - i,
    {
        proof {
            lemma_split_ok_prefix(instrs@, (i + 1) as nat, instrs@.len(), fname, name@, idx as nat, trace, nv, globals.addrs@, *tys, n0);
        }
        let ghost sv = split_v(instrs@, i as nat, fname, name@, idx as nat, trace, nv, globals.addrs@, *tys, n0);
        let ghost sv0 = SplitV { done: Seq::empty(), cur: sv.cur, k: sv.k, n: sv.n };
        let ghost before_out = block_views(out@);
        split_step(out, &mut cur, &mut cur_id, &mut k, &base, sig, name, &instrs[i], idx, trace, names, globals, tys, counter);
        proof {
            lemma_step_shift(sv, instrs@[i as int], fname, name@, idx as nat, trace, nv, globals.addrs@, *tys);
            let full = step_v(sv, instrs@[i as int], fname, name@, idx as nat, trace, nv, globals.addrs@, *tys);
            assert(block_views(out@) =~= start + full.done);
        }
        i = i + 1;
    }
    let ghost sv = split_v(instrs@, instrs@.len(), fname, name@, idx as nat, trace, nv, globals.addrs@, *tys, n0);
    let ghost cur0 = commands_view(cur@);
    let phi = assign_lit(phi_holder(), idx as i32);
    cur.push(phi);
    assert(commands_view(cur@) =~= cur0.push(set_v("%phi"@, idx as i32)));
    let b = AbstractBlock {
        needs_prolog: idx == 0 && k == 0,
        body: Function { id: cur_id, cmds: cur },
        term: BlockEnd::Normal(term),
        parent: sig,
    };
    let ghost bv = block_view(b);
    let ghost out0 = block_views(out@);
    assert(out0 == start + sv.done);
    out.push(b);
    assert(block_views(out@) =~= out0.push(bv));
    assert(block_views(out@) =~= start + sv.done.push(bv));
}

/// Renames the return-address pushes of `cmds` after the block `id`, and
/// adds the holders of the renamed commands to `set`.
fn rename_all(cmds: Vec<Command>, id: &FunctionId, set: &mut Vec<ScoreHolder>) -> (r: Vec<Command>)
    requires
        holder_set_ok(old(set)@),
    ensures
        commands_view(r@) == commands_view(cmds@).map_values(|c: CommandV| rename_v(c, id@)),
        holder_set_ok(final(set)@),
        holder_views(final(set)@).to_set() == holder_views(old(set)@).to_set() + cmds_holders(
            commands_view(r@),
        ),
{
    let ghost cv = commands_view(cmds@);
    let ghost start = holder_views(set@).to_set();
    let mut rest = cmds;
    let mut out: Vec<Command> = Vec::new();
    let n = rest.len();
    let mut i: usize = 0;
    assert(cmds_holders(Seq::<CommandV>::empty()) =~= Set::<Seq<char>>::empty());
    assert(start + Set::<Seq<char>>::empty() =~= start);
    while i < n
        invariant
            n == cv.len(),
            i <= n,
            commands_view(rest@) == cv.skip(i as int),
            commands_view(out@) == cv.take(i as int).map_values(|c: CommandV| rename_v(c, id@)),
            holder_set_ok(set@),
            holder_views(set@).to_set() == start + cmds_holders(commands_view(out@)),
        decreases n - i,
    {
        assert(rest@.len() > 0) by {
            assert(commands_view(rest@).len() == n - i);
        }
        let ghost pre = rest@;
        let c = rest.remove(0);
        assert(c@ == cv[i as int]) by {
            assert(commands_view(pre)[0] == c@);
        }
        assert(rest@ =~= pre.subrange(1, pre.len() as int));
        let ghost pv = commands_view(pre);
        assert(pv == cv.skip(i as int));
        assert(commands_view(rest@) =~= pv.subrange(1, pv.len() as int));
        assert(pv.subrange(1, pv.len() as int) =~= cv.skip(i + 1));
        let rc = rename_fixup(c, id);
        add_cmd_holders(set, &rc);
        let ghost before = commands_view(out@);
        out.push(rc);
        proof {
            lemma_cmds_holders_push(before, rc@);
        }
        assert(commands_view(out@) =~= before.push(rc@));
        assert(cv.take(i + 1).map_values(|c: CommandV| rename_v(c, id@)) =~= cv.take(i as int).map_values(
            |c: CommandV| rename_v(c, id@),
        ).push(rename_v(cv[i as int], id@)));
        i = i + 1;
    }
    assert(cv.take(n as int) =~= cv);
    out
}

/// Compiles a function with signature `sig` and basic blocks
/// `basic_blocks` into blocks of commands whose ends are not compiled yet,
/// with the registers the function uses in increasing order. Each call
/// that returns to a separate block ends a block; each basic block's last
/// block records the block's position in `%phi` and ends with its
/// terminator; with `options.trace_bbs` every block starts by announcing
/// itself.
pub fn compile_function<'a>(
    sig: &'a FunctionSig,
    basic_blocks: Vec<BasicBlock>,
    globals: &GlobalTable,
    tys: &Types,
    options: &BuildOptions,
    counter: &mut TempCounter,
) -> (r: (Vec<AbstractBlock<'a>>, Vec<ScoreHolder>))
    requires
        function_ok(basic_blocks@, sig.name@, options.trace_bbs, globals.addrs@, *tys, old(counter).next as nat),
    ensures
        block_views(r.0@) == function_v(
            basic_blocks@,
            sig.name@,
            options.trace_bbs,
            globals.addrs@,
            *tys,
            old(counter).next as nat,
        ).0,
        final(counter).next == function_v(
            basic_blocks@,
            sig.name@,
            options.trace_bbs,
            globals.addrs@,
            *tys,
            old(counter).next as nat,
        ).1,
        forall|k: int| 0 <= k < r.0@.len() ==> #[trigger] r.0@[k].parent == sig,
        strictly_sorted(holder_views(r.1@)),
        holder_views(r.1@).to_set() == blocks_holders(
            function_v(
                basic_blocks@,
                sig.name@,
                options.trace_bbs,
                globals.addrs@,
                *tys,
                old(counter).next as nat,
            ).0,
        ),
        function_v(
            basic_blocks@,
            sig.name@,
            options.trace_bbs,
            globals.addrs@,
            *tys,
            old(counter).next as nat,
        ).0.len() >= basic_blocks@.len(),
        holder_views(r.1@) == sorted_names(
            blocks_holders(
                function_v(
                    basic_blocks@,
                    sig.name@,
                    options.trace_bbs,
                    globals.addrs@,
                    *tys,
                    old(counter).next as nat,
                ).0,
            ),
        ),
{
    let ghost bbs = basic_blocks@;
    let ghost fname = sig.name@;
    let ghost trace = options.trace_bbs;
    let ghost n0 = counter.next as nat;
    let n = basic_blocks.len();
    let mut names: Vec<LocalName> = Vec::new();
    let mut i: usize = 0;
    while i < n
        invariant
            n == bbs.len(),
            bbs == basic_blocks@,
            i <= n,
            names@.map_values(|x: LocalName| x@) == block_names(bbs).take(i as int),
        decreases n - i,
    {
        let nm = basic_blocks[i].name.duplicate();
        let ghost before = names@.map_values(|x: LocalName| x@);
        names.push(nm);
        assert(names@.map_values(|x: LocalName| x@) =~= before.push(nm@));
        assert(block_names(bbs).take(i + 1) =~= block_names(bbs).take(i as int).push(bbs[i as int].name@));
        i = i + 1;
    }
    assert(block_names(bbs).take(n as int) =~= block_names(bbs));
    let mut rest = basic_blocks;
    let mut raw: Vec<AbstractBlock<'a>> = Vec::new();
    let mut idx: usize = 0;
    while idx < n
        invariant
            n == bbs.len(),
            n <= i32::MAX,
            idx <= n,
            rest@ == bbs.skip(idx as int),
            names@.map_values(|x: LocalName| x@) == block_names(bbs),
            fname == sig.name@,
            trace == options.trace_bbs,
            blocks_ok(bbs, n as nat, fname, trace, globals.addrs@, *tys, n0),
            block_views(raw@) == blocks_v(bbs, idx as nat, fname, trace, globals.addrs@, *tys, n0).0,
            counter.next == blocks_v(bbs, idx as nat, fname, trace, globals.addrs@, *tys, n0).1,
            forall|k: int| 0 <= k < raw@.len() ==> #[trigger] raw@[k].parent == sig,
        decreases n - idx,
    {
        proof {
            lemma_blocks_ok_prefix(bbs, (idx + 1) as nat, n as nat, fname, trace, globals.addrs@, *tys, n0);
        }
        let bb = rest.remove(0);
        assert(bb == bbs[idx as int]);
        assert(rest@ =~= bbs.skip(idx + 1));
        let BasicBlock { name, instrs, term } = bb;
        compile_basic_block(
            &mut raw,
            sig,
            &name,
            &instrs,
            term,
            idx,
            options.trace_bbs,
            &names,
            globals,
            tys,
            counter,
        );
        idx = idx + 1;
    }
    let ghost rawv = block_views(raw@);
    let m = raw.len();
    let mut rest_blocks = raw;
    let mut result: Vec<AbstractBlock<'a>> = Vec::new();
    let mut clobbers: Vec<ScoreHolder> = Vec::new();
    let mut j: usize = 0;
    assert(blocks_holders(Seq::<BlockV>::empty()) =~= Set::<Seq<char>>::empty());
    assert(holder_views(clobbers@).to_set() =~= Set::<Seq<char>>::empty());
    while j < m
        invariant
            m == rawv.len(),
            j <= m,
            block_views(rest_blocks@) == rawv.skip(j as int),
            forall|k: int| 0 <= k < rest_blocks@.len() ==> #[trigger] rest_blocks@[k].parent == sig,
            block_views(result@) == rawv.take(j as int).map_values(|x: BlockV| rename_block(x)),
            forall|k: int| 0 <= k < result@.len() ==> #[trigger] result@[k].parent == sig,
            holder_set_ok(clobbers@),
            holder_views(clobbers@).to_set() == blocks_holders(block_views(result@)),
        decreases m - j,
    {
        assert(rest_blocks@.len() > 0) by {
            assert(block_views(rest_blocks@).len() == m - j);
        }
        let ghost pre = rest_blocks@;
        let b = rest_blocks.remove(0);
        assert(block_view(b) == rawv[j as int]) by {
            assert(block_views(pre)[0] == block_view(b));
        }
        assert(rest_blocks@ =~= pre.subrange(1, pre.len() as int));
        let ghost pv = block_views(pre);
        assert(pv == rawv.skip(j as int));
        assert(block_views(rest_blocks@) =~= pv.subrange(1, pv.len() as int));
        assert(pv.subrange(1, pv.len() as int) =~= rawv.skip(j + 1));
        assert(b.parent == sig) by {
            assert(pre[0] == b);
        }
        let AbstractBlock { needs_prolog, body, term, parent } = b;
        let Function { id, cmds } = body;
        let ghost before_set = holder_views(clobbers@).to_set();
        let renamed = rename_all(cmds, &id, &mut clobbers);
        let nb = AbstractBlock { needs_prolog, body: Function { id, cmds: renamed }, term, parent };
        let ghost before = block_views(result@);
        result.push(nb);
        proof {
            lemma_blocks_holders_push(before, block_view(nb));
        }
        assert(block_views(result@) =~= before.push(block_view(nb)));
        assert(block_view(nb) == rename_block(rawv[j as int]));
        assert(rawv.take(j + 1).map_values(|x: BlockV| rename_block(x)) =~= rawv.take(j as int).map_values(
            |x: BlockV| rename_block(x),
        ).push(rename_block(rawv[j as int])));
        j = j + 1;
    }
    assert(rawv.take(m as int) =~= rawv);
    proof {
        lemma_blocks_v_len(bbs, n as nat, fname, trace, globals.addrs@, *tys, n0);
        let fv = block_views(result@);
        let hv = holder_views(clobbers@);
        assert(strictly_sorted(hv) && hv.to_set() == blocks_holders(fv));
        let chosen = sorted_names(blocks_holders(fv));
        assert(strictly_sorted(chosen) && chosen.to_set() == blocks_holders(fv));
        lemma_sorted_unique(hv, chosen);
    }
    (result, clobbers)
}

// ----------------------------------------------------------------------
// Laws of the splitting
// ----------------------------------------------------------------------

/// Whether every block of `bs` starts by announcing itself.
pub open spec fn all_announce(bs: Seq<BlockV>) -> bool {
    forall|k: int|
        0 <= k < bs.len() ==> (#[trigger] bs[k]).body.cmds.len() > 0 && bs[k].body.cmds[0]
            == print_entry_v(bs[k].body.id)
}

proof fn lemma_split_announce(
    instrs: Seq<Instruction>,
    i: nat,
    func: Seq<char>,
    block: LocalNameV,
    idx: nat,
    names: Seq<LocalNameV>,
    g: Seq<(LocalName, u32)>,
    tys: Types,
    n: nat,
)
    ensures
        ({
            let s = split_v(instrs, i, func, block, idx, true, names, g, tys, n);
            &&& all_announce(s.done)
            &&& s.cur.len() > 0
            &&& s.cur[0] == print_entry_v(sub_id(func, block, s.k))
        }),
    decreases i,
{
    if i > 0 && i <= instrs.len() {
        lemma_split_announce(instrs, (i - 1) as nat, func, block, idx, names, g, tys, n);
        reveal(step_v);
        let s = split_v(instrs, (i - 1) as nat, func, block, idx, true, names, g, tys, n);
        let o = instr_v(instrs[i - 1], names, g, tys, s.n);
        let t = split_v(instrs, i, func, block, idx, true, names, g, tys, n);
        if o.1 is Some {
            assert((s.cur + o.0.drop_last())[0] == s.cur[0]);
            assert forall|k: int| 0 <= k < t.done.len() implies (#[trigger] t.done[k]).body.cmds.len() > 0
                && t.done[k].body.cmds[0] == print_entry_v(t.done[k].body.id) by {
                if k < s.done.len() {
                    assert(t.done[k] == s.done[k]);
                }
            }
        } else {
            assert((s.cur + o.0)[0] == s.cur[0]);
        }
    }
}

proof fn lemma_blocks_announce(
    bbs: Seq<BasicBlock>,
    j: nat,
    func: Seq<char>,
    g: Seq<(LocalName, u32)>,
    tys: Types,
    n: nat,
)
    ensures
        all_announce(blocks_v(bbs, j, func, true, g, tys, n).0),
    decreases j,
{
    if j > 0 && j <= bbs.len() {
        lemma_blocks_announce(bbs, (j - 1) as nat, func, g, tys, n);
        let p = blocks_v(bbs, (j - 1) as nat, func, true, g, tys, n);
        let b = bbs[j - 1];
        lemma_split_announce(b.instrs@, b.instrs@.len(), func, b.name@, (j - 1) as nat, block_names(bbs), g, tys, p.1);
        let q = basic_block_v(b.name@, b.instrs@, b.term, (j - 1) as nat, func, true, block_names(bbs), g, tys, p.1);
        let s = split_v(b.instrs@, b.instrs@.len(), func, b.name@, (j - 1) as nat, true, block_names(bbs), g, tys, p.1);
        assert(s.cur.push(set_v("%phi"@, (j - 1) as i32))[0] == s.cur[0]);
        let all = p.0 + q.0;
        assert forall|k: int| 0 <= k < all.len() implies (#[trigger] all[k]).body.cmds.len() > 0
            && all[k].body.cmds[0] == print_entry_v(all[k].body.id) by {
            if k < p.0.len() {
                assert(all[k] == p.0[k]);
            } else if k - p.0.len() < s.done.len() {
                assert(all[k] == s.done[k - p.0.len()]);
            } else {
                assert(all[k] == q.0[k - p.0.len()]);
            }
        }
    }
}

/// With blocks traced, every block of a compiled function starts by
/// announcing itself.
pub proof fn lemma_traced_blocks_announce(
    bbs: Seq<BasicBlock>,
    func: Seq<char>,
    g: Seq<(LocalName, u32)>,
    tys: Types,
    n: nat,
)
    ensures
        all_announce(function_v(bbs, func, true, g, tys, n).0),
{
    lemma_blocks_announce(bbs, bbs.len(), func, g, tys, n);
    let raw = blocks_v(bbs, bbs.len(), func, true, g, tys, n).0;
    let fv = function_v(bbs, func, true, g, tys, n).0;
    assert forall|k: int| 0 <= k < fv.len() implies (#[trigger] fv[k]).body.cmds.len() > 0 && fv[k].body.cmds[0]
        == print_entry_v(fv[k].body.id) by {
        assert(fv[k] == rename_block(raw[k]));
        assert(raw[k].body.cmds.len() > 0);
        assert(fv[k].body.cmds[0] == rename_v(raw[k].body.cmds[0], raw[k].body.id));
    }
}

proof fn lemma_blocks_prefix(
    bbs: Seq<BasicBlock>,
    i: nat,
    j: nat,
    func: Seq<char>,
    trace: bool,
    g: Seq<(LocalName, u32)>,
    tys: Types,
    n: nat,
)
    requires
        i <= j <= bbs.len(),
    ensures
        blocks_v(bbs, i, func, trace, g, tys, n).0.len() <= blocks_v(bbs, j, func, trace, g, tys, n).0.len(),
        blocks_v(bbs, j, func, trace, g, tys, n).0.take(blocks_v(bbs, i, func, trace, g, tys, n).0.len() as int)
            == blocks_v(bbs, i, func, trace, g, tys, n).0,
    decreases j - i,
{
    if i < j {
        lemma_blocks_prefix(bbs, i, (j - 1) as nat, func, trace, g, tys, n);
        let a = blocks_v(bbs, i, func, trace, g, tys, n).0;
        let b = blocks_v(bbs, (j - 1) as nat, func, trace, g, tys, n).0;
        let c = blocks_v(bbs, j, func, trace, g, tys, n).0;
        assert(c.take(b.len() as int) =~= b);
        assert(c.take(a.len() as int) =~= b.take(a.len() as int));
    } else {
        let a = blocks_v(bbs, i, func, trace, g, tys, n).0;
        assert(a.take(a.len() as int) =~= a);
    }
}

/// The last block of every basic block of a compiled function records the
/// basic block's position in `%phi` and ends with the basic block's
/// terminator: block `blocks_v(bbs, idx + 1, ..).0.len() - 1` of the
/// function is that last block.
pub proof fn lemma_basic_block_ends(
    bbs: Seq<BasicBlock>,
    idx: nat,
    func: Seq<char>,
    trace: bool,
    g: Seq<(LocalName, u32)>,
    tys: Types,
    n: nat,
)
    requires
        idx < bbs.len(),
        bbs.len() <= i32::MAX,
    ensures
        ({
            let fv = function_v(bbs, func, trace, g, tys, n).0;
            let e = blocks_v(bbs, idx + 1, func, trace, g, tys, n).0.len() - 1;
            &&& 0 <= e < fv.len()
            &&& fv[e].end == EndV::Normal(bbs[idx as int].term)
            &&& fv[e].body.cmds.last() == set_v("%phi"@, idx as i32)
        }),
{
    lemma_blocks_prefix(bbs, idx + 1, bbs.len(), func, trace, g, tys, n);
    let raw = blocks_v(bbs, bbs.len(), func, trace, g, tys, n).0;
    let upto = blocks_v(bbs, idx + 1, func, trace, g, tys, n).0;
    let p = blocks_v(bbs, idx, func, trace, g, tys, n);
    let b = bbs[idx as int];
    let q = basic_block_v(b.name@, b.instrs@, b.term, idx, func, trace, block_names(bbs), g, tys, p.1);
    assert(upto == p.0 + q.0);
    let e = upto.len() - 1;
    assert(upto[e] == q.0.last());
    assert(raw[e] == upto[e]) by {
        assert(raw.take(upto.len() as int)[e] == raw[e]);
    }
    let fv = function_v(bbs, func, trace, g, tys, n).0;
    assert(fv[e] == rename_block(raw[e]));
    let cmds = raw[e].body.cmds;
    assert(fv[e].body.cmds.last() == rename_v(cmds.last(), raw[e].body.id));
}

} // verus!
