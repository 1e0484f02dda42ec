//! Linking: once every function has its final place in the function grid,
//! the placeholders that compiled code left behind (branches, return
//! addresses, function references, calls and command counts) are replaced
//! by the commands that reach those places.
use vstd::prelude::*;
use crate::cir::{
    Command, CommandV, Execute, ExecuteSubCmd, Function, FunctionId, FunctionIdV, FunctionV, ScoreSet,
    SetBlock, SetBlockKind, Target, TargetV, command_view, commands_view,
};
use crate::memory::{coords_text, func_idx_to_pos, func_pos};
use crate::naming::{
    contains_id, find_function, funcs_view, ids_of, index_of_id, is_first_index,
    lemma_index_of_id, parse_function_id, parse_id_spec,
};
use crate::registers::{add_v, add_lit, cmd_count, write_ptr_const, write_ptr_const_v};
use crate::render::{command_text, command_to_text, id_text, id_to_text};
use crate::starts::FuncStarts;
use crate::text::{
    contains, drop_first_chars, drop_last_chars, ends_with, has_infix, has_prefix, has_suffix,
    i32_text, starts_with,
};

verus! {

/// Ends the name of a call that branches to the block it names.
pub const BRANCH_SUFFIX: &'static str = "%%fixup_branch";

/// Ends the holder whose score is the address to return to.
pub const RETURN_SUFFIX: &'static str = "%%fixup_return_addr";

/// Ends the holder whose score is the index of the function it names.
pub const FUNC_REF_SUFFIX: &'static str = "%%fixup_func_ref";

/// Starts the comment that stands for a call of the function it names.
pub const CALL_PREFIX: &'static str = "!FIXUPCALL ";

/// The comment that stands for adding the function's command count.
pub const CMD_COUNT_MARK: &'static str = "%%fixup_update_cmds";

/// Starts the text of a command that stores a score into the memory word
/// under the pointer.
pub const STORE_PREFIX: &'static str =
    "execute at @e[tag=ptr] store result block ~ ~ ~ RecordItem.tag.Memory int 1 run";

/// The names the grid is built from must fit the grid's coordinates.
pub open spec fn grid_fits(fs: Seq<FunctionV>) -> bool {
    fs.len() <= i32::MAX
}

/// `s` without its last `k` characters.
pub open spec fn strip_last(s: Seq<char>, k: nat) -> Seq<char> {
    s.subrange(0, s.len() - k)
}

/// Places a redstone block above the block of function `idx`, which starts
/// that function.
pub open spec fn redstone_at_v(idx: int, kind: SetBlockKind) -> CommandV {
    let p = func_pos(idx);
    CommandV::SetBlock {
        pos: coords_text(p.0, 1, p.1),
        block: "minecraft:redstone_block"@,
        kind,
    }
}

/// Places a redstone block above the block of function `idx`.
fn redstone_at(idx: usize, kind: SetBlockKind) -> (r: Command)
    requires
        idx <= i32::MAX,
    ensures
        r@ == redstone_at_v(idx as int, kind),
{
    let (x, z) = func_idx_to_pos(idx);
    let mut pos = i32_text(x);
    pos.append(" ");
    let one = i32_text(1);
    pos.append(one.as_str());
    pos.append(" ");
    let zs = i32_text(z);
    pos.append(zs.as_str());
    Command::SetBlock(
        SetBlock { pos, block: String::from_str("minecraft:redstone_block"), kind },
    )
}

/// The position of function `id` in `funcs`, which holds it.
fn position_of(funcs: &Vec<Function>, id: &FunctionId) -> (r: usize)
    requires
        contains_id(ids_of(funcs_view(funcs@)), id@),
    ensures
        r as int == index_of_id(ids_of(funcs_view(funcs@)), id@),
        r < funcs@.len(),
{
    match find_function(funcs, id) {
        Some(i) => {
            proof {
                lemma_index_of_id(ids_of(funcs_view(funcs@)), id@, i as int);
            }
            i
        },
        None => {
            proof {
                assert(false);
            }
            0
        },
    }
}

// ----------------------------------------------------------------------
// Branches
// ----------------------------------------------------------------------

/// The block a branch call names: its name without the branch suffix.
pub open spec fn branch_target(id: FunctionIdV) -> FunctionIdV {
    FunctionIdV { name: strip_last(id.name, BRANCH_SUFFIX@.len()), sub: id.sub }
}

/// A branch call, alone or as what an `execute` runs, becomes a comment
/// naming the target and the placing of a redstone block that starts it
/// (destroying what stood there when alone, replacing it under `execute`).
pub open spec fn fix_branch(ids: Seq<FunctionIdV>, c: CommandV) -> Seq<CommandV> {
    match c {
        CommandV::FuncCall(id) => if has_suffix(id.name, BRANCH_SUFFIX@) {
            let t = branch_target(id);
            seq![
                CommandV::Comment(id_text(t)),
                redstone_at_v(index_of_id(ids, t), SetBlockKind::Destroy),
            ]
        } else {
            seq![c]
        },
        CommandV::Execute { subcommands, run } => match run {
            Some(b) => match *b {
                CommandV::FuncCall(id) => if has_suffix(id.name, BRANCH_SUFFIX@) {
                    let t = branch_target(id);
                    seq![
                        CommandV::Comment(id_text(t)),
                        CommandV::Execute {
                            subcommands,
                            run: Some(
                                Box::new(redstone_at_v(index_of_id(ids, t), SetBlockKind::Replace)),
                            ),
                        },
                    ]
                } else {
                    seq![c]
                },
                _ => seq![c],
            },
            None => seq![c],
        },
        _ => seq![c],
    }
}

/// Every branch names a block among `ids`.
pub open spec fn branch_ok(ids: Seq<FunctionIdV>, c: CommandV) -> bool {
    match c {
        CommandV::FuncCall(id) => has_suffix(id.name, BRANCH_SUFFIX@) ==> contains_id(
            ids,
            branch_target(id),
        ),
        CommandV::Execute { run, .. } => match run {
            Some(b) => match *b {
                CommandV::FuncCall(id) => has_suffix(id.name, BRANCH_SUFFIX@) ==> contains_id(
                    ids,
                    branch_target(id),
                ),
                _ => true,
            },
            None => true,
        },
        _ => true,
    }
}

/// The commands of a function with every branch fixed.
pub open spec fn branch_fixed(ids: Seq<FunctionIdV>, cs: Seq<CommandV>) -> Seq<CommandV>
    decreases cs.len(),
{
    if cs.len() == 0 {
        Seq::empty()
    } else {
        branch_fixed(ids, cs.drop_last()) + fix_branch(ids, cs.last())
    }
}

/// Every function with its branches fixed.
pub open spec fn branch_pass(fs: Seq<FunctionV>) -> Seq<FunctionV> {
    fs.map_values(|f: FunctionV| FunctionV { id: f.id, cmds: branch_fixed(ids_of(fs), f.cmds) })
}

/// Whether every branch of every function names a block that exists.
pub open spec fn branch_pass_ok(fs: Seq<FunctionV>) -> bool {
    forall|i: int, k: int|
        0 <= i < fs.len() && 0 <= k < fs[i].cmds.len() ==> branch_ok(
            ids_of(fs),
            #[trigger] fs[i].cmds[k],
        )
}

/// Appends the fixed form of one command.
fn fix_branch_cmd(funcs: &Vec<Function>, c: &Command, out: &mut Vec<Command>)
    requires
        grid_fits(funcs_view(funcs@)),
        branch_ok(ids_of(funcs_view(funcs@)), c@),
    ensures
        commands_view(final(out)@) == commands_view(old(out)@) + fix_branch(
            ids_of(funcs_view(funcs@)),
            c@,
        ),
{
    let ghost ids = ids_of(funcs_view(funcs@));
    let ghost before = commands_view(out@);
    let suffix_len = BRANCH_SUFFIX.unicode_len();
    match c {
        Command::FuncCall(fc) => {
            if ends_with(fc.id.name.as_str(), BRANCH_SUFFIX) {
                let name = drop_last_chars(fc.id.name.as_str(), suffix_len);
                let t = FunctionId { name, sub: fc.id.sub };
                assert(t@ == branch_target(fc.id@));
                let idx = position_of(funcs, &t);
                let c0 = Command::Comment(id_to_text(&t));
                let c1 = redstone_at(idx, SetBlockKind::Destroy);
                out.push(c0);
                out.push(c1);
                assert(commands_view(out@) =~= before + seq![c0@, c1@]);
                return ;
            }
        },
        Command::Execute(e) => {
            match &e.run {
                Some(b) => {
                    match &**b {
                        Command::FuncCall(fc) => {
                            assert(command_view(**b) == CommandV::FuncCall(fc.id@));
                            assert(c@ == CommandV::Execute {
                                subcommands: e.subcommands@.map_values(|s: ExecuteSubCmd| s@),
                                run: Some(Box::new(command_view(**b))),
                            });
                            if ends_with(fc.id.name.as_str(), BRANCH_SUFFIX) {
                                let name = drop_last_chars(fc.id.name.as_str(), suffix_len);
                                let t = FunctionId { name, sub: fc.id.sub };
                                assert(t@ == branch_target(fc.id@));
                                let idx = position_of(funcs, &t);
                                let c0 = Command::Comment(id_to_text(&t));
                                let run = redstone_at(idx, SetBlockKind::Replace);
                                let subs = duplicate_subcommands(&e.subcommands);
                                let c1 = Command::Execute(
                                    Execute { subcommands: subs, run: Some(Box::new(run)) },
                                );
                                out.push(c0);
                                out.push(c1);
                                assert(commands_view(out@) =~= before + seq![c0@, c1@]);
                                return ;
                            }
                        },
                        _ => {},
                    }
                },
                None => {},
            }
        },
        _ => {},
    }
    let d = c.duplicate();
    out.push(d);
    assert(commands_view(out@) =~= before + seq![c@]);
}

/// Copies of a list of sub-commands.
fn duplicate_subcommands(subs: &Vec<ExecuteSubCmd>) -> (r: Vec<
    ExecuteSubCmd,
>)
    ensures
        r@.map_values(|s: ExecuteSubCmd| s@) == subs@.map_values(
            |s: ExecuteSubCmd| s@,
        ),
{
    let mut out: Vec<ExecuteSubCmd> = Vec::new();
    let mut i: usize = 0;
    while i < subs.len()
        invariant
            i <= subs@.len(),
            out@.len() == i,
            forall|j: int| 0 <= j < i ==> #[trigger] out@[j]@ == subs@[j]@,
        decreases subs.len() - i,
    {
        out.push(subs[i].duplicate());
        i = i + 1;
    }
    assert(out@.map_values(|s: ExecuteSubCmd| s@) =~= subs@.map_values(
        |s: ExecuteSubCmd| s@,
    ));
    out
}

/// The commands of one function with every branch fixed.
fn fix_branch_cmds(funcs: &Vec<Function>, cmds: &Vec<Command>) -> (r: Vec<Command>)
    requires
        grid_fits(funcs_view(funcs@)),
        forall|k: int| 0 <= k < cmds@.len() ==> branch_ok(ids_of(funcs_view(funcs@)), #[trigger] cmds@[k]@),
    ensures
        commands_view(r@) == branch_fixed(ids_of(funcs_view(funcs@)), commands_view(cmds@)),
{
    let ghost ids = ids_of(funcs_view(funcs@));
    let ghost cv = commands_view(cmds@);
    let mut out: Vec<Command> = Vec::new();
    let mut i: usize = 0;
    while i < cmds.len()
        invariant
            i <= cmds@.len(),
            cv == commands_view(cmds@),
            ids == ids_of(funcs_view(funcs@)),
            grid_fits(funcs_view(funcs@)),
            forall|k: int| 0 <= k < cmds@.len() ==> branch_ok(ids, #[trigger] cmds@[k]@),
            commands_view(out@) == branch_fixed(ids, cv.take(i as int)),
        decreases cmds.len() - i,
    {
        assert(cv.take(i + 1).drop_last() =~= cv.take(i as int));
        assert(cv.take(i + 1).last() == cmds@[i as int]@);
        fix_branch_cmd(funcs, &cmds[i], &mut out);
        i = i + 1;
    }
    assert(cv.take(cmds@.len() as int) =~= cv);
    out
}

/// Replaces every branch call by the placing of a redstone block that
/// starts the block it names, after a comment naming that block.
pub fn apply_branch_fixups(funcs: &mut Vec<Function>)
    requires
        grid_fits(funcs_view(old(funcs)@)),
        branch_pass_ok(funcs_view(old(funcs)@)),
    ensures
        funcs_view(final(funcs)@) == branch_pass(funcs_view(old(funcs)@)),
{
    let ghost fv = funcs_view(funcs@);
    let mut out: Vec<Function> = Vec::new();
    let mut i: usize = 0;
    while i < funcs.len()
        invariant
            i <= funcs@.len(),
            fv == funcs_view(funcs@),
            grid_fits(fv),
            branch_pass_ok(fv),
            out@.len() == i,
            forall|j: int| 0 <= j < i ==> #[trigger] out@[j]@ == branch_pass(fv)[j],
        decreases funcs.len() - i,
    {
        let f = &funcs[i];
        assert(fv[i as int] == f@);
        assert forall|k: int| 0 <= k < f.cmds@.len() implies branch_ok(
            ids_of(fv),
            #[trigger] f.cmds@[k]@,
        ) by {
            assert(fv[i as int].cmds[k] == f.cmds@[k]@);
        }
        let cmds = fix_branch_cmds(funcs, &f.cmds);
        out.push(Function { id: f.id.clone(), cmds });
        i = i + 1;
    }
    assert(funcs_view(out@) =~= branch_pass(fv));
    *funcs = out;
}

// ----------------------------------------------------------------------
// Return addresses
// ----------------------------------------------------------------------

/// The holder read by an `execute ... run scoreboard players get` command,
/// when its name ends with the return-address suffix.
pub open spec fn return_holder_of(c: CommandV) -> Option<Seq<char>> {
    match c {
        CommandV::Execute { run: Some(b), .. } => match *b {
            CommandV::ScoreGet { target: TargetV::Uuid(h), .. } => if has_suffix(
                h,
                RETURN_SUFFIX@,
            ) {
                Some(h)
            } else {
                None
            },
            _ => None,
        },
        _ => None,
    }
}

/// The block a return address names: the block after the one whose text
/// precedes the suffix.
pub open spec fn return_target(h: Seq<char>) -> FunctionIdV {
    let id = parse_id_spec(strip_last(h, RETURN_SUFFIX@.len())).unwrap();
    FunctionIdV { name: id.name, sub: id.sub + 1 }
}

/// A command that reads a return address becomes the writing of the
/// index of the block to return to into the memory word under the pointer.
pub open spec fn fix_return(ids: Seq<FunctionIdV>, c: CommandV) -> CommandV {
    match return_holder_of(c) {
        Some(h) => write_ptr_const_v(index_of_id(ids, return_target(h)) as i32),
        None => c,
    }
}

/// Every return address reads as an identifier whose next block exists.
pub open spec fn return_ok(ids: Seq<FunctionIdV>, c: CommandV) -> bool {
    match return_holder_of(c) {
        Some(h) => {
            &&& parse_id_spec(strip_last(h, RETURN_SUFFIX@.len())) is Some
            &&& parse_id_spec(strip_last(h, RETURN_SUFFIX@.len())).unwrap().sub < usize::MAX
            &&& contains_id(ids, return_target(h))
        },
        None => true,
    }
}

/// Every function with its return addresses fixed.
pub open spec fn return_pass(fs: Seq<FunctionV>) -> Seq<FunctionV> {
    fs.map_values(
        |f: FunctionV|
            FunctionV { id: f.id, cmds: f.cmds.map_values(|c: CommandV| fix_return(ids_of(fs), c)) },
    )
}

/// Whether every return address of every function can be fixed.
pub open spec fn return_pass_ok(fs: Seq<FunctionV>) -> bool {
    forall|i: int, k: int|
        0 <= i < fs.len() && 0 <= k < fs[i].cmds.len() ==> return_ok(
            ids_of(fs),
            #[trigger] fs[i].cmds[k],
        )
}

/// The fixed form of one command.
fn fix_return_cmd(funcs: &Vec<Function>, c: &Command) -> (r: Command)
    requires
        grid_fits(funcs_view(funcs@)),
        return_ok(ids_of(funcs_view(funcs@)), c@),
    ensures
        r@ == fix_return(ids_of(funcs_view(funcs@)), c@),
{
    match c {
        Command::Execute(e) => match &e.run {
            Some(b) => match &**b {
                Command::ScoreGet(g) => match &g.target {
                    Target::Uuid(h) => {
                        assert(command_view(**b) == CommandV::ScoreGet {
                            target: TargetV::Uuid(h@),
                            target_obj: g.target_obj@,
                        });
                        assert(c@ == CommandV::Execute {
                            subcommands: e.subcommands@.map_values(|s: ExecuteSubCmd| s@),
                            run: Some(Box::new(command_view(**b))),
                        });
                        if ends_with(h.as_str(), RETURN_SUFFIX) {
                            let text = drop_last_chars(h.as_str(), RETURN_SUFFIX.unicode_len());
                            match parse_function_id(text.as_str()) {
                                Some(id) => {
                                    let t = FunctionId { name: id.name, sub: id.sub + 1 };
                                    let idx = position_of(funcs, &t);
                                    return write_ptr_const(idx as i32);
                                },
                                None => {},
                            }
                        }
                    },
                    _ => {},
                },
                _ => {},
            },
            None => {},
        },
        _ => {},
    }
    c.duplicate()
}

/// Replaces every read of a return address by the writing of the index
/// of the block to return to.
pub fn apply_return_fixups(funcs: &mut Vec<Function>)
    requires
        grid_fits(funcs_view(old(funcs)@)),
        return_pass_ok(funcs_view(old(funcs)@)),
    ensures
        funcs_view(final(funcs)@) == return_pass(funcs_view(old(funcs)@)),
{
    let ghost fv = funcs_view(funcs@);
    let ghost ids = ids_of(fv);
    let mut out: Vec<Function> = Vec::new();
    let mut i: usize = 0;
    while i < funcs.len()
        invariant
            i <= funcs@.len(),
            fv == funcs_view(funcs@),
            ids == ids_of(fv),
            grid_fits(fv),
            return_pass_ok(fv),
            out@.len() == i,
            forall|j: int| 0 <= j < i ==> #[trigger] out@[j]@ == return_pass(fv)[j],
        decreases funcs.len() - i,
    {
        let f = &funcs[i];
        assert(fv[i as int] == f@);
        let mut cmds: Vec<Command> = Vec::new();
        let mut k: usize = 0;
        while k < f.cmds.len()
            invariant
                k <= f.cmds@.len(),
                fv == funcs_view(funcs@),
                ids == ids_of(fv),
                grid_fits(fv),
                return_pass_ok(fv),
                0 <= i < fv.len(),
                fv[i as int] == f@,
                cmds@.len() == k,
                forall|j: int| 0 <= j < k ==> #[trigger] cmds@[j]@ == fix_return(ids, f.cmds@[j]@),
            decreases f.cmds.len() - k,
        {
            assert(fv[i as int].cmds[k as int] == f.cmds@[k as int]@);
            let c = fix_return_cmd(funcs, &f.cmds[k]);
            cmds.push(c);
            k = k + 1;
        }
        assert(commands_view(cmds@) =~= f@.cmds.map_values(|c: CommandV| fix_return(ids, c)));
        out.push(Function { id: f.id.clone(), cmds });
        i = i + 1;
    }
    assert(funcs_view(out@) =~= return_pass(fv));
    *funcs = out;
}

// ----------------------------------------------------------------------
// Function references
// ----------------------------------------------------------------------

/// The function name that a reference holder names.
pub open spec fn ref_name(h: Seq<char>) -> Seq<char> {
    strip_last(h, FUNC_REF_SUFFIX@.len())
}

/// The index of the function that a reference holder names.
pub open spec fn ref_value(
    starts: Map<Seq<char>, FunctionIdV>,
    ids: Seq<FunctionIdV>,
    h: Seq<char>,
) -> int {
    index_of_id(ids, starts[ref_name(h)])
}

/// Whether a reference holder names a function that starts somewhere.
pub open spec fn ref_ok(starts: Map<Seq<char>, FunctionIdV>, ids: Seq<FunctionIdV>, h: Seq<
    char,
>) -> bool {
    &&& has_suffix(h, FUNC_REF_SUFFIX@)
    &&& starts.contains_key(ref_name(h))
    &&& contains_id(ids, starts[ref_name(h)])
}

/// A command whose text mentions a function reference gets the function's
/// index in its place: a store of the reference into memory becomes the
/// writing of the index; a copy of the reference becomes the setting of the
/// index.
pub open spec fn fix_func_ref(
    starts: Map<Seq<char>, FunctionIdV>,
    ids: Seq<FunctionIdV>,
    c: CommandV,
) -> CommandV {
    if has_infix(command_text(c), FUNC_REF_SUFFIX@) {
        if has_prefix(command_text(c), STORE_PREFIX@) {
            match c {
                CommandV::Execute { run: Some(b), .. } => match *b {
                    CommandV::ScoreGet { target: TargetV::Uuid(h), .. } => write_ptr_const_v(
                        ref_value(starts, ids, h) as i32,
                    ),
                    _ => c,
                },
                _ => c,
            }
        } else {
            match c {
                CommandV::ScoreOp { target, target_obj, source: TargetV::Uuid(h), .. } =>
                    CommandV::ScoreSet { target, target_obj, score: ref_value(starts, ids, h) as i32 },
                _ => c,
            }
        }
    } else {
        c
    }
}

/// Whether a command that mentions a function reference has one of the two
/// forms that can be fixed, on the objective, with a reference that
/// resolves.
pub open spec fn func_ref_ok(
    starts: Map<Seq<char>, FunctionIdV>,
    ids: Seq<FunctionIdV>,
    c: CommandV,
) -> bool {
    has_infix(command_text(c), FUNC_REF_SUFFIX@) ==> if has_prefix(
        command_text(c),
        STORE_PREFIX@,
    ) {
        match c {
            CommandV::Execute { run: Some(b), .. } => match *b {
                CommandV::ScoreGet { target: TargetV::Uuid(h), target_obj } => target_obj
                    == crate::registers::objective() && ref_ok(starts, ids, h),
                _ => false,
            },
            _ => false,
        }
    } else {
        match c {
            CommandV::ScoreOp { kind, source: TargetV::Uuid(h), source_obj, .. } => {
                &&& source_obj == crate::registers::objective()
                &&& kind == crate::cir::ScoreOpKind::Assign
                &&& ref_ok(starts, ids, h)
            },
            _ => false,
        }
    }
}

/// Every function with its function references fixed.
pub open spec fn func_ref_pass(starts: Map<Seq<char>, FunctionIdV>, fs: Seq<FunctionV>) -> Seq<
    FunctionV,
> {
    fs.map_values(
        |f: FunctionV|
            FunctionV {
                id: f.id,
                cmds: f.cmds.map_values(|c: CommandV| fix_func_ref(starts, ids_of(fs), c)),
            },
    )
}

/// Whether every function reference of every function can be fixed.
pub open spec fn func_ref_pass_ok(starts: Map<Seq<char>, FunctionIdV>, fs: Seq<FunctionV>) -> bool {
    forall|i: int, k: int|
        0 <= i < fs.len() && 0 <= k < fs[i].cmds.len() ==> func_ref_ok(
            starts,
            ids_of(fs),
            #[trigger] fs[i].cmds[k],
        )
}

/// The index of the function a reference holder names.
fn ref_index(funcs: &Vec<Function>, starts: &FuncStarts, h: &crate::cir::ScoreHolder) -> (r: usize)
    requires
        ref_ok(starts@, ids_of(funcs_view(funcs@)), h@),
    ensures
        r as int == ref_value(starts@, ids_of(funcs_view(funcs@)), h@),
        r < funcs@.len(),
{
    let name = drop_last_chars(h.as_str(), FUNC_REF_SUFFIX.unicode_len());
    match starts.get(name.as_str()) {
        Some(id) => position_of(funcs, id),
        None => {
            proof {
                assert(false);
            }
            0
        },
    }
}

/// The fixed form of one command.
fn fix_func_ref_cmd(funcs: &Vec<Function>, starts: &FuncStarts, c: &Command) -> (r: Command)
    requires
        grid_fits(funcs_view(funcs@)),
        func_ref_ok(starts@, ids_of(funcs_view(funcs@)), c@),
    ensures
        r@ == fix_func_ref(starts@, ids_of(funcs_view(funcs@)), c@),
{
    let text = command_to_text(c);
    if contains(text.as_str(), FUNC_REF_SUFFIX) {
        if starts_with(text.as_str(), STORE_PREFIX) {
            match c {
                Command::Execute(e) => match &e.run {
                    Some(b) => match &**b {
                        Command::ScoreGet(g) => match &g.target {
                            Target::Uuid(h) => {
                                assert(command_view(**b) == CommandV::ScoreGet {
                                    target: TargetV::Uuid(h@),
                                    target_obj: g.target_obj@,
                                });
                                assert(c@ == CommandV::Execute {
                                    subcommands: e.subcommands@.map_values(
                                        |s: ExecuteSubCmd| s@,
                                    ),
                                    run: Some(Box::new(command_view(**b))),
                                });
                                let v = ref_index(funcs, starts, h);
                                return write_ptr_const(v as i32);
                            },
                            _ => {},
                        },
                        _ => {},
                    },
                    None => {},
                },
                _ => {},
            }
        } else {
            match c {
                Command::ScoreOp(o) => match &o.source {
                    Target::Uuid(h) => {
                        let v = ref_index(funcs, starts, h);
                        return Command::ScoreSet(
                            ScoreSet {
                                target: o.target.duplicate(),
                                target_obj: o.target_obj.clone(),
                                score: v as i32,
                            },
                        );
                    },
                    _ => {},
                },
                _ => {},
            }
        }
    }
    c.duplicate()
}

/// Replaces every use of a function reference by the index of the function
/// it names.
pub fn apply_func_ref_fixups(funcs: &mut Vec<Function>, starts: &FuncStarts)
    requires
        grid_fits(funcs_view(old(funcs)@)),
        func_ref_pass_ok(starts@, funcs_view(old(funcs)@)),
    ensures
        funcs_view(final(funcs)@) == func_ref_pass(starts@, funcs_view(old(funcs)@)),
{
    let ghost fv = funcs_view(funcs@);
    let ghost ids = ids_of(fv);
    let mut out: Vec<Function> = Vec::new();
    let mut i: usize = 0;
    while i < funcs.len()
        invariant
            i <= funcs@.len(),
            fv == funcs_view(funcs@),
            ids == ids_of(fv),
            grid_fits(fv),
            func_ref_pass_ok(starts@, fv),
            out@.len() == i,
            forall|j: int| 0 <= j < i ==> #[trigger] out@[j]@ == func_ref_pass(starts@, fv)[j],
        decreases funcs.len() - i,
    {
        let f = &funcs[i];
        assert(fv[i as int] == f@);
        let mut cmds: Vec<Command> = Vec::new();
        let mut k: usize = 0;
        while k < f.cmds.len()
            invariant
                k <= f.cmds@.len(),
                fv == funcs_view(funcs@),
                ids == ids_of(fv),
                grid_fits(fv),
                func_ref_pass_ok(starts@, fv),
                0 <= i < fv.len(),
                fv[i as int] == f@,
                cmds@.len() == k,
                forall|j: int|
                    0 <= j < k ==> #[trigger] cmds@[j]@ == fix_func_ref(starts@, ids, f.cmds@[j]@),
            decreases f.cmds.len() - k,
        {
            assert(fv[i as int].cmds[k as int] == f.cmds@[k as int]@);
            let c = fix_func_ref_cmd(funcs, starts, &f.cmds[k]);
            cmds.push(c);
            k = k + 1;
        }
        assert(commands_view(cmds@) =~= f@.cmds.map_values(
            |c: CommandV| fix_func_ref(starts@, ids, c),
        ));
        out.push(Function { id: f.id.clone(), cmds });
        i = i + 1;
    }
    assert(funcs_view(out@) =~= func_ref_pass(starts@, fv));
    *funcs = out;
}

// ----------------------------------------------------------------------
// Calls
// ----------------------------------------------------------------------

/// The name a call comment names: what follows the call prefix.
pub open spec fn call_name(s: Seq<char>) -> Seq<char> {
    s.subrange(CALL_PREFIX@.len() as int, s.len() as int)
}

/// A call comment becomes a comment with the function's name and the
/// placing of a redstone block that starts the function.
pub open spec fn fix_call(
    starts: Map<Seq<char>, FunctionIdV>,
    ids: Seq<FunctionIdV>,
    c: CommandV,
) -> Seq<CommandV> {
    match c {
        CommandV::Comment(s) => if has_prefix(s, CALL_PREFIX@) {
            let n = call_name(s);
            seq![
                CommandV::Comment(n),
                redstone_at_v(index_of_id(ids, starts[n]), SetBlockKind::Destroy),
            ]
        } else {
            seq![c]
        },
        _ => seq![c],
    }
}

/// Every call comment names a function that starts somewhere.
pub open spec fn call_ok(
    starts: Map<Seq<char>, FunctionIdV>,
    ids: Seq<FunctionIdV>,
    c: CommandV,
) -> bool {
    match c {
        CommandV::Comment(s) => has_prefix(s, CALL_PREFIX@) ==> {
            &&& starts.contains_key(call_name(s))
            &&& contains_id(ids, starts[call_name(s)])
        },
        _ => true,
    }
}

/// The commands of a function with every call fixed.
pub open spec fn call_fixed(
    starts: Map<Seq<char>, FunctionIdV>,
    ids: Seq<FunctionIdV>,
    cs: Seq<CommandV>,
) -> Seq<CommandV>
    decreases cs.len(),
{
    if cs.len() == 0 {
        Seq::empty()
    } else {
        call_fixed(starts, ids, cs.drop_last()) + fix_call(starts, ids, cs.last())
    }
}

/// Every function with its calls fixed.
pub open spec fn call_pass(starts: Map<Seq<char>, FunctionIdV>, fs: Seq<FunctionV>) -> Seq<
    FunctionV,
> {
    fs.map_values(
        |f: FunctionV| FunctionV { id: f.id, cmds: call_fixed(starts, ids_of(fs), f.cmds) },
    )
}

/// Whether every call of every function can be fixed.
pub open spec fn call_pass_ok(starts: Map<Seq<char>, FunctionIdV>, fs: Seq<FunctionV>) -> bool {
    forall|i: int, k: int|
        0 <= i < fs.len() && 0 <= k < fs[i].cmds.len() ==> call_ok(
            starts,
            ids_of(fs),
            #[trigger] fs[i].cmds[k],
        )
}

/// Appends the fixed form of one command.
fn fix_call_cmd(funcs: &Vec<Function>, starts: &FuncStarts, c: &Command, out: &mut Vec<Command>)
    requires
        grid_fits(funcs_view(funcs@)),
        call_ok(starts@, ids_of(funcs_view(funcs@)), c@),
    ensures
        commands_view(final(out)@) == commands_view(old(out)@) + fix_call(
            starts@,
            ids_of(funcs_view(funcs@)),
            c@,
        ),
{
    let ghost before = commands_view(out@);
    match c {
        Command::Comment(s) => {
            if starts_with(s.as_str(), CALL_PREFIX) {
                let name = drop_first_chars(s.as_str(), CALL_PREFIX.unicode_len());
                let idx = match starts.get(name.as_str()) {
                    Some(id) => position_of(funcs, id),
                    None => {
                        proof {
                            assert(false);
                        }
                        0
                    },
                };
                let c0 = Command::Comment(name);
                let c1 = redstone_at(idx, SetBlockKind::Destroy);
                out.push(c0);
                out.push(c1);
                assert(commands_view(out@) =~= before + seq![c0@, c1@]);
                return ;
            }
        },
        _ => {},
    }
    let d = c.duplicate();
    out.push(d);
    assert(commands_view(out@) =~= before + seq![c@]);
}

/// Replaces every call comment by the placing of a redstone block that
/// starts the function it names, after a comment with that name.
pub fn apply_call_fixups(funcs: &mut Vec<Function>, starts: &FuncStarts)
    requires
        grid_fits(funcs_view(old(funcs)@)),
        call_pass_ok(starts@, funcs_view(old(funcs)@)),
    ensures
        funcs_view(final(funcs)@) == call_pass(starts@, funcs_view(old(funcs)@)),
{
    let ghost fv = funcs_view(funcs@);
    let ghost ids = ids_of(fv);
    let mut out: Vec<Function> = Vec::new();
    let mut i: usize = 0;
    while i < funcs.len()
        invariant
            i <= funcs@.len(),
            fv == funcs_view(funcs@),
            ids == ids_of(fv),
            grid_fits(fv),
            call_pass_ok(starts@, fv),
            out@.len() == i,
            forall|j: int| 0 <= j < i ==> #[trigger] out@[j]@ == call_pass(starts@, fv)[j],
        decreases funcs.len() - i,
    {
        let f = &funcs[i];
        assert(fv[i as int] == f@);
        let ghost cv = commands_view(f.cmds@);
        let mut cmds: Vec<Command> = Vec::new();
        let mut k: usize = 0;
        while k < f.cmds.len()
            invariant
                k <= f.cmds@.len(),
                fv == funcs_view(funcs@),
                ids == ids_of(fv),
                grid_fits(fv),
                call_pass_ok(starts@, fv),
                0 <= i < fv.len(),
                fv[i as int] == f@,
                cv == commands_view(f.cmds@),
                commands_view(cmds@) == call_fixed(starts@, ids, cv.take(k as int)),
            decreases f.cmds.len() - k,
        {
            assert(fv[i as int].cmds[k as int] == f.cmds@[k as int]@);
            assert(cv.take(k + 1).drop_last() =~= cv.take(k as int));
            assert(cv.take(k + 1).last() == f.cmds@[k as int]@);
            fix_call_cmd(funcs, starts, &f.cmds[k], &mut cmds);
            k = k + 1;
        }
        assert(cv.take(f.cmds@.len() as int) =~= cv);
        out.push(Function { id: f.id.clone(), cmds });
        i = i + 1;
    }
    assert(funcs_view(out@) =~= call_pass(starts@, fv));
    *funcs = out;
}

// ----------------------------------------------------------------------
// Command counts
// ----------------------------------------------------------------------

/// The count comment becomes the adding of the function's estimated
/// command count to the tick's count.
pub open spec fn fix_count(count: Option<usize>, c: CommandV) -> CommandV {
    match c {
        CommandV::Comment(s) => if s == CMD_COUNT_MARK@ {
            add_v("%%cmdcount"@, count.unwrap() as i32)
        } else {
            c
        },
        _ => c,
    }
}

/// Every function with its count comments fixed, `counts[i]` being the
/// estimate for function `i`.
pub open spec fn count_pass(fs: Seq<FunctionV>, counts: Seq<Option<usize>>) -> Seq<FunctionV> {
    Seq::new(
        fs.len(),
        |i: int|
            FunctionV {
                id: fs[i].id,
                cmds: fs[i].cmds.map_values(|c: CommandV| fix_count(counts[i], c)),
            },
    )
}

/// Whether every function with a count comment has an estimate.
pub open spec fn count_pass_ok(fs: Seq<FunctionV>, counts: Seq<Option<usize>>) -> bool {
    &&& counts.len() == fs.len()
    &&& forall|i: int, k: int|
        0 <= i < fs.len() && 0 <= k < fs[i].cmds.len() && #[trigger] fs[i].cmds[k]
            == CommandV::Comment(CMD_COUNT_MARK@) ==> counts[i] is Some
}

/// Replaces every count comment of function `i` by the adding of
/// `counts[i]` to the tick's command count.
pub fn apply_cmd_count_fixups(funcs: &mut Vec<Function>, counts: &Vec<Option<usize>>)
    requires
        count_pass_ok(funcs_view(old(funcs)@), counts@),
    ensures
        funcs_view(final(funcs)@) == count_pass(funcs_view(old(funcs)@), counts@),
{
    let ghost fv = funcs_view(funcs@);
    let mut out: Vec<Function> = Vec::new();
    let mut i: usize = 0;
    while i < funcs.len()
        invariant
            i <= funcs@.len(),
            fv == funcs_view(funcs@),
            count_pass_ok(fv, counts@),
            out@.len() == i,
            forall|j: int| 0 <= j < i ==> #[trigger] out@[j]@ == count_pass(fv, counts@)[j],
        decreases funcs.len() - i,
    {
        let f = &funcs[i];
        assert(fv[i as int] == f@);
        let mut cmds: Vec<Command> = Vec::new();
        let mut k: usize = 0;
        while k < f.cmds.len()
            invariant
                k <= f.cmds@.len(),
                fv == funcs_view(funcs@),
                count_pass_ok(fv, counts@),
                0 <= i < fv.len(),
                fv[i as int] == f@,
                cmds@.len() == k,
                forall|j: int|
                    0 <= j < k ==> #[trigger] cmds@[j]@ == fix_count(counts@[i as int], f.cmds@[j]@),
            decreases f.cmds.len() - k,
        {
            let c = &f.cmds[k];
            assert(fv[i as int].cmds[k as int] == c@);
            let mut fixed = false;
            match c {
                Command::Comment(s) => {
                    proof {
                        reveal_strlit("%%fixup_update_cmds");
                    }
                    if crate::text::str_eq(s.as_str(), CMD_COUNT_MARK) {
                        let n = match counts[i] {
                            Some(n) => n,
                            None => {
                                proof {
                                    assert(false);
                                }
                                0
                            },
                        };
                        let v: i32 = #[verifier::truncate] (n as i32);
                        cmds.push(add_lit(cmd_count(), v));
                        fixed = true;
                    }
                },
                _ => {},
            }
            if !fixed {
                cmds.push(c.duplicate());
            }
            k = k + 1;
        }
        assert(commands_view(cmds@) =~= f@.cmds.map_values(
            |c: CommandV| fix_count(counts@[i as int], c),
        ));
        out.push(Function { id: f.id.clone(), cmds });
        i = i + 1;
    }
    assert(funcs_view(out@) =~= count_pass(fv, counts@));
    *funcs = out;
}

// ----------------------------------------------------------------------
// All placeholders
// ----------------------------------------------------------------------

/// The program after every pass, in order: branches, return addresses,
/// function references, calls, command counts.
pub open spec fn fixed_program(
    starts: Map<Seq<char>, FunctionIdV>,
    fs: Seq<FunctionV>,
    counts: Seq<Option<usize>>,
) -> Seq<FunctionV> {
    count_pass(call_pass(starts, func_ref_pass(starts, return_pass(branch_pass(fs)))), counts)
}

/// Whether no command's text still mentions a placeholder.
pub open spec fn no_placeholder_left(fs: Seq<FunctionV>) -> bool {
    forall|i: int, k: int|
        0 <= i < fs.len() && 0 <= k < fs[i].cmds.len() ==> {
            &&& !has_infix(command_text(#[trigger] fs[i].cmds[k]), "%%fixup"@)
            &&& !has_infix(command_text(fs[i].cmds[k]), "!FIXUP"@)
        }
}

/// Whether every pass can be applied in turn, and no placeholder is left
/// after the last.
pub open spec fn fixups_ok(
    starts: Map<Seq<char>, FunctionIdV>,
    fs: Seq<FunctionV>,
    counts: Seq<Option<usize>>,
) -> bool {
    let b = branch_pass(fs);
    let r = return_pass(b);
    let f = func_ref_pass(starts, r);
    let c = call_pass(starts, f);
    &&& grid_fits(fs)
    &&& branch_pass_ok(fs)
    &&& return_pass_ok(b)
    &&& func_ref_pass_ok(starts, r)
    &&& call_pass_ok(starts, f)
    &&& count_pass_ok(c, counts)
    &&& no_placeholder_left(count_pass(c, counts))
}

/// Replaces every placeholder of every function: branches, then return
/// addresses, function references, calls, and command counts, where
/// `counts[i]` is the estimated command count of function `i`.
pub fn apply_fixups(funcs: &mut Vec<Function>, starts: &FuncStarts, counts: &Vec<Option<usize>>)
    requires
        fixups_ok(starts@, funcs_view(old(funcs)@), counts@),
    ensures
        funcs_view(final(funcs)@) == fixed_program(starts@, funcs_view(old(funcs)@), counts@),
{
    apply_branch_fixups(funcs);
    apply_return_fixups(funcs);
    apply_func_ref_fixups(funcs, starts);
    apply_call_fixups(funcs, starts);
    apply_cmd_count_fixups(funcs, counts);
}

/// Linking keeps every function where it is: each pass leaves the list of
/// identifiers, and so every function's place in the grid, unchanged.
pub proof fn lemma_passes_keep_ids(
    starts: Map<Seq<char>, FunctionIdV>,
    fs: Seq<FunctionV>,
    counts: Seq<Option<usize>>,
)
    ensures
        ids_of(branch_pass(fs)) == ids_of(fs),
        ids_of(return_pass(fs)) == ids_of(fs),
        ids_of(func_ref_pass(starts, fs)) == ids_of(fs),
        ids_of(call_pass(starts, fs)) == ids_of(fs),
        ids_of(count_pass(fs, counts)) == ids_of(fs),
        ids_of(fixed_program(starts, fs, counts)) == ids_of(fs),
{
    assert(ids_of(branch_pass(fs)) =~= ids_of(fs));
    assert(ids_of(return_pass(fs)) =~= ids_of(fs));
    assert(ids_of(func_ref_pass(starts, fs)) =~= ids_of(fs));
    assert(ids_of(call_pass(starts, fs)) =~= ids_of(fs));
    assert(ids_of(count_pass(fs, counts)) =~= ids_of(fs));
    let b = branch_pass(fs);
    let r = return_pass(b);
    let f = func_ref_pass(starts, r);
    let c = call_pass(starts, f);
    assert(ids_of(b) =~= ids_of(fs));
    assert(ids_of(r) =~= ids_of(b));
    assert(ids_of(f) =~= ids_of(r));
    assert(ids_of(c) =~= ids_of(f));
    assert(ids_of(count_pass(c, counts)) =~= ids_of(c));
}

/// A fixed branch starts the block it names: the redstone block goes above
/// the grid place whose index is a position of the named block.
pub proof fn lemma_branch_reaches_target(ids: Seq<FunctionIdV>, id: FunctionIdV)
    requires
        has_suffix(id.name, BRANCH_SUFFIX@),
        contains_id(ids, branch_target(id)),
    ensures
        fix_branch(ids, CommandV::FuncCall(id)).len() == 2,
        exists|x: int, z: int|
            {
                &&& fix_branch(ids, CommandV::FuncCall(id))[1] == (CommandV::SetBlock {
                    pos: coords_text(x, 1, z),
                    block: "minecraft:redstone_block"@,
                    kind: SetBlockKind::Destroy,
                })
                &&& 0 <= crate::memory::pos_index(x, z) < ids.len()
                &&& ids[crate::memory::pos_index(x, z)] == branch_target(id)
            },
{
    let t = branch_target(id);
    let j = choose|j: int| 0 <= j < ids.len() && ids[j] == t;
    crate::naming::lemma_contains_first(ids, t, j);
    let idx = index_of_id(ids, t);
    crate::memory::lemma_func_pos_roundtrip(idx);
    let p = func_pos(idx);
    assert(fix_branch(ids, CommandV::FuncCall(id))[1] == redstone_at_v(idx, SetBlockKind::Destroy));
    assert(crate::memory::pos_index(p.0, p.1) == idx);
}

} // verus!
