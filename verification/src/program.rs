//! The functions every compiled program has besides its own: the
//! dispatcher that calls a function through a pointer, the return
//! function, the commands that build the clock, and the start-up commands.
use vstd::prelude::*;
use crate::cir::{
    Command, CommandV, CondV, Data, DataKind, DataKindV, DataModifyKind, DataModifySource,
    DataTarget, DataTargetV, Execute, ExecuteSubCmd, Fill, FuncCall, Function, FunctionId,
    FunctionIdV, FunctionV, McRange, ModifySourceV, ScoreHolder, SetBlock, SetBlockKind, SubCmdV,
    commands_view,
};
use crate::memory::{StaticAllocator, address_ok, round_up4, set_memory, set_memory_v};
use crate::naming::{funcs_view, ids_of};
use crate::starts::FuncStarts;
use crate::registers::{
    argptr, assign_lit, call, call_v, condstackptr, matches_v, pop, pop_v, set_v, stackbaseptr,
    stackptr, temp_fn_ptr,
};
use crate::render::{call_to_text, id_text};
use crate::text::join;

verus! {

/// The name of the dispatcher that calls the function a pointer names.
pub open spec fn call_func_name() -> Seq<char> {
    "rust:__langcraft_call"@
}

/// The name of the function that returns to the caller's next block.
pub open spec fn return_func_name() -> Seq<char> {
    "rust:__langcraft_return"@
}

/// `execute if|unless score %%tempfuncptr rust matches lo..hi run <run>`
pub open spec fn on_fn_ptr_v(is_unless: bool, lo: i32, hi: i32, run: CommandV) -> CommandV {
    CommandV::Execute {
        subcommands: seq![
            SubCmdV::Condition {
                is_unless,
                cond: matches_v("%%tempfuncptr"@, McRange::Between(lo, hi)),
            },
        ],
        run: Some(Box::new(run)),
    }
}

/// Places air at `pos`.
pub open spec fn air_at_v(pos: Seq<char>) -> CommandV {
    CommandV::SetBlock { pos, block: "minecraft:air"@, kind: SetBlockKind::Replace }
}

/// Sets the command of the block here to a call of `id`.
pub open spec fn set_call_here_v(id: FunctionIdV) -> CommandV {
    CommandV::Data {
        target: DataTargetV::Block("~ ~ ~"@),
        kind: DataKindV::Modify {
            path: "Command"@,
            kind: DataModifyKind::Overwrite,
            source: ModifySourceV::ValueString("function "@ + id_text(id)),
        },
    }
}

/// The commands of the dispatcher over functions `ids`: a pointer of -1
/// clears the block here; a pointer `i` makes the block here call
/// function `i`; any other pointer clears the block here and the clock.
pub open spec fn call_func_cmds(ids: Seq<FunctionIdV>) -> Seq<CommandV> {
    seq![on_fn_ptr_v(false, -1i32, -1i32, air_at_v("~ ~ ~"@))] + Seq::new(
        ids.len(),
        |i: int| on_fn_ptr_v(false, i as i32, i as i32, set_call_here_v(ids[i])),
    ) + seq![
        on_fn_ptr_v(true, -1i32, (ids.len() - 1) as i32, air_at_v("~ ~ ~"@)),
        on_fn_ptr_v(true, -1i32, (ids.len() - 1) as i32, air_at_v("-2 0 0"@)),
    ]
}

/// A condition on the function pointer.
fn fn_ptr_matches(lo: i32, hi: i32) -> (r: crate::cir::ExecuteCondition)
    ensures
        r@ == matches_v("%%tempfuncptr"@, McRange::Between(lo, hi)),
{
    crate::cir::ExecuteCondition::Score {
        target: crate::registers::uuid(temp_fn_ptr()),
        target_obj: crate::registers::objective_string(),
        kind: crate::cir::ExecuteCondKind::Matches(McRange::Between(lo, hi)),
    }
}

/// Runs `run` when the function pointer is (or, with `is_unless`, is not)
/// between `lo` and `hi`.
fn on_fn_ptr(is_unless: bool, lo: i32, hi: i32, run: Command) -> (r: Command)
    ensures
        r@ == on_fn_ptr_v(is_unless, lo, hi, run@),
{
    let mut cmd = Execute::new();
    if is_unless {
        cmd.with_unless(fn_ptr_matches(lo, hi));
    } else {
        cmd.with_if(fn_ptr_matches(lo, hi));
    }
    cmd.with_run(run);
    let ghost subs = cmd.subcommands@;
    let r = Command::Execute(cmd);
    assert(subs.map_values(|s: ExecuteSubCmd| s@) =~= seq![subs[0]@]);
    r
}

/// Places air at `pos`.
fn air_at(pos: &str) -> (r: Command)
    ensures
        r@ == air_at_v(pos@),
{
    Command::SetBlock(
        SetBlock {
            pos: String::from_str(pos),
            block: String::from_str("minecraft:air"),
            kind: SetBlockKind::Replace,
        },
    )
}

/// The dispatcher over `others`: it makes the block it runs in call the
/// function whose index is in `%%tempfuncptr`.
pub fn create_call_func(others: &Vec<Function>) -> (r: Function)
    requires
        others@.len() <= i32::MAX,
    ensures
        r@ == (FunctionV {
            id: FunctionIdV { name: call_func_name(), sub: 0 },
            cmds: call_func_cmds(ids_of(funcs_view(others@))),
        }),
{
    let ghost ids = ids_of(funcs_view(others@));
    let mut cmds: Vec<Command> = Vec::new();
    cmds.push(on_fn_ptr(false, -1, -1, air_at("~ ~ ~")));
    let mut i: usize = 0;
    while i < others.len()
        invariant
            i <= others@.len(),
            others@.len() <= i32::MAX,
            ids == ids_of(funcs_view(others@)),
            commands_view(cmds@) == seq![on_fn_ptr_v(false, -1i32, -1i32, air_at_v("~ ~ ~"@))]
                + Seq::new(
                i as nat,
                |j: int| on_fn_ptr_v(false, j as i32, j as i32, set_call_here_v(ids[j])),
            ),
        decreases others.len() - i,
    {
        let text = call_to_text(&FuncCall { id: others[i].id.clone() });
        let set = Command::Data(
            Data {
                target: DataTarget::Block(String::from_str("~ ~ ~")),
                kind: DataKind::Modify {
                    path: String::from_str("Command"),
                    kind: DataModifyKind::Overwrite,
                    source: DataModifySource::ValueString(text),
                },
            },
        );
        assert(ids[i as int] == others@[i as int].id@);
        assert(set@ == set_call_here_v(ids[i as int]));
        let ghost before = commands_view(cmds@);
        let c = on_fn_ptr(false, i as i32, i as i32, set);
        cmds.push(c);
        assert(commands_view(cmds@) =~= before.push(c@));
        assert(commands_view(cmds@) =~= seq![on_fn_ptr_v(false, -1i32, -1i32, air_at_v("~ ~ ~"@))]
            + Seq::new(
            (i + 1) as nat,
            |j: int| on_fn_ptr_v(false, j as i32, j as i32, set_call_here_v(ids[j])),
        ));
        i = i + 1;
    }
    let last: i32 = others.len() as i32 - 1;
    let ghost before = commands_view(cmds@);
    let c1 = on_fn_ptr(true, -1, last, air_at("~ ~ ~"));
    let c2 = on_fn_ptr(true, -1, last, air_at("-2 0 0"));
    cmds.push(c1);
    cmds.push(c2);
    assert(commands_view(cmds@) =~= call_func_cmds(ids));
    proof {
        reveal_strlit("rust:__langcraft_call");
    }
    Function { id: FunctionId::new("rust:__langcraft_call"), cmds }
}

/// The return function: it pops the function pointer to return to and
/// calls the dispatcher.
pub fn create_return_func() -> (r: Function)
    ensures
        r@ == (FunctionV {
            id: FunctionIdV { name: return_func_name(), sub: 0 },
            cmds: pop_v("%%tempfuncptr"@).push(call_v(call_func_name())),
        }),
{
    let mut cmds = pop(temp_fn_ptr());
    let ghost before = commands_view(cmds@);
    let c = call("rust:__langcraft_call");
    cmds.push(c);
    assert(commands_view(cmds@) =~= before.push(c@));
    Function { id: FunctionId::new("rust:__langcraft_return"), cmds }
}

/// The commands that build the clock: clear the area, place the command
/// block that runs the tick function, the chain block that calls `main_id`,
/// and the chain block that loops back.
pub open spec fn build_cmds_v(main_id: FunctionIdV) -> Seq<CommandV> {
    seq![
        CommandV::Fill { start: "-2 0 0"@, end: "-2 1 2"@, block: "minecraft:air"@ },
        CommandV::SetBlock {
            pos: "-2 0 0"@,
            block: "minecraft:command_block[facing=south]{Command:\"function rust:__langcraft_on_tick\"}"@,
            kind: SetBlockKind::Replace,
        },
        CommandV::SetBlock {
            pos: "-2 1 1"@,
            block: "minecraft:chain_command_block[conditional=true,facing=south]{UpdateLastExecution:0b,auto:1b,Command:\""@
                + "function "@ + id_text(main_id) + "\"}"@,
            kind: SetBlockKind::Replace,
        },
        CommandV::SetBlock {
            pos: "-2 0 2"@,
            block: "minecraft:chain_command_block[conditional=true,facing=north]{UpdateLastExecution:0b,auto:1b}"@,
            kind: SetBlockKind::Replace,
        },
    ]
}

/// The commands that build the clock that runs `main_id`.
pub fn make_build_cmds(main_id: &FunctionId) -> (r: Vec<Command>)
    ensures
        commands_view(r@) == build_cmds_v(main_id@),
{
    let c0 = Command::Fill(
        Fill {
            start: String::from_str("-2 0 0"),
            end: String::from_str("-2 1 2"),
            block: String::from_str("minecraft:air"),
        },
    );
    let c1 = Command::SetBlock(
        SetBlock {
            pos: String::from_str("-2 0 0"),
            block: String::from_str(
                "minecraft:command_block[facing=south]{Command:\"function rust:__langcraft_on_tick\"}",
            ),
            kind: SetBlockKind::Replace,
        },
    );
    let call_text = call_to_text(&FuncCall { id: main_id.clone() });
    let head = join(
        "minecraft:chain_command_block[conditional=true,facing=south]{UpdateLastExecution:0b,auto:1b,Command:\"",
        call_text.as_str(),
    );
    let block = join(head.as_str(), "\"}");
    assert(block@ =~= "minecraft:chain_command_block[conditional=true,facing=south]{UpdateLastExecution:0b,auto:1b,Command:\""@
        + "function "@ + id_text(main_id@) + "\"}"@);
    let c2 = Command::SetBlock(
        SetBlock { pos: String::from_str("-2 1 1"), block, kind: SetBlockKind::Replace },
    );
    let c3 = Command::SetBlock(
        SetBlock {
            pos: String::from_str("-2 0 2"),
            block: String::from_str(
                "minecraft:chain_command_block[conditional=true,facing=north]{UpdateLastExecution:0b,auto:1b}",
            ),
            kind: SetBlockKind::Replace,
        },
    );
    let r = vec![c0, c1, c2, c3];
    assert(commands_view(r@) =~= seq![c0@, c1@, c2@, c3@]);
    r
}

/// How a module is built: whether each basic block announces itself when
/// it runs, and the name of the entry function.
#[derive(Debug, Clone)]
pub struct BuildOptions {
    /// Insert a print command at the beginning of each basic block.
    pub trace_bbs: bool,
    pub entry: String,
}

impl Default for BuildOptions {
    fn default() -> (r: BuildOptions)
        ensures
            !r.trace_bbs,
            r.entry@ == Seq::<char>::empty(),
    {
        BuildOptions { trace_bbs: false, entry: String::new() }
    }
}

/// The start-up commands, with `start` the first free static address:
/// every clobbered holder set to one, the initialisation of the globals,
/// the condition stack placed at `start`, the return slot of the entry
/// function after it holding -1, the stack after that, the frame and
/// argument pointers zeroed, and the clock built to run `main_id`.
pub open spec fn init_cmds_v(
    start: int,
    clobbers: Seq<Seq<char>>,
    global_init: Seq<CommandV>,
    main_id: FunctionIdV,
) -> Seq<CommandV> {
    clobbers.map_values(|c: Seq<char>| set_v(c, 1)) + global_init + seq![
        set_v("%condstackptr"@, start as i32),
        set_memory_v(-1i32, start + 500),
        set_v("%stackptr"@, (start + 504) as i32),
        set_v("%stackbaseptr"@, 0),
        set_v("%argptr"@, 0),
    ] + build_cmds_v(main_id)
}

/// The start-up commands of a program whose globals are initialised by
/// `global_init` and whose entry function, named by `options`, starts
/// where `starts` says; reserves the condition stack, the entry function's
/// return slot and the stack base from `alloc`.
pub fn init_commands(
    alloc: &mut StaticAllocator,
    clobbers: &Vec<ScoreHolder>,
    global_init: Vec<Command>,
    starts: &FuncStarts,
    options: &BuildOptions,
) -> (r: Vec<Command>)
    requires
        address_ok(old(alloc).0 + 500),
        starts@.contains_key(options.entry@),
    ensures
        final(alloc).0 == old(alloc).0 + 508,
        commands_view(r@) == init_cmds_v(
            old(alloc).0 as int,
            clobbers@.map_values(|h: ScoreHolder| h@),
            commands_view(global_init@),
            starts@[options.entry@],
        ),
{
    let main_id = match starts.get(options.entry.as_str()) {
        Some(id) => id,
        None => {
            return Vec::new();
        },
    };
    let ghost start = alloc.0 as int;
    let mut cmds: Vec<Command> = Vec::new();
    let mut i: usize = 0;
    while i < clobbers.len()
        invariant
            i <= clobbers@.len(),
            commands_view(cmds@) == clobbers@.take(i as int).map_values(|h: ScoreHolder| h@).map_values(
                |c: Seq<char>| set_v(c, 1),
            ),
        decreases clobbers.len() - i,
    {
        let ghost before = commands_view(cmds@);
        let c = assign_lit(clobbers[i].clone(), 1);
        cmds.push(c);
        assert(commands_view(cmds@) =~= clobbers@.take(i + 1).map_values(|h: ScoreHolder| h@).map_values(
            |c: Seq<char>| set_v(c, 1),
        )) by {
            assert(commands_view(cmds@) =~= before.push(c@));
        }
        i = i + 1;
    }
    assert(clobbers@.take(clobbers@.len() as int) =~= clobbers@);
    let ghost head = commands_view(cmds@);
    let mut global_init = global_init;
    let ghost gi = commands_view(global_init@);
    cmds.append(&mut global_init);
    assert(commands_view(cmds@) =~= head + gi);
    let cond_stack = alloc.reserve(500);
    let main_return = alloc.reserve(4);
    let stack = alloc.reserve(4);
    let tail = vec![
        assign_lit(condstackptr(), cond_stack as i32),
        set_memory(-1, main_return as i32),
        assign_lit(stackptr(), stack as i32),
        assign_lit(stackbaseptr(), 0),
        assign_lit(argptr(), 0),
    ];
    let ghost mid = commands_view(cmds@);
    let ghost tv = commands_view(tail@);
    let mut tail = tail;
    cmds.append(&mut tail);
    assert(commands_view(cmds@) =~= mid + tv);
    let ghost mid2 = commands_view(cmds@);
    let mut build = make_build_cmds(main_id);
    let ghost bv = commands_view(build@);
    cmds.append(&mut build);
    assert(commands_view(cmds@) =~= mid2 + bv);
    assert(commands_view(cmds@) =~= init_cmds_v(
        start,
        clobbers@.map_values(|h: ScoreHolder| h@),
        gi,
        main_id@,
    ));
    cmds
}

/// The function that starts a program: it runs the start-up commands and
/// powers the clock.
pub open spec fn run_function_v() -> FunctionV {
    FunctionV {
        id: FunctionIdV { name: "run"@, sub: 0 },
        cmds: seq![
            call_v("init"@),
            CommandV::SetBlock {
                pos: "-2 1 0"@,
                block: "minecraft:redstone_block"@,
                kind: SetBlockKind::Replace,
            },
        ],
    }
}

/// The function that starts a program: it runs the start-up commands and
/// powers the clock.
pub fn run_function() -> (r: Function)
    ensures
        r@ == run_function_v(),
{
    let c0 = call("init");
    let c1 = Command::SetBlock(
        SetBlock {
            pos: String::from_str("-2 1 0"),
            block: String::from_str("minecraft:redstone_block"),
            kind: SetBlockKind::Replace,
        },
    );
    let cmds = vec![c0, c1];
    assert(commands_view(cmds@) =~= seq![c0@, c1@]);
    Function { id: FunctionId::new("run"), cmds }
}

} // verus!
