use langcraft::cir::{
    Command, ExecuteCondKind, ExecuteCondition, FuncCall, Function, FunctionId, McRange,
    ScoreHolder, Target,
};
use langcraft::link::{
    apply_branch_fixups, apply_call_fixups, apply_cmd_count_fixups, apply_fixups,
    apply_func_ref_fixups, apply_return_fixups,
};
use langcraft::locals::LocalName;
use langcraft::memory::StaticAllocator;
use langcraft::naming::{find_function, id_eq, parse_function_id, parse_usize};
use langcraft::program::{
    BuildOptions, create_call_func, create_return_func, init_commands, make_build_cmds,
    run_function,
};
use langcraft::registers::{assign, assign_lit, push, write_ptr};
use langcraft::render::{command_to_text, id_to_text};
use langcraft::starts::{Alias, AliasOutcome, FuncStarts, link_aliases};

fn holder(name: &str) -> ScoreHolder {
    ScoreHolder::new(name.to_string()).unwrap()
}

fn func(name: &str, sub: usize, cmds: Vec<Command>) -> Function {
    Function { id: FunctionId::new_sub(name, sub), cmds }
}

fn texts(cmds: &[Command]) -> Vec<String> {
    cmds.iter().map(command_to_text).collect()
}

fn call_of(name: &str, sub: usize) -> Command {
    Command::FuncCall(FuncCall { id: FunctionId::new_sub(name, sub) })
}

#[test]
fn parse_plain_and_numbered_ids() {
    assert_eq!(parse_function_id("rust:main"), Some(FunctionId::new("rust:main")));
    assert_eq!(parse_function_id("rust:main-sub3"), Some(FunctionId::new_sub("rust:main", 3)));
    assert_eq!(parse_function_id("a-sub007"), Some(FunctionId::new_sub("a", 7)));
}

#[test]
fn parse_rejects_bad_sub_numbers() {
    assert_eq!(parse_function_id("a-sub"), None);
    assert_eq!(parse_function_id("a-subx"), None);
    assert_eq!(parse_function_id("x-sub1-sub2"), None);
    assert_eq!(parse_function_id("a-sub99999999999999999999999"), None);
}

#[test]
fn parse_usize_values() {
    assert_eq!(parse_usize("0"), Some(0));
    assert_eq!(parse_usize("1234"), Some(1234));
    assert_eq!(parse_usize(""), None);
    assert_eq!(parse_usize("12a"), None);
    assert_eq!(parse_usize("-1"), None);
    assert_eq!(parse_usize(&usize::MAX.to_string()), Some(usize::MAX));
}

#[test]
fn id_text_reads_back() {
    for id in [FunctionId::new("f"), FunctionId::new_sub("rust:g", 12), FunctionId::new_sub("h", 1)] {
        assert_eq!(parse_function_id(&id_to_text(&id)), Some(id));
    }
}

#[test]
fn find_function_gives_first_position() {
    let funcs = vec![func("a", 0, vec![]), func("b", 1, vec![]), func("b", 1, vec![])];
    assert_eq!(find_function(&funcs, &FunctionId::new_sub("b", 1)), Some(1));
    assert_eq!(find_function(&funcs, &FunctionId::new("a")), Some(0));
    assert_eq!(find_function(&funcs, &FunctionId::new("b")), None);
    assert!(id_eq(&FunctionId::new_sub("b", 1), &FunctionId::new_sub("b", 1)));
    assert!(!id_eq(&FunctionId::new_sub("b", 1), &FunctionId::new_sub("b", 2)));
}

#[test]
fn func_starts_insert_and_get() {
    let mut starts = FuncStarts::new();
    assert!(!starts.contains_key("main"));
    starts.insert("main".to_string(), FunctionId::new("rust:main"));
    starts.insert("f".to_string(), FunctionId::new_sub("rust:f", 2));
    assert_eq!(starts.get("main"), Some(&FunctionId::new("rust:main")));
    starts.insert("main".to_string(), FunctionId::new_sub("rust:main", 1));
    assert_eq!(starts.get("main"), Some(&FunctionId::new_sub("rust:main", 1)));
    assert_eq!(starts.get("f"), Some(&FunctionId::new_sub("rust:f", 2)));
    assert_eq!(starts.get("g"), None);
}

#[test]
fn aliases_link_to_their_targets() {
    let mut starts = FuncStarts::new();
    starts.insert("real".to_string(), FunctionId::new("rust:real"));
    let aliases = vec![
        Alias { name: LocalName::Name("other".to_string()), aliasee: Some(LocalName::Name("real".to_string())) },
        Alias { name: LocalName::Number(3), aliasee: Some(LocalName::Name("real".to_string())) },
        Alias { name: LocalName::Name("x".to_string()), aliasee: Some(LocalName::Name("gone".to_string())) },
        Alias { name: LocalName::Name("y".to_string()), aliasee: None },
        Alias { name: LocalName::Name("z".to_string()), aliasee: Some(LocalName::Number(1)) },
    ];
    let out = link_aliases(&mut starts, &aliases);
    assert_eq!(
        out,
        vec![
            AliasOutcome::Linked { target: "real".to_string(), alias: "other".to_string() },
            AliasOutcome::NumberedAlias { target: "real".to_string() },
            AliasOutcome::MissingTarget { target: "gone".to_string() },
            AliasOutcome::NotAFunction,
            AliasOutcome::NotAFunction,
        ]
    );
    assert_eq!(starts.get("other"), Some(&FunctionId::new("rust:real")));
    assert_eq!(starts.get("x"), None);
}

#[test]
fn branch_fixup_places_redstone() {
    let mut exec = langcraft::cir::Execute::new();
    exec.with_if(ExecuteCondition::Score {
        target: Target::Uuid(holder("%c")),
        target_obj: "rust".to_string(),
        kind: ExecuteCondKind::Matches(McRange::Between(1, 1)),
    });
    exec.with_run(call_of("rust:main%%fixup_branch", 1));
    let mut funcs = vec![
        func("rust:main", 0, vec![call_of("rust:main%%fixup_branch", 1), Command::Execute(exec)]),
        func("rust:main", 1, vec![call_of("intrinsic:setptr", 0)]),
    ];
    apply_branch_fixups(&mut funcs);
    assert_eq!(
        texts(&funcs[0].cmds),
        vec![
            "# rust:main-sub1",
            "setblock -2 1 1 minecraft:redstone_block destroy",
            "# rust:main-sub1",
            "execute if score %c rust matches 1 run setblock -2 1 1 minecraft:redstone_block replace",
        ]
    );
    assert_eq!(texts(&funcs[1].cmds), vec!["function intrinsic:setptr"]);
    assert_eq!(funcs[1].id, FunctionId::new_sub("rust:main", 1));
}

#[test]
fn branch_fixup_uses_grid_rows() {
    let mut funcs: Vec<Function> = (0..40).map(|i| func("f", i, vec![])).collect();
    funcs[0].cmds.push(call_of("f%%fixup_branch", 33));
    apply_branch_fixups(&mut funcs);
    assert_eq!(texts(&funcs[0].cmds), vec!["# f-sub33", "setblock -3 1 1 minecraft:redstone_block destroy"]);
}

#[test]
fn return_fixup_writes_next_block_index() {
    let mut funcs = vec![
        func("rust:f", 0, push(holder("rust:f-sub1%%fixup_return_addr"))),
        func("rust:f", 1, vec![]),
        func("rust:f", 2, vec![]),
    ];
    apply_return_fixups(&mut funcs);
    let t = texts(&funcs[0].cmds);
    assert_eq!(t.len(), 4);
    assert_eq!(t[2], "execute at @e[tag=ptr] run data modify block ~ ~ ~ RecordItem.tag.Memory set value 2");
    assert_eq!(t[0], "scoreboard players operation %ptr rust = %stackptr rust");
}

#[test]
fn func_ref_fixups_use_function_index() {
    let mut starts = FuncStarts::new();
    starts.insert("callee".to_string(), FunctionId::new("rust:callee"));
    let mut funcs = vec![
        func(
            "rust:main",
            0,
            vec![
                assign(holder("%p"), holder("callee%%fixup_func_ref")),
                write_ptr(holder("callee%%fixup_func_ref")),
                assign(holder("%q"), holder("%p")),
            ],
        ),
        func("rust:other", 0, vec![]),
        func("rust:callee", 0, vec![]),
    ];
    apply_func_ref_fixups(&mut funcs, &starts);
    assert_eq!(
        texts(&funcs[0].cmds),
        vec![
            "scoreboard players set %p rust 2",
            "execute at @e[tag=ptr] run data modify block ~ ~ ~ RecordItem.tag.Memory set value 2",
            "scoreboard players operation %q rust = %p rust",
        ]
    );
}

#[test]
fn call_fixup_places_redstone_at_callee() {
    let mut starts = FuncStarts::new();
    starts.insert("callee".to_string(), FunctionId::new("rust:callee"));
    let mut funcs = vec![
        func("rust:main", 0, vec![Command::Comment("!FIXUPCALL callee".to_string()), Command::Comment("plain".to_string())]),
        func("rust:callee", 0, vec![]),
    ];
    apply_call_fixups(&mut funcs, &starts);
    assert_eq!(
        texts(&funcs[0].cmds),
        vec!["# callee", "setblock -2 1 1 minecraft:redstone_block destroy", "# plain"]
    );
}

#[test]
fn cmd_count_fixup_adds_estimate() {
    let mut funcs = vec![
        func("a", 0, vec![Command::Comment("%%fixup_update_cmds".to_string())]),
        func("b", 0, vec![Command::Comment("other".to_string())]),
    ];
    apply_cmd_count_fixups(&mut funcs, &vec![Some(17), None]);
    assert_eq!(texts(&funcs[0].cmds), vec!["scoreboard players add %%cmdcount rust 17"]);
    assert_eq!(texts(&funcs[1].cmds), vec!["# other"]);
}

#[test]
fn all_fixups_in_order() {
    let mut starts = FuncStarts::new();
    starts.insert("main".to_string(), FunctionId::new("rust:main"));
    starts.insert("g".to_string(), FunctionId::new("rust:g"));
    let mut funcs = vec![
        func(
            "rust:main",
            0,
            vec![
                Command::Comment("%%fixup_update_cmds".to_string()),
                assign(holder("%fp"), holder("g%%fixup_func_ref")),
                Command::Comment("!FIXUPCALL g".to_string()),
                call_of("rust:main%%fixup_branch", 1),
            ],
        ),
        func("rust:main", 1, vec![]),
        func("rust:g", 0, vec![]),
    ];
    apply_fixups(&mut funcs, &starts, &vec![Some(4), Some(0), Some(0)]);
    assert_eq!(
        texts(&funcs[0].cmds),
        vec![
            "scoreboard players add %%cmdcount rust 4",
            "scoreboard players set %fp rust 2",
            "# g",
            "setblock -2 1 2 minecraft:redstone_block destroy",
            "# rust:main-sub1",
            "setblock -2 1 1 minecraft:redstone_block destroy",
        ]
    );
    assert_eq!(funcs.len(), 3);
}

#[test]
fn call_dispatcher_commands() {
    let others = vec![func("rust:a", 0, vec![]), func("rust:b", 2, vec![])];
    let f = create_call_func(&others);
    assert_eq!(f.id, FunctionId::new("rust:__langcraft_call"));
    assert_eq!(
        texts(&f.cmds),
        vec![
            "execute if score %%tempfuncptr rust matches -1 run setblock ~ ~ ~ minecraft:air replace",
            "execute if score %%tempfuncptr rust matches 0 run data modify block ~ ~ ~ Command set value \"function rust:a\"",
            "execute if score %%tempfuncptr rust matches 1 run data modify block ~ ~ ~ Command set value \"function rust:b-sub2\"",
            "execute unless score %%tempfuncptr rust matches -1..1 run setblock ~ ~ ~ minecraft:air replace",
            "execute unless score %%tempfuncptr rust matches -1..1 run setblock -2 0 0 minecraft:air replace",
        ]
    );
}

#[test]
fn call_dispatcher_without_functions() {
    let f = create_call_func(&vec![]);
    assert_eq!(f.cmds.len(), 3);
    assert_eq!(
        command_to_text(&f.cmds[1]),
        "execute unless score %%tempfuncptr rust matches -1 run setblock ~ ~ ~ minecraft:air replace"
    );
}

#[test]
fn return_function_commands() {
    let f = create_return_func();
    assert_eq!(f.id, FunctionId::new("rust:__langcraft_return"));
    let t = texts(&f.cmds);
    assert_eq!(t.len(), 5);
    assert_eq!(t[0], "scoreboard players remove %stackptr rust 4");
    assert!(t[3].contains("store result score %%tempfuncptr rust"));
    assert_eq!(t[4], "function rust:__langcraft_call");
}

#[test]
fn build_commands() {
    assert_eq!(
        texts(&make_build_cmds(&FunctionId::new("rust:main"))),
        vec![
            "fill -2 0 0 -2 1 2 minecraft:air",
            "setblock -2 0 0 minecraft:command_block[facing=south]{Command:\"function rust:__langcraft_on_tick\"} replace",
            "setblock -2 1 1 minecraft:chain_command_block[conditional=true,facing=south]{UpdateLastExecution:0b,auto:1b,Command:\"function rust:main\"} replace",
            "setblock -2 0 2 minecraft:chain_command_block[conditional=true,facing=north]{UpdateLastExecution:0b,auto:1b} replace",
        ]
    );
}

#[test]
fn start_up_commands() {
    let mut alloc = StaticAllocator(8);
    let mut starts = FuncStarts::new();
    starts.insert("main".to_string(), FunctionId::new("rust:main"));
    let options = BuildOptions { trace_bbs: false, entry: "main".to_string() };
    let cmds = init_commands(
        &mut alloc,
        &vec![holder("%a"), holder("%b")],
        vec![assign_lit(holder("%g"), 3)],
        &starts,
        &options,
    );
    assert_eq!(alloc.0, 516);
    let t = texts(&cmds);
    assert_eq!(
        t[..8].to_vec(),
        vec![
            "scoreboard players set %a rust 1",
            "scoreboard players set %b rust 1",
            "scoreboard players set %g rust 3",
            "scoreboard players set %condstackptr rust 8",
            "data modify block 0 7 15 RecordItem.tag.Memory set value -1",
            "scoreboard players set %stackptr rust 512",
            "scoreboard players set %stackbaseptr rust 0",
            "scoreboard players set %argptr rust 0",
        ]
    );
    assert_eq!(t.len(), 12);
    assert_eq!(t[8], "fill -2 0 0 -2 1 2 minecraft:air");
}

#[test]
fn run_function_commands() {
    let f = run_function();
    assert_eq!(f.id, FunctionId::new("run"));
    assert_eq!(texts(&f.cmds), vec!["function init", "setblock -2 1 0 minecraft:redstone_block replace"]);
}

#[test]
fn build_options_default() {
    let options = BuildOptions::default();
    assert!(!options.trace_bbs);
    assert_eq!(options.entry, "");
}
