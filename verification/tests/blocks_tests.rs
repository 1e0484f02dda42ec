use langcraft::blockkinds::{McBlock, mc_blocks};
use std::convert::TryFrom;
use langcraft::blocks::{
    AbstractBlock, BlockEdge, BlockEnd, BlockExit, FunctionSig, Parameter, Terminator, block_id,
    compile_block_end, compile_terminator, reify_block,
};
use langcraft::cir::Function;
use langcraft::registers::assign_lit;
use langcraft::cir::{Command, FunctionId, ScoreHolder};
use langcraft::constants::{Constant, GlobalTable};
use langcraft::layout::{IrType, Types};
use langcraft::locals::LocalName;
use langcraft::memory::TempCounter;
use langcraft::operands::Operand;
use langcraft::render::{command_to_text, id_to_text};
use langcraft::starts::FuncStarts;

fn block_texts(cmds: &[Command]) -> Vec<String> {
    cmds.iter().map(command_to_text).collect()
}

fn bname(s: &str) -> LocalName {
    LocalName::Name(s.to_string())
}

fn no_table() -> GlobalTable {
    GlobalTable { addrs: Vec::new() }
}

fn edge_summary(exit: &BlockExit) -> Vec<(String, String)> {
    match exit {
        BlockExit::Edges(es) => es
            .iter()
            .map(|(e, id)| {
                let kind = match e {
                    BlockEdge::Always => "always".to_string(),
                    BlockEdge::Cond { value, inverted } => format!("cond {} {}", value.as_str(), inverted),
                    BlockEdge::SwitchCond { value, expected } => format!("case {} {}", value.as_str(), expected),
                    BlockEdge::SwitchDefault { value, not_expected } => {
                        format!("default {} {:?}", value.as_str(), not_expected)
                    }
                };
                (kind, id_to_text(id))
            })
            .collect(),
        BlockExit::Call(id) => vec![("call".to_string(), id_to_text(id))],
    }
}

#[test]
fn block_ids_name_function_and_block() {
    assert_eq!(id_to_text(&block_id("main", &bname("loop body"))), "rust:main/loop_body");
    assert_eq!(id_to_text(&block_id("main", &LocalName::Number(3))), "rust:main/3");
}

#[test]
fn branch_has_one_edge() {
    let mut counter = TempCounter { next: 0 };
    let (cmds, exit) = compile_terminator(
        "f",
        &Terminator::Br { dest: bname("next") },
        Vec::new(),
        &no_table(),
        &Types::blank_for_testing(),
        &mut counter,
    );
    assert!(cmds.is_empty());
    assert_eq!(edge_summary(&exit), vec![("always".to_string(), "rust:f/next".to_string())]);
}

#[test]
fn conditional_branch_has_two_edges() {
    let mut counter = TempCounter { next: 0 };
    let (cmds, exit) = compile_terminator(
        "f",
        &Terminator::CondBr {
            condition: Operand::Local { name: bname("c"), ty: IrType::Integer { bits: 1 } },
            true_dest: bname("yes"),
            false_dest: bname("no"),
        },
        Vec::new(),
        &no_table(),
        &Types::blank_for_testing(),
        &mut counter,
    );
    assert!(cmds.is_empty());
    assert_eq!(
        edge_summary(&exit),
        vec![
            ("cond %c%0 false".to_string(), "rust:f/yes".to_string()),
            ("cond %c%0 true".to_string(), "rust:f/no".to_string()),
        ]
    );
}

#[test]
fn return_restores_registers() {
    let mut counter = TempCounter { next: 0 };
    let (cmds, exit) = compile_terminator(
        "f",
        &Terminator::Ret {
            operand: Some(Operand::Local { name: bname("r"), ty: IrType::Integer { bits: 32 } }),
            operand_text: "%r".to_string(),
        },
        vec![ScoreHolder::new("%x".to_string()).unwrap()],
        &no_table(),
        &Types::blank_for_testing(),
        &mut counter,
    );
    let t = block_texts(&cmds);
    assert_eq!(t[0], "# return operand %r");
    assert_eq!(t[1], "scoreboard players operation %return%0 rust = %r%0 rust");
    assert_eq!(t[2], "scoreboard players operation %stackptr rust = %stackbaseptr rust");
    assert_eq!(edge_summary(&exit), vec![("call".to_string(), "rust:__langcraft_return".to_string())]);
}

#[test]
fn switch_on_a_byte() {
    let mut counter = TempCounter { next: 0 };
    let (cmds, exit) = compile_terminator(
        "f",
        &Terminator::Switch {
            operand: Operand::Local { name: bname("s"), ty: IrType::Integer { bits: 8 } },
            dests: vec![
                (Constant::Int { bits: 8, value: 1 }, bname("one")),
                (Constant::Int { bits: 8, value: 2 }, bname("two")),
            ],
            default_dest: bname("other"),
        },
        Vec::new(),
        &no_table(),
        &Types::blank_for_testing(),
        &mut counter,
    );
    assert_eq!(
        block_texts(&cmds),
        vec![
            "scoreboard players operation %temp0 rust = %s%0 rust",
            "scoreboard players operation %temp0 rust %= %%256 rust",
        ]
    );
    assert_eq!(
        edge_summary(&exit),
        vec![
            ("case %temp0 1".to_string(), "rust:f/one".to_string()),
            ("case %temp0 2".to_string(), "rust:f/two".to_string()),
            ("default %temp0 [1, 2]".to_string(), "rust:f/other".to_string()),
        ]
    );
    assert_eq!(counter.next, 1);
}

#[test]
fn unreachable_block_goes_nowhere() {
    let mut counter = TempCounter { next: 0 };
    let cmds = compile_block_end(
        &BlockEnd::Normal(Terminator::Unreachable),
        3,
        "f",
        Vec::new(),
        &FuncStarts::new(),
        &no_table(),
        &Types::blank_for_testing(),
        &mut counter,
    );
    assert_eq!(
        block_texts(&cmds),
        vec![
            "# !INTERPRETER: UNREACHABLE",
            "tellraw @a [{\"text\":\"ENTERED UNREACHABLE CODE\"}]",
            "setblock ~ ~ ~ minecraft:air replace",
            "setblock -2 0 0 minecraft:air replace",
        ]
    );
}

#[test]
fn dynamic_call_hands_off_through_the_dispatcher() {
    let mut counter = TempCounter { next: 0 };
    let cmds = compile_block_end(
        &BlockEnd::DynCall(ScoreHolder::new("%fp".to_string()).unwrap()),
        5,
        "f",
        Vec::new(),
        &FuncStarts::new(),
        &no_table(),
        &Types::blank_for_testing(),
        &mut counter,
    );
    assert_eq!(
        block_texts(&cmds),
        vec![
            "scoreboard players operation %%tempfuncptr rust = %fp rust",
            "scoreboard players add %%cmdcount rust 15",
            "execute if score %%cmdcount rust < %%CMD_LIMIT rust at @e[tag=next] run function rust:__langcraft_call",
            "execute if score %%cmdcount rust < %%CMD_LIMIT rust run tp @e[tag=next] ~ ~ ~",
            "execute if score %%cmdcount rust >= %%CMD_LIMIT rust positioned -2 1 1 run function rust:__langcraft_call",
            "execute if score %%cmdcount rust >= %%CMD_LIMIT rust at @e[tag=next] run setblock ~ ~ ~ minecraft:air replace",
            "execute if score %%cmdcount rust >= %%CMD_LIMIT rust run setblock -2 1 0 minecraft:redstone_block replace",
            "execute if score %%cmdcount rust >= %%CMD_LIMIT rust run scoreboard players set %%cmdcount rust 0",
        ]
    );
}

#[test]
fn static_call_to_a_known_function() {
    let mut counter = TempCounter { next: 0 };
    let mut starts = FuncStarts::new();
    starts.insert("g".to_string(), FunctionId::new("rust:g"));
    let cmds = compile_block_end(
        &BlockEnd::StaticCall("!FIXUPCALL g".to_string()),
        0,
        "f",
        Vec::new(),
        &starts,
        &no_table(),
        &Types::blank_for_testing(),
        &mut counter,
    );
    let t = block_texts(&cmds);
    assert_eq!(t[0], "scoreboard players add %%cmdcount rust 10");
    assert_eq!(
        t[1],
        "execute if score %%cmdcount rust < %%CMD_LIMIT rust at @e[tag=next] run data modify block ~ ~ ~ Command set value \"function rust:g\""
    );
    assert_eq!(
        t[3],
        "execute if score %%cmdcount rust >= %%CMD_LIMIT rust run data modify block -2 1 1 Command set value \"function rust:g\""
    );
    assert_eq!(t.len(), 7);
}

#[test]
fn conditional_edges_guard_the_hand_off() {
    let mut counter = TempCounter { next: 0 };
    let cmds = compile_block_end(
        &BlockEnd::Normal(Terminator::CondBr {
            condition: Operand::Local { name: bname("c"), ty: IrType::Integer { bits: 1 } },
            true_dest: bname("yes"),
            false_dest: bname("no"),
        }),
        0,
        "f",
        Vec::new(),
        &FuncStarts::new(),
        &no_table(),
        &Types::blank_for_testing(),
        &mut counter,
    );
    let t = block_texts(&cmds);
    assert!(t[1].starts_with("execute if score %%cmdcount rust < %%CMD_LIMIT rust at @e[tag=next] if score %c%0 rust matches 1 run"));
    assert!(t[2].starts_with("execute if score %%cmdcount rust < %%CMD_LIMIT rust at @e[tag=next] unless score %c%0 rust matches 1 run"));
    assert_eq!(t.len(), 1 + 2 + 1 + 2 + 3);
}

#[test]
fn block_kinds_by_number() {
    assert_eq!(McBlock::try_from(3), Ok(McBlock::Andesite));
    assert_eq!(McBlock::try_from(9), Ok(McBlock::RedstoneBlock));
    assert_eq!(McBlock::try_from(10), Err(()));
    assert_eq!(McBlock::try_from(-1), Err(()));
    assert_eq!(McBlock::RedstoneBlock.text(), "minecraft:redstone_block");
    assert_eq!(McBlock::LapisBlock.text(), "minecraft:lapis_block");
    let all = mc_blocks();
    assert_eq!(all.len(), 10);
    for (i, b) in all.iter().enumerate() {
        assert_eq!(McBlock::try_from(i as i32), Ok(*b));
    }
}

#[test]
fn first_block_saves_registers_and_takes_arguments() {
    let mut counter = TempCounter { next: 0 };
    let x = ScoreHolder::new("%x".to_string()).unwrap();
    let sig = FunctionSig {
        name: "f".to_string(),
        parameters: vec![Parameter { name: bname("a"), ty: IrType::Integer { bits: 32 } }],
        is_var_arg: false,
    };
    let block = AbstractBlock {
        needs_prolog: true,
        body: Function { id: FunctionId::new("rust:f"), cmds: vec![assign_lit(x.clone(), 1)] },
        term: BlockEnd::Normal(Terminator::Br { dest: bname("next") }),
        parent: &sig,
    };
    let f = reify_block(
        block,
        &vec![x],
        &FuncStarts::new(),
        &no_table(),
        &Types::blank_for_testing(),
        &mut counter,
    );
    let t = block_texts(&f.cmds);
    // pushes of %a%0, %x and the frame pointer, in the order of their names
    assert_eq!(t[0], "scoreboard players operation %ptr rust = %stackptr rust");
    assert!(t[2].ends_with("run scoreboard players get %a%0 rust"));
    assert!(t[6].ends_with("run scoreboard players get %x rust"));
    assert!(t[10].ends_with("run scoreboard players get %stackbaseptr rust"));
    assert_eq!(t[12], "scoreboard players operation %stackbaseptr rust = %stackptr rust");
    assert_eq!(t[13], "scoreboard players operation %a%0 rust = %param0%0 rust");
    assert_eq!(t[14], "scoreboard players set %x rust 1");
    assert_eq!(t[15], "scoreboard players add %%cmdcount rust 25");
    assert_eq!(id_to_text(&f.id), "rust:f");
}

#[test]
fn later_block_has_no_prolog() {
    let mut counter = TempCounter { next: 0 };
    let sig = FunctionSig { name: "f".to_string(), parameters: Vec::new(), is_var_arg: false };
    let block = AbstractBlock {
        needs_prolog: false,
        body: Function { id: FunctionId::new_sub("rust:f", 1), cmds: Vec::new() },
        term: BlockEnd::Normal(Terminator::Unreachable),
        parent: &sig,
    };
    let f = reify_block(
        block,
        &Vec::new(),
        &FuncStarts::new(),
        &no_table(),
        &Types::blank_for_testing(),
        &mut counter,
    );
    assert_eq!(block_texts(&f.cmds)[0], "# !INTERPRETER: UNREACHABLE");
    assert_eq!(f.cmds.len(), 4);
}
