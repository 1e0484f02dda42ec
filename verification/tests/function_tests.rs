use langcraft::blocks::{BlockEnd, FunctionSig, Terminator};
use langcraft::cir::{Command, Function, FunctionId};
use langcraft::constants::GlobalTable;
use langcraft::function::{BasicBlock, IrFunction, compile_function};
use langcraft::instrs::{Binary, Instruction};
use langcraft::layout::{IrType, Types};
use langcraft::locals::LocalName;
use langcraft::memory::TempCounter;
use langcraft::module::{IrModule, compile_module};
use langcraft::operands::Operand;
use langcraft::program::BuildOptions;
use langcraft::render::{command_to_text, id_to_text};

fn texts(cmds: &[Command]) -> Vec<String> {
    cmds.iter().map(command_to_text).collect()
}

fn int_type(bits: u32) -> IrType {
    IrType::Integer { bits }
}

fn local(name: &str, ty: IrType) -> Operand {
    Operand::Local { name: LocalName::Name(name.to_string()), ty }
}

fn name(n: &str) -> LocalName {
    LocalName::Name(n.to_string())
}

fn sig(n: &str) -> FunctionSig {
    FunctionSig { name: n.to_string(), parameters: Vec::new(), is_var_arg: false }
}

fn adding_block() -> BasicBlock {
    BasicBlock {
        name: name("bb0"),
        instrs: vec![Instruction::Add(Binary {
            operand0: local("a", int_type(32)),
            operand1: local("b", int_type(32)),
            dest: name("c"),
        })],
        term: Terminator::Ret { operand: None, operand_text: String::new() },
    }
}

fn options(trace: bool) -> BuildOptions {
    BuildOptions { trace_bbs: trace, entry: "main".to_string() }
}

#[test]
fn one_block_function_records_its_position() {
    let s = sig("f");
    let mut counter = TempCounter { next: 0 };
    let (blocks, clobbers) = compile_function(
        &s,
        vec![adding_block()],
        &GlobalTable { addrs: Vec::new() },
        &Types::blank_for_testing(),
        &options(false),
        &mut counter,
    );
    assert_eq!(blocks.len(), 1);
    let b = &blocks[0];
    assert!(b.needs_prolog);
    assert_eq!(id_to_text(&b.body.id), "rust:f/bb0");
    assert_eq!(
        texts(&b.body.cmds),
        vec![
            "scoreboard players operation %c%0 rust = %a%0 rust",
            "scoreboard players operation %c%0 rust += %b%0 rust",
            "scoreboard players set %phi rust 0",
        ]
    );
    assert!(matches!(b.term, BlockEnd::Normal(Terminator::Ret { .. })));
    let names: Vec<&str> = clobbers.iter().map(|h| h.as_str()).collect();
    assert_eq!(names, vec!["%a%0", "%b%0", "%c%0", "%phi"]);
}

#[test]
fn traced_blocks_announce_themselves() {
    let s = sig("f");
    let mut counter = TempCounter { next: 0 };
    let (blocks, _) = compile_function(
        &s,
        vec![adding_block()],
        &GlobalTable { addrs: Vec::new() },
        &Types::blank_for_testing(),
        &options(true),
        &mut counter,
    );
    assert_eq!(texts(&blocks[0].body.cmds)[0], "tellraw @a [{\"text\":\"entered block rust:f/bb0\"}]");
}

#[test]
fn second_basic_block_records_position_one() {
    let s = sig("f");
    let mut counter = TempCounter { next: 0 };
    let second = BasicBlock {
        name: name("bb1"),
        instrs: Vec::new(),
        term: Terminator::Ret { operand: None, operand_text: String::new() },
    };
    let (blocks, _) = compile_function(
        &s,
        vec![adding_block(), second],
        &GlobalTable { addrs: Vec::new() },
        &Types::blank_for_testing(),
        &options(false),
        &mut counter,
    );
    assert_eq!(blocks.len(), 2);
    assert!(!blocks[1].needs_prolog);
    assert_eq!(id_to_text(&blocks[1].body.id), "rust:f/bb1");
    assert_eq!(texts(&blocks[1].body.cmds), vec!["scoreboard players set %phi rust 1"]);
}

#[test]
fn module_ends_with_init_on_tick_and_run() {
    let module = IrModule {
        functions: vec![IrFunction { sig: sig("main"), basic_blocks: vec![adding_block()] }],
        global_vars: Vec::new(),
        global_aliases: Vec::new(),
        types: Types::blank_for_testing(),
    };
    let on_tick = Function { id: FunctionId::new("__langcraft_on_tick"), cmds: Vec::new() };
    let mut counter = TempCounter { next: 0 };
    let funcs = compile_module(module, &options(false), Vec::new(), on_tick, &vec![Some(5); 3], &mut counter);
    let n = funcs.len();
    assert_eq!(n, 6);
    assert_eq!(id_to_text(&funcs[n - 3].id), "init");
    assert_eq!(id_to_text(&funcs[n - 2].id), "__langcraft_on_tick");
    assert_eq!(id_to_text(&funcs[n - 1].id), "run");
    for f in funcs.iter() {
        for c in f.cmds.iter() {
            let t = command_to_text(c);
            assert!(!t.contains("%%fixup"), "{}", t);
            assert!(!t.contains("!FIXUP"), "{}", t);
        }
    }
}
