use langcraft::cir::Command;
use langcraft::constants::{Constant, GlobalTable};
use langcraft::layout::{IrType, Types};
use langcraft::locals::LocalName;
use langcraft::memops::{compile_load, compile_store};
use langcraft::memory::TempCounter;
use langcraft::operands::Operand;
use langcraft::render::command_to_text;

fn mem_texts(cmds: &[Command]) -> Vec<String> {
    cmds.iter().map(command_to_text).collect()
}

fn mem_local(name: &str, ty: IrType) -> Operand {
    Operand::Local { name: LocalName::Name(name.to_string()), ty }
}

fn mem_ptr(t: IrType) -> IrType {
    IrType::Pointer { pointee: Box::new(t), addr_space: 0 }
}

fn mem_table() -> GlobalTable {
    GlobalTable { addrs: Vec::new() }
}

#[test]
fn aligned_word_store_asserts_alignment() {
    let mut counter = TempCounter { next: 0 };
    let cmds = compile_store(
        &mem_local("p", mem_ptr(IrType::Integer { bits: 32 })),
        &mem_local("v", IrType::Integer { bits: 32 }),
        4,
        &mem_table(),
        &Types::blank_for_testing(),
        &mut counter,
    );
    let t = mem_texts(&cmds);
    assert_eq!(t[0], "scoreboard players operation %temp0 rust = %p%0 rust");
    assert_eq!(t[1], "scoreboard players operation %temp0 rust %= %%4 rust");
    assert_eq!(t[2], "# !INTERPRETER: ASSERT if score %temp0 rust matches 0");
    assert_eq!(t[3], "scoreboard players operation %ptr rust = %p%0 rust");
    assert_eq!(t[4], "scoreboard players add %ptr rust 0");
    assert_eq!(t[5], "function intrinsic:setptr");
    assert!(t[6].ends_with("run scoreboard players get %v%0 rust"));
    assert_eq!(t.len(), 7);
    assert_eq!(counter.next, 1);
}

#[test]
fn constant_store_writes_the_value() {
    let mut counter = TempCounter { next: 0 };
    let cmds = compile_store(
        &mem_local("p", mem_ptr(IrType::Integer { bits: 32 })),
        &Operand::Constant { value: Constant::Int { bits: 32, value: 7 }, ty: IrType::Integer { bits: 32 } },
        4,
        &mem_table(),
        &Types::blank_for_testing(),
        &mut counter,
    );
    let t = mem_texts(&cmds);
    assert_eq!(t.len(), 7);
    assert!(t[6].ends_with("RecordItem.tag.Memory set value 7"));
}

#[test]
fn byte_store_uses_the_intrinsic() {
    let mut counter = TempCounter { next: 0 };
    let cmds = compile_store(
        &mem_local("p", mem_ptr(IrType::Integer { bits: 8 })),
        &mem_local("v", IrType::Integer { bits: 8 }),
        1,
        &mem_table(),
        &Types::blank_for_testing(),
        &mut counter,
    );
    assert_eq!(
        mem_texts(&cmds),
        vec![
            "scoreboard players operation %ptr rust = %p%0 rust",
            "scoreboard players operation %param2%0 rust = %v%0 rust",
            "function intrinsic:store_byte",
        ]
    );
}

#[test]
fn unaligned_doubleword_store() {
    let mut counter = TempCounter { next: 0 };
    let cmds = compile_store(
        &mem_local("p", mem_ptr(IrType::Integer { bits: 64 })),
        &mem_local("v", IrType::Integer { bits: 64 }),
        1,
        &mem_table(),
        &Types::blank_for_testing(),
        &mut counter,
    );
    assert_eq!(
        mem_texts(&cmds),
        vec![
            "scoreboard players operation %ptr rust = %p%0 rust",
            "scoreboard players add %ptr rust 0",
            "scoreboard players operation %param0%0 rust = %v%0 rust",
            "function intrinsic:store_word_unaligned",
            "scoreboard players operation %ptr rust = %p%0 rust",
            "scoreboard players add %ptr rust 4",
            "scoreboard players operation %param0%0 rust = %v%1 rust",
            "function intrinsic:store_word_unaligned",
        ]
    );
}

#[test]
fn aligned_word_load() {
    let mut counter = TempCounter { next: 0 };
    let cmds = compile_load(
        &LocalName::Name("d".to_string()),
        &mem_local("p", mem_ptr(IrType::Integer { bits: 32 })),
        4,
        &mem_table(),
        &Types::blank_for_testing(),
        &mut counter,
    );
    let t = mem_texts(&cmds);
    assert_eq!(t[0], "scoreboard players operation %ptr rust = %p%0 rust");
    assert_eq!(t[1], "scoreboard players add %ptr rust 0");
    assert_eq!(t[2], "function intrinsic:setptr");
    assert!(t[3].contains("store result score %d%0 rust"));
    assert_eq!(t.len(), 4);
}

#[test]
fn unaligned_halfword_load() {
    let mut counter = TempCounter { next: 0 };
    let cmds = compile_load(
        &LocalName::Name("d".to_string()),
        &mem_local("p", mem_ptr(IrType::Integer { bits: 16 })),
        1,
        &mem_table(),
        &Types::blank_for_testing(),
        &mut counter,
    );
    assert_eq!(
        mem_texts(&cmds),
        vec![
            "scoreboard players operation %ptr rust = %p%0 rust",
            "function intrinsic:load_halfword_unaligned",
            "scoreboard players operation %d%0 rust = %return%0 rust",
        ]
    );
}

#[test]
fn byte_load() {
    let mut counter = TempCounter { next: 0 };
    let cmds = compile_load(
        &LocalName::Name("d".to_string()),
        &mem_local("p", mem_ptr(IrType::Integer { bits: 8 })),
        1,
        &mem_table(),
        &Types::blank_for_testing(),
        &mut counter,
    );
    assert_eq!(
        mem_texts(&cmds),
        vec![
            "scoreboard players operation %ptr rust = %p%0 rust",
            "function intrinsic:load_byte",
            "scoreboard players operation %d%0 rust = %param0%0 rust",
        ]
    );
}
