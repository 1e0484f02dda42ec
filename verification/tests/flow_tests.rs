use langcraft::aggregates::{
    compile_extract_element, compile_extract_value, compile_insert_element, compile_insert_value,
};
use langcraft::call::{CallTarget, compile_call};
use langcraft::cir::Command;
use langcraft::constants::{Constant, GlobalTable};
use langcraft::flow::{PhiIncoming, compile_landing_pad, compile_phi};
use langcraft::fp_ops::{FpConversion, compile_fp_conversion};
use langcraft::instrs::{Binary, Instruction, compile_instr};
use langcraft::layout::{FpKind, IrType, Types};
use langcraft::locals::LocalName;
use langcraft::memory::TempCounter;
use langcraft::operands::{Argument, Operand};
use langcraft::render::command_to_text;
use langcraft::shuffle::compile_shuffle_vector;

fn texts(cmds: &[Command]) -> Vec<String> {
    cmds.iter().map(command_to_text).collect()
}

fn int_type(bits: u32) -> IrType {
    IrType::Integer { bits }
}

fn vector_of(bits: u32, n: usize) -> IrType {
    IrType::Vector { element_type: Box::new(int_type(bits)), num_elements: n }
}

fn local(name: &str, ty: IrType) -> Operand {
    Operand::Local { name: LocalName::Name(name.to_string()), ty }
}

fn konst(bits: u32, value: u64) -> Operand {
    Operand::Constant { value: Constant::Int { bits, value }, ty: int_type(bits) }
}

fn no_globals() -> GlobalTable {
    GlobalTable { addrs: Vec::new() }
}

fn dest(name: &str) -> LocalName {
    LocalName::Name(name.to_string())
}

fn three_field_struct() -> IrType {
    IrType::Struct { element_types: vec![int_type(32), int_type(32), int_type(64)], is_packed: false }
}

#[test]
fn extract_word_field() {
    let mut counter = TempCounter { next: 0 };
    let cmds = compile_extract_value(
        &local("s", three_field_struct()),
        &vec![1],
        dest("d"),
        &no_globals(),
        &Types::blank_for_testing(),
        &mut counter,
    );
    assert_eq!(texts(&cmds), vec!["scoreboard players operation %d%0 rust = %s%1 rust"]);
}

#[test]
fn extract_doubleword_field() {
    let mut counter = TempCounter { next: 0 };
    let cmds = compile_extract_value(
        &local("s", three_field_struct()),
        &vec![2],
        dest("d"),
        &no_globals(),
        &Types::blank_for_testing(),
        &mut counter,
    );
    assert_eq!(
        texts(&cmds),
        vec![
            "scoreboard players operation %d%0 rust = %s%2 rust",
            "scoreboard players operation %d%1 rust = %s%3 rust",
        ]
    );
}

#[test]
fn insert_word_field_copies_then_overwrites() {
    let mut counter = TempCounter { next: 0 };
    let pair = IrType::Struct { element_types: vec![int_type(32), int_type(32)], is_packed: false };
    let cmds = compile_insert_value(
        &local("s", pair),
        &local("e", int_type(32)),
        &vec![1],
        dest("d"),
        &no_globals(),
        &Types::blank_for_testing(),
        &mut counter,
    );
    assert_eq!(
        texts(&cmds),
        vec![
            "scoreboard players operation %d%0 rust = %s%0 rust",
            "scoreboard players operation %d%1 rust = %s%1 rust",
            "scoreboard players operation %d%1 rust = %e%0 rust",
        ]
    );
}

#[test]
fn extract_word_element() {
    let mut counter = TempCounter { next: 0 };
    let cmds = compile_extract_element(
        &local("v", vector_of(32, 4)),
        &konst(32, 2),
        dest("d"),
        &no_globals(),
        &Types::blank_for_testing(),
        &mut counter,
    );
    assert_eq!(texts(&cmds), vec!["scoreboard players operation %d%0 rust = %v%2 rust"]);
}

#[test]
fn extract_bit_element_divides_down_to_its_byte() {
    let mut counter = TempCounter { next: 0 };
    let cmds = compile_extract_element(
        &local("v", vector_of(1, 4)),
        &konst(32, 2),
        dest("d"),
        &no_globals(),
        &Types::blank_for_testing(),
        &mut counter,
    );
    assert_eq!(
        texts(&cmds),
        vec![
            "scoreboard players operation %d%0 rust = %v%0 rust",
            "scoreboard players operation %d%0 rust /= %%65536 rust",
        ]
    );
}

#[test]
fn insert_word_element() {
    let mut counter = TempCounter { next: 0 };
    let cmds = compile_insert_element(
        &local("v", vector_of(32, 2)),
        &local("e", int_type(32)),
        &konst(32, 1),
        dest("d"),
        &no_globals(),
        &Types::blank_for_testing(),
        &mut counter,
    );
    assert_eq!(
        texts(&cmds),
        vec![
            "scoreboard players operation %d%0 rust = %v%0 rust",
            "scoreboard players operation %d%1 rust = %e%0 rust",
        ]
    );
}

#[test]
fn shuffle_takes_high_indices_from_the_second_vector() {
    let mut counter = TempCounter { next: 0 };
    let mask = Constant::Vector(vec![
        Constant::Int { bits: 32, value: 1 },
        Constant::Int { bits: 32, value: 3 },
    ]);
    let cmds = compile_shuffle_vector(
        &local("a", vector_of(32, 2)),
        &local("b", vector_of(32, 2)),
        &mask,
        dest("d"),
        &no_globals(),
        &Types::blank_for_testing(),
        &mut counter,
    );
    assert_eq!(
        texts(&cmds),
        vec![
            "scoreboard players operation %d%0 rust = %a%1 rust",
            "scoreboard players operation %d%1 rust = %b%1 rust",
        ]
    );
}

#[test]
fn phi_copies_by_the_incoming_block() {
    let mut counter = TempCounter { next: 0 };
    let incoming = vec![
        PhiIncoming { value: local("a", int_type(32)), block: dest("bb1"), value_text: "a".to_string() },
        PhiIncoming { value: konst(32, 7), block: dest("bb2"), value_text: "7".to_string() },
    ];
    let blocks = vec![dest("bb0"), dest("bb1"), dest("bb2")];
    let cmds = compile_phi(
        &incoming,
        &int_type(32),
        dest("d"),
        &blocks,
        &no_globals(),
        &Types::blank_for_testing(),
        &mut counter,
    );
    assert_eq!(
        texts(&cmds),
        vec![
            "# block %bb1\nvalue a",
            "execute if score %phi rust matches 1 run scoreboard players operation %d%0 rust = %a%0 rust",
            "# block %bb2\nvalue 7",
            "scoreboard players set %temp0 rust 7",
            "execute if score %phi rust matches 2 run scoreboard players operation %d%0 rust = %temp0 rust",
        ]
    );
    assert_eq!(counter.next, 1);
}

#[test]
fn landing_pad_reads_the_exception_registers() {
    let result = IrType::Struct {
        element_types: vec![
            IrType::Pointer { pointee: Box::new(int_type(8)), addr_space: 0 },
            int_type(32),
        ],
        is_packed: false,
    };
    let cmds = compile_landing_pad(&result, dest("lp"));
    assert_eq!(
        texts(&cmds),
        vec![
            "scoreboard players operation %lp%0 rust = %except%ptr rust",
            "scoreboard players operation %lp%1 rust = %except%type rust",
        ]
    );
    assert!(compile_landing_pad(&int_type(32), dest("lp")).is_empty());
}

#[test]
fn double_to_single_goes_through_the_intrinsic() {
    let mut counter = TempCounter { next: 0 };
    let cmds = compile_fp_conversion(
        FpConversion::Truncate,
        &local("x", IrType::FP(FpKind::Double)),
        &IrType::FP(FpKind::Single),
        dest("d"),
        &no_globals(),
        &Types::blank_for_testing(),
        &mut counter,
    );
    assert_eq!(
        texts(&cmds),
        vec![
            "scoreboard players operation %param0%0 rust = %x%0 rust",
            "scoreboard players operation %param0%1 rust = %x%1 rust",
            "function intrinsic:dtos",
            "scoreboard players operation %d%0 rust = %param0%0 rust",
        ]
    );
}

#[test]
fn assumption_becomes_an_interpreter_assertion() {
    let mut counter = TempCounter { next: 0 };
    let target = CallTarget::Static { name: "llvm.assume".to_string(), result_type: IrType::Void, is_var_arg: false };
    let args = vec![Argument { value: local("c", int_type(1)), align: None }];
    let (before, after) = compile_call(&target, &args, None, &no_globals(), &Types::blank_for_testing(), &mut counter);
    assert_eq!(texts(&before), vec!["# !INTERPRETER: ASSERT if score %c%0 rust matches 1"]);
    assert!(after.is_none());
}

#[test]
fn ordinary_call_pushes_the_return_address_and_reads_the_result() {
    let mut counter = TempCounter { next: 0 };
    let target = CallTarget::Static { name: "foo".to_string(), result_type: int_type(32), is_var_arg: false };
    let args = vec![Argument { value: local("a", int_type(32)), align: None }];
    let (before, after) =
        compile_call(&target, &args, Some(dest("r")), &no_globals(), &Types::blank_for_testing(), &mut counter);
    assert_eq!(
        texts(&before),
        vec![
            "# Calling foo",
            "scoreboard players operation %param0%0 rust = %a%0 rust",
            "scoreboard players operation %ptr rust = %stackptr rust",
            "function intrinsic:setptr",
            "execute at @e[tag=ptr] store result block ~ ~ ~ RecordItem.tag.Memory int 1 run scoreboard players get %%fixup_return_addr rust",
            "scoreboard players add %stackptr rust 4",
            "# !FIXUPCALL foo",
        ]
    );
    let after = after.expect("an ordinary call continues in another block");
    assert_eq!(texts(&after), vec!["scoreboard players operation %r%0 rust = %return%0 rust"]);
}

#[test]
fn inline_assembly_gives_nothing() {
    let mut counter = TempCounter { next: 0 };
    let (before, after) = compile_call(
        &CallTarget::InlineAsm,
        &Vec::new(),
        None,
        &no_globals(),
        &Types::blank_for_testing(),
        &mut counter,
    );
    assert!(before.is_empty());
    assert!(after.is_none());
}

#[test]
fn instruction_dispatch_reaches_the_arithmetic() {
    let mut counter = TempCounter { next: 0 };
    let instr = Instruction::Add(Binary {
        operand0: local("a", int_type(32)),
        operand1: local("b", int_type(32)),
        dest: dest("c"),
    });
    let (before, after) =
        compile_instr(&instr, &Vec::new(), &no_globals(), &Types::blank_for_testing(), &mut counter);
    assert_eq!(
        texts(&before),
        vec![
            "scoreboard players operation %c%0 rust = %a%0 rust",
            "scoreboard players operation %c%0 rust += %b%0 rust",
        ]
    );
    assert!(after.is_none());
}

#[test]
fn unsigned_remainder_by_dispatch() {
    let mut counter = TempCounter { next: 0 };
    let instr = Instruction::URem(Binary {
        operand0: local("a", int_type(32)),
        operand1: local("b", int_type(32)),
        dest: dest("c"),
    });
    let (before, _) = compile_instr(&instr, &Vec::new(), &no_globals(), &Types::blank_for_testing(), &mut counter);
    assert_eq!(
        texts(&before),
        vec![
            "# !INTERPRETER: ASSERT unless score %a%0 rust matches ..-1",
            "# !INTERPRETER: ASSERT unless score %b%0 rust matches ..-1",
            "scoreboard players operation %c%0 rust = %a%0 rust",
            "scoreboard players operation %c%0 rust %= %b%0 rust",
        ]
    );
}

#[test]
fn unsupported_instructions_give_nothing() {
    let mut counter = TempCounter { next: 3 };
    for instr in [Instruction::CompareExchange, Instruction::FAdd, Instruction::FSub, Instruction::Other] {
        let (before, after) =
            compile_instr(&instr, &Vec::new(), &no_globals(), &Types::blank_for_testing(), &mut counter);
        assert!(before.is_empty());
        assert!(after.is_none());
    }
    assert_eq!(counter.next, 3);
}
