use langcraft::calls::{compile_memset, setup_arguments};
use langcraft::cir::{Command, ScoreOpKind};
use langcraft::constants::{Constant, GlobalTable};
use langcraft::gep::compile_getelementptr;
use langcraft::layout::{IrType, Types};
use langcraft::locals::LocalName;
use langcraft::memory::{MaybeConst, TempCounter};
use langcraft::operands::{Argument, Operand, as_const_32, as_const_64, eval_maybe_const};
use langcraft::ops::{compile_arithmetic, compile_xor};
use langcraft::render::command_to_text;
use langcraft::shifts::compile_shl;

fn instr_texts(cmds: &[Command]) -> Vec<String> {
    cmds.iter().map(command_to_text).collect()
}

fn int_type(bits: u32) -> IrType {
    IrType::Integer { bits }
}

fn ptr_to(t: IrType) -> IrType {
    IrType::Pointer { pointee: Box::new(t), addr_space: 0 }
}

fn local(name: &str, ty: IrType) -> Operand {
    Operand::Local { name: LocalName::Name(name.to_string()), ty }
}

fn konst(bits: u32, value: u64) -> Operand {
    Operand::Constant { value: Constant::Int { bits, value }, ty: int_type(bits) }
}

fn no_globals() -> GlobalTable {
    GlobalTable { addrs: Vec::new() }
}

fn dest(name: &str) -> LocalName {
    LocalName::Name(name.to_string())
}

#[test]
fn local_operand_is_its_words() {
    let mut counter = TempCounter { next: 0 };
    let m = eval_maybe_const(&local("x", int_type(64)), &no_globals(), &Types::blank_for_testing(), &mut counter);
    match m {
        MaybeConst::NonConst(cmds, holders) => {
            assert!(cmds.is_empty());
            let names: Vec<&str> = holders.iter().map(|h| h.as_str()).collect();
            assert_eq!(names, vec!["%x%0", "%x%1"]);
        }
        MaybeConst::Const(_) => panic!("a local is not a constant"),
    }
    assert_eq!(counter.next, 0);
}

#[test]
fn constant_operand_values() {
    assert_eq!(as_const_64(&konst(64, 17)), Some(17));
    assert_eq!(as_const_64(&konst(32, 17)), None);
    assert_eq!(as_const_32(&konst(32, 5)), Some(5));
    assert_eq!(as_const_32(&local("x", int_type(32))), None);
}

#[test]
fn word_addition() {
    let mut counter = TempCounter { next: 0 };
    let cmds = compile_arithmetic(
        &local("a", int_type(32)),
        &local("b", int_type(32)),
        &dest("c"),
        ScoreOpKind::AddAssign,
        &no_globals(),
        &Types::blank_for_testing(),
        &mut counter,
    );
    assert_eq!(
        instr_texts(&cmds),
        vec![
            "scoreboard players operation %c%0 rust = %a%0 rust",
            "scoreboard players operation %c%0 rust += %b%0 rust",
        ]
    );
}

#[test]
fn word_subtraction_with_a_constant() {
    let mut counter = TempCounter { next: 2 };
    let cmds = compile_arithmetic(
        &local("a", int_type(32)),
        &konst(32, 7),
        &dest("c"),
        ScoreOpKind::SubAssign,
        &no_globals(),
        &Types::blank_for_testing(),
        &mut counter,
    );
    assert_eq!(
        instr_texts(&cmds),
        vec![
            "scoreboard players set %temp2 rust 7",
            "scoreboard players operation %c%0 rust = %a%0 rust",
            "scoreboard players operation %c%0 rust -= %temp2 rust",
        ]
    );
    assert_eq!(counter.next, 3);
}

#[test]
fn doubleword_division_calls_the_intrinsic() {
    let mut counter = TempCounter { next: 0 };
    let cmds = compile_arithmetic(
        &local("a", int_type(64)),
        &local("b", int_type(64)),
        &dest("c"),
        ScoreOpKind::DivAssign,
        &no_globals(),
        &Types::blank_for_testing(),
        &mut counter,
    );
    assert_eq!(
        instr_texts(&cmds),
        vec![
            "scoreboard players operation %param0%0 rust = %a%0 rust",
            "scoreboard players operation %param0%1 rust = %a%1 rust",
            "scoreboard players operation %param1%0 rust = %b%0 rust",
            "scoreboard players operation %param1%1 rust = %b%1 rust",
            "function intrinsic:idiv64",
            "scoreboard players operation %param0%0 rust = %c%0 rust",
            "scoreboard players operation %param0%1 rust = %c%1 rust",
        ]
    );
}

#[test]
fn doubleword_addition_carries() {
    let mut counter = TempCounter { next: 0 };
    let cmds = compile_arithmetic(
        &local("a", int_type(64)),
        &local("b", int_type(64)),
        &dest("c"),
        ScoreOpKind::AddAssign,
        &no_globals(),
        &Types::blank_for_testing(),
        &mut counter,
    );
    let t = instr_texts(&cmds);
    assert_eq!(t[0], "scoreboard players operation %c%1 rust = %a%1 rust");
    assert_eq!(t[1], "scoreboard players operation %c%1 rust += %b%1 rust");
    assert_eq!(t[2], "scoreboard players operation %c%0 rust = %a%0 rust");
    assert_eq!(t[3], "scoreboard players operation %c%0 rust += %b%0 rust");
    assert_eq!(t.len(), 7);
}

#[test]
fn boolean_xor() {
    let mut counter = TempCounter { next: 0 };
    let cmds = compile_xor(
        &local("a", int_type(1)),
        &local("b", int_type(1)),
        dest("d"),
        &no_globals(),
        &Types::blank_for_testing(),
        &mut counter,
    );
    assert_eq!(
        instr_texts(&cmds),
        vec![
            "scoreboard players set %d%0 rust 0",
            "execute if score %a%0 rust matches 1 if score %b%0 rust matches 0 run scoreboard players set %d%0 rust 1",
            "execute if score %a%0 rust matches 0 if score %b%0 rust matches 1 run scoreboard players set %d%0 rust 1",
        ]
    );
}

#[test]
fn word_shift_left_by_constant_multiplies() {
    let mut counter = TempCounter { next: 0 };
    let cmds = compile_shl(
        &local("x", int_type(32)),
        &konst(32, 3),
        &dest("d"),
        &no_globals(),
        &Types::blank_for_testing(),
        &mut counter,
    );
    assert_eq!(
        instr_texts(&cmds),
        vec![
            "scoreboard players operation %d%0 rust = %x%0 rust",
            "scoreboard players operation %d%0 rust *= %%8 rust",
        ]
    );
}

#[test]
fn doubleword_shift_left_by_thirty_two_moves_the_word() {
    let mut counter = TempCounter { next: 0 };
    let cmds = compile_shl(
        &local("x", int_type(64)),
        &konst(64, 32),
        &dest("d"),
        &no_globals(),
        &Types::blank_for_testing(),
        &mut counter,
    );
    assert_eq!(
        instr_texts(&cmds),
        vec![
            "scoreboard players set %d%0 rust 0",
            "scoreboard players operation %d%1 rust = %x%0 rust",
        ]
    );
}

#[test]
fn memset_passes_pointer_value_and_length() {
    let mut counter = TempCounter { next: 0 };
    let args = vec![
        Argument { value: local("p", ptr_to(int_type(8))), align: None },
        Argument { value: local("v", int_type(8)), align: None },
        Argument { value: konst(64, 16), align: None },
        Argument { value: konst(1, 0), align: None },
    ];
    let cmds = compile_memset(&args, &no_globals(), &Types::blank_for_testing(), &mut counter);
    assert_eq!(
        instr_texts(&cmds),
        vec![
            "scoreboard players set %temp0 rust 16",
            "scoreboard players operation %param0%0 rust = %p%0 rust",
            "scoreboard players operation %param1%0 rust = %v%0 rust",
            "scoreboard players operation %param2%0 rust = %temp0 rust",
            "function intrinsic:memset",
        ]
    );
}

#[test]
fn arguments_fill_the_parameters() {
    let mut counter = TempCounter { next: 0 };
    let args = vec![
        Argument { value: konst(32, 5), align: None },
        Argument { value: local("y", int_type(64)), align: None },
    ];
    let cmds = setup_arguments(&args, &no_globals(), &Types::blank_for_testing(), &mut counter);
    assert_eq!(
        instr_texts(&cmds),
        vec![
            "scoreboard players set %param0%0 rust 5",
            "scoreboard players operation %param1%0 rust = %y%0 rust",
            "scoreboard players operation %param1%1 rust = %y%1 rust",
        ]
    );
}

#[test]
fn element_address_with_constant_index() {
    let mut counter = TempCounter { next: 0 };
    let cmds = compile_getelementptr(
        &local("p", ptr_to(int_type(32))),
        &vec![konst(32, 3)],
        &dest("q"),
        "p",
        "[3]",
        &no_globals(),
        &Types::blank_for_testing(),
        &mut counter,
    );
    assert_eq!(
        instr_texts(&cmds),
        vec![
            "# getelementptr\naddress: p\nindices: [3]\ndest: %q%0",
            "scoreboard players operation %q%0 rust = %p%0 rust",
            "scoreboard players add %q%0 rust 12",
        ]
    );
}

#[test]
fn element_address_with_dynamic_index() {
    let mut counter = TempCounter { next: 0 };
    let cmds = compile_getelementptr(
        &local("p", ptr_to(int_type(16))),
        &vec![local("i", int_type(32))],
        &dest("q"),
        "p",
        "[i]",
        &no_globals(),
        &Types::blank_for_testing(),
        &mut counter,
    );
    assert_eq!(
        instr_texts(&cmds)[1..].to_vec(),
        vec![
            "scoreboard players operation %q%0 rust = %p%0 rust",
            "scoreboard players add %q%0 rust 0",
            "scoreboard players operation %q%0 rust += %i%0 rust",
            "scoreboard players operation %q%0 rust += %i%0 rust",
        ]
    );
}

#[test]
fn field_address_in_a_structure() {
    let mut counter = TempCounter { next: 0 };
    let pair = IrType::Struct { element_types: vec![int_type(8), int_type(32)], is_packed: false };
    let cmds = compile_getelementptr(
        &local("s", ptr_to(pair)),
        &vec![konst(32, 1), konst(32, 1)],
        &dest("f"),
        "s",
        "[1, 1]",
        &no_globals(),
        &Types::blank_for_testing(),
        &mut counter,
    );
    // one whole structure (eight bytes) and then the second field (at four)
    assert_eq!(instr_texts(&cmds)[2], "scoreboard players add %f%0 rust 12");
}
