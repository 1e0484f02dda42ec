use langcraft::arith::IntPredicate;
use langcraft::casts::{compile_and_or, compile_select, compile_trunc};
use langcraft::cir::Command;
use langcraft::compare::compile_int_compare;
use langcraft::constants::{Constant, GlobalTable};
use langcraft::division::compile_unsigned_div;
use langcraft::extend::{compile_sext, compile_zext};
use langcraft::layout::{IrType, Types};
use langcraft::locals::LocalName;
use langcraft::memory::TempCounter;
use langcraft::operands::Operand;
use langcraft::ops::BitOp;
use langcraft::render::command_to_text;

fn texts(cmds: &[Command]) -> Vec<String> {
    cmds.iter().map(command_to_text).collect()
}

fn int_type(bits: u32) -> IrType {
    IrType::Integer { bits }
}

fn local(name: &str, ty: IrType) -> Operand {
    Operand::Local { name: LocalName::Name(name.to_string()), ty }
}

fn konst(bits: u32, value: u64) -> Operand {
    Operand::Constant { value: Constant::Int { bits, value }, ty: int_type(bits) }
}

fn no_globals() -> GlobalTable {
    GlobalTable { addrs: Vec::new() }
}

fn dest(name: &str) -> LocalName {
    LocalName::Name(name.to_string())
}

#[test]
fn select_picks_by_the_condition() {
    let mut counter = TempCounter { next: 0 };
    let cmds = compile_select(
        &local("c", int_type(1)),
        &local("a", int_type(32)),
        &konst(32, 5),
        dest("d"),
        &no_globals(),
        &Types::blank_for_testing(),
        &mut counter,
    );
    assert_eq!(
        texts(&cmds),
        vec![
            "scoreboard players set %temp0 rust 5",
            "execute if score %c%0 rust matches 1 run scoreboard players operation %d%0 rust = %a%0 rust",
            "execute unless score %c%0 rust matches 1 run scoreboard players operation %d%0 rust = %temp0 rust",
        ]
    );
    assert_eq!(counter.next, 1);
}

#[test]
fn trunc_doubleword_to_word_keeps_the_low_word() {
    let mut counter = TempCounter { next: 0 };
    let cmds = compile_trunc(
        &local("x", int_type(64)),
        &int_type(32),
        dest("d"),
        &no_globals(),
        &Types::blank_for_testing(),
        &mut counter,
    );
    assert_eq!(texts(&cmds), vec!["scoreboard players operation %d%0 rust = %x%0 rust"]);
}

#[test]
fn trunc_to_a_byte_takes_the_remainder() {
    let mut counter = TempCounter { next: 0 };
    let cmds = compile_trunc(
        &local("x", int_type(32)),
        &int_type(8),
        dest("d"),
        &no_globals(),
        &Types::blank_for_testing(),
        &mut counter,
    );
    assert_eq!(
        texts(&cmds),
        vec![
            "scoreboard players operation %d%0 rust = %x%0 rust",
            "scoreboard players operation %d%0 rust %= %%256 rust",
        ]
    );
}

#[test]
fn trunc_to_forty_eight_bits_masks_the_high_word() {
    let mut counter = TempCounter { next: 0 };
    let cmds = compile_trunc(
        &local("x", int_type(64)),
        &int_type(48),
        dest("d"),
        &no_globals(),
        &Types::blank_for_testing(),
        &mut counter,
    );
    assert_eq!(
        texts(&cmds),
        vec![
            "scoreboard players operation %d%0 rust = %x%0 rust",
            "scoreboard players operation %d%1 rust = %x%1 rust",
            "scoreboard players operation %d%1 rust %= %%65536 rust",
        ]
    );
}

#[test]
fn zext_byte_to_doubleword() {
    let mut counter = TempCounter { next: 0 };
    let cmds = compile_zext(
        &local("x", int_type(8)),
        &int_type(64),
        dest("d"),
        &no_globals(),
        &Types::blank_for_testing(),
        &mut counter,
    );
    assert_eq!(
        texts(&cmds),
        vec![
            "scoreboard players operation %d%0 rust = %x%0 rust",
            "scoreboard players operation %d%0 rust %= %%256 rust",
            "scoreboard players set %d%1 rust 0",
        ]
    );
}

#[test]
fn zext_word_to_doubleword_clears_the_high_word() {
    let mut counter = TempCounter { next: 0 };
    let cmds = compile_zext(
        &local("x", int_type(32)),
        &int_type(64),
        dest("d"),
        &no_globals(),
        &Types::blank_for_testing(),
        &mut counter,
    );
    assert_eq!(
        texts(&cmds),
        vec![
            "scoreboard players operation %d%0 rust = %x%0 rust",
            "scoreboard players set %d%1 rust 0",
        ]
    );
}

#[test]
fn zext_forty_eight_bits_masks_the_high_word() {
    let mut counter = TempCounter { next: 0 };
    let cmds = compile_zext(
        &local("x", int_type(48)),
        &int_type(64),
        dest("d"),
        &no_globals(),
        &Types::blank_for_testing(),
        &mut counter,
    );
    assert_eq!(
        texts(&cmds),
        vec![
            "scoreboard players operation %d%0 rust = %x%0 rust",
            "scoreboard players operation %d%1 rust = %x%1 rust",
            "scoreboard players operation %d%1 rust %= %%65536 rust",
        ]
    );
}

#[test]
fn sext_byte_to_word() {
    let mut counter = TempCounter { next: 0 };
    let cmds = compile_sext(
        &local("x", int_type(8)),
        &int_type(32),
        dest("d"),
        &no_globals(),
        &Types::blank_for_testing(),
        &mut counter,
    );
    assert_eq!(
        texts(&cmds),
        vec![
            "scoreboard players operation %d%0 rust = %x%0 rust",
            "scoreboard players operation %d%0 rust %= %%256 rust",
            "execute if score %d%0 rust matches 128..255 run scoreboard players remove %d%0 rust 256",
        ]
    );
}

#[test]
fn sext_bool_to_word() {
    let mut counter = TempCounter { next: 0 };
    let cmds = compile_sext(
        &local("x", int_type(1)),
        &int_type(32),
        dest("d"),
        &no_globals(),
        &Types::blank_for_testing(),
        &mut counter,
    );
    assert_eq!(
        texts(&cmds),
        vec![
            "execute if score %x%0 rust matches 1 run scoreboard players set %d%0 rust -1",
            "execute unless score %x%0 rust matches 1 run scoreboard players set %d%0 rust 0",
        ]
    );
}

#[test]
fn sext_word_to_doubleword_fills_the_high_word() {
    let mut counter = TempCounter { next: 0 };
    let cmds = compile_sext(
        &local("x", int_type(32)),
        &int_type(64),
        dest("d"),
        &no_globals(),
        &Types::blank_for_testing(),
        &mut counter,
    );
    assert_eq!(
        texts(&cmds),
        vec![
            "scoreboard players operation %d%0 rust = %x%0 rust",
            "scoreboard players set %d%1 rust 0",
            "execute if score %d%0 rust matches ..-1 run scoreboard players set %d%1 rust -1",
        ]
    );
}

#[test]
fn bool_or_clears_only_when_both_are_zero() {
    let mut counter = TempCounter { next: 0 };
    let cmds = compile_and_or(
        BitOp::Or,
        &local("a", int_type(1)),
        &local("b", int_type(1)),
        dest("d"),
        &no_globals(),
        &Types::blank_for_testing(),
        &mut counter,
    );
    assert_eq!(
        texts(&cmds),
        vec![
            "scoreboard players set %d%0 rust 1",
            "execute if score %a%0 rust matches 0 if score %b%0 rust matches 0 run scoreboard players set %d%0 rust 0",
        ]
    );
}

#[test]
fn word_equality_stores_the_success() {
    let mut counter = TempCounter { next: 0 };
    let cmds = compile_int_compare(
        IntPredicate::EQ,
        &local("a", int_type(32)),
        &local("b", int_type(32)),
        dest("d"),
        &no_globals(),
        &Types::blank_for_testing(),
        &mut counter,
    );
    assert_eq!(
        texts(&cmds),
        vec!["execute store success score %d%0 rust if score %a%0 rust = %b%0 rust"]
    );
}

#[test]
fn word_inequality_inverts_the_test() {
    let mut counter = TempCounter { next: 0 };
    let cmds = compile_int_compare(
        IntPredicate::NE,
        &local("a", int_type(32)),
        &local("b", int_type(32)),
        dest("d"),
        &no_globals(),
        &Types::blank_for_testing(),
        &mut counter,
    );
    assert_eq!(
        texts(&cmds),
        vec!["execute store success score %d%0 rust unless score %a%0 rust = %b%0 rust"]
    );
}

#[test]
fn doubleword_equality_tests_both_words() {
    let mut counter = TempCounter { next: 0 };
    let cmds = compile_int_compare(
        IntPredicate::EQ,
        &local("a", int_type(64)),
        &local("b", int_type(64)),
        dest("d"),
        &no_globals(),
        &Types::blank_for_testing(),
        &mut counter,
    );
    assert_eq!(
        texts(&cmds),
        vec![
            "scoreboard players set %d%0 rust 0",
            "execute if score %a%0 rust = %b%0 rust if score %a%1 rust = %b%1 rust run scoreboard players set %d%0 rust 1",
        ]
    );
}

#[test]
fn unsigned_less_than_covers_the_three_sign_cases() {
    let mut counter = TempCounter { next: 0 };
    let cmds = compile_int_compare(
        IntPredicate::ULT,
        &local("a", int_type(32)),
        &local("b", int_type(32)),
        dest("d"),
        &no_globals(),
        &Types::blank_for_testing(),
        &mut counter,
    );
    assert_eq!(
        texts(&cmds),
        vec![
            "scoreboard players set %d%0 rust 0",
            "execute if score %a%0 rust matches 0.. if score %b%0 rust matches 0.. if score %a%0 rust < %b%0 rust run scoreboard players set %d%0 rust 1",
            "execute if score %a%0 rust matches ..-1 if score %b%0 rust matches ..-1 if score %a%0 rust < %b%0 rust run scoreboard players set %d%0 rust 1",
            "execute if score %a%0 rust matches 0.. if score %b%0 rust matches ..-1 run scoreboard players set %d%0 rust 1",
        ]
    );
}

#[test]
fn unsigned_word_division_asserts_non_negative_operands() {
    let mut counter = TempCounter { next: 0 };
    let cmds = compile_unsigned_div(
        false,
        &local("a", int_type(32)),
        &local("b", int_type(32)),
        dest("d"),
        &no_globals(),
        &Types::blank_for_testing(),
        &mut counter,
    );
    assert_eq!(
        texts(&cmds),
        vec![
            "# !INTERPRETER: ASSERT unless score %a%0 rust matches ..-1",
            "# !INTERPRETER: ASSERT unless score %b%0 rust matches ..-1",
            "scoreboard players operation %d%0 rust = %a%0 rust",
            "scoreboard players operation %d%0 rust /= %b%0 rust",
        ]
    );
}
