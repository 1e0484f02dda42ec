use langcraft::arith::{
    IntPredicate, add_32_with_carry, compile_normal_icmp, compile_signed_cmp,
    compile_unsigned_cmp, shift_left_bytes, shift_right_bytes, truncate_to, zero_low_bytes,
};
use langcraft::cir::{Command, Relation, ScoreHolder};
use langcraft::frame::{is_saved_reg, load_regs, save_regs};
use langcraft::memory::TempCounter;
use langcraft::registers::assign_lit;
use langcraft::render::command_to_text;

fn holder(name: &str) -> ScoreHolder {
    ScoreHolder::new(name.to_string()).unwrap()
}

fn texts(cmds: &[Command]) -> Vec<String> {
    cmds.iter().map(command_to_text).collect()
}

#[test]
fn add_32_with_carry_texts() {
    let cmds = add_32_with_carry(holder("%a"), holder("%b"), holder("%d"), assign_lit(holder("%c"), 1));
    assert_eq!(
        texts(&cmds),
        vec![
            "scoreboard players operation %d rust = %a rust",
            "scoreboard players operation %d rust += %b rust",
            "execute if score %a rust matches ..-1 if score %b rust matches ..-1 run scoreboard players set %c rust 1",
            "execute if score %a rust matches ..-1 if score %b rust matches 0.. if score %d rust matches 0.. run scoreboard players set %c rust 1",
            "execute if score %a rust matches 0.. if score %b rust matches ..-1 if score %d rust matches 0.. run scoreboard players set %c rust 1",
        ]
    );
}

#[test]
fn unsigned_less_than_texts() {
    let cmds = compile_unsigned_cmp(holder("%l"), holder("%r"), holder("%d"), Relation::LessThan);
    assert_eq!(
        texts(&cmds),
        vec![
            "scoreboard players set %d rust 0",
            "execute if score %l rust matches 0.. if score %r rust matches 0.. if score %l rust < %r rust run scoreboard players set %d rust 1",
            "execute if score %l rust matches ..-1 if score %r rust matches ..-1 if score %l rust < %r rust run scoreboard players set %d rust 1",
            "execute if score %l rust matches 0.. if score %r rust matches ..-1 run scoreboard players set %d rust 1",
        ]
    );
}

#[test]
fn unsigned_greater_than_adds_equality_case() {
    let cmds = compile_unsigned_cmp(holder("%l"), holder("%r"), holder("%d"), Relation::GreaterThan);
    let t = texts(&cmds);
    assert_eq!(t.len(), 5);
    assert_eq!(t[0], "scoreboard players set %d rust 1");
    assert_eq!(t[4], "execute if score %l rust = %r rust run scoreboard players set %d rust 0");
}

#[test]
fn signed_cmp_text() {
    assert_eq!(
        command_to_text(&compile_signed_cmp(holder("%l"), holder("%r"), holder("%d"), Relation::LessThanEq, true)),
        "execute store success score %d rust if score %l rust <= %r rust"
    );
    assert_eq!(
        command_to_text(&compile_signed_cmp(holder("%l"), holder("%r"), holder("%d"), Relation::Eq, false)),
        "execute store success score %d rust unless score %l rust = %r rust"
    );
}

#[test]
fn icmp_signed_and_equality() {
    let eq = texts(&compile_normal_icmp(holder("%l"), holder("%r"), &IntPredicate::EQ, holder("%d")));
    assert_eq!(eq, vec!["execute store success score %d rust if score %l rust = %r rust"]);
    let ne = texts(&compile_normal_icmp(holder("%l"), holder("%r"), &IntPredicate::NE, holder("%d")));
    assert_eq!(ne, vec!["execute store success score %d rust unless score %l rust = %r rust"]);
    let sgt = texts(&compile_normal_icmp(holder("%l"), holder("%r"), &IntPredicate::SGT, holder("%d")));
    assert_eq!(sgt, vec!["execute store success score %d rust if score %l rust > %r rust"]);
    let ult = texts(&compile_normal_icmp(holder("%l"), holder("%r"), &IntPredicate::ULT, holder("%d")));
    assert_eq!(ult.len(), 4);
}

#[test]
fn byte_shift_texts() {
    assert_eq!(
        texts(&shift_left_bytes(holder("%x"), 2)),
        vec![
            "# shift_left_bytes by 2 bytes",
            "scoreboard players operation %x rust *= %%256 rust",
            "scoreboard players operation %x rust *= %%256 rust",
        ]
    );
    assert_eq!(
        texts(&shift_right_bytes(holder("%x"), 1)),
        vec!["# shift_right_bytes by 1 bytes", "scoreboard players operation %x rust /= %%256 rust"]
    );
    assert_eq!(texts(&shift_left_bytes(holder("%x"), 0)), vec!["# shift_left_bytes by 0 bytes"]);
}

#[test]
fn zero_low_bytes_texts() {
    assert_eq!(
        texts(&zero_low_bytes(holder("%x"), 1)),
        vec![
            "# zero 1 lowest bytes of %x",
            "scoreboard players operation %param0%0 rust = %x rust",
            "scoreboard players set %param1%0 rust 8",
            "function intrinsic:lshr",
            "scoreboard players operation %x rust = %param0%0 rust",
            "scoreboard players operation %x rust *= %%256 rust",
        ]
    );
}

#[test]
fn truncate_to_texts() {
    let mut counter = TempCounter { next: 5 };
    let t = texts(&truncate_to(holder("%x"), 2, &mut counter));
    assert_eq!(counter.next, 6);
    assert_eq!(t[0], "# truncate %x to 2 bytes");
    assert_eq!(t[1], "scoreboard players operation %temp5 rust = %x rust");
    assert_eq!(t[2], "# zero 2 lowest bytes of %temp5");
    assert_eq!(t.last().unwrap(), "scoreboard players operation %x rust -= %temp5 rust");
    assert_eq!(t.len(), 2 + 7 + 1);
}

#[test]
fn saved_registers_are_restored_in_reverse() {
    let regs = vec![holder("%a"), holder("%stackptr"), holder("%b"), holder("%return%0")];
    let saved = texts(&save_regs(regs.iter().cloned().collect()));
    // %a, %b and the frame pointer are pushed, in that order
    assert_eq!(saved.len(), 3 * 4 + 1);
    assert!(saved[2].ends_with("scoreboard players get %a rust"));
    assert!(saved[6].ends_with("scoreboard players get %b rust"));
    assert!(saved[10].ends_with("scoreboard players get %stackbaseptr rust"));
    assert_eq!(saved[12], "scoreboard players operation %stackbaseptr rust = %stackptr rust");

    let loaded = texts(&load_regs(regs));
    assert_eq!(loaded.len(), 1 + 3 * 4);
    assert_eq!(loaded[0], "scoreboard players operation %stackptr rust = %stackbaseptr rust");
    assert!(loaded[4].contains("store result score %stackbaseptr rust"));
    assert!(loaded[8].contains("store result score %b rust"));
    assert!(loaded[12].contains("store result score %a rust"));
}

#[test]
fn which_registers_are_saved() {
    assert!(is_saved_reg(&holder("%x%0")));
    assert!(!is_saved_reg(&holder("%stackptr")));
    assert!(!is_saved_reg(&holder("%ptr")));
    assert!(!is_saved_reg(&holder("%phi")));
    assert!(!is_saved_reg(&holder("%return%3")));
    assert!(!is_saved_reg(&holder("abc%%fixup_return_addr")));
}
