use langcraft::cir::{
    Command, ExecuteCondKind, ExecuteCondition, FunctionId, McRange, ScoreHolder, Target,
};
use langcraft::registers::{
    argptr, assign, assign_lit, call, cmd_count, cmd_limit, condstackptr, condtempholder,
    const_holder, except_ptr, except_type, invert, make_op, make_op_lit, mark_assertion,
    mark_assertion_matches, mark_todo, mark_unreachable, param, pop, pop_cond_stack,
    print_entry, ptr, push, push_cond_stack, read_ptr, read_ptr_small, return_holder,
    stackbaseptr, stackptr, temp_fn_ptr, write_ptr, write_ptr_const,
};
use langcraft::render::{command_to_text, id_to_text};

fn holder(name: &str) -> ScoreHolder {
    ScoreHolder::new(name.to_string()).unwrap()
}

fn texts(cmds: &[Command]) -> Vec<String> {
    cmds.iter().map(command_to_text).collect()
}

#[test]
fn register_names() {
    assert_eq!(temp_fn_ptr().as_str(), "%%tempfuncptr");
    assert_eq!(cmd_count().as_str(), "%%cmdcount");
    assert_eq!(cmd_limit().as_str(), "%%CMD_LIMIT");
    assert_eq!(condtempholder().as_str(), "%%condtempholder");
    assert_eq!(condstackptr().as_str(), "%condstackptr");
    assert_eq!(except_ptr().as_str(), "%except%ptr");
    assert_eq!(except_type().as_str(), "%except%type");
    assert_eq!(argptr().as_str(), "%argptr");
    assert_eq!(stackptr().as_str(), "%stackptr");
    assert_eq!(stackbaseptr().as_str(), "%stackbaseptr");
    assert_eq!(ptr().as_str(), "%ptr");
}

#[test]
fn numbered_register_names() {
    assert_eq!(param(0, 0).as_str(), "%param0%0");
    assert_eq!(param(12, 3).as_str(), "%param12%3");
    assert_eq!(return_holder(1).as_str(), "%return%1");
    assert_eq!(const_holder(-17).as_str(), "%%-17");
    assert_eq!(const_holder(256).as_str(), "%%256");
}

#[test]
fn score_holder_rejects_whitespace_and_empty_names() {
    assert_eq!(ScoreHolder::new("a b".to_string()), Err("a b".to_string()));
    assert_eq!(ScoreHolder::new(String::new()), Err(String::new()));
    assert_eq!(ScoreHolder::new("tab\there".to_string()), Err("tab\there".to_string()));
    assert_eq!(holder("%x%0").as_str(), "%x%0");
}

#[test]
fn assign_and_literal_texts() {
    assert_eq!(
        command_to_text(&assign(holder("%a"), holder("%b"))),
        "scoreboard players operation %a rust = %b rust"
    );
    assert_eq!(command_to_text(&assign_lit(holder("%a"), -5)), "scoreboard players set %a rust -5");
}

#[test]
fn make_op_lit_texts() {
    assert_eq!(command_to_text(&make_op_lit(holder("%a"), "+=", 3)), "scoreboard players add %a rust 3");
    assert_eq!(
        command_to_text(&make_op_lit(holder("%a"), "+=", -3)),
        "scoreboard players remove %a rust 3"
    );
    assert_eq!(
        command_to_text(&make_op_lit(holder("%a"), "-=", 3)),
        "scoreboard players remove %a rust 3"
    );
    assert_eq!(
        command_to_text(&make_op_lit(holder("%a"), "*=", 256)),
        "scoreboard players operation %a rust *= %%256 rust"
    );
    assert_eq!(
        command_to_text(&make_op_lit(holder("%a"), "%=", 2)),
        "scoreboard players operation %a rust %= %%2 rust"
    );
}

#[test]
fn make_op_text() {
    assert_eq!(
        command_to_text(&make_op(holder("%a"), "/=", holder("%b"))),
        "scoreboard players operation %a rust /= %b rust"
    );
}

#[test]
fn invert_texts() {
    assert_eq!(
        texts(&invert(holder("%a"))),
        vec![
            "scoreboard players add %a rust 1",
            "scoreboard players operation %a rust *= %%-1 rust",
        ]
    );
}

#[test]
fn pointer_memory_texts() {
    assert_eq!(
        command_to_text(&read_ptr(holder("%v"))),
        "execute at @e[tag=ptr] store result score %v rust run data get block ~ ~ ~ RecordItem.tag.Memory 1"
    );
    assert_eq!(
        command_to_text(&write_ptr(holder("%v"))),
        "execute at @e[tag=ptr] store result block ~ ~ ~ RecordItem.tag.Memory int 1 run scoreboard players get %v rust"
    );
    assert_eq!(
        command_to_text(&write_ptr_const(42)),
        "execute at @e[tag=ptr] run data modify block ~ ~ ~ RecordItem.tag.Memory set value 42"
    );
    assert_eq!(
        texts(&read_ptr_small(holder("%v"), true)),
        vec!["function intrinsic:load_halfword", "scoreboard players operation %v rust = %param0%0 rust"]
    );
    assert_eq!(
        texts(&read_ptr_small(holder("%v"), false)),
        vec!["function intrinsic:load_byte", "scoreboard players operation %v rust = %param0%0 rust"]
    );
}

#[test]
fn push_and_pop_texts() {
    assert_eq!(
        texts(&push(holder("%v"))),
        vec![
            "scoreboard players operation %ptr rust = %stackptr rust",
            "function intrinsic:setptr",
            "execute at @e[tag=ptr] store result block ~ ~ ~ RecordItem.tag.Memory int 1 run scoreboard players get %v rust",
            "scoreboard players add %stackptr rust 4",
        ]
    );
    assert_eq!(
        texts(&pop(holder("%v"))),
        vec![
            "scoreboard players remove %stackptr rust 4",
            "scoreboard players operation %ptr rust = %stackptr rust",
            "function intrinsic:setptr",
            "execute at @e[tag=ptr] store result score %v rust run data get block ~ ~ ~ RecordItem.tag.Memory 1",
        ]
    );
}

#[test]
fn condition_stack_texts() {
    let pushed = texts(&push_cond_stack(holder("%c")));
    assert_eq!(pushed[0], "scoreboard players operation %ptr rust = %condstackptr rust");
    assert_eq!(pushed[3], "scoreboard players add %condstackptr rust 4");
    let popped = texts(&pop_cond_stack(holder("%c")));
    assert_eq!(popped[0], "scoreboard players remove %condstackptr rust 4");
    assert_eq!(popped.len(), 4);
}

#[test]
fn diagnostic_texts() {
    assert_eq!(command_to_text(&mark_todo()), "# !INTERPRETER: TODO");
    assert_eq!(command_to_text(&mark_unreachable()), "# !INTERPRETER: UNREACHABLE");
    assert_eq!(
        command_to_text(&mark_assertion_matches(false, holder("%x"), McRange::Between(0, 255))),
        "# !INTERPRETER: ASSERT if score %x rust matches 0..255"
    );
    assert_eq!(
        command_to_text(&mark_assertion_matches(true, holder("%x"), McRange::HalfLeft(7))),
        "# !INTERPRETER: ASSERT unless score %x rust matches ..7"
    );
    let cond = ExecuteCondition::Score {
        target: Target::Uuid(holder("%x")),
        target_obj: "rust".to_string(),
        kind: ExecuteCondKind::Matches(McRange::Between(3, 3)),
    };
    assert_eq!(
        command_to_text(&mark_assertion(false, &cond)),
        "# !INTERPRETER: ASSERT if score %x rust matches 3"
    );
    assert_eq!(
        command_to_text(&print_entry(&FunctionId::new_sub("main", 2))),
        "tellraw @a [{\"text\":\"entered block main-sub2\"}]"
    );
}

#[test]
fn function_id_texts() {
    assert_eq!(id_to_text(&FunctionId::new("rust:main")), "rust:main");
    assert_eq!(id_to_text(&FunctionId::new_sub("rust:main", 10)), "rust:main-sub10");
    assert_eq!(command_to_text(&call("intrinsic:setptr")), "function intrinsic:setptr");
}

#[test]
fn different_parameter_positions_name_different_holders() {
    assert_ne!(param(1, 10).as_str(), param(11, 0).as_str());
    assert_ne!(param(0, 1).as_str(), param(1, 0).as_str());
    assert_ne!(param(2, 3).as_str(), param(2, 4).as_str());
}
