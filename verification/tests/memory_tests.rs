use langcraft::cir::ScoreHolder;
use langcraft::locals::LocalName;
use langcraft::memory::{
    InterpError, MaybeConst, StaticAllocator, TempCounter, func_idx_to_pos, get_address,
    get_index, get_unique_holder, get_unique_num, pos_to_func_idx, set_memory,
};
use langcraft::registers::assign_lit;
use langcraft::render::command_to_text;

#[test]
fn get_index_in_memory() {
    assert_eq!(get_index(0, 0, 1), Ok(4));
    assert_eq!(get_index(1, 2, 3), Ok(1164));
    assert_eq!(get_index(127, 15, 15), Ok(131068));
}

#[test]
fn get_index_out_of_bounds() {
    assert_eq!(get_index(128, 0, 0), Err(InterpError::OutOfBoundsAccess(128, 0, 0)));
    assert_eq!(get_index(0, -1, 0), Err(InterpError::OutOfBoundsAccess(0, -1, 0)));
    assert_eq!(get_index(0, 0, 16), Err(InterpError::OutOfBoundsAccess(0, 0, 16)));
}

#[test]
fn get_address_inverts_get_index() {
    assert_eq!(get_address(1164), (1, 2, 3));
    assert_eq!(get_address(4), (0, 0, 1));
    for (x, y, z) in [(0, 0, 1), (5, 15, 0), (127, 15, 15), (64, 1, 9)] {
        let a = get_index(x, y, z).unwrap();
        assert_eq!(get_address(a), (x, y, z));
    }
}

#[test]
fn function_grid_places() {
    assert_eq!(func_idx_to_pos(0), (-2, 0));
    assert_eq!(func_idx_to_pos(37), (-3, 5));
    assert_eq!(pos_to_func_idx(-2, 5), 5);
    assert_eq!(pos_to_func_idx(-3, 5), 37);
    for f in [0usize, 1, 31, 32, 33, 1000] {
        let (x, z) = func_idx_to_pos(f);
        assert_eq!(pos_to_func_idx(x, z), f);
    }
}

#[test]
fn set_memory_text() {
    assert_eq!(
        command_to_text(&set_memory(7, 1164)),
        "data modify block 1 2 3 RecordItem.tag.Memory set value 7"
    );
    assert_eq!(
        command_to_text(&set_memory(-1, 508)),
        "data modify block 0 7 15 RecordItem.tag.Memory set value -1"
    );
}

#[test]
fn static_allocator_rounds_to_words() {
    let mut alloc = StaticAllocator(4);
    assert_eq!(alloc.reserve(5), 4);
    assert_eq!(alloc.0, 12);
    assert_eq!(alloc.reserve(4), 12);
    assert_eq!(alloc.0, 16);
    assert_eq!(alloc.reserve(0), 16);
    assert_eq!(alloc.0, 16);
    assert_eq!(alloc.reserve(1), 16);
    assert_eq!(alloc.0, 20);
}

#[test]
fn unique_numbers_and_holders() {
    let mut counter = TempCounter::new();
    assert_eq!(get_unique_num(&mut counter), 0);
    assert_eq!(get_unique_num(&mut counter), 1);
    let h = get_unique_holder(&mut counter);
    assert_eq!(h.as_str(), "%temp2");
    let h2 = get_unique_holder(&mut counter);
    assert_ne!(h.as_str(), h2.as_str());
    assert_eq!(counter.next, 4);
}

#[test]
fn force_eval_sets_constant_into_fresh_holder() {
    let mut counter = TempCounter { next: 9 };
    let (cmds, holders) = MaybeConst::Const(-3).force_eval(&mut counter);
    assert_eq!(holders.len(), 1);
    assert_eq!(holders[0].as_str(), "%temp9");
    assert_eq!(cmds.len(), 1);
    assert_eq!(command_to_text(&cmds[0]), "scoreboard players set %temp9 rust -3");
    assert_eq!(counter.next, 10);
}

#[test]
fn force_eval_keeps_non_constant() {
    let mut counter = TempCounter { next: 2 };
    let h = ScoreHolder::new("%x%0".to_string()).unwrap();
    let cmd = assign_lit(h.clone(), 1);
    let (cmds, holders) =
        MaybeConst::NonConst(vec![cmd], vec![h]).force_eval(&mut counter);
    assert_eq!(cmds.len(), 1);
    assert_eq!(command_to_text(&cmds[0]), "scoreboard players set %x%0 rust 1");
    assert_eq!(holders[0].as_str(), "%x%0");
    assert_eq!(counter.next, 2);
}

#[test]
fn local_word_holders() {
    let words = ScoreHolder::from_local_name(LocalName::Name("my var".to_string()), 9);
    let names: Vec<&str> = words.iter().map(|h| h.as_str()).collect();
    assert_eq!(names, vec!["%my_var%0", "%my_var%1", "%my_var%2"]);
    let words = ScoreHolder::from_local_name(LocalName::Number(4), 4);
    assert_eq!(words.len(), 1);
    assert_eq!(words[0].as_str(), "%4%0");
}
