use langcraft::cir::Command;
use langcraft::constants::{Constant, GlobalTable};
use langcraft::globals::{
    GlobalVariable, compile_global_var_init, global_var_layout, make_zeroed, one_global_var_init,
};
use langcraft::layout::{IrType, Types};
use langcraft::locals::LocalName;
use langcraft::memory::{StaticAllocator, TempCounter};
use langcraft::render::command_to_text;
use langcraft::starts::Alias;

fn global_texts(cmds: &[Command]) -> Vec<String> {
    cmds.iter().map(command_to_text).collect()
}

fn int_of(bits: u32) -> IrType {
    IrType::Integer { bits }
}

fn pointer_to(t: IrType) -> IrType {
    IrType::Pointer { pointee: Box::new(t), addr_space: 0 }
}

fn named(s: &str) -> LocalName {
    LocalName::Name(s.to_string())
}

fn table_with(name: &str, addr: u32) -> GlobalTable {
    GlobalTable { addrs: vec![(named(name), addr)] }
}

#[test]
fn zero_of_a_structure_with_an_array() {
    let ty = IrType::Struct {
        element_types: vec![
            int_of(8),
            IrType::Array { element_type: Box::new(int_of(32)), num_elements: 2 },
            pointer_to(int_of(8)),
        ],
        is_packed: false,
    };
    let z = make_zeroed(&ty, &Types::blank_for_testing());
    assert_eq!(
        z,
        Constant::Struct {
            values: vec![
                Constant::Int { bits: 8, value: 0 },
                Constant::Array {
                    element_type: int_of(32),
                    elements: vec![
                        Constant::Int { bits: 32, value: 0 },
                        Constant::Int { bits: 32, value: 0 },
                    ],
                },
                Constant::Int { bits: 32, value: 0 },
            ],
            is_packed: false,
        }
    );
}

#[test]
fn word_global_is_written_little_endian() {
    let v = GlobalVariable {
        name: named("counter"),
        ty: pointer_to(int_of(32)),
        initializer: Some(Constant::Int { bits: 32, value: 0x0102_0304 }),
    };
    let mut counter = TempCounter { next: 0 };
    let cmds = one_global_var_init(&v, &table_with("counter", 8), &Types::blank_for_testing(), &mut counter);
    assert_eq!(
        global_texts(&cmds),
        vec![
            "scoreboard players set %@counte rust 8",
            "data modify block 0 0 2 RecordItem.tag.Memory set value 16909060",
        ]
    );
}

#[test]
fn structure_global_packs_its_fields_into_words() {
    let v = GlobalVariable {
        name: named("s"),
        ty: pointer_to(IrType::Struct {
            element_types: vec![int_of(8), int_of(16), int_of(32)],
            is_packed: false,
        }),
        initializer: Some(Constant::Struct {
            values: vec![
                Constant::Int { bits: 8, value: 1 },
                Constant::Int { bits: 16, value: 2 },
                Constant::Int { bits: 32, value: 3 },
            ],
            is_packed: false,
        }),
    };
    let mut counter = TempCounter { next: 0 };
    let cmds = one_global_var_init(&v, &table_with("s", 12), &Types::blank_for_testing(), &mut counter);
    assert_eq!(
        global_texts(&cmds),
        vec![
            "scoreboard players set %@ rust 12",
            "data modify block 0 0 3 RecordItem.tag.Memory set value 131073",
            "data modify block 0 0 4 RecordItem.tag.Memory set value 3",
        ]
    );
}

#[test]
fn zero_initialised_array_global() {
    let array = IrType::Array { element_type: Box::new(int_of(32)), num_elements: 2 };
    let v = GlobalVariable {
        name: named("zs"),
        ty: pointer_to(IrType::Array { element_type: Box::new(int_of(32)), num_elements: 2 }),
        initializer: Some(Constant::AggregateZero(array)),
    };
    let mut counter = TempCounter { next: 0 };
    let cmds = one_global_var_init(&v, &table_with("zs", 4), &Types::blank_for_testing(), &mut counter);
    assert_eq!(
        global_texts(&cmds),
        vec![
            "scoreboard players set %@z rust 4",
            "data modify block 0 0 1 RecordItem.tag.Memory set value 0",
            "data modify block 0 0 2 RecordItem.tag.Memory set value 0",
        ]
    );
}

#[test]
fn doubleword_global_and_byte_values() {
    let v = GlobalVariable {
        name: named("big"),
        ty: pointer_to(int_of(64)),
        initializer: Some(Constant::Int { bits: 64, value: 0x0000_0005_0000_0007 }),
    };
    let mut counter = TempCounter { next: 0 };
    let cmds = one_global_var_init(&v, &table_with("big", 20), &Types::blank_for_testing(), &mut counter);
    assert_eq!(
        global_texts(&cmds)[1..].to_vec(),
        vec![
            "data modify block 0 0 5 RecordItem.tag.Memory set value 7",
            "data modify block 0 0 6 RecordItem.tag.Memory set value 5",
        ]
    );
    let b = GlobalVariable {
        name: named("flag"),
        ty: pointer_to(int_of(8)),
        initializer: Some(Constant::Int { bits: 8, value: 0xff }),
    };
    let cmds = one_global_var_init(&b, &table_with("flag", 4), &Types::blank_for_testing(), &mut counter);
    assert_eq!(global_texts(&cmds)[1], "data modify block 0 0 1 RecordItem.tag.Memory set value 255");
}

#[test]
fn all_globals_then_the_constant_holders() {
    let v = GlobalVariable {
        name: named("gx"),
        ty: pointer_to(int_of(32)),
        initializer: Some(Constant::Int { bits: 32, value: 5 }),
    };
    let mut counter = TempCounter { next: 0 };
    let cmds = compile_global_var_init(&vec![v], &table_with("gx", 4), &Types::blank_for_testing(), &mut counter);
    let t = global_texts(&cmds);
    assert_eq!(t.len(), 2 + 4 + 31 + 1);
    assert_eq!(t[0], "scoreboard players set %@g rust 4");
    assert_eq!(t[2], "scoreboard players set %%31BITSHIFT rust -2147483648");
    assert_eq!(t[3], "scoreboard players set %%ROW_SIZE rust 32");
    assert_eq!(t[4], "scoreboard players set %%SIXTEEN rust 16");
    assert_eq!(t[5], "scoreboard players set %%-1 rust -1");
    assert_eq!(t[6], "scoreboard players set %%1 rust 1");
    assert_eq!(t[7], "scoreboard players set %%2 rust 2");
    assert_eq!(t[36], "scoreboard players set %%1073741824 rust 1073741824");
    assert_eq!(t[37], "scoreboard players set %%cmdcount rust 0");
}

#[test]
fn globals_functions_and_aliases_get_addresses() {
    let vars = vec![
        GlobalVariable {
            name: named("a"),
            ty: pointer_to(int_of(32)),
            initializer: Some(Constant::Int { bits: 32, value: 1 }),
        },
        GlobalVariable { name: named("b"), ty: pointer_to(int_of(32)), initializer: None },
        GlobalVariable {
            name: named("c"),
            ty: pointer_to(IrType::Array { element_type: Box::new(int_of(8)), num_elements: 3 }),
            initializer: Some(Constant::AggregateZero(IrType::Array {
                element_type: Box::new(int_of(8)),
                num_elements: 3,
            })),
        },
    ];
    let aliases = vec![
        Alias { name: named("alias_c"), aliasee: Some(named("c")) },
        Alias { name: named("alias_main"), aliasee: Some(named("main")) },
        Alias { name: named("odd"), aliasee: None },
    ];
    let mut alloc = StaticAllocator(4);
    let table = global_var_layout(
        &vars,
        &aliases,
        &vec!["main".to_string()],
        &mut alloc,
        &Types::blank_for_testing(),
    );
    assert_eq!(table.lookup(&named("a")), Some(4));
    assert_eq!(table.lookup(&named("b")), None);
    assert_eq!(table.lookup(&named("c")), Some(8));
    assert_eq!(table.lookup(&named("main")), Some(u32::MAX));
    assert_eq!(table.lookup(&named("alias_c")), Some(8));
    assert_eq!(table.lookup(&named("alias_main")), Some(u32::MAX));
    assert_eq!(table.lookup(&named("odd")), None);
    assert_eq!(alloc.0, 12);
}

#[test]
fn table_insert_replaces() {
    let mut table = GlobalTable::new();
    table.insert(named("x"), 4);
    table.insert(named("y"), 8);
    table.insert(named("x"), 12);
    assert_eq!(table.lookup(&named("x")), Some(12));
    assert_eq!(table.lookup(&named("y")), Some(8));
}
