use langcraft::cir::{Command, Function, FunctionId};
use langcraft::constants::GlobalTable;
use langcraft::locals::LocalName;
use langcraft::registers::call;
use langcraft::relocation::do_relocation;
use langcraft::render::{command_to_text, id_to_text};
use langcraft::starts::FuncStarts;

fn reloc_texts(cmds: &[Command]) -> Vec<String> {
    cmds.iter().map(command_to_text).collect()
}

#[test]
fn relocation_places_functions_and_adds_the_dispatcher() {
    let funcs = vec![
        Function { id: FunctionId::new("rust:main"), cmds: vec![call("rust:g")] },
        Function { id: FunctionId::new("rust:g"), cmds: Vec::new() },
    ];
    let mut starts = FuncStarts::new();
    starts.insert("main".to_string(), FunctionId::new("rust:main"));
    starts.insert("g".to_string(), FunctionId::new("rust:g"));
    let mut globals = GlobalTable::new();
    globals.insert(LocalName::Name("main".to_string()), u32::MAX);
    globals.insert(LocalName::Name("g".to_string()), u32::MAX);
    globals.insert(LocalName::Name("data".to_string()), 40);
    let counts = vec![Some(1), Some(0), Some(0), Some(0)];
    let out = do_relocation(funcs, &starts, &mut globals, &counts);
    assert_eq!(globals.lookup(&LocalName::Name("main".to_string())), Some(0));
    assert_eq!(globals.lookup(&LocalName::Name("g".to_string())), Some(1));
    assert_eq!(globals.lookup(&LocalName::Name("data".to_string())), Some(40));
    let ids: Vec<String> = out.iter().map(|f| id_to_text(&f.id)).collect();
    assert_eq!(
        ids,
        vec!["rust:main", "rust:g", "rust:__langcraft_call", "rust:__langcraft_return"]
    );
    let dispatch = reloc_texts(&out[2].cmds);
    assert_eq!(dispatch.len(), 5);
    assert_eq!(
        dispatch[1],
        "execute if score %%tempfuncptr rust matches 0 run data modify block ~ ~ ~ Command set value \"function rust:main\""
    );
    assert_eq!(
        dispatch[2],
        "execute if score %%tempfuncptr rust matches 1 run data modify block ~ ~ ~ Command set value \"function rust:g\""
    );
    assert_eq!(reloc_texts(&out[0].cmds), vec!["function rust:g"]);
}

#[test]
fn relocation_gives_intrinsics_an_address() {
    let funcs = vec![Function { id: FunctionId::new("intrinsic:memset"), cmds: Vec::new() }];
    let mut starts = FuncStarts::new();
    starts.insert("intrinsic:memset".to_string(), FunctionId::new("intrinsic:memset"));
    let mut globals = GlobalTable::new();
    let counts = vec![Some(0), Some(0), Some(0)];
    let _ = do_relocation(funcs, &starts, &mut globals, &counts);
    assert_eq!(globals.lookup(&LocalName::Name("intrinsic:memset".to_string())), Some(0));
}
