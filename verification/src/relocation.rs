//! Relocation: once every function has its place, the names of functions
//! get their places as addresses, the dispatcher and the return function
//! are added, and every placeholder is resolved.
use vstd::prelude::*;
use crate::cir::{Function, FunctionIdV, FunctionV};
use crate::constants::{GlobalTable, table_map};
use crate::link::{apply_fixups, fixed_program, fixups_ok};
use crate::locals::{LocalName, LocalNameV};
use crate::naming::{contains_id, find_function, funcs_view, ids_of, index_of_id, lemma_index_of_id};
use crate::program::{
    call_func_cmds, call_func_name, create_call_func, create_return_func, return_func_name,
};
use crate::registers::{call_v, pop_v};
use crate::starts::FuncStarts;
use crate::text::has_infix;

verus! {

/// The text of a name, or nothing for a number.
pub open spec fn name_text(n: LocalNameV) -> Seq<char> {
    match n {
        LocalNameV::Name(s) => s,
        LocalNameV::Number(_) => Seq::empty(),
    }
}

/// Whether `n` is the name of a function among `done`.
pub open spec fn among(n: LocalNameV, done: Seq<Seq<char>>) -> bool {
    n is Name && done.contains(name_text(n))
}

/// The addresses `m` with every function named in `done` placed where its
/// start is among the functions `ids`.
pub open spec fn relocated_by(
    m: Map<LocalNameV, u32>,
    starts: Map<Seq<char>, FunctionIdV>,
    ids: Seq<FunctionIdV>,
    done: Seq<Seq<char>>,
) -> Map<LocalNameV, u32> {
    Map::new(
        |n: LocalNameV| m.contains_key(n) || among(n, done),
        |n: LocalNameV| if among(n, done) {
            index_of_id(ids, starts[name_text(n)]) as u32
        } else {
            m[n]
        },
    )
}

/// The addresses `m` with every function that has a start placed where
/// its start is among the functions `ids`.
pub open spec fn relocated(
    m: Map<LocalNameV, u32>,
    starts: Map<Seq<char>, FunctionIdV>,
    ids: Seq<FunctionIdV>,
) -> Map<LocalNameV, u32> {
    Map::new(
        |n: LocalNameV| m.contains_key(n) || (n is Name && starts.contains_key(name_text(n))),
        |n: LocalNameV| if n is Name && starts.contains_key(name_text(n)) {
            index_of_id(ids, starts[name_text(n)]) as u32
        } else {
            m[n]
        },
    )
}

/// The functions after relocation: the given ones, the dispatcher over
/// them and the return function, with every placeholder resolved.
pub open spec fn relocated_funcs(
    starts: Map<Seq<char>, FunctionIdV>,
    fs: Seq<FunctionV>,
    counts: Seq<Option<usize>>,
) -> Seq<FunctionV> {
    fixed_program(starts, with_dispatch(fs), counts)
}

/// The functions followed by the dispatcher over them and the return
/// function.
pub open spec fn with_dispatch(fs: Seq<FunctionV>) -> Seq<FunctionV> {
    fs + seq![
        FunctionV { id: FunctionIdV { name: call_func_name(), sub: 0 }, cmds: call_func_cmds(ids_of(fs)) },
        FunctionV {
            id: FunctionIdV { name: return_func_name(), sub: 0 },
            cmds: pop_v("%%tempfuncptr"@).push(call_v(call_func_name())),
        },
    ]
}

/// Whether relocation can run: every start is the identifier of one of the
/// functions, every started name missing from the addresses is that of an
/// intrinsic, and the placeholders of the functions can all be resolved.
pub open spec fn relocation_ok(
    funcs: Seq<FunctionV>,
    starts: Map<Seq<char>, FunctionIdV>,
    m: Map<LocalNameV, u32>,
    counts: Seq<Option<usize>>,
) -> bool {
    &&& forall|k: Seq<char>| #[trigger] starts.contains_key(k) ==> contains_id(ids_of(funcs), starts[k])
    &&& forall|k: Seq<char>|
        #[trigger] starts.contains_key(k) && !m.contains_key(LocalNameV::Name(k)) ==> has_infix(
            k,
            "intrinsic"@,
        )
    &&& funcs.len() <= i32::MAX
    &&& fixups_ok(starts, with_dispatch(funcs), counts)
}

/// Finalises the places of the generated functions: every function name
/// gets the place of its start as its address, the dispatcher and the
/// return function are added, and every placeholder is resolved, with
/// `counts[i]` the estimated command count of function `i`.
pub fn do_relocation(
    funcs: Vec<Function>,
    func_starts: &FuncStarts,
    globals: &mut GlobalTable,
    counts: &Vec<Option<usize>>,
) -> (r: Vec<Function>)
    requires
        relocation_ok(funcs_view(funcs@), func_starts@, table_map(old(globals).addrs@), counts@),
    ensures
        funcs_view(r@) == relocated_funcs(func_starts@, funcs_view(funcs@), counts@),
        table_map(final(globals).addrs@) == relocated(
            table_map(old(globals).addrs@),
            func_starts@,
            ids_of(funcs_view(funcs@)),
        ),
{
    let ghost m = table_map(globals.addrs@);
    let ghost starts = func_starts@;
    let ghost ids = ids_of(funcs_view(funcs@));
    let names = func_starts.names();
    let ghost nv = names@.map_values(|s: String| s@);
    let mut i: usize = 0;
    assert(relocated_by(m, starts, ids, nv.take(0)) =~= m);
    while i < names.len()
        invariant
            i <= names@.len(),
            nv == names@.map_values(|s: String| s@),
            starts == func_starts@,
            ids == ids_of(funcs_view(funcs@)),
            forall|a: int| 0 <= a < names@.len() ==> starts.contains_key((#[trigger] names@[a])@),
            forall|k: Seq<char>| #[trigger] starts.contains_key(k) ==> contains_id(ids, starts[k]),
            table_map(globals.addrs@) == relocated_by(m, starts, ids, nv.take(i as int)),
        decreases names.len() - i,
    {
        let name = &names[i];
        let id = match func_starts.get(name.as_str()) {
            Some(id) => id,
            None => {
                i = i + 1;
                continue;
            },
        };
        let idx = match find_function(&funcs, id) {
            Some(idx) => idx,
            None => {
                i = i + 1;
                continue;
            },
        };
        proof {
            lemma_index_of_id(ids, id@, idx as int);
        }
        let ghost before = table_map(globals.addrs@);
        globals.insert(LocalName::Name(name.clone()), idx as u32);
        proof {
            let done = nv.take(i + 1);
            assert(done =~= nv.take(i as int).push(nv[i as int]));
            assert forall|n: LocalNameV| among(n, done) == (among(n, nv.take(i as int)) || n
                == LocalNameV::Name(nv[i as int])) by {
                if among(n, done) {
                    let j = choose|j: int| 0 <= j < done.len() && done[j] == name_text(n);
                    if j < i {
                        assert(nv.take(i as int)[j] == name_text(n));
                    }
                }
                if among(n, nv.take(i as int)) {
                    let j = choose|j: int|
                        0 <= j < nv.take(i as int).len() && nv.take(i as int)[j] == name_text(n);
                    assert(done[j] == name_text(n));
                }
                if n == LocalNameV::Name(nv[i as int]) {
                    assert(done[i as int] == name_text(n));
                }
            }
            assert(table_map(globals.addrs@) =~= relocated_by(m, starts, ids, done));
        }
        i = i + 1;
    }
    proof {
        assert(nv.take(names@.len() as int) =~= nv);
        assert forall|n: LocalNameV| among(n, nv) == (n is Name && starts.contains_key(name_text(n))) by {
            if n is Name && starts.contains_key(name_text(n)) {
                let a = choose|a: int| 0 <= a < names@.len() && (#[trigger] names@[a])@ == name_text(n);
                assert(nv[a] == name_text(n));
            }
            if among(n, nv) {
                let j = choose|j: int| 0 <= j < nv.len() && nv[j] == name_text(n);
                assert(names@[j]@ == nv[j]);
            }
        }
        assert(table_map(globals.addrs@) =~= relocated(m, starts, ids));
    }
    let mut funcs = funcs;
    let ghost fv = funcs_view(funcs@);
    let call = create_call_func(&funcs);
    funcs.push(call);
    let ret = create_return_func();
    funcs.push(ret);
    assert(funcs_view(funcs@) =~= with_dispatch(fv));
    apply_fixups(&mut funcs, func_starts, counts);
    funcs
}

} // verus!
