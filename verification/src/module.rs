//! Compiling a whole module: globals are laid out, each function is split
//! into blocks of commands, every block is finished, the program is linked,
//! and the start-up functions are added.
use vstd::prelude::*;
use crate::blocks::{AbstractBlock, BlockV, FunctionSig, block_view, reify_block, reify_block_ok, reify_block_v};
use crate::cir::{Function, FunctionId, FunctionIdV, FunctionV, ScoreHolder, CommandV, commands_view};
use crate::constants::{GlobalTable, table_map};
use crate::frame::holder_views;
use crate::function::{BasicBlock, IrFunction, block_views, blocks_holders, compile_function, function_ok, function_v};
use crate::globals::{
    GlobalVariable, aliases_ok, compile_global_var_init, constant_holders_v, funcs_layout,
    global_var_layout, globals_layout, vars_init_ok, vars_init_v, vars_layout, vars_layout_ok,
};
use crate::holders::{insert_holder, lemma_sorted_unique, sorted_names, strictly_sorted};
use crate::layout::Types;
use crate::memory::{StaticAllocator, TempCounter, address_ok};
use crate::naming::{funcs_view, ids_of};
use crate::program::{BuildOptions, init_cmds_v, init_commands, run_function, run_function_v};
use crate::relocation::{do_relocation, relocated, relocated_funcs, relocation_ok};
use crate::render::{id_text, id_to_text};
use crate::starts::{Alias, AliasV, FuncStarts, link_aliases, link_aliases_spec};
use crate::link::no_placeholder_left;

verus! {

/// A module of the source program: its functions, its global variables,
/// its aliases and its named types.
pub struct IrModule {
    pub functions: Vec<IrFunction>,
    pub global_vars: Vec<GlobalVariable>,
    pub global_aliases: Vec<Alias>,
    pub types: Types,
}

/// The blocks of commands of the first `i` functions of `fs`, each a list,
/// and the counter after.
pub open spec fn fn_blocks(
    fs: Seq<IrFunction>,
    i: nat,
    trace: bool,
    g: Seq<(crate::locals::LocalName, u32)>,
    tys: Types,
    n: nat,
) -> (Seq<Seq<BlockV>>, nat)
    decreases i,
{
    if i == 0 || i > fs.len() {
        (Seq::empty(), n)
    } else {
        let p = fn_blocks(fs, (i - 1) as nat, trace, g, tys, n);
        let f = fs[i - 1];
        let v = function_v(f.basic_blocks@, f.sig.name@, trace, g, tys, p.1);
        (p.0.push(v.0), v.1)
    }
}

/// Whether the first `i` functions of `fs` compile.
pub open spec fn fn_blocks_ok(
    fs: Seq<IrFunction>,
    i: nat,
    trace: bool,
    g: Seq<(crate::locals::LocalName, u32)>,
    tys: Types,
    n: nat,
) -> bool
    decreases i,
{
    if i == 0 || i > fs.len() {
        true
    } else {
        let p = fn_blocks(fs, (i - 1) as nat, trace, g, tys, n);
        let f = fs[i - 1];
        &&& fn_blocks_ok(fs, (i - 1) as nat, trace, g, tys, n)
        &&& function_ok(f.basic_blocks@, f.sig.name@, trace, g, tys, p.1)
    }
}

/// The registers a function made of the blocks `bs` saves, in order.
pub open spec fn fn_clobbers(bs: Seq<BlockV>) -> Seq<Seq<char>> {
    sorted_names(blocks_holders(bs))
}

/// Where the first `i` functions start: the first of their blocks.
pub open spec fn fn_starts(fs: Seq<IrFunction>, bss: Seq<Seq<BlockV>>, i: nat) -> Map<Seq<char>, FunctionIdV>
    decreases i,
{
    if i == 0 || i > fs.len() {
        Map::empty()
    } else {
        fn_starts(fs, bss, (i - 1) as nat).insert(fs[i - 1].sig.name@, bss[i - 1][0].body.id)
    }
}

/// The starts with the first `j` intrinsics added under the text of their
/// identifiers.
pub open spec fn intr_starts(m: Map<Seq<char>, FunctionIdV>, intrs: Seq<FunctionV>, j: nat) -> Map<
    Seq<char>,
    FunctionIdV,
>
    decreases j,
{
    if j == 0 || j > intrs.len() {
        m
    } else {
        intr_starts(m, intrs, (j - 1) as nat).insert(id_text(intrs[j - 1].id), intrs[j - 1].id)
    }
}

/// Where every function, intrinsic and alias of a function starts.
pub open spec fn module_starts(
    fs: Seq<IrFunction>,
    bss: Seq<Seq<BlockV>>,
    intrs: Seq<FunctionV>,
    aliases: Seq<AliasV>,
) -> Map<Seq<char>, FunctionIdV> {
    link_aliases_spec(intr_starts(fn_starts(fs, bss, fs.len()), intrs, intrs.len()), aliases).0
}

/// The blocks after the first of each of the first `i` functions, each
/// with the position of its function.
pub open spec fn rests_of(bss: Seq<Seq<BlockV>>, i: nat) -> Seq<(BlockV, int)>
    decreases i,
{
    if i == 0 || i > bss.len() {
        Seq::empty()
    } else {
        let bs = bss[i - 1];
        rests_of(bss, (i - 1) as nat) + Seq::new(
            (bs.len() - 1) as nat,
            |j: int| (bs[j + 1], (i - 1) as int),
        )
    }
}

/// The order in which blocks are finished and placed: the first block of
/// every function, then the others, each with the position of its
/// function.
pub open spec fn block_order(bss: Seq<Seq<BlockV>>) -> Seq<(BlockV, int)> {
    Seq::new(bss.len(), |i: int| (bss[i][0], i)) + rests_of(bss, bss.len())
}

/// The first `k` blocks of `order` finished, and the counter after.
pub open spec fn reify_all(
    order: Seq<(BlockV, int)>,
    k: nat,
    fs: Seq<IrFunction>,
    bss: Seq<Seq<BlockV>>,
    starts: Map<Seq<char>, FunctionIdV>,
    g: Seq<(crate::locals::LocalName, u32)>,
    tys: Types,
    n: nat,
) -> (Seq<FunctionV>, nat)
    decreases k,
{
    if k == 0 || k > order.len() {
        (Seq::empty(), n)
    } else {
        let p = reify_all(order, (k - 1) as nat, fs, bss, starts, g, tys, n);
        let (b, f) = order[k - 1];
        let r = reify_block_v(b, fs[f].sig, fn_clobbers(bss[f]), starts, g, tys, p.1);
        (p.0.push(r.0), r.1)
    }
}

/// Whether the first `k` blocks of `order` can be finished.
pub open spec fn reify_all_ok(
    order: Seq<(BlockV, int)>,
    k: nat,
    fs: Seq<IrFunction>,
    bss: Seq<Seq<BlockV>>,
    starts: Map<Seq<char>, FunctionIdV>,
    g: Seq<(crate::locals::LocalName, u32)>,
    tys: Types,
    n: nat,
) -> bool
    decreases k,
{
    if k == 0 || k > order.len() {
        true
    } else {
        let p = reify_all(order, (k - 1) as nat, fs, bss, starts, g, tys, n);
        let (b, f) = order[k - 1];
        &&& reify_all_ok(order, (k - 1) as nat, fs, bss, starts, g, tys, n)
        &&& reify_block_ok(b, fs[f].sig, fn_clobbers(bss[f]), g, tys, p.1)
    }
}

/// Every register saved by some function.
pub open spec fn all_clobbers(bss: Seq<Seq<BlockV>>) -> Set<Seq<char>> {
    Set::new(|h: Seq<char>| exists|i: int| 0 <= i < bss.len() && #[trigger] blocks_holders(bss[i]).contains(h))
}

/// What the compilation of a module computes, with the global addresses
/// laid out as `g`: the blocks of each function, where everything starts,
/// the finished functions followed by the intrinsics, and the counters
/// after the functions and after the blocks.
pub struct ChainV {
    pub bss: Seq<Seq<BlockV>>,
    pub n1: nat,
    pub starts: Map<Seq<char>, FunctionIdV>,
    pub funcs: Seq<FunctionV>,
    pub n2: nat,
}

/// The chain for a module with the global addresses `g`.
#[verifier::opaque]
pub open spec fn chain_v(
    m: IrModule,
    trace: bool,
    intrs: Seq<FunctionV>,
    g: Seq<(crate::locals::LocalName, u32)>,
    n0: nat,
) -> ChainV {
    let fs = m.functions@;
    let fb = fn_blocks(fs, fs.len(), trace, g, m.types, n0);
    let starts = module_starts(fs, fb.0, intrs, m.global_aliases@.map_values(|a: Alias| a@));
    let ra = reify_all(block_order(fb.0), block_order(fb.0).len(), fs, fb.0, starts, g, m.types, fb.1);
    ChainV { bss: fb.0, n1: fb.1, starts, funcs: ra.0 + intrs, n2: ra.1 }
}

/// Whether every step of the chain with the global addresses `g` can run:
/// every function compiles, every block can be finished, the program can
/// be linked, the globals can be initialised at their final addresses, the
/// start-up data fits, and the entry function is known.
#[verifier::opaque]
pub open spec fn chain_ok(
    m: IrModule,
    options: BuildOptions,
    intrs: Seq<FunctionV>,
    counts: Seq<Option<usize>>,
    g: Seq<(crate::locals::LocalName, u32)>,
    n0: nat,
) -> bool {
    let fs = m.functions@;
    let c = chain_v(m, options.trace_bbs, intrs, g, n0);
    let order = block_order(c.bss);
    &&& fn_blocks_ok(fs, fs.len(), options.trace_bbs, g, m.types, n0)
    &&& reify_all_ok(order, order.len(), fs, c.bss, c.starts, g, m.types, c.n1)
    &&& relocation_ok(c.funcs, c.starts, table_map(g), counts)
    &&& forall|g2: Seq<(crate::locals::LocalName, u32)>|
        table_map(g2) == relocated(table_map(g), c.starts, ids_of(c.funcs)) ==> vars_init_ok(
            m.global_vars@,
            m.global_vars@.len(),
            g2,
            m.types,
            c.n2,
        )
    &&& c.starts.contains_key(options.entry@)
}

/// The names of the functions of a module.
pub open spec fn fn_names(fs: Seq<IrFunction>) -> Seq<Seq<char>> {
    fs.map_values(|f: IrFunction| f.sig.name@)
}

/// The first free address after the globals.
pub open spec fn globals_end(m: IrModule) -> nat {
    vars_layout(m.global_vars@, m.global_vars@.len(), Map::empty(), 4, m.types).1
}

/// The addresses of the globals of a module.
pub open spec fn module_layout(m: IrModule) -> Map<crate::locals::LocalNameV, u32> {
    globals_layout(
        m.global_vars@,
        m.global_aliases@.map_values(|a: Alias| a@),
        fn_names(m.functions@),
        4,
        m.types,
    )
}

/// Whether a module compiles: its globals can be laid out, its functions
/// have distinct names, the intrinsics have names of their own, and, for
/// every table that lays the globals out, every step of the compilation
/// can run.
#[verifier::opaque]
pub open spec fn module_ok(
    m: IrModule,
    options: BuildOptions,
    intrs: Seq<FunctionV>,
    counts: Seq<Option<usize>>,
    n0: nat,
) -> bool {
    let fs = m.functions@;
    &&& vars_layout_ok(m.global_vars@, m.global_vars@.len(), Map::empty(), 4, m.types)
    &&& aliases_ok(
        m.global_aliases@.map_values(|a: Alias| a@),
        m.global_aliases@.len(),
        funcs_layout(
            fn_names(fs),
            fs.len(),
            vars_layout(m.global_vars@, m.global_vars@.len(), Map::empty(), 4, m.types).0,
        ),
    )
    &&& address_ok(globals_end(m) as int + 500)
    &&& forall|i: int, j: int| 0 <= i < j < fs.len() ==> fs[i].sig.name@ != fs[j].sig.name@
    &&& forall|j: int| 0 <= j < intrs.len() ==> !fn_names(fs).contains(#[trigger] id_text(intrs[j].id))
    &&& forall|i: int, j: int| 0 <= i < j < intrs.len() ==> id_text(intrs[i].id) != id_text(intrs[j].id)
    &&& forall|g: Seq<(crate::locals::LocalName, u32)>|
        table_map(g) == module_layout(m) ==> chain_ok(m, options, intrs, counts, g, n0)
}

// ----------------------------------------------------------------------
// Facts about the folds
// ----------------------------------------------------------------------

proof fn lemma_fn_blocks_ok_prefix(
    fs: Seq<IrFunction>,
    i: nat,
    j: nat,
    trace: bool,
    g: Seq<(crate::locals::LocalName, u32)>,
    tys: Types,
    n: nat,
)
    requires
        i <= j <= fs.len(),
        fn_blocks_ok(fs, j, trace, g, tys, n),
    ensures
        fn_blocks_ok(fs, i, trace, g, tys, n),
    decreases j - i,
{
    if i < j {
        lemma_fn_blocks_ok_prefix(fs, i, (j - 1) as nat, trace, g, tys, n);
    }
}

proof fn lemma_fn_blocks_len(
    fs: Seq<IrFunction>,
    i: nat,
    trace: bool,
    g: Seq<(crate::locals::LocalName, u32)>,
    tys: Types,
    n: nat,
)
    requires
        i <= fs.len(),
    ensures
        fn_blocks(fs, i, trace, g, tys, n).0.len() == i,
    decreases i,
{
    if i > 0 {
        lemma_fn_blocks_len(fs, (i - 1) as nat, trace, g, tys, n);
    }
}

proof fn lemma_rests_push(bss: Seq<Seq<BlockV>>, x: Seq<BlockV>, i: nat)
    requires
        i <= bss.len(),
    ensures
        rests_of(bss.push(x), i) == rests_of(bss, i),
    decreases i,
{
    if i > 0 {
        lemma_rests_push(bss, x, (i - 1) as nat);
        assert(bss.push(x)[i - 1] == bss[i - 1]);
    }
}

proof fn lemma_starts_push(fs: Seq<IrFunction>, bss: Seq<Seq<BlockV>>, x: Seq<BlockV>, i: nat)
    requires
        i <= bss.len(),
    ensures
        fn_starts(fs, bss.push(x), i) == fn_starts(fs, bss, i),
    decreases i,
{
    if i > 0 {
        lemma_starts_push(fs, bss, x, (i - 1) as nat);
        assert(bss.push(x)[i - 1] == bss[i - 1]);
    }
}

proof fn lemma_reify_all_ok_prefix(
    order: Seq<(BlockV, int)>,
    k: nat,
    j: nat,
    fs: Seq<IrFunction>,
    bss: Seq<Seq<BlockV>>,
    starts: Map<Seq<char>, FunctionIdV>,
    g: Seq<(crate::locals::LocalName, u32)>,
    tys: Types,
    n: nat,
)
    requires
        k <= j <= order.len(),
        reify_all_ok(order, j, fs, bss, starts, g, tys, n),
    ensures
        reify_all_ok(order, k, fs, bss, starts, g, tys, n),
    decreases j - k,
{
    if k < j {
        lemma_reify_all_ok_prefix(order, k, (j - 1) as nat, fs, bss, starts, g, tys, n);
    }
}

/// The parts of the chain, and what its being possible says of them.
proof fn lemma_chain(
    m: IrModule,
    options: BuildOptions,
    intrs: Seq<FunctionV>,
    counts: Seq<Option<usize>>,
    g: Seq<(crate::locals::LocalName, u32)>,
    n0: nat,
)
    requires
        chain_ok(m, options, intrs, counts, g, n0),
    ensures
        ({
            let fs = m.functions@;
            let c = chain_v(m, options.trace_bbs, intrs, g, n0);
            let fb = fn_blocks(fs, fs.len(), options.trace_bbs, g, m.types, n0);
            let order = block_order(c.bss);
            let ra = reify_all(order, order.len(), fs, c.bss, c.starts, g, m.types, c.n1);
            &&& c.bss == fb.0
            &&& c.n1 == fb.1
            &&& c.starts == module_starts(fs, fb.0, intrs, m.global_aliases@.map_values(|a: Alias| a@))
            &&& c.funcs == ra.0 + intrs
            &&& c.n2 == ra.1
            &&& fn_blocks_ok(fs, fs.len(), options.trace_bbs, g, m.types, n0)
            &&& reify_all_ok(order, order.len(), fs, c.bss, c.starts, g, m.types, c.n1)
            &&& relocation_ok(c.funcs, c.starts, table_map(g), counts)
            &&& forall|g2: Seq<(crate::locals::LocalName, u32)>|
                table_map(g2) == relocated(table_map(g), c.starts, ids_of(c.funcs)) ==> vars_init_ok(
                    m.global_vars@,
                    m.global_vars@.len(),
                    g2,
                    m.types,
                    c.n2,
                )
            &&& c.starts.contains_key(options.entry@)
        }),
{
    reveal(chain_ok);
    reveal(chain_v);
}

/// What a module's compiling being possible says.
proof fn lemma_module_ok(
    m: IrModule,
    options: BuildOptions,
    intrs: Seq<FunctionV>,
    counts: Seq<Option<usize>>,
    n0: nat,
    g: Seq<(crate::locals::LocalName, u32)>,
)
    requires
        module_ok(m, options, intrs, counts, n0),
    ensures
        vars_layout_ok(m.global_vars@, m.global_vars@.len(), Map::empty(), 4, m.types),
        aliases_ok(
            m.global_aliases@.map_values(|a: Alias| a@),
            m.global_aliases@.len(),
            funcs_layout(
                fn_names(m.functions@),
                m.functions@.len(),
                vars_layout(m.global_vars@, m.global_vars@.len(), Map::empty(), 4, m.types).0,
            ),
        ),
        address_ok(globals_end(m) as int + 500),
        table_map(g) == module_layout(m) ==> chain_ok(m, options, intrs, counts, g, n0),
{
    reveal(module_ok);
}

/// What the compiled program is, with the global addresses laid out as
/// some table `g`: the finished blocks and the intrinsics, linked, with no
/// placeholder left; then `init`, made of the start-up commands for the
/// saved registers of all functions, the initialisation of the globals at
/// their final addresses and the clock built to run the entry function;
/// then two more functions.
#[verifier::opaque]
pub open spec fn module_result(
    r: Seq<FunctionV>,
    m: IrModule,
    options: BuildOptions,
    intrs: Seq<FunctionV>,
    counts: Seq<Option<usize>>,
    n0: nat,
) -> bool {
    exists|g: Seq<(crate::locals::LocalName, u32)>| #[trigger] table_map(g) == module_layout(m) && {
        let c = chain_v(m, options.trace_bbs, intrs, g, n0);
        let placed = relocated_funcs(c.starts, c.funcs, counts);
        &&& r.len() >= 3
        &&& r.take(r.len() - 3) == placed
        &&& no_placeholder_left(placed)
        &&& exists|g2: Seq<(crate::locals::LocalName, u32)>| #[trigger] table_map(g2) == relocated(
            table_map(g),
            c.starts,
            ids_of(c.funcs),
        ) && r[r.len() - 3] == FunctionV {
            id: FunctionIdV { name: "init"@, sub: 0 },
            cmds: init_cmds_v(
                globals_end(m) as int,
                sorted_names(all_clobbers(c.bss)),
                vars_init_v(m.global_vars@, m.global_vars@.len(), g2, m.types, c.n2).0
                    + constant_holders_v(),
                c.starts[options.entry@],
            ),
        }
    }
}

proof fn lemma_module_result(
    r: Seq<FunctionV>,
    m: IrModule,
    options: BuildOptions,
    intrs: Seq<FunctionV>,
    counts: Seq<Option<usize>>,
    n0: nat,
    g: Seq<(crate::locals::LocalName, u32)>,
    g2: Seq<(crate::locals::LocalName, u32)>,
    init: Seq<CommandV>,
)
    requires
        table_map(g) == module_layout(m),
        chain_ok(m, options, intrs, counts, g, n0),
        ({
            let c = chain_v(m, options.trace_bbs, intrs, g, n0);
            &&& r.len() >= 3
            &&& r.take(r.len() - 3) == relocated_funcs(c.starts, c.funcs, counts)
            &&& table_map(g2) == relocated(table_map(g), c.starts, ids_of(c.funcs))
            &&& init == init_cmds_v(
                globals_end(m) as int,
                sorted_names(all_clobbers(c.bss)),
                vars_init_v(m.global_vars@, m.global_vars@.len(), g2, m.types, c.n2).0
                    + constant_holders_v(),
                c.starts[options.entry@],
            )
            &&& r[r.len() - 3] == FunctionV { id: FunctionIdV { name: "init"@, sub: 0 }, cmds: init }
        }),
    ensures
        module_result(r, m, options, intrs, counts, n0),
{
    reveal(module_result);
    reveal(chain_ok);
    let c = chain_v(m, options.trace_bbs, intrs, g, n0);
    assert(table_map(g2) == relocated(table_map(g), c.starts, ids_of(c.funcs)));
}

// ----------------------------------------------------------------------
// Compiling a module
// ----------------------------------------------------------------------

/// The views of blocks waiting to be finished, each with the position of
/// its function.
pub open spec fn pending_view(p: Seq<(AbstractBlock, usize)>) -> Seq<(BlockV, int)> {
    p.map_values(|x: (AbstractBlock, usize)| (block_view(x.0), x.1 as int))
}

/// Takes the functions of a module apart into their signatures and their
/// basic blocks.
fn split_functions(fs: Vec<IrFunction>) -> (r: (Vec<FunctionSig>, Vec<Vec<BasicBlock>>, Vec<String>))
    ensures
        r.0@.len() == fs@.len(),
        r.1@.len() == fs@.len(),
        r.2@.len() == fs@.len(),
        forall|i: int| 0 <= i < fs@.len() ==> #[trigger] r.0@[i] == fs@[i].sig,
        forall|i: int| 0 <= i < fs@.len() ==> #[trigger] r.1@[i] == fs@[i].basic_blocks,
        r.2@.map_values(|x: String| x@) == fn_names(fs@),
{
    let ghost fv = fs@;
    let mut rest = fs;
    let mut sigs: Vec<FunctionSig> = Vec::new();
    let mut bodies: Vec<Vec<BasicBlock>> = Vec::new();
    let mut names: Vec<String> = Vec::new();
    let n = rest.len();
    let mut i: usize = 0;
    while i < n
        invariant
            n == fv.len(),
            i <= n,
            rest@ == fv.skip(i as int),
            sigs@.len() == i,
            bodies@.len() == i,
            forall|k: int| 0 <= k < i ==> #[trigger] sigs@[k] == fv[k].sig,
            forall|k: int| 0 <= k < i ==> #[trigger] bodies@[k] == fv[k].basic_blocks,
            names@.map_values(|x: String| x@) == fn_names(fv).take(i as int),
        decreases n - i,
    {
        let f = rest.remove(0);
        assert(f == fv[i as int]);
        assert(rest@ =~= fv.skip(i + 1));
        let IrFunction { sig, basic_blocks } = f;
        let ghost before = names@.map_values(|x: String| x@);
        let nm = sig.name.clone();
        names.push(nm);
        assert(names@.map_values(|x: String| x@) =~= before.push(nm@));
        assert(fn_names(fv).take(i + 1) =~= fn_names(fv).take(i as int).push(fv[i as int].sig.name@));
        sigs.push(sig);
        bodies.push(basic_blocks);
        i = i + 1;
    }
    assert(fn_names(fv).take(n as int) =~= fn_names(fv));
    (sigs, bodies, names)
}

/// Compiles every function into blocks of commands: the blocks in the
/// order they are placed, each with the position of its function, the
/// registers each function saves, and where each function starts.
#[verifier::rlimit(60)]
fn compile_functions<'a>(
    sigs: &'a Vec<FunctionSig>,
    bodies: Vec<Vec<BasicBlock>>,
    globals: &GlobalTable,
    tys: &Types,
    options: &BuildOptions,
    counter: &mut TempCounter,
    Ghost(fs): Ghost<Seq<IrFunction>>,
) -> (r: (Vec<(AbstractBlock<'a>, usize)>, Vec<Vec<ScoreHolder>>, FuncStarts))
    requires
        sigs@.len() == fs.len(),
        bodies@.len() == fs.len(),
        forall|i: int| 0 <= i < fs.len() ==> #[trigger] sigs@[i] == fs[i].sig,
        forall|i: int| 0 <= i < fs.len() ==> #[trigger] bodies@[i] == fs[i].basic_blocks,
        fn_blocks_ok(fs, fs.len(), options.trace_bbs, globals.addrs@, *tys, old(counter).next as nat),
    ensures
        ({
            let fb = fn_blocks(fs, fs.len(), options.trace_bbs, globals.addrs@, *tys, old(counter).next as nat);
            &&& pending_view(r.0@) == block_order(fb.0)
            &&& final(counter).next == fb.1
            &&& r.1@.len() == fs.len()
            &&& forall|i: int| 0 <= i < fs.len() ==> holder_views(#[trigger] r.1@[i]@) == fn_clobbers(fb.0[i])
            &&& forall|i: int| 0 <= i < fs.len() ==> holder_views(#[trigger] r.1@[i]@).to_set() == blocks_holders(fb.0[i])
            &&& forall|i: int| 0 <= i < fs.len() ==> strictly_sorted(holder_views(#[trigger] r.1@[i]@))
            &&& r.2@ == fn_starts(fs, fb.0, fs.len())
            &&& forall|i: int| 0 <= i < fs.len() ==> (#[trigger] fb.0[i]).len() >= 1
        }),
        forall|k: int| 0 <= k < r.0@.len() ==> (#[trigger] r.0@[k]).1 < fs.len() && *r.0@[k].0.parent == fs[r.0@[k].1 as int].sig,
{
    let ghost trace = options.trace_bbs;
    let ghost g = globals.addrs@;
    let ghost n0 = counter.next as nat;
    let n = bodies.len();
    let mut rest = bodies;
    let mut firsts: Vec<(AbstractBlock<'a>, usize)> = Vec::new();
    let mut rests: Vec<(AbstractBlock<'a>, usize)> = Vec::new();
    let mut clobbers: Vec<Vec<ScoreHolder>> = Vec::new();
    let mut starts = FuncStarts::new();
    let mut i: usize = 0;
    while i < n
        invariant
            n == fs.len(),
            i <= n,
            sigs@.len() == fs.len(),
            forall|k: int| 0 <= k < fs.len() ==> #[trigger] sigs@[k] == fs[k].sig,
            rest@.len() == n - i,
            forall|k: int| 0 <= k < rest@.len() ==> #[trigger] rest@[k] == fs[i + k].basic_blocks,
            trace == options.trace_bbs,
            g == globals.addrs@,
            fn_blocks_ok(fs, fs.len(), trace, g, *tys, n0),
            ({
                let fb = fn_blocks(fs, i as nat, trace, g, *tys, n0);
                &&& pending_view(firsts@) == Seq::new(i as nat, |k: int| (fb.0[k][0], k))
                &&& pending_view(rests@) == rests_of(fb.0, i as nat)
                &&& counter.next == fb.1
                &&& clobbers@.len() == i
                &&& forall|k: int| 0 <= k < i ==> holder_views(#[trigger] clobbers@[k]@) == fn_clobbers(fb.0[k])
                &&& forall|k: int| 0 <= k < i ==> holder_views(#[trigger] clobbers@[k]@).to_set() == blocks_holders(fb.0[k])
                &&& forall|k: int| 0 <= k < i ==> strictly_sorted(holder_views(#[trigger] clobbers@[k]@))
                &&& starts@ == fn_starts(fs, fb.0, i as nat)
                &&& forall|k: int| 0 <= k < i ==> (#[trigger] fb.0[k]).len() >= 1
            }),
            forall|k: int| 0 <= k < firsts@.len() ==> (#[trigger] firsts@[k]).1 < i && *firsts@[k].0.parent == fs[firsts@[k].1 as int].sig,
            forall|k: int| 0 <= k < rests@.len() ==> (#[trigger] rests@[k]).1 < i && *rests@[k].0.parent == fs[rests@[k].1 as int].sig,
        decreases n - i,
    {
        proof {
            lemma_fn_blocks_ok_prefix(fs, (i + 1) as nat, n as nat, trace, g, *tys, n0);
            lemma_fn_blocks_len(fs, i as nat, trace, g, *tys, n0);
        }
        let ghost fb = fn_blocks(fs, i as nat, trace, g, *tys, n0);
        let ghost pre = rest@;
        let body = rest.remove(0);
        assert(body == fs[i as int].basic_blocks) by {
            assert(pre[0] == fs[i + 0].basic_blocks);
        }
        assert forall|k: int| 0 <= k < rest@.len() implies #[trigger] rest@[k] == fs[(i + 1) + k].basic_blocks by {
            assert(rest@[k] == pre[k + 1]);
            assert(pre[k + 1] == fs[i + (k + 1)].basic_blocks);
        }
        let sig = &sigs[i];
        let (blocks, clob) = compile_function(sig, body, globals, tys, options, counter);
        let ghost fv = function_v(fs[i as int].basic_blocks@, fs[i as int].sig.name@, trace, g, *tys, fb.1);
        let ghost fb1 = fn_blocks(fs, (i + 1) as nat, trace, g, *tys, n0);
        assert(fb1.0 == fb.0.push(fv.0));
        proof {
            lemma_rests_push(fb.0, fv.0, i as nat);
            lemma_starts_push(fs, fb.0, fv.0, i as nat);
        }
        let mut bl = blocks;
        assert(bl@.len() >= 1) by {
            assert(block_views(bl@).len() == fv.0.len());
        }
        let first = bl.remove(0);
        assert(block_view(first) == fv.0[0]) by {
            assert(crate::function::block_views(bl@.insert(0, first)) == fv.0);
        }
        starts.insert(sig.name.clone(), first.body.id.clone());
        let ghost fp = pending_view(firsts@);
        let ghost first_v = block_view(first);
        firsts.push((first, i));
        assert(pending_view(firsts@) =~= fp.push((first_v, i as int)));
        assert forall|k: int| 0 <= k < i implies fb1.0[k] == fb.0[k] by {}
        assert(fb1.0[i as int] == fv.0);
        assert(pending_view(firsts@) =~= Seq::new((i + 1) as nat, |k: int| (fb1.0[k][0], k)));
        let ghost rp = pending_view(rests@);
        let m = bl.len();
        let mut j: usize = 0;
        while j < m
            invariant
                j <= m,
                bl@.len() == m - j,
                m + 1 == fv.0.len(),
                forall|q: int| 0 <= q < bl@.len() ==> block_view(#[trigger] bl@[q]) == fv.0[j + q + 1],
                forall|q: int| 0 <= q < bl@.len() ==> (#[trigger] bl@[q]).parent == sig,
                pending_view(rests@) == rp + Seq::new(j as nat, |q: int| (fv.0[q + 1], i as int)),
                forall|k: int| 0 <= k < rests@.len() ==> (#[trigger] rests@[k]).1 < i + 1 && *rests@[k].0.parent == fs[rests@[k].1 as int].sig,
                sig == &sigs@[i as int],
                sigs@[i as int] == fs[i as int].sig,
            decreases m - j,
        {
            let ghost preb = bl@;
            let b = bl.remove(0);
            assert(block_view(b) == fv.0[j + 1]) by {
                assert(preb[0] == b);
            }
            assert(b.parent == sig) by {
                assert(preb[0] == b);
            }
            assert forall|q: int| 0 <= q < bl@.len() implies block_view(#[trigger] bl@[q]) == fv.0[(j + 1) + q + 1] && bl@[q].parent == sig by {
                assert(bl@[q] == preb[q + 1]);
            }
            let ghost rb = pending_view(rests@);
            let ghost bv = block_view(b);
            rests.push((b, i));
            assert(pending_view(rests@) =~= rb.push((bv, i as int)));
            assert(pending_view(rests@) =~= rp + Seq::new((j + 1) as nat, |q: int| (fv.0[q + 1], i as int)));
            j = j + 1;
        }
        assert(rests_of(fb1.0, (i + 1) as nat) =~= rp + Seq::new(m as nat, |q: int| (fv.0[q + 1], i as int)));
        clobbers.push(clob);
        i = i + 1;
    }
    let ghost fb = fn_blocks(fs, n as nat, trace, g, *tys, n0);
    let ghost fp = pending_view(firsts@);
    let ghost rp = pending_view(rests@);
    let ghost f0 = firsts@;
    let ghost r0 = rests@;
    firsts.append(&mut rests);
    assert(firsts@ =~= f0 + r0);
    assert(pending_view(firsts@) =~= fp + rp);
    proof {
        lemma_fn_blocks_len(fs, n as nat, trace, g, *tys, n0);
        assert(block_order(fb.0) =~= fp + rp);
        assert forall|k: int| 0 <= k < firsts@.len() implies (#[trigger] firsts@[k]).1 < fs.len() && *firsts@[k].0.parent == fs[firsts@[k].1 as int].sig by {
            if k < f0.len() {
                assert(firsts@[k] == f0[k]);
            } else {
                assert(firsts@[k] == r0[k - f0.len()]);
            }
        }
    }
    (firsts, clobbers, starts)
}

/// Makes every intrinsic start where it is, under the text of its
/// identifier.
fn add_intrinsic_starts(starts: &mut FuncStarts, intrinsics: &Vec<Function>)
    ensures
        final(starts)@ == intr_starts(old(starts)@, funcs_view(intrinsics@), intrinsics@.len()),
{
    let ghost s0 = starts@;
    let ghost intrs = funcs_view(intrinsics@);
    let mut k: usize = 0;
    while k < intrinsics.len()
        invariant
            k <= intrinsics@.len(),
            intrs == funcs_view(intrinsics@),
            starts@ == intr_starts(s0, intrs, k as nat),
        decreases intrinsics.len() - k,
    {
        let name = id_to_text(&intrinsics[k].id);
        starts.insert(name, intrinsics[k].id.clone());
        k = k + 1;
    }
}

/// Finishes every pending block, in order.
#[verifier::rlimit(60)]
fn reify_pending<'a>(
    pending: Vec<(AbstractBlock<'a>, usize)>,
    clobber_lists: &Vec<Vec<ScoreHolder>>,
    starts: &FuncStarts,
    globals: &GlobalTable,
    tys: &Types,
    counter: &mut TempCounter,
    Ghost(fs): Ghost<Seq<IrFunction>>,
    Ghost(bss): Ghost<Seq<Seq<BlockV>>>,
) -> (r: Vec<Function>)
    requires
        pending_view(pending@) == block_order(bss),
        forall|x: int| 0 <= x < pending@.len() ==> (#[trigger] pending@[x]).1 < fs.len() && *pending@[x].0.parent == fs[pending@[x].1 as int].sig,
        clobber_lists@.len() == fs.len(),
        forall|i: int| 0 <= i < fs.len() ==> holder_views(#[trigger] clobber_lists@[i]@) == fn_clobbers(bss[i]),
        reify_all_ok(block_order(bss), block_order(bss).len(), fs, bss, starts@, globals.addrs@, *tys, old(counter).next as nat),
    ensures
        funcs_view(r@) == reify_all(block_order(bss), block_order(bss).len(), fs, bss, starts@, globals.addrs@, *tys, old(counter).next as nat).0,
        final(counter).next == reify_all(block_order(bss), block_order(bss).len(), fs, bss, starts@, globals.addrs@, *tys, old(counter).next as nat).1,
{
    let ghost order = block_order(bss);
    let ghost n1 = counter.next as nat;
    let ghost g = globals.addrs@;
    let mut rest = pending;
    let mut funcs: Vec<Function> = Vec::new();
    let np = rest.len();
    let mut q: usize = 0;
    assert(pending_view(rest@).len() == rest@.len());
    while q < np
        invariant
            q <= np,
            np == order.len(),
            pending_view(rest@) == order.skip(q as int),
            forall|x: int| 0 <= x < rest@.len() ==> (#[trigger] rest@[x]).1 < fs.len() && *rest@[x].0.parent == fs[rest@[x].1 as int].sig,
            clobber_lists@.len() == fs.len(),
            forall|i: int| 0 <= i < fs.len() ==> holder_views(#[trigger] clobber_lists@[i]@) == fn_clobbers(bss[i]),
            g == globals.addrs@,
            reify_all_ok(order, order.len(), fs, bss, starts@, g, *tys, n1),
            funcs_view(funcs@) == reify_all(order, q as nat, fs, bss, starts@, g, *tys, n1).0,
            counter.next == reify_all(order, q as nat, fs, bss, starts@, g, *tys, n1).1,
        decreases np - q,
    {
        proof {
            lemma_reify_all_ok_prefix(order, (q + 1) as nat, order.len(), fs, bss, starts@, g, *tys, n1);
        }
        assert(rest@.len() > 0) by {
            assert(pending_view(rest@).len() == rest@.len());
        }
        let ghost pre = rest@;
        let (b, f) = rest.remove(0);
        assert((block_view(b), f as int) == order[q as int]) by {
            assert(pre[0] == (b, f));
            assert(pending_view(pre)[0] == order.skip(q as int)[0]);
        }
        assert(*b.parent == fs[f as int].sig && f < fs.len()) by {
            assert(pre[0] == (b, f));
        }
        let ghost pv = pending_view(pre);
        assert(pending_view(rest@) =~= pv.subrange(1, pv.len() as int));
        assert(pv.subrange(1, pv.len() as int) =~= order.skip(q + 1));
        assert forall|x: int| 0 <= x < rest@.len() implies (#[trigger] rest@[x]).1 < fs.len() && *rest@[x].0.parent == fs[rest@[x].1 as int].sig by {
            assert(rest@[x] == pre[x + 1]);
        }
        let done = reify_block(b, &clobber_lists[f], starts, globals, tys, counter);
        let ghost before = funcs_view(funcs@);
        funcs.push(done);
        assert(funcs_view(funcs@) =~= before.push(done@));
        q = q + 1;
    }
    funcs
}

/// Every register some function saves, in increasing order.
fn merge_clobbers(lists: &Vec<Vec<ScoreHolder>>, Ghost(bss): Ghost<Seq<Seq<BlockV>>>) -> (r: Vec<ScoreHolder>)
    requires
        lists@.len() == bss.len(),
        forall|x: int| 0 <= x < bss.len() ==> holder_views(#[trigger] lists@[x]@).to_set() == blocks_holders(bss[x]),
    ensures
        holder_views(r@) == sorted_names(all_clobbers(bss)),
{
    let mut all: Vec<ScoreHolder> = Vec::new();
    let mut i: usize = 0;
    assert(holder_views(all@).to_set() =~= Set::<Seq<char>>::empty());
    assert(Set::new(|h: Seq<char>| exists|x: int| 0 <= x < 0 && #[trigger] blocks_holders(bss[x]).contains(h)) =~= Set::<Seq<char>>::empty());
    while i < lists.len()
        invariant
            i <= lists@.len(),
            lists@.len() == bss.len(),
            forall|x: int| 0 <= x < bss.len() ==> holder_views(#[trigger] lists@[x]@).to_set() == blocks_holders(bss[x]),
            strictly_sorted(holder_views(all@)),
            holder_views(all@).to_set() == Set::new(|h: Seq<char>| exists|x: int| 0 <= x < i && #[trigger] blocks_holders(bss[x]).contains(h)),
        decreases lists.len() - i,
    {
        let list = &lists[i];
        let ghost before = holder_views(all@).to_set();
        let mut j: usize = 0;
        assert(holder_views(list@).take(0).to_set() =~= Set::<Seq<char>>::empty());
        assert(before + Set::<Seq<char>>::empty() =~= before);
        while j < list.len()
            invariant
                j <= list@.len(),
                strictly_sorted(holder_views(all@)),
                holder_views(all@).to_set() == before + holder_views(list@).take(j as int).to_set(),
            decreases list.len() - j,
        {
            let ghost hj = list@[j as int]@;
            insert_holder(&mut all, list[j].clone());
            assert(holder_views(list@).take(j + 1).to_set() =~= holder_views(list@).take(j as int).to_set().insert(hj)) by {
                crate::function::lemma_concat_to_set(holder_views(list@).take(j as int), seq![hj]);
                assert(holder_views(list@).take(j as int) + seq![hj] =~= holder_views(list@).take(j + 1));
                assert(seq![hj].to_set() =~= set![hj]) by {
                    assert(seq![hj][0] == hj);
                }
            }
            assert(holder_views(all@).to_set() =~= before + holder_views(list@).take(j + 1).to_set());
            j = j + 1;
        }
        assert(holder_views(list@).take(list@.len() as int) =~= holder_views(list@));
        assert(holder_views(all@).to_set() =~= Set::new(|h: Seq<char>| exists|x: int| 0 <= x < i + 1 && #[trigger] blocks_holders(bss[x]).contains(h))) by {
            assert forall|h: Seq<char>| holder_views(all@).to_set().contains(h) <==> exists|x: int| 0 <= x < i + 1 && #[trigger] blocks_holders(bss[x]).contains(h) by {
                if blocks_holders(bss[i as int]).contains(h) {
                    assert(0 <= i < i + 1);
                }
            }
        }
        i = i + 1;
    }
    proof {
        let hv = holder_views(all@);
        assert(hv.to_set() =~= all_clobbers(bss));
        let chosen = sorted_names(all_clobbers(bss));
        assert(strictly_sorted(chosen) && chosen.to_set() == all_clobbers(bss));
        lemma_sorted_unique(hv, chosen);
    }
    all
}

/// Compiles a module. Its globals are laid out from address 4; each
/// function is split into blocks of commands; every function, then every
/// intrinsic of `intrinsics`, then every alias of a function is given its
/// start; every block is finished and placed, first blocks first; the
/// intrinsics are placed after them; the program is linked, with
/// `counts[i]` the estimated command count of function `i`; and three
/// functions end the program: `init`, which sets every saved register,
/// initialises the globals, places the condition stack, the entry
/// function's return slot and the stack, and builds the clock to run the
/// entry function named by `options`; `on_tick`; and `run`, which starts
/// everything.
#[verifier::rlimit(100)]
#[verifier::spinoff_prover]
pub fn compile_module(
    module: IrModule,
    options: &BuildOptions,
    intrinsics: Vec<Function>,
    on_tick: Function,
    counts: &Vec<Option<usize>>,
    counter: &mut TempCounter,
) -> (r: Vec<Function>)
    requires
        module_ok(module, *options, funcs_view(intrinsics@), counts@, old(counter).next as nat),
    ensures
        r@.len() >= 3,
        module_result(funcs_view(r@), module, *options, funcs_view(intrinsics@), counts@, old(counter).next as nat),
        r@[r@.len() - 2]@ == on_tick@,
        r@[r@.len() - 1]@ == run_function_v(),
{
    let ghost m = module;
    let ghost n0 = counter.next as nat;
    let ghost intrs = funcs_view(intrinsics@);
    let ghost trace = options.trace_bbs;
    let IrModule { functions, global_vars, global_aliases, types } = module;
    let ghost fs = functions@;
    proof {
        lemma_module_ok(m, *options, intrs, counts@, n0, Seq::empty());
    }
    let (sigs, bodies, names) = split_functions(functions);
    let mut alloc = StaticAllocator(4);
    let mut globals = global_var_layout(&global_vars, &global_aliases, &names, &mut alloc, &types);
    let ghost g = globals.addrs@;
    assert(table_map(g) == module_layout(m));
    proof {
        lemma_module_ok(m, *options, intrs, counts@, n0, g);
        lemma_chain(m, *options, intrs, counts@, g, n0);
    }
    let ghost c = chain_v(m, trace, intrs, g, n0);
    let (pending, clobber_lists, mut starts) = compile_functions(&sigs, bodies, &globals, &types, options, counter, Ghost(fs));
    assert(counter.next == c.n1);
    add_intrinsic_starts(&mut starts, &intrinsics);
    let _outcomes = link_aliases(&mut starts, &global_aliases);
    assert(starts@ == c.starts);
    let mut funcs = reify_pending(pending, &clobber_lists, &starts, &globals, &types, counter, Ghost(fs), Ghost(c.bss));
    let ghost placed_before = funcs_view(funcs@);
    let mut intrinsics = intrinsics;
    funcs.append(&mut intrinsics);
    assert(funcs_view(funcs@) =~= placed_before + intrs);
    assert(funcs_view(funcs@) == c.funcs);
    let mut funcs = do_relocation(funcs, &starts, &mut globals, counts);
    let ghost g2 = globals.addrs@;
    let global_init = compile_global_var_init(&global_vars, &globals, &types, counter);
    proof {
        lemma_fn_blocks_len(fs, fs.len(), trace, g, types, n0);
    }
    let all = merge_clobbers(&clobber_lists, Ghost(c.bss));
    let init_cmds = init_commands(&mut alloc, &all, global_init, &starts, options);
    let ghost placed = funcs_view(funcs@);
    let ghost init_cmds_view = init_cmds@;
    funcs.push(Function { id: FunctionId::new("init"), cmds: init_cmds });
    funcs.push(on_tick);
    funcs.push(run_function());
    proof {
        let r = funcs_view(funcs@);
        assert(r.take(r.len() - 3) =~= placed);
        assert(r[r.len() - 3] == FunctionV { id: FunctionIdV { name: "init"@, sub: 0 }, cmds: commands_view(init_cmds_view) });
        lemma_module_result(r, m, *options, intrs, counts@, n0, g, g2, commands_view(init_cmds_view));
    }
    funcs
}

} // verus!
