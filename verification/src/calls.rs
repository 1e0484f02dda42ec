//! Setting up calls: arguments into parameter holders or onto the stack,
//! and the memory intrinsics `memset` and `memcpy`.
use vstd::prelude::*;
use crate::cir::{Command, CommandV, ScoreHolder, commands_view};
use crate::constants::GlobalTable;
use crate::frame::pushes;
use crate::layout::Types;
use crate::locals::LocalName;
use crate::memory::{MaybeConst, MaybeConstV, TempCounter, get_unique_holder, temp_name};
use crate::operands::{
    Argument, Operand, as_const_32, as_const_64, as_const_int, as_const_int_spec,
    eval_maybe_const, eval_operand, eval_operand_ok, eval_operand_spec, eval_operand_v, operand_ok,
};
use crate::registers::{
    add_lit, add_v, assign, assign_lit, assign_v, call, call_v, comment_v, param, param_name,
    ptr, push, push_v, read_ptr, read_ptr_v, return_holder, return_name, set_v, stackptr,
    write_ptr, write_ptr_const, write_ptr_const_v, write_ptr_v,
};

verus! {

// ----------------------------------------------------------------------
// Arguments
// ----------------------------------------------------------------------

/// The commands that put the first `k` arguments into the parameter
/// holders, word by word, and the counter after.
pub open spec fn setup_args_v(
    args: Seq<Argument>,
    k: nat,
    g: Seq<(LocalName, u32)>,
    tys: Types,
    n: nat,
) -> (Seq<CommandV>, nat)
    decreases k,
{
    if k == 0 || k > args.len() {
        (Seq::empty(), n)
    } else {
        let p = setup_args_v(args, (k - 1) as nat, g, tys, n);
        let e = eval_operand_spec(args[k - 1].value, g, tys, p.1);
        match e.0 {
            MaybeConstV::Const(score) => (p.0.push(set_v(param_name((k - 1) as nat, 0), score)), e.1),
            MaybeConstV::NonConst(cmds, source) => (
                p.0 + cmds + Seq::new(
                    source.len(),
                    |w: int| assign_v(param_name((k - 1) as nat, w as nat), source[w]),
                ),
                e.1,
            ),
        }
    }
}

/// Whether the first `k` arguments can be evaluated in turn.
pub open spec fn setup_args_ok(
    args: Seq<Argument>,
    k: nat,
    g: Seq<(LocalName, u32)>,
    tys: Types,
    n: nat,
) -> bool
    decreases k,
{
    if k == 0 || k > args.len() {
        true
    } else {
        &&& setup_args_ok(args, (k - 1) as nat, g, tys, n)
        &&& operand_ok(args[k - 1].value, g, tys, setup_args_v(args, (k - 1) as nat, g, tys, n).1)
    }
}

/// Appends the copies of `source` into the words of parameter `idx`.
fn assign_words(out: &mut Vec<Command>, idx: usize, source: Vec<ScoreHolder>)
    ensures
        commands_view(final(out)@) == commands_view(old(out)@) + Seq::new(
            source@.len(),
            |w: int| assign_v(param_name(idx as nat, w as nat), source@[w]@),
        ),
{
    let ghost start = commands_view(out@);
    let mut w: usize = 0;
    while w < source.len()
        invariant
            w <= source@.len(),
            commands_view(out@) == start + Seq::new(
                w as nat,
                |j: int| assign_v(param_name(idx as nat, j as nat), source@[j]@),
            ),
        decreases source.len() - w,
    {
        let ghost before = commands_view(out@);
        let c = assign(param(idx, w), source[w].clone());
        out.push(c);
        assert(commands_view(out@) =~= start + Seq::new(
            (w + 1) as nat,
            |j: int| assign_v(param_name(idx as nat, j as nat), source@[j]@),
        )) by {
            assert(commands_view(out@) =~= before.push(c@));
        }
        w = w + 1;
    }
}

/// The commands that put each argument into the parameter holders: a
/// constant is set directly, another value is copied word by word after
/// the commands that compute it.
pub fn setup_arguments(
    arguments: &Vec<Argument>,
    globals: &GlobalTable,
    tys: &Types,
    counter: &mut TempCounter,
) -> (r: Vec<Command>)
    requires
        setup_args_ok(arguments@, arguments@.len(), globals.addrs@, *tys, old(counter).next as nat),
    ensures
        (commands_view(r@), final(counter).next as nat) == setup_args_v(
            arguments@,
            arguments@.len(),
            globals.addrs@,
            *tys,
            old(counter).next as nat,
        ),
{
    let ghost args = arguments@;
    let ghost g = globals.addrs@;
    let ghost n = counter.next as nat;
    let mut before_cmds: Vec<Command> = Vec::new();
    let mut idx: usize = 0;
    while idx < arguments.len()
        invariant
            args == arguments@,
            g == globals.addrs@,
            idx <= args.len(),
            setup_args_ok(args, args.len(), g, *tys, n),
            (commands_view(before_cmds@), counter.next as nat) == setup_args_v(
                args,
                idx as nat,
                g,
                *tys,
                n,
            ),
        decreases args.len() - idx,
    {
        proof {
            lemma_setup_args_ok_prefix(args, (idx + 1) as nat, args.len(), g, *tys, n);
        }
        let ghost before = commands_view(before_cmds@);
        match eval_maybe_const(&arguments[idx].value, globals, tys, counter) {
            MaybeConst::Const(score) => {
                let c = assign_lit(param(idx, 0), score);
                before_cmds.push(c);
                assert(commands_view(before_cmds@) =~= before.push(c@));
            },
            MaybeConst::NonConst(cmds, source) => {
                let mut cmds = cmds;
                let ghost cv = commands_view(cmds@);
                before_cmds.append(&mut cmds);
                assert(commands_view(before_cmds@) =~= before + cv);
                let ghost sv = source@;
                assign_words(&mut before_cmds, idx, source);
                assert(Seq::new(
                    sv.len(),
                    |w: int| assign_v(param_name(idx as nat, w as nat), sv[w]@),
                ) =~= Seq::new(
                    sv.map_values(|x: ScoreHolder| x@).len(),
                    |w: int|
                        assign_v(
                            param_name(idx as nat, w as nat),
                            sv.map_values(|x: ScoreHolder| x@)[w],
                        ),
                ));
            },
        }
        idx = idx + 1;
    }
    before_cmds
}

proof fn lemma_setup_args_ok_prefix(
    args: Seq<Argument>,
    j: nat,
    k: nat,
    g: Seq<(LocalName, u32)>,
    tys: Types,
    n: nat,
)
    requires
        j <= k <= args.len(),
        setup_args_ok(args, k, g, tys, n),
    ensures
        setup_args_ok(args, j, g, tys, n),
    decreases k,
{
    if j < k {
        lemma_setup_args_ok_prefix(args, j, (k - 1) as nat, g, tys, n);
    }
}

/// The commands that push the first `k` arguments of a call with a
/// variable argument list onto the stack, and the counter after.
pub open spec fn setup_var_args_v(
    args: Seq<Argument>,
    k: nat,
    g: Seq<(LocalName, u32)>,
    tys: Types,
    n: nat,
) -> (Seq<CommandV>, nat)
    decreases k,
{
    if k == 0 || k > args.len() {
        (Seq::empty(), n)
    } else {
        let p = setup_var_args_v(args, (k - 1) as nat, g, tys, n);
        let e = eval_operand_spec(args[k - 1].value, g, tys, p.1);
        match e.0 {
            MaybeConstV::Const(score) => (
                p.0 + seq![
                    assign_v("%ptr"@, "%stackptr"@),
                    call_v("intrinsic:setptr"@),
                    write_ptr_const_v(score),
                    add_v("%stackptr"@, 4),
                ],
                e.1,
            ),
            MaybeConstV::NonConst(cmds, source) => (p.0 + cmds + pushes(source), e.1),
        }
    }
}

/// Whether the first `k` arguments of a call with a variable argument
/// list can be evaluated in turn.
pub open spec fn setup_var_args_ok(
    args: Seq<Argument>,
    k: nat,
    g: Seq<(LocalName, u32)>,
    tys: Types,
    n: nat,
) -> bool
    decreases k,
{
    if k == 0 || k > args.len() {
        true
    } else {
        &&& setup_var_args_ok(args, (k - 1) as nat, g, tys, n)
        &&& operand_ok(
            args[k - 1].value,
            g,
            tys,
            setup_var_args_v(args, (k - 1) as nat, g, tys, n).1,
        )
    }
}

proof fn lemma_setup_var_args_ok_prefix(
    args: Seq<Argument>,
    j: nat,
    k: nat,
    g: Seq<(LocalName, u32)>,
    tys: Types,
    n: nat,
)
    requires
        j <= k <= args.len(),
        setup_var_args_ok(args, k, g, tys, n),
    ensures
        setup_var_args_ok(args, j, g, tys, n),
    decreases k,
{
    if j < k {
        lemma_setup_var_args_ok_prefix(args, j, (k - 1) as nat, g, tys, n);
    }
}

/// Appends pushes of each holder of `source`.
fn push_words(out: &mut Vec<Command>, source: Vec<ScoreHolder>)
    ensures
        commands_view(final(out)@) == commands_view(old(out)@) + pushes(
            source@.map_values(|x: ScoreHolder| x@),
        ),
{
    let ghost start = commands_view(out@);
    let ghost sv = source@.map_values(|x: ScoreHolder| x@);
    let mut w: usize = 0;
    while w < source.len()
        invariant
            w <= source@.len(),
            sv == source@.map_values(|x: ScoreHolder| x@),
            commands_view(out@) == start + pushes(sv.take(w as int)),
        decreases source.len() - w,
    {
        let ghost before = commands_view(out@);
        let mut p = push(source[w].clone());
        let ghost pv = commands_view(p@);
        out.append(&mut p);
        assert(sv.take(w + 1).drop_last() =~= sv.take(w as int));
        assert(commands_view(out@) =~= before + pv);
        assert(commands_view(out@) =~= start + pushes(sv.take(w + 1)));
        w = w + 1;
    }
    assert(sv.take(source@.len() as int) =~= sv);
}

/// The commands that push each argument of a call with a variable
/// argument list onto the stack.
pub fn setup_var_arguments(
    arguments: &Vec<Argument>,
    globals: &GlobalTable,
    tys: &Types,
    counter: &mut TempCounter,
) -> (r: Vec<Command>)
    requires
        setup_var_args_ok(
            arguments@,
            arguments@.len(),
            globals.addrs@,
            *tys,
            old(counter).next as nat,
        ),
    ensures
        (commands_view(r@), final(counter).next as nat) == setup_var_args_v(
            arguments@,
            arguments@.len(),
            globals.addrs@,
            *tys,
            old(counter).next as nat,
        ),
{
    let ghost args = arguments@;
    let ghost g = globals.addrs@;
    let ghost n = counter.next as nat;
    let mut before_cmds: Vec<Command> = Vec::new();
    let mut idx: usize = 0;
    while idx < arguments.len()
        invariant
            args == arguments@,
            g == globals.addrs@,
            idx <= args.len(),
            setup_var_args_ok(args, args.len(), g, *tys, n),
            (commands_view(before_cmds@), counter.next as nat) == setup_var_args_v(
                args,
                idx as nat,
                g,
                *tys,
                n,
            ),
        decreases args.len() - idx,
    {
        proof {
            lemma_setup_var_args_ok_prefix(args, (idx + 1) as nat, args.len(), g, *tys, n);
        }
        let ghost before = commands_view(before_cmds@);
        match eval_maybe_const(&arguments[idx].value, globals, tys, counter) {
            MaybeConst::Const(score) => {
                let c0 = assign(ptr(), stackptr());
                let c1 = call("intrinsic:setptr");
                let c2 = write_ptr_const(score);
                let c3 = add_lit(stackptr(), 4);
                let mut v = vec![c0, c1, c2, c3];
                assert(commands_view(v@) =~= seq![c0@, c1@, c2@, c3@]);
                before_cmds.append(&mut v);
                assert(commands_view(before_cmds@) =~= before + seq![c0@, c1@, c2@, c3@]);
            },
            MaybeConst::NonConst(cmds, source) => {
                let mut cmds = cmds;
                let ghost cv = commands_view(cmds@);
                before_cmds.append(&mut cmds);
                assert(commands_view(before_cmds@) =~= before + cv);
                push_words(&mut before_cmds, source);
            },
        }
        idx = idx + 1;
    }
    before_cmds
}

// ----------------------------------------------------------------------
// memset
// ----------------------------------------------------------------------

/// The length operand of a memory intrinsic in holders: a 64-bit constant
/// is set into a fresh temporary; anything else is evaluated.
pub open spec fn len_holders_v(len: Operand, g: Seq<(LocalName, u32)>, tys: Types, n: nat) -> (
    Seq<CommandV>,
    Seq<Seq<char>>,
    nat,
) {
    match as_const_int_spec(64, len) {
        Some(v) => (seq![set_v(temp_name(n), v as i32)], seq![temp_name(n)], n + 1),
        None => eval_operand_v(len, g, tys, n),
    }
}

/// Whether the length operand can be brought into holders.
pub open spec fn len_holders_ok(len: Operand, g: Seq<(LocalName, u32)>, tys: Types, n: nat) -> bool {
    match as_const_int_spec(64, len) {
        Some(_) => n < u32::MAX,
        None => eval_operand_ok(len, g, tys, n),
    }
}

/// The commands of `memset(dest, value, len, volatile)` and the counter
/// after: the operands in holders, then copied into the first three
/// parameters before the call of the intrinsic.
pub open spec fn memset_v(args: Seq<Argument>, g: Seq<(LocalName, u32)>, tys: Types, n: nat) -> (
    Seq<CommandV>,
    nat,
) {
    let d = eval_operand_v(args[0].value, g, tys, n);
    let v = eval_operand_v(args[1].value, g, tys, d.2);
    let l = len_holders_v(args[2].value, g, tys, v.2);
    (
        d.0 + v.0 + l.0 + seq![
            assign_v(param_name(0, 0), d.1[0]),
            assign_v(param_name(1, 0), v.1[0]),
            assign_v(param_name(2, 0), l.1[0]),
            call_v("intrinsic:memset"@),
        ],
        l.2,
    )
}

/// Whether a `memset` call can be compiled: four arguments, not volatile,
/// each operand one word.
pub open spec fn memset_ok(args: Seq<Argument>, g: Seq<(LocalName, u32)>, tys: Types, n: nat) -> bool {
    let d = eval_operand_v(args[0].value, g, tys, n);
    let v = eval_operand_v(args[1].value, g, tys, d.2);
    let l = len_holders_v(args[2].value, g, tys, v.2);
    &&& args.len() == 4
    &&& as_const_int_spec(1, args[3].value) == Some(0u64)
    &&& eval_operand_ok(args[0].value, g, tys, n)
    &&& eval_operand_ok(args[1].value, g, tys, d.2)
    &&& len_holders_ok(args[2].value, g, tys, v.2)
    &&& d.1.len() == 1
    &&& v.1.len() == 1
    &&& l.1.len() == 1
}

/// The length operand in holders.
fn len_holders(
    len: &Operand,
    globals: &GlobalTable,
    tys: &Types,
    counter: &mut TempCounter,
) -> (r: (Vec<Command>, Vec<ScoreHolder>))
    requires
        len_holders_ok(*len, globals.addrs@, *tys, old(counter).next as nat),
    ensures
        (commands_view(r.0@), r.1@.map_values(|x: ScoreHolder| x@), final(counter).next as nat)
            == len_holders_v(*len, globals.addrs@, *tys, old(counter).next as nat),
{
    match as_const_64(len) {
        Some(value) => {
            let ghost n = counter.next as nat;
            let len1 = get_unique_holder(counter);
            let c = assign_lit(len1.clone(), value as i32);
            let cmds = vec![c];
            let hs = vec![len1];
            assert(commands_view(cmds@) =~= seq![c@]);
            assert(hs@.map_values(|x: ScoreHolder| x@) =~= seq![temp_name(n)]);
            (cmds, hs)
        },
        None => eval_operand(len, globals, tys, counter),
    }
}

/// Compiles a call of `memset(dest, value, len, volatile)`.
pub fn compile_memset(
    arguments: &Vec<Argument>,
    globals: &GlobalTable,
    tys: &Types,
    counter: &mut TempCounter,
) -> (r: Vec<Command>)
    requires
        memset_ok(arguments@, globals.addrs@, *tys, old(counter).next as nat),
    ensures
        (commands_view(r@), final(counter).next as nat) == memset_v(
            arguments@,
            globals.addrs@,
            *tys,
            old(counter).next as nat,
        ),
{
    let (mut cmds, dest1) = eval_operand(&arguments[0].value, globals, tys, counter);
    let (mut tmp, value1) = eval_operand(&arguments[1].value, globals, tys, counter);
    let ghost a = commands_view(cmds@);
    let ghost b = commands_view(tmp@);
    cmds.append(&mut tmp);
    let (mut tmp2, len1) = len_holders(&arguments[2].value, globals, tys, counter);
    let ghost c = commands_view(tmp2@);
    cmds.append(&mut tmp2);
    let c0 = assign(param(0, 0), dest1[0].clone());
    let c1 = assign(param(1, 0), value1[0].clone());
    let c2 = assign(param(2, 0), len1[0].clone());
    let c3 = call("intrinsic:memset");
    let mut tail = vec![c0, c1, c2, c3];
    assert(commands_view(tail@) =~= seq![c0@, c1@, c2@, c3@]);
    cmds.append(&mut tail);
    assert(commands_view(cmds@) =~= a + b + c + seq![c0@, c1@, c2@, c3@]);
    cmds
}

// ----------------------------------------------------------------------
// memcpy
// ----------------------------------------------------------------------

/// Command `j` of the eight that copy one word from the address in `src`
/// to the address in `dst` through `tmp`, advancing both.
pub open spec fn word_copy_cmd(src: Seq<char>, dst: Seq<char>, tmp: Seq<char>, j: int) -> CommandV {
    if j == 0 {
        assign_v("%ptr"@, src)
    } else if j == 1 {
        call_v("intrinsic:setptr"@)
    } else if j == 2 {
        read_ptr_v(tmp)
    } else if j == 3 {
        add_v(src, 4)
    } else if j == 4 {
        assign_v("%ptr"@, dst)
    } else if j == 5 {
        call_v("intrinsic:setptr"@)
    } else if j == 6 {
        write_ptr_v(tmp)
    } else {
        add_v(dst, 4)
    }
}

/// Command `j` of the seven that copy one byte from the address in `src`
/// to the address in `dst`, advancing both.
pub open spec fn byte_copy_cmd(src: Seq<char>, dst: Seq<char>, j: int) -> CommandV {
    if j == 0 {
        assign_v("%ptr"@, src)
    } else if j == 1 {
        call_v("intrinsic:load_byte"@)
    } else if j == 2 {
        add_v(src, 1)
    } else if j == 3 {
        assign_v(param_name(2, 0), return_name(0))
    } else if j == 4 {
        assign_v("%ptr"@, dst)
    } else if j == 5 {
        call_v("intrinsic:store_byte"@)
    } else {
        add_v(dst, 1)
    }
}

/// The length of a `memcpy` when it is a 32-bit constant.
pub open spec fn const_len32(len: Operand) -> Option<u32> {
    match as_const_int_spec(32, len) {
        Some(v) => Some(v as u32),
        None => None,
    }
}

/// Whether a `memcpy` is copied inline: both pointers promise an alignment
/// that is a multiple of four and the length is a constant.
pub open spec fn memcpy_inline(args: Seq<Argument>) -> bool {
    &&& args[0].align matches Some(d) && d % 4 == 0
    &&& args[1].align matches Some(s) && s % 4 == 0
    &&& const_len32(args[2].value) is Some
}

/// The commands of `memcpy(dest, src, len, volatile)`, the commands that
/// follow the call when it goes through a call with a return address, and
/// the counter after. A constant length over 1024 bytes calls the
/// intrinsic as a function with a return address; an inline copy moves
/// words, then the remaining bytes; otherwise the intrinsic is called.
pub open spec fn memcpy_v(args: Seq<Argument>, g: Seq<(LocalName, u32)>, tys: Types, n: nat) -> (
    Seq<CommandV>,
    Option<Seq<CommandV>>,
    nat,
) {
    let s = eval_operand_v(args[1].value, g, tys, n);
    let d = eval_operand_v(args[0].value, g, tys, s.2);
    let head = s.0 + d.0;
    let src1 = s.1[0];
    let dest1 = d.1[0];
    if const_len32(args[2].value) matches Some(v) && v > 1024 {
        (
            head + memcpy_far_v(dest1, src1, const_len32(args[2].value).unwrap()),
            Some(Seq::empty()),
            d.2,
        )
    } else if memcpy_inline(args) {
        (
            head + memcpy_inline_v(dest1, src1, const_len32(args[2].value).unwrap(), d.2),
            None,
            d.2 + 3,
        )
    } else {
        let l = eval_operand_v(args[2].value, g, tys, d.2);
        (head + l.0 + memcpy_call_v(dest1, src1, l.1[0]), None, l.2)
    }
}

/// Whether a `memcpy` call can be compiled: four arguments, not volatile,
/// single-word pointers and length, and room for the temporaries.
pub open spec fn memcpy_ok(args: Seq<Argument>, g: Seq<(LocalName, u32)>, tys: Types, n: nat) -> bool {
    let s = eval_operand_v(args[1].value, g, tys, n);
    let d = eval_operand_v(args[0].value, g, tys, s.2);
    &&& args.len() == 4
    &&& as_const_int_spec(1, args[3].value) == Some(0u64)
    &&& eval_operand_ok(args[1].value, g, tys, n)
    &&& eval_operand_ok(args[0].value, g, tys, s.2)
    &&& s.1.len() == 1
    &&& d.1.len() == 1
    &&& !(const_len32(args[2].value) matches Some(v) && v > 1024) ==> if memcpy_inline(args) {
        d.2 + 3 <= u32::MAX
    } else {
        &&& eval_operand_ok(args[2].value, g, tys, d.2)
        &&& eval_operand_v(args[2].value, g, tys, d.2).1.len() == 1
    }
}

/// Appends `copies` copies of the eight commands that copy one word.
fn push_word_copies(
    out: &mut Vec<Command>,
    src: &ScoreHolder,
    dst: &ScoreHolder,
    tmp: &ScoreHolder,
    copies: u32,
)
    ensures
        commands_view(final(out)@) == commands_view(old(out)@) + Seq::new(
            8 * copies as nat,
            |k: int| word_copy_cmd(src@, dst@, tmp@, k % 8),
        ),
{
    let ghost start = commands_view(out@);
    let mut i: u32 = 0;
    while i < copies
        invariant
            i <= copies,
            commands_view(out@) == start + Seq::new(
                8 * i as nat,
                |k: int| word_copy_cmd(src@, dst@, tmp@, k % 8),
            ),
        decreases copies - i,
    {
        let ghost before = commands_view(out@);
        let c0 = assign(ptr(), src.clone());
        let c1 = call("intrinsic:setptr");
        let c2 = read_ptr(tmp.clone());
        let c3 = add_lit(src.clone(), 4);
        let c4 = assign(ptr(), dst.clone());
        let c5 = call("intrinsic:setptr");
        let c6 = write_ptr(tmp.clone());
        let c7 = add_lit(dst.clone(), 4);
        let mut block = vec![c0, c1, c2, c3, c4, c5, c6, c7];
        let ghost bv = seq![c0@, c1@, c2@, c3@, c4@, c5@, c6@, c7@];
        assert(commands_view(block@) =~= bv);
        out.append(&mut block);
        let ghost s_old = Seq::new(8 * i as nat, |k: int| word_copy_cmd(src@, dst@, tmp@, k % 8));
        let ghost s_new = Seq::new(
            8 * (i + 1) as nat,
            |k: int| word_copy_cmd(src@, dst@, tmp@, k % 8),
        );
        assert(s_new =~= s_old + bv) by {
            assert forall|k: int| 0 <= k < s_new.len() implies s_new[k] == (s_old + bv)[k] by {
                if k >= 8 * i {
                    assert(k % 8 == k - 8 * i) by (nonlinear_arith)
                        requires
                            8 * i <= k < 8 * i + 8,
                    ;
                }
            }
        }
        assert(commands_view(out@) =~= before + bv);
        assert(commands_view(out@) =~= start + s_new);
        i = i + 1;
    }
}

/// Appends `copies` copies of the seven commands that copy one byte.
fn push_byte_copies(out: &mut Vec<Command>, src: &ScoreHolder, dst: &ScoreHolder, copies: u32)
    ensures
        commands_view(final(out)@) == commands_view(old(out)@) + Seq::new(
            7 * copies as nat,
            |k: int| byte_copy_cmd(src@, dst@, k % 7),
        ),
{
    let ghost start = commands_view(out@);
    let mut i: u32 = 0;
    while i < copies
        invariant
            i <= copies,
            commands_view(out@) == start + Seq::new(
                7 * i as nat,
                |k: int| byte_copy_cmd(src@, dst@, k % 7),
            ),
        decreases copies - i,
    {
        let ghost before = commands_view(out@);
        let c0 = assign(ptr(), src.clone());
        let c1 = call("intrinsic:load_byte");
        let c2 = add_lit(src.clone(), 1);
        let c3 = assign(param(2, 0), return_holder(0));
        let c4 = assign(ptr(), dst.clone());
        let c5 = call("intrinsic:store_byte");
        let c6 = add_lit(dst.clone(), 1);
        let mut block = vec![c0, c1, c2, c3, c4, c5, c6];
        let ghost bv = seq![c0@, c1@, c2@, c3@, c4@, c5@, c6@];
        assert(commands_view(block@) =~= bv);
        out.append(&mut block);
        let ghost s_old = Seq::new(7 * i as nat, |k: int| byte_copy_cmd(src@, dst@, k % 7));
        let ghost s_new = Seq::new(7 * (i + 1) as nat, |k: int| byte_copy_cmd(src@, dst@, k % 7));
        assert(s_new =~= s_old + bv) by {
            assert forall|k: int| 0 <= k < s_new.len() implies s_new[k] == (s_old + bv)[k] by {
                if k >= 7 * i {
                    assert(k % 7 == k - 7 * i) by (nonlinear_arith)
                        requires
                            7 * i <= k < 7 * i + 7,
                    ;
                }
            }
        }
        assert(commands_view(out@) =~= before + bv);
        assert(commands_view(out@) =~= start + s_new);
        i = i + 1;
    }
}

/// The copy of a long constant length: the intrinsic is called as a
/// function, with a return address pushed first.
pub open spec fn memcpy_far_v(dest1: Seq<char>, src1: Seq<char>, value: u32) -> Seq<CommandV> {
    push_v("%%fixup_return_addr"@) + seq![
        assign_v(param_name(0, 0), dest1),
        assign_v(param_name(1, 0), src1),
        set_v(param_name(2, 0), value as i32),
        set_v(param_name(4, 0), 1),
        comment_v("!FIXUPCALL intrinsic:memcpy"@),
    ]
}

/// An inline copy of `len` bytes through the temporaries numbered from
/// `t`.
pub open spec fn memcpy_inline_v(dest1: Seq<char>, src1: Seq<char>, len: u32, t: nat) -> Seq<
    CommandV,
> {
    let tsrc = temp_name(t);
    let tdst = temp_name(t + 1);
    let tmp = temp_name(t + 2);
    seq![
        comment_v("Begin memcpy with src "@ + src1 + " and dest "@ + dest1),
        assign_v(tsrc, src1),
        assign_v(tdst, dest1),
        set_v(param_name(4, 0), 0),
    ] + Seq::new(8 * (len / 4) as nat, |k: int| word_copy_cmd(tsrc, tdst, tmp, k % 8)) + Seq::new(
        7 * (len % 4) as nat,
        |k: int| byte_copy_cmd(tsrc, tdst, k % 7),
    ) + seq![comment_v("End memcpy"@)]
}

/// The call of the intrinsic with the length in `len1`.
pub open spec fn memcpy_call_v(dest1: Seq<char>, src1: Seq<char>, len1: Seq<char>) -> Seq<CommandV> {
    seq![
        assign_v(param_name(0, 0), dest1),
        assign_v(param_name(1, 0), src1),
        assign_v(param_name(2, 0), len1),
        set_v(param_name(4, 0), 0),
        call_v("intrinsic:memcpy"@),
    ]
}

fn memcpy_far(cmds: &mut Vec<Command>, dest1: ScoreHolder, src1: ScoreHolder, value: u32)
    ensures
        commands_view(final(cmds)@) == commands_view(old(cmds)@) + memcpy_far_v(
            dest1@,
            src1@,
            value,
        ),
{
    let ghost head = commands_view(cmds@);
    proof {
        reveal_strlit("%%fixup_return_addr");
    }
    let marker = ScoreHolder::from_valid(String::from_str("%%fixup_return_addr"));
    let mut p = push(marker);
    let ghost pv = commands_view(p@);
    cmds.append(&mut p);
    let c0 = assign(param(0, 0), dest1);
    let c1 = assign(param(1, 0), src1);
    let c2 = assign_lit(param(2, 0), value as i32);
    let c3 = assign_lit(param(4, 0), 1);
    let c4 = Command::Comment(String::from_str("!FIXUPCALL intrinsic:memcpy"));
    let mut tail = vec![c0, c1, c2, c3, c4];
    assert(commands_view(tail@) =~= seq![c0@, c1@, c2@, c3@, c4@]);
    cmds.append(&mut tail);
    assert(commands_view(cmds@) =~= head + pv + seq![c0@, c1@, c2@, c3@, c4@]);
}

fn memcpy_inline_cmds(
    cmds: &mut Vec<Command>,
    dest1: ScoreHolder,
    src1: ScoreHolder,
    len: u32,
    counter: &mut TempCounter,
)
    requires
        old(counter).next + 3 <= u32::MAX,
    ensures
        commands_view(final(cmds)@) == commands_view(old(cmds)@) + memcpy_inline_v(
            dest1@,
            src1@,
            len,
            old(counter).next as nat,
        ),
        final(counter).next == old(counter).next + 3,
{
    let ghost head = commands_view(cmds@);
    let word_count = len / 4;
    let byte_count = len % 4;
    let tempsrc = get_unique_holder(counter);
    let tempdst = get_unique_holder(counter);
    let mut text = String::from_str("Begin memcpy with src ");
    text.append(src1.as_str());
    text.append(" and dest ");
    text.append(dest1.as_str());
    let c0 = Command::Comment(text);
    let c1 = assign(tempsrc.clone(), src1);
    let c2 = assign(tempdst.clone(), dest1);
    let c3 = assign_lit(param(4, 0), 0);
    let mut block = vec![c0, c1, c2, c3];
    assert(commands_view(block@) =~= seq![c0@, c1@, c2@, c3@]);
    cmds.append(&mut block);
    let ghost mid = commands_view(cmds@);
    let temp = get_unique_holder(counter);
    push_word_copies(cmds, &tempsrc, &tempdst, &temp, word_count);
    push_byte_copies(cmds, &tempsrc, &tempdst, byte_count);
    let ghost before_end = commands_view(cmds@);
    let end = Command::Comment(String::from_str("End memcpy"));
    cmds.push(end);
    assert(commands_view(cmds@) =~= before_end.push(end@));
}

fn memcpy_call_cmds(cmds: &mut Vec<Command>, dest1: ScoreHolder, src1: ScoreHolder, len1: ScoreHolder)
    ensures
        commands_view(final(cmds)@) == commands_view(old(cmds)@) + memcpy_call_v(
            dest1@,
            src1@,
            len1@,
        ),
{
    let ghost head = commands_view(cmds@);
    let c0 = assign(param(0, 0), dest1);
    let c1 = assign(param(1, 0), src1);
    let c2 = assign(param(2, 0), len1);
    let c3 = assign_lit(param(4, 0), 0);
    let c4 = call("intrinsic:memcpy");
    let mut tail = vec![c0, c1, c2, c3, c4];
    assert(commands_view(tail@) =~= seq![c0@, c1@, c2@, c3@, c4@]);
    cmds.append(&mut tail);
    assert(commands_view(cmds@) =~= head + seq![c0@, c1@, c2@, c3@, c4@]);
}

/// Compiles a call of `memcpy(dest, src, len, volatile)`: the commands,
/// and, when the copy goes through a call with a return address, the
/// commands that follow it.
pub fn compile_memcpy(
    arguments: &Vec<Argument>,
    globals: &GlobalTable,
    tys: &Types,
    counter: &mut TempCounter,
) -> (r: (Vec<Command>, Option<Vec<Command>>))
    requires
        memcpy_ok(arguments@, globals.addrs@, *tys, old(counter).next as nat),
    ensures
        ({
            let m = memcpy_v(arguments@, globals.addrs@, *tys, old(counter).next as nat);
            &&& commands_view(r.0@) == m.0
            &&& match r.1 {
                Some(v) => m.1 == Some(commands_view(v@)),
                None => m.1 is None,
            }
            &&& final(counter).next as nat == m.2
        }),
{
    let ghost args = arguments@;
    let ghost g = globals.addrs@;
    let ghost n = counter.next as nat;
    let (mut cmds, src_words) = eval_operand(&arguments[1].value, globals, tys, counter);
    let (mut tmp, dest_words) = eval_operand(&arguments[0].value, globals, tys, counter);
    let ghost a = commands_view(cmds@);
    let ghost b = commands_view(tmp@);
    cmds.append(&mut tmp);
    let ghost head = commands_view(cmds@);
    assert(head =~= a + b);
    let src1 = src_words[0].clone();
    let dest1 = dest_words[0].clone();
    let len32 = as_const_32(&arguments[2].value);
    let far = match len32 {
        Some(value) => value > 1024,
        None => false,
    };
    if far {
        let value = match len32 {
            Some(v) => v,
            None => 0,
        };
        memcpy_far(&mut cmds, dest1, src1, value);
        let after: Vec<Command> = Vec::new();
        assert(commands_view(after@) =~= Seq::<CommandV>::empty());
        return (cmds, Some(after));
    }
    let inline = match (arguments[0].align, arguments[1].align, len32) {
        (Some(d), Some(s), Some(_)) => d % 4 == 0 && s % 4 == 0,
        _ => false,
    };
    if inline {
        let len = match len32 {
            Some(v) => v,
            None => 0,
        };
        memcpy_inline_cmds(&mut cmds, dest1, src1, len, counter);
    } else {
        let (mut tmp, len_words) = eval_operand(&arguments[2].value, globals, tys, counter);
        let ghost lv = commands_view(tmp@);
        let ghost before = commands_view(cmds@);
        cmds.append(&mut tmp);
        assert(commands_view(cmds@) =~= before + lv);
        memcpy_call_cmds(&mut cmds, dest1, src1, len_words[0].clone());
    }
    (cmds, None)
}

} // verus!
