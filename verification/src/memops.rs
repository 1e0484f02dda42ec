//! Loads and stores: moving values between holders and the memory words
//! under the pointer, word by word where the alignment allows, and
//! through the byte and halfword intrinsics where it does not.
use vstd::prelude::*;
use crate::cir::{Command, CommandV, McRange, ScoreHolder, commands_view};
use crate::constants::GlobalTable;
use crate::frame::holder_views;
use crate::layout::{IrType, Types, layout_fits, lemma_layout_ok, type_layout, type_layout_spec};
use crate::locals::{LocalName, LocalNameV};
use crate::memory::{MaybeConst, MaybeConstV, TempCounter, get_unique_holder, temp_name};
use crate::operands::{
    Operand, eval_maybe_const, eval_operand, eval_operand_ok, eval_operand_spec, eval_operand_v,
    local_words, operand_ok, operand_type, type_of,
};
use crate::registers::{
    add_lit, add_v, assign, assign_lit, assign_v, call, call_v, comment_v, make_op_lit,
    mark_assertion_matches, matches_v, op_lit_v, param, param_name, ptr, read_ptr, read_ptr_small,
    read_ptr_v, return_holder, return_name, set_v, write_ptr, write_ptr_const, write_ptr_const_v,
    write_ptr_v,
};
use crate::render::cond_text;

verus! {

/// Command `j` of the four that write word `w` of a value at `addr`
/// with `write`.
pub open spec fn word_write_cmd(addr: Seq<char>, w: int, j: int, write: CommandV) -> CommandV {
    if j == 0 {
        assign_v("%ptr"@, addr)
    } else if j == 1 {
        add_v("%ptr"@, (4 * w) as i32)
    } else if j == 2 {
        call_v("intrinsic:setptr"@)
    } else {
        write
    }
}

/// Command `j` of the four that store word `w`, held in `h`, at `addr`
/// without alignment.
pub open spec fn unaligned_store_cmd(addr: Seq<char>, w: int, j: int, h: Seq<char>) -> CommandV {
    if j == 0 {
        assign_v("%ptr"@, addr)
    } else if j == 1 {
        add_v("%ptr"@, (4 * w) as i32)
    } else if j == 2 {
        assign_v(param_name(0, 0), h)
    } else {
        call_v("intrinsic:store_word_unaligned"@)
    }
}

/// Command `j` of the seven that store byte `b` of the value in `h` at
/// the pointer and move the pointer on.
pub open spec fn byte_store_cmd(h: Seq<char>, b: int, j: int) -> CommandV {
    if j == 0 {
        assign_v(param_name(0, 0), h)
    } else if j == 1 {
        set_v(param_name(1, 0), (8 * b) as i32)
    } else if j == 2 {
        call_v("intrinsic:lshr"@)
    } else if j == 3 {
        assign_v(param_name(2, 0), param_name(0, 0))
    } else if j == 4 {
        op_lit_v(param_name(2, 0), "%="@, 256)
    } else if j == 5 {
        call_v("intrinsic:store_byte"@)
    } else {
        add_v("%ptr"@, 1)
    }
}

/// The assertion that the address in `h` is word aligned.
pub open spec fn aligned_assert_v(h: Seq<char>) -> CommandV {
    comment_v("!INTERPRETER: ASSERT "@ + "if "@ + cond_text(matches_v(h, McRange::Between(0, 0))))
}

/// The size in bytes of the type of an operand.
pub open spec fn operand_size(op: Operand, tys: Types) -> int {
    type_layout_spec(operand_type(op).unwrap(), tys).unwrap().size
}

/// A word-aligned store of whole words at `addr`: the value evaluated
/// (a constant is written directly), the address asserted aligned, then
/// each word written; and the counter after.
pub open spec fn aligned_store_v(
    addr: Seq<char>,
    value: Operand,
    g: Seq<(LocalName, u32)>,
    tys: Types,
    n: nat,
) -> (Seq<CommandV>, nat) {
    let e = eval_operand_spec(value, g, tys, n);
    let tmp = temp_name(e.1);
    let pre = match e.0 {
        MaybeConstV::Const(_) => Seq::empty(),
        MaybeConstV::NonConst(cs, _) => cs,
    };
    let writes = match e.0 {
        MaybeConstV::Const(c) => seq![write_ptr_const_v(c)],
        MaybeConstV::NonConst(_, ids) => ids.map_values(|h: Seq<char>| write_ptr_v(h)),
    };
    (
        pre + seq![assign_v(tmp, addr), op_lit_v(tmp, "%="@, 4), aligned_assert_v(tmp)] + Seq::new(
            4 * writes.len(),
            |i: int| word_write_cmd(addr, i / 4, i % 4, writes[i / 4]),
        ),
        e.1 + 1,
    )
}

/// A store of a byte or a halfword at `addr` through its intrinsic.
pub open spec fn small_store_v(
    addr: Seq<char>,
    value: Operand,
    alignment: u32,
    size: int,
    g: Seq<(LocalName, u32)>,
    tys: Types,
    n: nat,
) -> (Seq<CommandV>, nat) {
    let v = eval_operand_v(value, g, tys, n);
    (
        v.0 + seq![assign_v("%ptr"@, addr)] + if size == 1 {
            seq![assign_v(param_name(2, 0), v.1[0]), call_v("intrinsic:store_byte"@)]
        } else if alignment % 2 == 0 {
            seq![assign_v(param_name(2, 0), v.1[0]), call_v("intrinsic:store_halfword"@)]
        } else {
            seq![assign_v(param_name(0, 0), v.1[0]), call_v("intrinsic:store_halfword_unaligned"@)]
        },
        v.2,
    )
}

/// A store of whole words at `addr` without alignment, a word at a time.
pub open spec fn unaligned_store_v(
    addr: Seq<char>,
    value: Operand,
    g: Seq<(LocalName, u32)>,
    tys: Types,
    n: nat,
) -> (Seq<CommandV>, nat) {
    let v = eval_operand_v(value, g, tys, n);
    (
        v.0 + Seq::new(4 * v.1.len(), |i: int| unaligned_store_cmd(addr, i / 4, i % 4, v.1[i / 4])),
        v.2,
    )
}

/// A store of `size` bytes at `addr`, a byte at a time.
pub open spec fn bytes_store_v(
    addr: Seq<char>,
    value: Operand,
    size: int,
    g: Seq<(LocalName, u32)>,
    tys: Types,
    n: nat,
) -> (Seq<CommandV>, nat) {
    let v = eval_operand_v(value, g, tys, n);
    (
        v.0 + seq![assign_v("%ptr"@, addr)] + Seq::new(
            7 * size as nat,
            |i: int| byte_store_cmd(v.1[0], i / 7, i % 7),
        ),
        v.2,
    )
}

/// The commands of `store value, address` with the given alignment, and
/// the counter after: the address evaluated; a word-aligned value of
/// whole words written word by word (a constant directly) after asserting
/// the address aligned; a byte or a halfword through its intrinsic; other
/// whole words one unaligned word at a time; a value of three bytes byte
/// by byte; anything else not at all.
pub open spec fn store_v(
    address: Operand,
    value: Operand,
    alignment: u32,
    g: Seq<(LocalName, u32)>,
    tys: Types,
    n: nat,
) -> (Seq<CommandV>, nat) {
    let a = eval_operand_v(address, g, tys, n);
    let addr = a.1[0];
    let size = operand_size(value, tys);
    let t = if size % 4 == 0 && alignment % 4 == 0 {
        aligned_store_v(addr, value, g, tys, a.2)
    } else if size == 1 || size == 2 {
        small_store_v(addr, value, alignment, size, g, tys, a.2)
    } else if size % 4 == 0 {
        unaligned_store_v(addr, value, g, tys, a.2)
    } else if size < 4 {
        bytes_store_v(addr, value, size, g, tys, a.2)
    } else {
        (Seq::empty(), a.2)
    };
    (a.0 + t.0, t.1)
}

/// Whether a store can be compiled: the address evaluates to one word,
/// the value's type has a layout, and the value evaluates as the case
/// needs, with room for the temporaries.
pub open spec fn store_ok(
    address: Operand,
    value: Operand,
    alignment: u32,
    g: Seq<(LocalName, u32)>,
    tys: Types,
    n: nat,
) -> bool {
    let a = eval_operand_v(address, g, tys, n);
    let size = operand_size(value, tys);
    let named = tys.named@;
    &&& eval_operand_ok(address, g, tys, n)
    &&& a.1.len() == 1
    &&& operand_type(value) is Some
    &&& layout_fits(operand_type(value).unwrap(), named, named.len())
    &&& if size % 4 == 0 && alignment % 4 == 0 {
        let e = eval_operand_spec(value, g, tys, a.2);
        &&& operand_ok(value, g, tys, a.2)
        &&& e.1 < u32::MAX
        &&& e.0 matches MaybeConstV::NonConst(_, ids) ==> 4 * ids.len() <= i32::MAX
    } else if size == 1 || size == 2 || size % 4 == 0 || size < 4 {
        let v = eval_operand_v(value, g, tys, a.2);
        &&& eval_operand_ok(value, g, tys, a.2)
        &&& v.1.len() >= 1
        &&& 4 * v.1.len() <= i32::MAX
    } else {
        true
    }
}

pub(crate) proof fn lemma_block_index(i: int, k: int, m: int)
    requires
        0 < m,
        m * k <= i < m * k + m,
    ensures
        i / m == k,
        i % m == i - m * k,
{
    assert(i / m == k && i % m == i - m * k) by (nonlinear_arith)
        requires
            0 < m,
            m * k <= i < m * k + m,
    ;
}

pub(crate) proof fn lemma_below_block(i: int, k: int, m: int)
    requires
        0 < m,
        0 <= i < m * k,
    ensures
        i / m < k,
{
    assert(i / m < k) by (nonlinear_arith)
        requires
            0 < m,
            0 <= i < m * k,
    ;
}

/// Appends, for each write of `writes`, the pointer set to its word of
/// `addr` and the write.
fn push_word_writes(cmds: &mut Vec<Command>, addr: &ScoreHolder, writes: Vec<Command>)
    requires
        4 * writes@.len() <= i32::MAX,
    ensures
        commands_view(final(cmds)@) == commands_view(old(cmds)@) + Seq::new(
            4 * writes@.len(),
            |i: int| word_write_cmd(addr@, i / 4, i % 4, commands_view(writes@)[i / 4]),
        ),
{
    let ghost start = commands_view(cmds@);
    let ghost wv = commands_view(writes@);
    let n = writes.len();
    let mut writes = writes;
    let mut i: usize = 0;
    while i < n
        invariant
            i <= n == writes@.len() == wv.len(),
            4 * n <= i32::MAX,
            wv == commands_view(writes@),
            commands_view(cmds@) == start + Seq::new(
                4 * i as nat,
                |k: int| word_write_cmd(addr@, k / 4, k % 4, wv[k / 4]),
            ),
        decreases n - i,
    {
        let c0 = assign(ptr(), addr.clone());
        let c1 = add_lit(ptr(), 4 * i as i32);
        let c2 = call("intrinsic:setptr");
        let c3 = writes[i].duplicate();
        let mut block = vec![c0, c1, c2, c3];
        let ghost bv = seq![c0@, c1@, c2@, c3@];
        assert(commands_view(block@) =~= bv);
        let ghost before = commands_view(cmds@);
        cmds.append(&mut block);
        assert(commands_view(cmds@) =~= before + bv);
        let ghost s_old = Seq::new(4 * i as nat, |k: int| word_write_cmd(addr@, k / 4, k % 4, wv[k / 4]));
        let ghost s_new = Seq::new(
            4 * (i + 1) as nat,
            |k: int| word_write_cmd(addr@, k / 4, k % 4, wv[k / 4]),
        );
        assert(s_new =~= s_old + bv) by {
            assert forall|k: int| 0 <= k < s_new.len() implies s_new[k] == (s_old + bv)[k] by {
                if k >= 4 * i {
                    lemma_block_index(k, i as int, 4);
                } else {
                    lemma_below_block(k, i as int, 4);
                }
            }
        }
        i = i + 1;
    }
}

/// Appends a word-aligned store of whole words at `addr`.
fn push_aligned_store(
    cmds: &mut Vec<Command>,
    addr: &ScoreHolder,
    value: &Operand,
    globals: &GlobalTable,
    tys: &Types,
    counter: &mut TempCounter,
)
    requires
        operand_ok(*value, globals.addrs@, *tys, old(counter).next as nat),
        eval_operand_spec(*value, globals.addrs@, *tys, old(counter).next as nat).1 < u32::MAX,
        eval_operand_spec(*value, globals.addrs@, *tys, old(counter).next as nat).0 matches MaybeConstV::NonConst(_, ids) ==> 4 * ids.len() <= i32::MAX,
    ensures
        ({
            let t = aligned_store_v(addr@, *value, globals.addrs@, *tys, old(counter).next as nat);
            commands_view(final(cmds)@) == commands_view(old(cmds)@) + t.0 && final(counter).next as nat == t.1
        }),
{
    let ghost head = commands_view(cmds@);
    let ghost e = eval_operand_spec(*value, globals.addrs@, *tys, counter.next as nat);
    let m = eval_maybe_const(value, globals, tys, counter);
    let writes: Vec<Command> = match m {
        MaybeConst::Const(c) => {
            let w = vec![write_ptr_const(c)];
            assert(commands_view(w@) =~= seq![write_ptr_const_v(c)]);
            assert(commands_view(cmds@) =~= head + Seq::empty());
            w
        },
        MaybeConst::NonConst(mut eval_cmds, ids) => {
            let ghost ev = commands_view(eval_cmds@);
            cmds.append(&mut eval_cmds);
            assert(commands_view(cmds@) =~= head + ev);
            let mut w: Vec<Command> = Vec::new();
            let mut i: usize = 0;
            while i < ids.len()
                invariant
                    i <= ids@.len(),
                    commands_view(w@) == holder_views(ids@).take(i as int).map_values(
                        |h: Seq<char>| write_ptr_v(h),
                    ),
                decreases ids.len() - i,
            {
                let c = write_ptr(ids[i].clone());
                let ghost before = commands_view(w@);
                w.push(c);
                assert(commands_view(w@) =~= before.push(c@));
                assert(holder_views(ids@).take(i + 1) =~= holder_views(ids@).take(i as int).push(
                    ids@[i as int]@,
                ));
                assert(commands_view(w@) =~= holder_views(ids@).take(i + 1).map_values(
                    |h: Seq<char>| write_ptr_v(h),
                ));
                i = i + 1;
            }
            assert(holder_views(ids@).take(ids@.len() as int) =~= holder_views(ids@));
            w
        },
    };
    let ghost mid = commands_view(cmds@);
    let tmp = get_unique_holder(counter);
    proof {
        crate::registers::lemma_op_symbols();
    }
    let c0 = assign(tmp.clone(), addr.clone());
    let c1 = make_op_lit(tmp.clone(), "%=", 4);
    let c2 = mark_assertion_matches(false, tmp, McRange::Between(0, 0));
    let mut block = vec![c0, c1, c2];
    assert(commands_view(block@) =~= seq![c0@, c1@, c2@]);
    cmds.append(&mut block);
    assert(commands_view(cmds@) =~= mid + seq![c0@, c1@, c2@]);
    let ghost pre = match e.0 {
        MaybeConstV::Const(_) => Seq::empty(),
        MaybeConstV::NonConst(cs, _) => cs,
    };
    let ghost ws = match e.0 {
        MaybeConstV::Const(c) => seq![write_ptr_const_v(c)],
        MaybeConstV::NonConst(_, ids) => ids.map_values(|h: Seq<char>| write_ptr_v(h)),
    };
    assert(mid == head + pre);
    assert(commands_view(writes@) == ws);
    let ghost mid2 = commands_view(cmds@);
    push_word_writes(cmds, addr, writes);
    assert(commands_view(cmds@) =~= head + aligned_store_v(addr@, *value, globals.addrs@, *tys, old(counter).next as nat).0);
}

/// Appends a store of a byte or a halfword at `addr`.
fn push_small_store(
    cmds: &mut Vec<Command>,
    addr: &ScoreHolder,
    value: &Operand,
    alignment: u32,
    size: usize,
    globals: &GlobalTable,
    tys: &Types,
    counter: &mut TempCounter,
)
    requires
        size == 1 || size == 2,
        eval_operand_ok(*value, globals.addrs@, *tys, old(counter).next as nat),
        eval_operand_v(*value, globals.addrs@, *tys, old(counter).next as nat).1.len() >= 1,
    ensures
        ({
            let t = small_store_v(addr@, *value, alignment, size as int, globals.addrs@, *tys, old(counter).next as nat);
            commands_view(final(cmds)@) == commands_view(old(cmds)@) + t.0 && final(counter).next as nat == t.1
        }),
{
    let ghost head = commands_view(cmds@);
    let (mut eval_cmds, v) = eval_operand(value, globals, tys, counter);
    let ghost ev = commands_view(eval_cmds@);
    cmds.append(&mut eval_cmds);
    let c0 = assign(ptr(), addr.clone());
    let (c1, c2) = if size == 1 {
        (assign(param(2, 0), v[0].clone()), call("intrinsic:store_byte"))
    } else if alignment % 2 == 0 {
        (assign(param(2, 0), v[0].clone()), call("intrinsic:store_halfword"))
    } else {
        (assign(param(0, 0), v[0].clone()), call("intrinsic:store_halfword_unaligned"))
    };
    let mut block = vec![c0, c1, c2];
    assert(commands_view(block@) =~= seq![c0@, c1@, c2@]);
    cmds.append(&mut block);
    assert(commands_view(cmds@) =~= head + (ev + seq![c0@] + seq![c1@, c2@]));
}

/// Appends a store of whole words at `addr` without alignment.
fn push_unaligned_store(
    cmds: &mut Vec<Command>,
    addr: &ScoreHolder,
    value: &Operand,
    globals: &GlobalTable,
    tys: &Types,
    counter: &mut TempCounter,
)
    requires
        eval_operand_ok(*value, globals.addrs@, *tys, old(counter).next as nat),
        4 * eval_operand_v(*value, globals.addrs@, *tys, old(counter).next as nat).1.len() <= i32::MAX,
    ensures
        ({
            let t = unaligned_store_v(addr@, *value, globals.addrs@, *tys, old(counter).next as nat);
            commands_view(final(cmds)@) == commands_view(old(cmds)@) + t.0 && final(counter).next as nat == t.1
        }),
{
    let ghost head = commands_view(cmds@);
    let (mut eval_cmds, v) = eval_operand(value, globals, tys, counter);
    let ghost ev = commands_view(eval_cmds@);
    let ghost vv = holder_views(v@);
    cmds.append(&mut eval_cmds);
    let ghost mid = commands_view(cmds@);
    assert(mid =~= head + ev);
    let mut i: usize = 0;
    while i < v.len()
        invariant
            i <= v@.len(),
            4 * v@.len() <= i32::MAX,
            vv == holder_views(v@),
            commands_view(cmds@) == mid + Seq::new(
                4 * i as nat,
                |k: int| unaligned_store_cmd(addr@, k / 4, k % 4, vv[k / 4]),
            ),
        decreases v.len() - i,
    {
        let c0 = assign(ptr(), addr.clone());
        let c1 = add_lit(ptr(), 4 * i as i32);
        let c2 = assign(param(0, 0), v[i].clone());
        let c3 = call("intrinsic:store_word_unaligned");
        let mut block = vec![c0, c1, c2, c3];
        let ghost bv = seq![c0@, c1@, c2@, c3@];
        assert(commands_view(block@) =~= bv);
        let ghost before = commands_view(cmds@);
        cmds.append(&mut block);
        assert(commands_view(cmds@) =~= before + bv);
        let ghost s_old = Seq::new(4 * i as nat, |k: int| unaligned_store_cmd(addr@, k / 4, k % 4, vv[k / 4]));
        let ghost s_new = Seq::new(
            4 * (i + 1) as nat,
            |k: int| unaligned_store_cmd(addr@, k / 4, k % 4, vv[k / 4]),
        );
        assert(s_new =~= s_old + bv) by {
            assert forall|k: int| 0 <= k < s_new.len() implies s_new[k] == (s_old + bv)[k] by {
                if k >= 4 * i {
                    lemma_block_index(k, i as int, 4);
                } else {
                    lemma_below_block(k, i as int, 4);
                }
            }
        }
        i = i + 1;
    }
    assert(commands_view(cmds@) =~= head + (ev + Seq::new(
        4 * vv.len(),
        |k: int| unaligned_store_cmd(addr@, k / 4, k % 4, vv[k / 4]),
    )));
}

/// Appends a store of `size` bytes at `addr`, a byte at a time.
fn push_bytes_store(
    cmds: &mut Vec<Command>,
    addr: &ScoreHolder,
    value: &Operand,
    size: usize,
    globals: &GlobalTable,
    tys: &Types,
    counter: &mut TempCounter,
)
    requires
        size < 4,
        eval_operand_ok(*value, globals.addrs@, *tys, old(counter).next as nat),
        eval_operand_v(*value, globals.addrs@, *tys, old(counter).next as nat).1.len() >= 1,
    ensures
        ({
            let t = bytes_store_v(addr@, *value, size as int, globals.addrs@, *tys, old(counter).next as nat);
            commands_view(final(cmds)@) == commands_view(old(cmds)@) + t.0 && final(counter).next as nat == t.1
        }),
{
    let ghost head = commands_view(cmds@);
    let (mut eval_cmds, v) = eval_operand(value, globals, tys, counter);
    let ghost ev = commands_view(eval_cmds@);
    cmds.append(&mut eval_cmds);
    let val = v[0].clone();
    let c = assign(ptr(), addr.clone());
    cmds.push(c);
    let ghost mid = commands_view(cmds@);
    assert(mid =~= head + ev + seq![c@]);
    proof {
        crate::registers::lemma_op_symbols();
    }
    let mut b: usize = 0;
    while b < size
        invariant
            b <= size < 4,
            commands_view(cmds@) == mid + Seq::new(
                7 * b as nat,
                |k: int| byte_store_cmd(val@, k / 7, k % 7),
            ),
            crate::registers::op_kind_of("%="@) is Some,
            crate::registers::op_kind_of("+="@) is Some,
        decreases size - b,
    {
        let c0 = assign(param(0, 0), val.clone());
        let c1 = assign_lit(param(1, 0), 8 * b as i32);
        let c2 = call("intrinsic:lshr");
        let c3 = assign(param(2, 0), param(0, 0));
        let c4 = make_op_lit(param(2, 0), "%=", 256);
        let c5 = call("intrinsic:store_byte");
        let c6 = make_op_lit(ptr(), "+=", 1);
        let mut block = vec![c0, c1, c2, c3, c4, c5, c6];
        let ghost bv = seq![c0@, c1@, c2@, c3@, c4@, c5@, c6@];
        assert(commands_view(block@) =~= bv);
        let ghost before = commands_view(cmds@);
        cmds.append(&mut block);
        assert(commands_view(cmds@) =~= before + bv);
        let ghost s_old = Seq::new(7 * b as nat, |k: int| byte_store_cmd(val@, k / 7, k % 7));
        let ghost s_new = Seq::new(7 * (b + 1) as nat, |k: int| byte_store_cmd(val@, k / 7, k % 7));
        assert(s_new =~= s_old + bv) by {
            assert forall|k: int| 0 <= k < s_new.len() implies s_new[k] == (s_old + bv)[k] by {
                if k >= 7 * b {
                    lemma_block_index(k, b as int, 7);
                } else {
                    lemma_below_block(k, b as int, 7);
                }
            }
        }
        b = b + 1;
    }
    assert(commands_view(cmds@) =~= head + (ev + seq![c@] + Seq::new(
        7 * size as nat,
        |k: int| byte_store_cmd(val@, k / 7, k % 7),
    )));
}

/// Compiles `store value, address` with the given alignment.
pub fn compile_store(
    address: &Operand,
    value: &Operand,
    alignment: u32,
    globals: &GlobalTable,
    tys: &Types,
    counter: &mut TempCounter,
) -> (r: Vec<Command>)
    requires
        store_ok(*address, *value, alignment, globals.addrs@, *tys, old(counter).next as nat),
    ensures
        (commands_view(r@), final(counter).next as nat) == store_v(
            *address,
            *value,
            alignment,
            globals.addrs@,
            *tys,
            old(counter).next as nat,
        ),
{
    let (mut cmds, addrs) = eval_operand(address, globals, tys, counter);
    let addr = addrs[0].clone();
    let vty = match type_of(value) {
        Some(t) => t,
        None => {
            return cmds;
        },
    };
    let l = type_layout(vty, tys);
    proof {
        lemma_layout_ok(*vty, tys.named@, tys.named@.len());
    }
    let size = l.size;
    if size % 4 == 0 && alignment % 4 == 0 {
        push_aligned_store(&mut cmds, &addr, value, globals, tys, counter);
    } else if size == 1 || size == 2 {
        push_small_store(&mut cmds, &addr, value, alignment, size, globals, tys, counter);
    } else if size % 4 == 0 {
        push_unaligned_store(&mut cmds, &addr, value, globals, tys, counter);
    } else if size < 4 {
        push_bytes_store(&mut cmds, &addr, value, size, globals, tys, counter);
    } else {
        assert(commands_view(cmds@) =~= commands_view(cmds@) + Seq::<CommandV>::empty());
    }
    cmds
}

/// Command `j` of the four that load word `w` from `addr` without
/// alignment into `h`.
pub open spec fn unaligned_load_cmd(addr: Seq<char>, w: int, j: int, h: Seq<char>) -> CommandV {
    if j == 0 {
        assign_v("%ptr"@, addr)
    } else if j == 1 {
        add_v("%ptr"@, (4 * w) as i32)
    } else if j == 2 {
        call_v("intrinsic:load_word_unaligned"@)
    } else {
        assign_v(h, return_name(0))
    }
}

/// The type a pointer operand points to.
pub open spec fn pointee_of(op: Operand) -> IrType {
    match operand_type(op) {
        Some(IrType::Pointer { pointee, .. }) => *pointee,
        _ => IrType::Other,
    }
}

/// The commands that load the words `d` from `addr` as the layout
/// `(size, align)` and the alignment allow: word by word where both are
/// whole words, a word at a time without alignment where the alignment is
/// one byte, a byte or a halfword through its intrinsic, three bytes as a
/// word reduced to its low three bytes.
pub open spec fn load_words_v(addr: Seq<char>, d: Seq<Seq<char>>, size: int, align: int, alignment: u32) -> Seq<
    CommandV,
> {
    if size % 4 == 0 && align == 4 && alignment % 4 == 0 {
        Seq::new(4 * d.len(), |i: int| word_write_cmd(addr, i / 4, i % 4, read_ptr_v(d[i / 4])))
    } else if size % 4 == 0 && alignment == 1 {
        Seq::new(4 * d.len(), |i: int| unaligned_load_cmd(addr, i / 4, i % 4, d[i / 4]))
    } else if size == 1 {
        seq![
            assign_v("%ptr"@, addr),
            call_v("intrinsic:load_byte"@),
            assign_v(d[0], param_name(0, 0)),
        ]
    } else if size == 2 {
        seq![assign_v("%ptr"@, addr)] + if alignment % 2 == 0 {
            seq![call_v("intrinsic:load_halfword"@), assign_v(d[0], param_name(0, 0))]
        } else {
            seq![call_v("intrinsic:load_halfword_unaligned"@), assign_v(d[0], return_name(0))]
        }
    } else if size < 4 && alignment % 4 == 0 {
        seq![assign_v("%ptr"@, addr), read_ptr_v(d[0]), op_lit_v(d[0], "%="@, 16777216)]
    } else {
        Seq::empty()
    }
}

/// The commands of `dest = load address` with the given alignment, and
/// the counter after: the address evaluated, then the value's words
/// loaded into the words of `dest`.
pub open spec fn load_v(
    dest: LocalNameV,
    address: Operand,
    alignment: u32,
    g: Seq<(LocalName, u32)>,
    tys: Types,
    n: nat,
) -> (Seq<CommandV>, nat) {
    let l = type_layout_spec(pointee_of(address), tys).unwrap();
    let a = eval_operand_v(address, g, tys, n);
    (a.0 + load_words_v(a.1[0], local_words(dest, l.size as nat), l.size, l.align, alignment), a.2)
}

/// Whether a load can be compiled: the address is a pointer evaluating
/// to one word, the pointee has a layout, and a value of less than a word
/// loaded from an aligned address has three bytes.
pub open spec fn load_ok(address: Operand, alignment: u32, g: Seq<(LocalName, u32)>, tys: Types, n: nat) -> bool {
    let named = tys.named@;
    let l = type_layout_spec(pointee_of(address), tys).unwrap();
    &&& operand_type(address) matches Some(IrType::Pointer { .. })
    &&& layout_fits(pointee_of(address), named, named.len())
    &&& eval_operand_ok(address, g, tys, n)
    &&& eval_operand_v(address, g, tys, n).1.len() == 1
    &&& 4 * ((l.size + 3) / 4) <= i32::MAX
    &&& (!(l.size % 4 == 0 && l.align == 4 && alignment % 4 == 0) && !(l.size % 4 == 0 && alignment
        == 1) && l.size != 1 && l.size != 2 && l.size < 4 && alignment % 4 == 0) ==> l.size == 3
}

/// Compiles `dest = load address` with the given alignment.
pub fn compile_load(
    dest: &LocalName,
    address: &Operand,
    alignment: u32,
    globals: &GlobalTable,
    tys: &Types,
    counter: &mut TempCounter,
) -> (r: Vec<Command>)
    requires
        load_ok(*address, alignment, globals.addrs@, *tys, old(counter).next as nat),
    ensures
        (commands_view(r@), final(counter).next as nat) == load_v(
            dest@,
            *address,
            alignment,
            globals.addrs@,
            *tys,
            old(counter).next as nat,
        ),
{
    let pointee: &IrType = match type_of(address) {
        Some(IrType::Pointer { pointee, .. }) => &**pointee,
        _ => {
            return Vec::new();
        },
    };
    let (mut cmds, addrs) = eval_operand(address, globals, tys, counter);
    let ghost head = commands_view(cmds@);
    let addr = addrs[0].clone();
    let l = type_layout(pointee, tys);
    proof {
        lemma_layout_ok(*pointee, tys.named@, tys.named@.len());
    }
    let d = ScoreHolder::from_local_name(dest.duplicate(), l.size);
    let ghost dv = holder_views(d@);
    assert(dv =~= local_words(dest@, l.size as nat));
    let ghost expected = load_words_v(addr@, dv, l.size as int, l.align as int, alignment);
    if l.size % 4 == 0 && l.align == 4 && alignment % 4 == 0 {
        let mut i: usize = 0;
        while i < d.len()
            invariant
                i <= d@.len(),
                4 * d@.len() <= i32::MAX,
                dv == holder_views(d@),
                commands_view(cmds@) == head + Seq::new(
                    4 * i as nat,
                    |k: int| word_write_cmd(addr@, k / 4, k % 4, read_ptr_v(dv[k / 4])),
                ),
            decreases d.len() - i,
        {
            let c0 = assign(ptr(), addr.clone());
            let c1 = add_lit(ptr(), 4 * i as i32);
            let c2 = call("intrinsic:setptr");
            let c3 = read_ptr(d[i].clone());
            let mut block = vec![c0, c1, c2, c3];
            let ghost bv = seq![c0@, c1@, c2@, c3@];
            assert(commands_view(block@) =~= bv);
            let ghost before = commands_view(cmds@);
            cmds.append(&mut block);
            assert(commands_view(cmds@) =~= before + bv);
            let ghost s_old = Seq::new(4 * i as nat, |k: int| word_write_cmd(addr@, k / 4, k % 4, read_ptr_v(dv[k / 4])));
            let ghost s_new = Seq::new(
                4 * (i + 1) as nat,
                |k: int| word_write_cmd(addr@, k / 4, k % 4, read_ptr_v(dv[k / 4])),
            );
            assert(s_new =~= s_old + bv) by {
                assert forall|k: int| 0 <= k < s_new.len() implies s_new[k] == (s_old + bv)[k] by {
                    if k >= 4 * i {
                        lemma_block_index(k, i as int, 4);
                    } else {
                        lemma_below_block(k, i as int, 4);
                    }
                }
            }
            i = i + 1;
        }
    } else if l.size % 4 == 0 && alignment == 1 {
        let mut i: usize = 0;
        while i < d.len()
            invariant
                i <= d@.len(),
                4 * d@.len() <= i32::MAX,
                dv == holder_views(d@),
                commands_view(cmds@) == head + Seq::new(
                    4 * i as nat,
                    |k: int| unaligned_load_cmd(addr@, k / 4, k % 4, dv[k / 4]),
                ),
            decreases d.len() - i,
        {
            let c0 = assign(ptr(), addr.clone());
            let c1 = add_lit(ptr(), (i as i32) * 4);
            let c2 = call("intrinsic:load_word_unaligned");
            let c3 = assign(d[i].clone(), return_holder(0));
            let mut block = vec![c0, c1, c2, c3];
            let ghost bv = seq![c0@, c1@, c2@, c3@];
            assert(commands_view(block@) =~= bv);
            let ghost before = commands_view(cmds@);
            cmds.append(&mut block);
            assert(commands_view(cmds@) =~= before + bv);
            let ghost s_old = Seq::new(4 * i as nat, |k: int| unaligned_load_cmd(addr@, k / 4, k % 4, dv[k / 4]));
            let ghost s_new = Seq::new(
                4 * (i + 1) as nat,
                |k: int| unaligned_load_cmd(addr@, k / 4, k % 4, dv[k / 4]),
            );
            assert(s_new =~= s_old + bv) by {
                assert forall|k: int| 0 <= k < s_new.len() implies s_new[k] == (s_old + bv)[k] by {
                    if k >= 4 * i {
                        lemma_block_index(k, i as int, 4);
                    } else {
                        lemma_below_block(k, i as int, 4);
                    }
                }
            }
            i = i + 1;
        }
    } else if l.size == 1 {
        let c0 = assign(ptr(), addr);
        cmds.push(c0);
        let mut rest = read_ptr_small(d[0].clone(), false);
        let ghost rv = commands_view(rest@);
        cmds.append(&mut rest);
        assert(commands_view(cmds@) =~= head + seq![c0@] + rv);
    } else if l.size == 2 {
        let c0 = assign(ptr(), addr);
        cmds.push(c0);
        let ghost mid = commands_view(cmds@);
        if alignment % 2 == 0 {
            let mut rest = read_ptr_small(d[0].clone(), true);
            let ghost rv = commands_view(rest@);
            cmds.append(&mut rest);
            assert(commands_view(cmds@) =~= mid + rv);
        } else {
            let c1 = call("intrinsic:load_halfword_unaligned");
            let c2 = assign(d[0].clone(), return_holder(0));
            cmds.push(c1);
            cmds.push(c2);
            assert(commands_view(cmds@) =~= mid + seq![c1@, c2@]);
        }
        assert(commands_view(cmds@) =~= head + expected);
    } else if l.size < 4 && alignment % 4 == 0 {
        proof {
            crate::registers::lemma_op_symbols();
        }
        let c0 = assign(ptr(), addr);
        let c1 = read_ptr(d[0].clone());
        let c2 = make_op_lit(d[0].clone(), "%=", 16777216);
        let mut block = vec![c0, c1, c2];
        assert(commands_view(block@) =~= seq![c0@, c1@, c2@]);
        cmds.append(&mut block);
        assert(commands_view(cmds@) =~= head + seq![c0@, c1@, c2@]);
    } else {
        assert(commands_view(cmds@) =~= head + Seq::<CommandV>::empty());
    }
    cmds
}

} // verus!
