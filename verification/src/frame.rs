//! Stack frames: saving and restoring registers around calls, and stack
//! allocations.
use vstd::prelude::*;
use crate::cir::{Command, CommandV, ScoreAdd, ScoreHolder, ScoreOp, ScoreOpKind, commands_view};
use crate::layout::{IrType, Types, layout_fits, max, round_up, type_layout, type_layout_spec};
use crate::locals::{LocalName, local_word_name};
use crate::registers::{
    add_v, assign, assign_v, condstackptr, condtempholder, objective_string, op_v, pop, pop_v, ptr,
    push, push_v, stackbaseptr, stackptr, uuid,
};
use crate::text::{contains, has_infix, has_prefix, starts_with};

verus! {

// ----------------------------------------------------------------------
// Saving registers
// ----------------------------------------------------------------------

/// Whether a register is saved across calls: every register but the
/// stack, memory and condition pointers, the phi scratch register, the
/// placeholders that are patched later and the return words.
pub open spec fn keep_reg(r: Seq<char>) -> bool {
    &&& r != "%stackptr"@
    &&& r != "%ptr"@
    &&& r != "%condstackptr"@
    &&& r != "%%condtempholder"@
    &&& r != "%phi"@
    &&& !has_infix(r, "%%fixup"@)
    &&& !has_prefix(r, "%return%"@)
}

/// The registers of `regs` that are saved, in order.
pub open spec fn kept(regs: Seq<Seq<char>>) -> Seq<Seq<char>>
    decreases regs.len(),
{
    if regs.len() == 0 {
        Seq::empty()
    } else if keep_reg(regs.last()) {
        kept(regs.drop_last()).push(regs.last())
    } else {
        kept(regs.drop_last())
    }
}

/// The registers that `save_regs` pushes, in order: the saved registers
/// of `regs`, then the frame base.
pub open spec fn saved(regs: Seq<Seq<char>>) -> Seq<Seq<char>> {
    kept(regs).push("%stackbaseptr"@)
}

/// Pushes of each register, in order.
pub open spec fn pushes(rs: Seq<Seq<char>>) -> Seq<CommandV>
    decreases rs.len(),
{
    if rs.len() == 0 {
        Seq::empty()
    } else {
        pushes(rs.drop_last()) + push_v(rs.last())
    }
}

/// Pops into each register, in order.
pub open spec fn pops(rs: Seq<Seq<char>>) -> Seq<CommandV>
    decreases rs.len(),
{
    if rs.len() == 0 {
        Seq::empty()
    } else {
        pops(rs.drop_last()) + pop_v(rs.last())
    }
}

/// The views of a sequence of holders.
pub open spec fn holder_views(regs: Seq<ScoreHolder>) -> Seq<Seq<char>> {
    regs.map_values(|h: ScoreHolder| h@)
}

/// Whether `reg` is saved across calls.
pub fn is_saved_reg(reg: &ScoreHolder) -> (r: bool)
    ensures
        r == keep_reg(reg@),
{
    !reg.same_as(&stackptr()) && !reg.same_as(&ptr()) && !reg.same_as(&condstackptr())
        && !reg.same_as(&condtempholder()) && !crate::text::str_eq(reg.as_str(), "%phi")
        && !contains(reg.as_str(), "%%fixup") && !starts_with(reg.as_str(), "%return%")
}

proof fn lemma_frame_base_kept()
    ensures
        keep_reg("%stackbaseptr"@),
{
    reveal_strlit("%stackbaseptr");
    reveal_strlit("%stackptr");
    reveal_strlit("%ptr");
    reveal_strlit("%condstackptr");
    reveal_strlit("%%condtempholder");
    reveal_strlit("%phi");
    reveal_strlit("%%fixup");
    reveal_strlit("%return%");
    let b = "%stackbaseptr"@;
    assert(b[1] != "%%fixup"@[1]);
    assert(b != "%stackptr"@) by {
        assert(b[2] != "%stackptr"@[2] || b.len() != "%stackptr"@.len());
    }
    assert(b[1] != "%ptr"@[1]);
    assert(b[1] != "%condstackptr"@[1]);
    assert(b[1] != "%%condtempholder"@[1]);
    assert(b[1] != "%phi"@[1]);
    assert(b[1] != "%return%"@[1]);
    assert forall|i: int| !crate::text::occurs_at(b, "%%fixup"@, i) by {
        if crate::text::occurs_at(b, "%%fixup"@, i) {
            assert(b.subrange(i, i + 7)[1] == "%%fixup"@[1]);
            assert(b[i + 1] == '%');
        }
    }
    assert(!has_prefix(b, "%return%"@)) by {
        if has_prefix(b, "%return%"@) {
            assert(b.subrange(0, 8)[1] == "%return%"@[1]);
        }
    }
}

/// Pushes every saved register of `regs`, then the frame base, and makes
/// the top of the stack the new frame base.
pub fn save_regs(regs: Vec<ScoreHolder>) -> (r: Vec<Command>)
    ensures
        commands_view(r@) == pushes(saved(holder_views(regs@))) + seq![
            assign_v("%stackbaseptr"@, "%stackptr"@),
        ],
{
    let ghost views = holder_views(regs@);
    let mut cmds: Vec<Command> = Vec::new();
    let mut i: usize = 0;
    while i < regs.len()
        invariant
            i <= regs@.len(),
            views == holder_views(regs@),
            commands_view(cmds@) == pushes(kept(views.take(i as int))),
        decreases regs@.len() - i,
    {
        let ghost before = commands_view(cmds@);
        assert(views.take(i + 1).drop_last() =~= views.take(i as int));
        assert(views.take(i + 1).last() == regs@[i as int]@);
        if is_saved_reg(&regs[i]) {
            let mut p = push(regs[i].clone());
            cmds.append(&mut p);
            assert(kept(views.take(i + 1)) == kept(views.take(i as int)).push(regs@[i as int]@));
            assert(kept(views.take(i + 1)).drop_last() =~= kept(views.take(i as int)));
            assert(commands_view(cmds@) =~= before + push_v(regs@[i as int]@));
        }
        i = i + 1;
    }
    assert(views.take(regs@.len() as int) =~= views);
    proof {
        lemma_frame_base_kept();
    }
    let ghost before = commands_view(cmds@);
    let mut p = push(stackbaseptr());
    cmds.append(&mut p);
    assert(saved(views).drop_last() =~= kept(views));
    assert(commands_view(cmds@) =~= before + push_v("%stackbaseptr"@));
    let base_set = assign(stackbaseptr(), stackptr());
    let ghost mid = commands_view(cmds@);
    cmds.push(base_set);
    assert(commands_view(cmds@) =~= mid + seq![assign_v("%stackbaseptr"@, "%stackptr"@)]);
    cmds
}

proof fn lemma_kept_prepend(x: Seq<char>, s: Seq<Seq<char>>)
    ensures
        kept(seq![x] + s) == (if keep_reg(x) {
            seq![x]
        } else {
            Seq::empty()
        }) + kept(s),
    decreases s.len(),
{
    if s.len() == 0 {
        assert(seq![x] + s =~= seq![x]);
        assert(seq![x].drop_last() =~= Seq::<Seq<char>>::empty());
        assert(kept(Seq::<Seq<char>>::empty()) == Seq::<Seq<char>>::empty());
        assert(kept(s) == Seq::<Seq<char>>::empty());
        assert(seq![x].last() == x);
        if keep_reg(x) {
            assert(kept(seq![x]) == kept(seq![x].drop_last()).push(x));
            assert(kept(seq![x]) =~= seq![x]);
            assert(seq![x] + kept(s) =~= seq![x]);
        } else {
            assert(kept(seq![x]) == kept(seq![x].drop_last()));
            assert(Seq::<Seq<char>>::empty() + kept(s) =~= Seq::<Seq<char>>::empty());
        }
    } else {
        lemma_kept_prepend(x, s.drop_last());
        assert((seq![x] + s).drop_last() =~= seq![x] + s.drop_last());
        assert((seq![x] + s).last() == s.last());
        let head: Seq<Seq<char>> = if keep_reg(x) {
            seq![x]
        } else {
            Seq::empty()
        };
        if keep_reg(s.last()) {
            assert(head + kept(s.drop_last()).push(s.last()) =~= (head + kept(s.drop_last())).push(
                s.last(),
            ));
        }
    }
}

proof fn lemma_pops_concat(a: Seq<Seq<char>>, b: Seq<Seq<char>>)
    ensures
        pops(a + b) == pops(a) + pops(b),
    decreases b.len(),
{
    if b.len() == 0 {
        assert(a + b =~= a);
        assert(pops(a) + pops(b) =~= pops(a));
    } else {
        lemma_pops_concat(a, b.drop_last());
        assert((a + b).drop_last() =~= a + b.drop_last());
        assert((a + b).last() == b.last());
        assert(pops(a) + (pops(b.drop_last()) + pop_v(b.last())) =~= (pops(a) + pops(
            b.drop_last(),
        )) + pop_v(b.last()));
    }
}

proof fn lemma_pops_one(x: Seq<char>)
    ensures
        pops(seq![x]) == pop_v(x),
{
    assert(seq![x].drop_last() =~= Seq::<Seq<char>>::empty());
    assert(pops(Seq::<Seq<char>>::empty()) + pop_v(x) =~= pop_v(x));
}

/// Makes the frame base the top of the stack again, then pops the frame
/// base and every saved register of `regs`, in the reverse order of
/// `save_regs`.
pub fn load_regs(regs: Vec<ScoreHolder>) -> (r: Vec<Command>)
    ensures
        commands_view(r@) == seq![assign_v("%stackptr"@, "%stackbaseptr"@)] + pops(
            saved(holder_views(regs@)).reverse(),
        ),
{
    let ghost views = holder_views(regs@);
    let ghost base = "%stackbaseptr"@;
    let mut cmds: Vec<Command> = Vec::new();
    cmds.push(assign(stackptr(), stackbaseptr()));
    let mut p = pop(stackbaseptr());
    let ghost head = commands_view(cmds@);
    cmds.append(&mut p);
    let ghost start = seq![assign_v("%stackptr"@, "%stackbaseptr"@)];
    assert(head =~= start);
    proof {
        lemma_pops_one(base);
    }
    assert(views.skip(regs@.len() as int) =~= Seq::<Seq<char>>::empty());
    assert(seq![base] + kept(views.skip(regs@.len() as int)).reverse() =~= seq![base]);
    assert(commands_view(cmds@) =~= start + pop_v(base));
    let mut i: usize = regs.len();
    while i > 0
        invariant
            i <= regs@.len(),
            views == holder_views(regs@),
            base == "%stackbaseptr"@,
            start == seq![assign_v("%stackptr"@, "%stackbaseptr"@)],
            commands_view(cmds@) == start + pops(
                seq![base] + kept(views.skip(i as int)).reverse(),
            ),
        decreases i,
    {
        let k = i - 1;
        let ghost x = regs@[k as int]@;
        let ghost before = commands_view(cmds@);
        let ghost old_rest = seq![base] + kept(views.skip(i as int)).reverse();
        assert(views.skip(k as int) =~= seq![x] + views.skip(i as int));
        proof {
            lemma_kept_prepend(x, views.skip(i as int));
        }
        if is_saved_reg(&regs[k]) {
            let mut q = pop(regs[k].clone());
            cmds.append(&mut q);
            assert(kept(views.skip(k as int)).reverse() =~= kept(views.skip(i as int)).reverse()
                + seq![x]);
            assert(seq![base] + kept(views.skip(k as int)).reverse() =~= old_rest + seq![x]);
            proof {
                lemma_pops_concat(old_rest, seq![x]);
                lemma_pops_one(x);
            }
            assert(commands_view(cmds@) =~= before + pop_v(x));
        } else {
            assert(kept(views.skip(k as int)) =~= kept(views.skip(i as int)));
        }
        i = k;
    }
    assert(views.skip(0) =~= views);
    assert(saved(views).reverse() =~= seq![base] + kept(views).reverse());
    cmds
}

// ----------------------------------------------------------------------
// Stack allocation
// ----------------------------------------------------------------------

/// The element count of a stack allocation.
#[derive(Debug, PartialEq, Eq)]
pub enum AllocaCount {
    /// A constant integer of `bits` bits.
    Constant { bits: u32, value: u64 },
    /// A local value, with its integer width when it has an integer type.
    Local { name: LocalName, int_bits: Option<u32> },
    /// Any other operand.
    Other,
}

/// The bytes one element of `ty` takes on the stack: its size rounded up
/// to its alignment, which is at least a word.
pub open spec fn stack_size(ty: IrType, tys: Types) -> int {
    let l = type_layout_spec(ty, tys).unwrap();
    round_up(l.size, max(l.align, 4))
}

/// Whether `compile_alloca` handles the count: a 32-bit constant, or a
/// 32-bit local.
pub open spec fn alloca_count_ok(count: AllocaCount) -> bool {
    match count {
        AllocaCount::Constant { bits, .. } => bits == 32,
        AllocaCount::Local { int_bits, .. } => int_bits == Some(32u32),
        AllocaCount::Other => false,
    }
}

/// The commands of `compile_alloca`.
pub open spec fn alloca_v(size: int, count: AllocaCount, dest: Seq<char>) -> Seq<CommandV> {
    seq![assign_v(dest, "%stackptr"@)] + match count {
        AllocaCount::Constant { value, .. } => seq![
            add_v("%stackptr"@, ((size as i32) * ((value as u32) as i32)) as i32),
        ],
        AllocaCount::Local { name, .. } => Seq::new(
            if size > 1 {
                (size - 1) as nat
            } else {
                0
            },
            |i: int| op_v("%stackptr"@, ScoreOpKind::AddAssign, local_word_name(name@, 0)),
        ),
        AllocaCount::Other => Seq::empty(),
    }
}

/// Reserves stack space for `count` values of `allocated_type` and puts
/// the address of that space into the local `dest`.
pub fn compile_alloca(
    allocated_type: &IrType,
    count: &AllocaCount,
    dest: LocalName,
    tys: &Types,
) -> (r: Vec<Command>)
    requires
        layout_fits(*allocated_type, tys.named@, tys.named@.len()),
        stack_size(*allocated_type, *tys) <= crate::layout::size_limit(),
        alloca_count_ok(*count),
        count matches AllocaCount::Constant { value, .. } ==> i32::MIN <= (stack_size(
            *allocated_type,
            *tys,
        ) as i32) * ((value as u32) as i32) <= i32::MAX,
    ensures
        commands_view(r@) == alloca_v(
            stack_size(*allocated_type, *tys),
            *count,
            local_word_name(dest@, 0),
        ),
{
    let l = type_layout(allocated_type, tys);
    proof {
        crate::layout::lemma_layout_ok(*allocated_type, tys.named@, tys.named@.len());
    }
    let align = if l.align >= 4 {
        l.align
    } else {
        4
    };
    let rem = l.size % align;
    let type_size = if rem == 0 {
        l.size
    } else {
        l.size + (align - rem)
    };
    assert(type_size as int == stack_size(*allocated_type, *tys));
    let ghost dv = local_word_name(dest@, 0);
    let holders = ScoreHolder::from_local_name(dest, 4);
    let d = holders[0].clone();
    let mut cmds: Vec<Command> = Vec::new();
    cmds.push(assign(d, stackptr()));
    let ghost head = commands_view(cmds@);
    assert(head =~= seq![assign_v(dv, "%stackptr"@)]);
    match count {
        AllocaCount::Constant { bits: _, value } => {
            let n = *value as u32;
            let score: i32 = type_size as i32 * n as i32;
            let c = Command::ScoreAdd(
                ScoreAdd { target: uuid(stackptr()), target_obj: objective_string(), score },
            );
            cmds.push(c);
            assert(commands_view(cmds@) =~= head + seq![c@]);
            assert(commands_view(cmds@) == alloca_v(type_size as int, *count, dv));
        },
        AllocaCount::Local { name, int_bits: _ } => {
            let score = ScoreHolder::from_local_name(name.duplicate(), 4);
            let mut i: usize = 1;
            while i < type_size
                invariant
                    1 <= i,
                    i <= type_size || type_size == 0,
                    type_size == 0 ==> i == 1,
                    score@.len() == 1,
                    score@[0]@ == local_word_name(name@, 0),
                    commands_view(cmds@) =~= head + Seq::new(
                        (i - 1) as nat,
                        |k: int| op_v("%stackptr"@, ScoreOpKind::AddAssign, local_word_name(name@, 0)),
                    ),
                decreases type_size - i,
            {
                let c = Command::ScoreOp(
                    ScoreOp {
                        target: uuid(stackptr()),
                        target_obj: objective_string(),
                        kind: ScoreOpKind::AddAssign,
                        source: uuid(score[0].clone()),
                        source_obj: objective_string(),
                    },
                );
                let ghost before = commands_view(cmds@);
                cmds.push(c);
                assert(commands_view(cmds@) =~= before + seq![c@]);
                i = i + 1;
            }
            let ghost f = |k: int| op_v("%stackptr"@, ScoreOpKind::AddAssign, local_word_name(name@, 0));
            let ghost m: nat = if type_size > 1 { (type_size - 1) as nat } else { 0 };
            assert((i - 1) as nat == m);
            assert(commands_view(cmds@) =~= head + Seq::new(m, f));
            assert(alloca_v(type_size as int, *count, dv) == head + Seq::new(m, f));
        },
        AllocaCount::Other => {},
    }
    cmds
}

} // verus!
