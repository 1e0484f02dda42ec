//! Values that depend on how control reached a block: phi nodes, which
//! pick a value by the block that control came from, and landing pads,
//! which receive an exception.
use vstd::prelude::*;
use crate::arith::{exec_if1, exec_if_v};
use crate::cir::{Command, CommandV, McRange, ScoreHolder, commands_view};
use crate::constants::{GlobalTable, local_name_eq};
use crate::layout::{IrType, Types, layout_fits, type_layout, type_layout_spec};
use crate::locals::{LocalName, LocalNameV, local_word_name};
use crate::memory::TempCounter;
use crate::operands::{Operand, eval_operand, eval_operand_ok, eval_operand_v, local_words};
use crate::registers::{assign, assign_v, comment_v, except_ptr, except_type, matches_v, phi_holder};
use crate::text::{nat_text, u64_text};

verus! {

// ----------------------------------------------------------------------
// Phi nodes
// ----------------------------------------------------------------------

/// One incoming value of a phi node: the value, the block that control
/// comes from, and the rendering of the value for the comment.
#[derive(Debug)]
pub struct PhiIncoming {
    pub value: Operand,
    pub block: LocalName,
    pub value_text: String,
}

/// How a local name is written: `%` then the name or the number.
pub open spec fn name_display(name: LocalNameV) -> Seq<char> {
    match name {
        LocalNameV::Name(s) => "%"@ + s,
        LocalNameV::Number(n) => "%"@ + nat_text(n),
    }
}

/// How a local name is written: `%` then the name or the number.
pub fn name_display_text(name: &LocalName) -> (r: String)
    ensures
        r@ == name_display(name@),
{
    let mut s = String::from_str("%");
    proof {
        reveal_strlit("%");
    }
    match name {
        LocalName::Name(n) => {
            s.append(n.as_str());
        },
        LocalName::Number(n) => {
            let t = u64_text(*n as u64);
            s.append(t.as_str());
        },
    }
    s
}

/// The first position of `name` in `names` from `i` on, or the length of
/// `names` when it does not occur.
pub open spec fn first_index_from(names: Seq<LocalNameV>, name: LocalNameV, i: int) -> int
    decreases names.len() - i,
{
    if i >= names.len() || i < 0 {
        names.len() as int
    } else if names[i] == name {
        i
    } else {
        first_index_from(names, name, i + 1)
    }
}

/// The first position of `name` in `names`.
pub open spec fn first_index(names: Seq<LocalNameV>, name: LocalNameV) -> int {
    first_index_from(names, name, 0)
}

/// The text of the comment that introduces an incoming value.
pub open spec fn phi_comment(inc: PhiIncoming) -> Seq<char> {
    "block "@ + name_display(inc.block@) + "\nvalue "@ + inc.value_text@
}

/// The commands for one incoming value, coming from the block at `idx`,
/// with the counter at `n`, and the counter after: a comment, the value
/// brought into holders, and each word copied into `d` when control came
/// from that block.
pub open spec fn phi_entry_v(
    inc: PhiIncoming,
    d: Seq<Seq<char>>,
    idx: int,
    g: Seq<(LocalName, u32)>,
    tys: Types,
    n: nat,
) -> (Seq<CommandV>, nat) {
    let e = eval_operand_v(inc.value, g, tys, n);
    let k = if e.1.len() <= d.len() {
        e.1.len()
    } else {
        d.len()
    };
    (
        seq![comment_v(phi_comment(inc))] + e.0 + Seq::new(
            k,
            |i: int|
                exec_if_v(
                    seq![matches_v("%phi"@, McRange::Between(idx as i32, idx as i32))],
                    assign_v(d[i], e.1[i]),
                ),
        ),
        e.2,
    )
}

/// The commands for the first `k` incoming values, and the counter after.
pub open spec fn phi_prefix_v(
    incoming: Seq<PhiIncoming>,
    d: Seq<Seq<char>>,
    names: Seq<LocalNameV>,
    g: Seq<(LocalName, u32)>,
    tys: Types,
    n: nat,
    k: nat,
) -> (Seq<CommandV>, nat)
    decreases k,
{
    if k == 0 {
        (Seq::empty(), n)
    } else {
        let p = phi_prefix_v(incoming, d, names, g, tys, n, (k - 1) as nat);
        let inc = incoming[k - 1];
        let e = phi_entry_v(inc, d, first_index(names, inc.block@), g, tys, p.1);
        (p.0 + e.0, e.1)
    }
}

/// The commands of `dest = phi to_type [value, block]...` in a function
/// whose blocks are named `names`, and the counter after.
pub open spec fn phi_v(
    incoming: Seq<PhiIncoming>,
    to_type: IrType,
    dest: LocalNameV,
    names: Seq<LocalNameV>,
    g: Seq<(LocalName, u32)>,
    tys: Types,
    n: nat,
) -> (Seq<CommandV>, nat) {
    let d = local_words(dest, type_layout_spec(to_type, tys).unwrap().size as nat);
    phi_prefix_v(incoming, d, names, g, tys, n, incoming.len())
}

/// The counter after the first `k` incoming values are evaluated, from
/// `n`.
pub open spec fn phi_counter(
    incoming: Seq<PhiIncoming>,
    g: Seq<(LocalName, u32)>,
    tys: Types,
    n: nat,
    k: nat,
) -> nat
    decreases k,
{
    if k == 0 {
        n
    } else {
        eval_operand_v(incoming[k - 1].value, g, tys, phi_counter(incoming, g, tys, n, (k - 1) as nat)).2
    }
}

/// Whether a phi node can be compiled: the type has a layout, each block
/// is one of the function's, whose positions fit in a score, and each
/// value evaluates in turn.
pub open spec fn phi_ok(
    incoming: Seq<PhiIncoming>,
    to_type: IrType,
    names: Seq<LocalNameV>,
    g: Seq<(LocalName, u32)>,
    tys: Types,
    n: nat,
) -> bool {
    &&& layout_fits(to_type, tys.named@, tys.named@.len())
    &&& names.len() <= i32::MAX
    &&& forall|k: int| 0 <= k < incoming.len() ==> names.contains(#[trigger] incoming[k].block@)
    &&& forall|k: int|
        0 <= k < incoming.len() ==> eval_operand_ok(
            #[trigger] incoming[k].value,
            g,
            tys,
            phi_counter(incoming, g, tys, n, k as nat),
        )
}

/// The counter after a prefix of the incoming values.
proof fn lemma_prefix_counter(
    incoming: Seq<PhiIncoming>,
    d: Seq<Seq<char>>,
    names: Seq<LocalNameV>,
    g: Seq<(LocalName, u32)>,
    tys: Types,
    n: nat,
    k: nat,
)
    ensures
        phi_prefix_v(incoming, d, names, g, tys, n, k).1 == phi_counter(incoming, g, tys, n, k),
    decreases k,
{
    if k > 0 {
        lemma_prefix_counter(incoming, d, names, g, tys, n, (k - 1) as nat);
    }
}

/// The position of `name` in `names`, which holds it.
fn find_block(names: &Vec<LocalName>, name: &LocalName) -> (r: usize)
    requires
        names@.map_values(|x: LocalName| x@).contains(name@),
    ensures
        r as int == first_index(names@.map_values(|x: LocalName| x@), name@),
        r < names@.len(),
{
    let ghost vn = names@.map_values(|x: LocalName| x@);
    let mut i: usize = 0;
    while i < names.len()
        invariant
            i <= names@.len(),
            vn == names@.map_values(|x: LocalName| x@),
            vn.contains(name@),
            first_index(vn, name@) == first_index_from(vn, name@, i as int),
            forall|k: int| 0 <= k < i ==> vn[k] != name@,
        decreases names@.len() - i,
    {
        assert(vn[i as int] == names@[i as int]@);
        if local_name_eq(&names[i], name) {
            return i;
        }
        i = i + 1;
    }
    proof {
        let k = choose|k: int| 0 <= k < vn.len() && vn[k] == name@;
        assert(vn[k] == name@);
    }
    0
}

/// Appends the commands for one incoming value, coming from the block at
/// `idx`.
fn phi_entry(
    cmds: &mut Vec<Command>,
    inc: &PhiIncoming,
    dst: &Vec<ScoreHolder>,
    idx: usize,
    globals: &GlobalTable,
    tys: &Types,
    counter: &mut TempCounter,
)
    requires
        idx <= i32::MAX,
        eval_operand_ok(inc.value, globals.addrs@, *tys, old(counter).next as nat),
    ensures
        ({
            let e = phi_entry_v(
                *inc,
                dst@.map_values(|x: ScoreHolder| x@),
                idx as int,
                globals.addrs@,
                *tys,
                old(counter).next as nat,
            );
            &&& commands_view(final(cmds)@) == commands_view(old(cmds)@) + e.0
            &&& final(counter).next as nat == e.1
        }),
{
    let ghost before = commands_view(cmds@);
    let ghost vd = dst@.map_values(|x: ScoreHolder| x@);
    let mut text = String::from_str("block ");
    let shown = name_display_text(&inc.block);
    text.append(shown.as_str());
    text.append("\nvalue ");
    text.append(inc.value_text.as_str());
    proof {
        reveal_strlit("block ");
        reveal_strlit("\nvalue ");
    }
    assert(text@ == phi_comment(*inc));
    cmds.push(Command::Comment(text));
    let (mut tmp, val) = eval_operand(&inc.value, globals, tys, counter);
    let ghost ev = commands_view(tmp@);
    cmds.append(&mut tmp);
    let ghost vv = val@.map_values(|x: ScoreHolder| x@);
    let ghost mid = commands_view(cmds@);
    assert(mid =~= before + seq![comment_v(phi_comment(*inc))] + ev);
    let k = if val.len() <= dst.len() {
        val.len()
    } else {
        dst.len()
    };
    let pos = idx as i32;
    let phi = phi_holder();
    let ghost f = |i: int|
        exec_if_v(seq![matches_v("%phi"@, McRange::Between(pos, pos))], assign_v(vd[i], vv[i]));
    let mut i: usize = 0;
    while i < k
        invariant
            i <= k,
            k <= val@.len(),
            k <= dst@.len(),
            vd == dst@.map_values(|x: ScoreHolder| x@),
            vv == val@.map_values(|x: ScoreHolder| x@),
            phi@ == "%phi"@,
            f == (|i: int|
                exec_if_v(
                    seq![matches_v("%phi"@, McRange::Between(pos, pos))],
                    assign_v(vd[i], vv[i]),
                )),
            commands_view(cmds@) == mid + Seq::new(i as nat, f),
        decreases k - i,
    {
        let c = exec_if1(
            crate::arith::matches(phi.clone(), McRange::Between(pos, pos)),
            assign(dst[i].clone(), val[i].clone()),
        );
        assert(c@ == f(i as int));
        let ghost b2 = commands_view(cmds@);
        cmds.push(c);
        assert(commands_view(cmds@) =~= b2.push(c@));
        assert(Seq::new((i + 1) as nat, f) =~= Seq::new(i as nat, f).push(c@));
        i = i + 1;
    }
}

/// Compiles `dest = phi to_type [value, block]...` in a function whose
/// blocks are named `block_names`.
#[verifier::rlimit(80)]
pub fn compile_phi(
    incoming: &Vec<PhiIncoming>,
    to_type: &IrType,
    dest: LocalName,
    block_names: &Vec<LocalName>,
    globals: &GlobalTable,
    tys: &Types,
    counter: &mut TempCounter,
) -> (r: Vec<Command>)
    requires
        phi_ok(
            incoming@,
            *to_type,
            block_names@.map_values(|x: LocalName| x@),
            globals.addrs@,
            *tys,
            old(counter).next as nat,
        ),
    ensures
        (commands_view(r@), final(counter).next as nat) == phi_v(
            incoming@,
            *to_type,
            dest@,
            block_names@.map_values(|x: LocalName| x@),
            globals.addrs@,
            *tys,
            old(counter).next as nat,
        ),
{
    let ghost names = block_names@.map_values(|x: LocalName| x@);
    let ghost n0 = counter.next as nat;
    let ghost g = globals.addrs@;
    let size = type_layout(to_type, tys).size;
    let ghost dv = dest@;
    let dst = ScoreHolder::from_local_name(dest, size);
    let ghost vd = dst@.map_values(|x: ScoreHolder| x@);
    assert(vd =~= local_words(dv, size as nat));
    let mut cmds: Vec<Command> = Vec::new();
    let mut j: usize = 0;
    while j < incoming.len()
        invariant
            j <= incoming@.len(),
            names == block_names@.map_values(|x: LocalName| x@),
            g == globals.addrs@,
            vd == dst@.map_values(|x: ScoreHolder| x@),
            block_names@.len() <= i32::MAX,
            forall|k: int| 0 <= k < incoming@.len() ==> names.contains(#[trigger] incoming@[k].block@),
            forall|k: int|
                0 <= k < incoming@.len() ==> eval_operand_ok(
                    #[trigger] incoming@[k].value,
                    g,
                    *tys,
                    phi_counter(incoming@, g, *tys, n0, k as nat),
                ),
            (commands_view(cmds@), counter.next as nat) == phi_prefix_v(
                incoming@,
                vd,
                names,
                g,
                *tys,
                n0,
                j as nat,
            ),
        decreases incoming@.len() - j,
    {
        proof {
            lemma_prefix_counter(incoming@, vd, names, g, *tys, n0, j as nat);
        }
        let inc = &incoming[j];
        assert(names.contains(incoming@[j as int].block@));
        let idx = find_block(block_names, &inc.block);
        assert(eval_operand_ok(incoming@[j as int].value, g, *tys, counter.next as nat));
        let ghost p = phi_prefix_v(incoming@, vd, names, g, *tys, n0, j as nat);
        phi_entry(&mut cmds, inc, &dst, idx, globals, tys, counter);
        assert(phi_prefix_v(incoming@, vd, names, g, *tys, n0, (j + 1) as nat) == (
            p.0 + phi_entry_v(incoming@[j as int], vd, idx as int, g, *tys, p.1).0,
            phi_entry_v(incoming@[j as int], vd, idx as int, g, *tys, p.1).1,
        ));
        j = j + 1;
    }
    assert(vd == local_words(dv, size as nat));
    cmds
}

// ----------------------------------------------------------------------
// Landing pads
// ----------------------------------------------------------------------

/// The commands of `dest = landingpad result_type`: for a structure of a
/// pointer and a 32-bit integer, the two words are copied from the
/// exception registers; any other type gives nothing.
pub open spec fn landing_pad_v(result_type: IrType, dest: LocalNameV) -> Seq<CommandV> {
    match result_type {
        IrType::Struct { element_types, is_packed } => if !is_packed && element_types@[0] is Pointer
            && element_types@[1] == (IrType::Integer { bits: 32 }) {
            seq![
                assign_v(local_word_name(dest, 0), "%except%ptr"@),
                assign_v(local_word_name(dest, 1), "%except%type"@),
            ]
        } else {
            Seq::empty()
        },
        _ => Seq::empty(),
    }
}

/// Whether a landing pad can be compiled: a structure that is not packed
/// has at least two fields.
pub open spec fn landing_pad_ok(result_type: IrType) -> bool {
    result_type matches IrType::Struct { element_types, is_packed } ==> (!is_packed
        ==> element_types@.len() >= 2)
}

/// Compiles `dest = landingpad result_type`.
pub fn compile_landing_pad(result_type: &IrType, dest: LocalName) -> (r: Vec<Command>)
    requires
        landing_pad_ok(*result_type),
    ensures
        commands_view(r@) == landing_pad_v(*result_type, dest@),
{
    match result_type {
        IrType::Struct { element_types, is_packed } => {
            if !*is_packed {
                let first_is_ptr = match &element_types[0] {
                    IrType::Pointer { .. } => true,
                    _ => false,
                };
                if first_is_ptr && crate::ops::is_int_type(&element_types[1], 32) {
                    let d = ScoreHolder::from_local_name(dest, 8);
                    let c0 = assign(d[0].clone(), except_ptr());
                    let c1 = assign(d[1].clone(), except_type());
                    let r = vec![c0, c1];
                    assert(commands_view(r@) =~= seq![c0@, c1@]);
                    return r;
                }
            }
            let r: Vec<Command> = Vec::new();
            assert(commands_view(r@) =~= Seq::<CommandV>::empty());
            r
        },
        _ => {
            let r: Vec<Command> = Vec::new();
            assert(commands_view(r@) =~= Seq::<CommandV>::empty());
            r
        },
    }
}

} // verus!
