//! Address computations (`getelementptr`): constant indices fold into an
//! offset; dynamic indices add scaled words at run time.
use vstd::prelude::*;
use crate::arith::{add_64_bit, add_64_bit_v, exec_if, exec_if_v};
use crate::cir::{Command, CommandV, ExecuteCondition, McRange, ScoreHolder, ScoreOpKind, commands_view};
use crate::constants::{GlobalTable, elem_stride, fields_of, padded, struct_fields};
use crate::layout::{
    IrType, Types, layout_fits, lemma_layout_ok, offset_of, offset_of_ok, offset_of_spec,
    type_layout,
};
use crate::locals::{LocalName, LocalNameV, local_word_name};
use crate::memory::{MaybeConst, MaybeConstV, TempCounter, get_unique_holder, temp_name};
use crate::operands::{Operand, eval_maybe_const, eval_operand_spec, operand_ok, operand_type, type_of};
use crate::registers::{
    add_lit, add_v, assign, assign_lit, assign_v, comment_v, make_op, matches_v, objective_string,
    op_v, param, param_name, set_v, uuid,
};

verus! {

/// `block` repeated `count` times.
pub open spec fn repeat_v(block: Seq<CommandV>, count: nat) -> Seq<CommandV>
    decreases count,
{
    if count == 0 {
        Seq::empty()
    } else {
        repeat_v(block, (count - 1) as nat) + block
    }
}

/// Where an address computation stands after some indices: the constant
/// offset, the type the next index walks into, the commands for dynamic
/// indices, and the temporary counter.
pub struct GepState {
    pub offset: int,
    pub ty: IrType,
    pub cmds: Seq<CommandV>,
    pub n: nat,
}

/// The 64-bit addition of `(b0, b1)` into the pointer words of `dest`.
pub open spec fn add_into_v(dest: LocalNameV, b0: Seq<char>, b1: Seq<char>) -> Seq<CommandV> {
    let d0 = local_word_name(dest, 0);
    let d1 = local_word_name(dest, 1);
    add_64_bit_v(d0, d1, b0, b1, d0, d1)
}

/// A dynamic index in `b` scaled by `size` and added to the pointer of
/// `dest`: a word index is added `size` times; a two-word index through a
/// pointer is multiplied first unless repeated additions are shorter.
pub open spec fn scaled_add_v(dest: LocalNameV, b: Seq<Seq<char>>, size: int, through_pointer: bool) -> Seq<
    CommandV,
> {
    if b.len() == 1 {
        repeat_v(seq![op_v(local_word_name(dest, 0), ScoreOpKind::AddAssign, b[0])], size as nat)
    } else if through_pointer && !(7 * size < 5 + 7) {
        seq![
            set_v(param_name(1, 0), size as i32),
            assign_v(param_name(0, 0), b[0]),
            assign_v(param_name(0, 1), b[1]),
            op_v(param_name(0, 0), ScoreOpKind::MulAssign, param_name(1, 0)),
            op_v(param_name(0, 1), ScoreOpKind::MulAssign, param_name(1, 0)),
        ] + add_into_v(dest, param_name(0, 0), param_name(0, 1))
    } else {
        repeat_v(add_into_v(dest, b[0], b[1]), size as nat)
    }
}

/// The score of a constant result.
pub open spec fn score_of(m: MaybeConstV) -> i32 {
    match m {
        MaybeConstV::Const(c) => c,
        _ => 0,
    }
}

/// One index of an address computation.
pub open spec fn gep_index_v(
    st: GepState,
    index: Operand,
    dest: LocalNameV,
    g: Seq<(LocalName, u32)>,
    tys: Types,
) -> GepState {
    let e = eval_operand_spec(index, g, tys, st.n);
    match st.ty {
        IrType::Pointer { pointee, .. } => {
            let size = elem_stride(*pointee, tys);
            match e.0 {
                MaybeConstV::Const(c) => GepState {
                    offset: st.offset + (size as i32) * c,
                    ty: *pointee,
                    cmds: st.cmds,
                    n: e.1,
                },
                MaybeConstV::NonConst(a, b) => GepState {
                    offset: st.offset,
                    ty: *pointee,
                    cmds: if b.len() == 1 || b.len() == 2 {
                        st.cmds + a + scaled_add_v(dest, b, size, true)
                    } else {
                        st.cmds
                    },
                    n: e.1,
                },
            }
        },
        IrType::Array { element_type, .. } => {
            let size = elem_stride(*element_type, tys);
            match e.0 {
                MaybeConstV::Const(c) => GepState {
                    offset: st.offset + c * (size as i32),
                    ty: *element_type,
                    cmds: st.cmds,
                    n: e.1,
                },
                MaybeConstV::NonConst(a, b) => GepState {
                    offset: st.offset,
                    ty: *element_type,
                    cmds: if b.len() == 1 || b.len() == 2 {
                        st.cmds + a + scaled_add_v(dest, b, size, false)
                    } else {
                        st.cmds
                    },
                    n: e.1,
                },
            }
        },
        IrType::Vector { element_type, .. } => {
            let size = elem_stride(*element_type, tys);
            match e.0 {
                MaybeConstV::Const(c) => GepState {
                    offset: st.offset + c * (size as i32),
                    ty: st.ty,
                    cmds: st.cmds,
                    n: e.1,
                },
                MaybeConstV::NonConst(a, b) => if b.len() == 1 {
                    GepState {
                        offset: st.offset,
                        ty: st.ty,
                        cmds: st.cmds + a + seq![
                            op_v(local_word_name(dest, 0), ScoreOpKind::AddAssign, b[0]),
                        ],
                        n: e.1,
                    }
                } else if b.len() == 2 {
                    let t0 = temp_name(e.1);
                    let t1 = temp_name(e.1 + 1);
                    GepState {
                        offset: st.offset,
                        ty: st.ty,
                        cmds: st.cmds + a + seq![
                            assign_v(t0, local_word_name(dest, 0)),
                            assign_v(t1, local_word_name(dest, 1)),
                        ] + add_64_bit_v(
                            t0,
                            t1,
                            b[0],
                            b[1],
                            local_word_name(dest, 0),
                            local_word_name(dest, 1),
                        ),
                        n: e.1 + 2,
                    }
                } else {
                    GepState { offset: st.offset, ty: st.ty, cmds: st.cmds + a, n: e.1 }
                },
            }
        },
        _ => match struct_fields(st.ty, tys) {
            Some(f) => {
                let c = score_of(e.0);
                GepState {
                    offset: st.offset + (offset_of_spec(f.0, f.1, c as nat, tys.named@).unwrap()
                        as i32),
                    ty: f.0@[c as int],
                    cmds: st.cmds,
                    n: e.1,
                }
            },
            None => st,
        },
    }
}

/// Whether an `i32` computation stays in range.
pub open spec fn fits_i32(x: int) -> bool {
    i32::MIN <= x <= i32::MAX
}

/// Whether one index can be applied: the index evaluates, the type is a
/// pointer, array, vector or structure with a layout, structure indices
/// are constant fields, constant vector indices are in bounds, and the
/// offset stays a 32-bit integer.
pub open spec fn gep_index_ok(st: GepState, index: Operand, g: Seq<(LocalName, u32)>, tys: Types) -> bool {
    let e = eval_operand_spec(index, g, tys, st.n);
    let named = tys.named@;
    &&& operand_ok(index, g, tys, st.n)
    &&& match st.ty {
        IrType::Pointer { pointee, .. } => {
            let size = elem_stride(*pointee, tys);
            &&& layout_fits(*pointee, named, named.len())
            &&& match e.0 {
                MaybeConstV::Const(c) => fits_i32((size as i32) * c) && fits_i32(
                    st.offset + (size as i32) * c,
                ),
                MaybeConstV::NonConst(_, b) => b.len() == 2 ==> 7 * size <= usize::MAX,
            }
        },
        IrType::Array { element_type, .. } => {
            let size = elem_stride(*element_type, tys);
            &&& layout_fits(*element_type, named, named.len())
            &&& match e.0 {
                MaybeConstV::Const(c) => fits_i32(c * (size as i32)) && fits_i32(
                    st.offset + c * (size as i32),
                ),
                _ => true,
            }
        },
        IrType::Vector { element_type, num_elements } => {
            let size = elem_stride(*element_type, tys);
            &&& layout_fits(*element_type, named, named.len())
            &&& match e.0 {
                MaybeConstV::Const(c) => {
                    &&& (c as usize) < num_elements
                    &&& fits_i32(c * (size as i32))
                    &&& fits_i32(st.offset + c * (size as i32))
                },
                MaybeConstV::NonConst(_, b) => b.len() == 2 ==> e.1 + 2 <= u32::MAX,
            }
        },
        IrType::Struct { .. } => struct_index_ok(st, e.0, tys),
        IrType::NamedStruct { .. } => struct_index_ok(st, e.0, tys),
        _ => false,
    }
}

/// Whether a structure index is a constant field whose offset keeps the
/// offset a 32-bit integer.
pub open spec fn struct_index_ok(st: GepState, m: MaybeConstV, tys: Types) -> bool {
    match struct_fields(st.ty, tys) {
        Some(f) => match m {
            MaybeConstV::Const(c) => {
                &&& 0 <= c < f.0@.len()
                &&& offset_of_ok(f.0, f.1, c as nat, tys.named@)
                &&& fits_i32(
                    st.offset + (offset_of_spec(f.0, f.1, c as nat, tys.named@).unwrap() as i32),
                )
            },
            _ => false,
        },
        None => false,
    }
}

/// The state after the first `k` indices.
pub open spec fn gep_walk_v(
    st: GepState,
    indices: Seq<Operand>,
    k: nat,
    dest: LocalNameV,
    g: Seq<(LocalName, u32)>,
    tys: Types,
) -> GepState
    decreases k,
{
    if k == 0 || k > indices.len() {
        st
    } else {
        gep_index_v(gep_walk_v(st, indices, (k - 1) as nat, dest, g, tys), indices[k - 1], dest, g, tys)
    }
}

/// Whether the first `k` indices can be applied in turn.
pub open spec fn gep_walk_ok(
    st: GepState,
    indices: Seq<Operand>,
    k: nat,
    dest: LocalNameV,
    g: Seq<(LocalName, u32)>,
    tys: Types,
) -> bool
    decreases k,
{
    if k == 0 || k > indices.len() {
        true
    } else {
        &&& gep_walk_ok(st, indices, (k - 1) as nat, dest, g, tys)
        &&& gep_index_ok(gep_walk_v(st, indices, (k - 1) as nat, dest, g, tys), indices[k - 1], g, tys)
    }
}

proof fn lemma_gep_walk_ok_prefix(
    st: GepState,
    indices: Seq<Operand>,
    j: nat,
    k: nat,
    dest: LocalNameV,
    g: Seq<(LocalName, u32)>,
    tys: Types,
)
    requires
        j <= k <= indices.len(),
        gep_walk_ok(st, indices, k, dest, g, tys),
    ensures
        gep_walk_ok(st, indices, j, dest, g, tys),
    decreases k,
{
    if j < k {
        lemma_gep_walk_ok_prefix(st, indices, j, (k - 1) as nat, dest, g, tys);
    }
}

/// The carry into the high word after adding a constant offset to the low
/// word of a two-word pointer.
pub open spec fn carry_v(a0: Seq<char>, d0: Seq<char>, d1: Seq<char>, negative: bool) -> Seq<CommandV> {
    if negative {
        seq![
            exec_if_v(seq![matches_v(a0, McRange::HalfLeft(-1i32))], add_v(d1, 1)),
            exec_if_v(
                seq![matches_v(a0, McRange::HalfRight(0)), matches_v(d0, McRange::HalfRight(0))],
                add_v(d1, 1),
            ),
        ]
    } else {
        seq![
            exec_if_v(
                seq![matches_v(a0, McRange::HalfLeft(-1i32)), matches_v(d0, McRange::HalfRight(0))],
                add_v(d1, 1),
            ),
        ]
    }
}

/// The commands that start the pointer from the address plus the constant
/// offset.
pub open spec fn gep_start_v(m: MaybeConstV, dest: LocalNameV, offset: int) -> Seq<CommandV> {
    let d0 = local_word_name(dest, 0);
    let d1 = local_word_name(dest, 1);
    match m {
        MaybeConstV::Const(addr) => seq![set_v(d0, (addr + offset) as i32)],
        MaybeConstV::NonConst(ac, a) => if a.len() == 1 {
            ac + seq![assign_v(d0, a[0]), add_v(d0, offset as i32)]
        } else if a.len() == 2 {
            ac + seq![assign_v(d0, a[0]), assign_v(d1, a[1]), add_v(d0, offset as i32)] + carry_v(
                a[0],
                d0,
                d1,
                offset < 0,
            )
        } else {
            ac
        },
    }
}

/// The commands of `dest = getelementptr address, indices` and the counter
/// after: a comment naming the computation, the start from the address
/// plus the constant offset of all indices, then the additions of the
/// dynamic indices.
pub open spec fn gep_v(
    address: Operand,
    indices: Seq<Operand>,
    dest: LocalNameV,
    address_text: Seq<char>,
    indices_text: Seq<char>,
    g: Seq<(LocalName, u32)>,
    tys: Types,
    n: nat,
) -> (Seq<CommandV>, nat) {
    let st = gep_walk_v(
        GepState { offset: 0, ty: operand_type(address).unwrap(), cmds: Seq::empty(), n },
        indices,
        indices.len(),
        dest,
        g,
        tys,
    );
    let e = eval_operand_spec(address, g, tys, st.n);
    (
        seq![
            comment_v(
                "getelementptr\naddress: "@ + address_text + "\nindices: "@ + indices_text
                    + "\ndest: "@ + local_word_name(dest, 0),
            ),
        ] + gep_start_v(e.0, dest, st.offset) + st.cmds,
        e.1,
    )
}

/// Whether `dest = getelementptr address, indices` can be compiled.
pub open spec fn gep_ok(
    address: Operand,
    indices: Seq<Operand>,
    dest: LocalNameV,
    g: Seq<(LocalName, u32)>,
    tys: Types,
    n: nat,
) -> bool {
    let st0 = GepState { offset: 0, ty: operand_type(address).unwrap(), cmds: Seq::empty(), n };
    let st = gep_walk_v(st0, indices, indices.len(), dest, g, tys);
    let e = eval_operand_spec(address, g, tys, st.n);
    &&& operand_type(address) is Some
    &&& gep_walk_ok(st0, indices, indices.len(), dest, g, tys)
    &&& operand_ok(address, g, tys, st.n)
    &&& (e.0 matches MaybeConstV::Const(addr) ==> fits_i32(addr + st.offset))
}


/// The state before any index, or between indices.
pub open spec fn gep_state(offset: int, ty: IrType, cmds: Seq<CommandV>, n: nat) -> GepState {
    GepState { offset, ty, cmds, n }
}

/// Appends `count` copies of `block`.
fn push_repeated(out: &mut Vec<Command>, block: &Vec<Command>, count: usize)
    ensures
        commands_view(final(out)@) == commands_view(old(out)@) + repeat_v(
            commands_view(block@),
            count as nat,
        ),
{
    let ghost start = commands_view(out@);
    let ghost bv = commands_view(block@);
    let mut i: usize = 0;
    while i < count
        invariant
            i <= count,
            bv == commands_view(block@),
            commands_view(out@) == start + repeat_v(bv, i as nat),
        decreases count - i,
    {
        let ghost before = commands_view(out@);
        let mut j: usize = 0;
        while j < block.len()
            invariant
                j <= block.len(),
                bv == commands_view(block@),
                commands_view(out@) == before + bv.subrange(0, j as int),
            decreases block.len() - j,
        {
            let c = block[j].duplicate();
            let ghost prev = commands_view(out@);
            out.push(c);
            assert(commands_view(out@) =~= prev.push(c@));
            assert(bv.subrange(0, j + 1) =~= bv.subrange(0, j as int).push(bv[j as int]));
            assert(commands_view(out@) =~= before + bv.subrange(0, j + 1));
            j = j + 1;
        }
        assert(bv.subrange(0, block.len() as int) =~= bv);
        assert(start + repeat_v(bv, (i + 1) as nat) =~= start + repeat_v(bv, i as nat) + bv);
        i = i + 1;
    }
}

/// Appends the addition of the dynamic index in `b`, scaled by `size`, to
/// the pointer of `dest`.
fn push_scaled_add(
    cmds: &mut Vec<Command>,
    dest: &LocalName,
    b: &Vec<ScoreHolder>,
    size: usize,
    through_pointer: bool,
)
    requires
        b@.len() == 1 || b@.len() == 2,
        b@.len() == 2 && through_pointer ==> 7 * size <= usize::MAX,
    ensures
        commands_view(final(cmds)@) == commands_view(old(cmds)@) + scaled_add_v(
            dest@,
            b@.map_values(|x: ScoreHolder| x@),
            size as int,
            through_pointer,
        ),
{
    let ghost bv = b@.map_values(|x: ScoreHolder| x@);
    let d = ScoreHolder::from_local_name(dest.duplicate(), 8);
    if b.len() == 1 {
        proof {
            crate::registers::lemma_op_symbols();
        }
        let c = make_op(d[0].clone(), "+=", b[0].clone());
        let block = vec![c];
        assert(commands_view(block@) =~= seq![op_v(local_word_name(dest@, 0), ScoreOpKind::AddAssign, bv[0])]);
        push_repeated(cmds, &block, size);
        assert(bv.len() == 1);
    } else if through_pointer && !(7 * size < 5 + 7) {
        let ghost head = commands_view(cmds@);
        proof {
            crate::registers::lemma_op_symbols();
        }
        let c0 = assign_lit(param(1, 0), size as i32);
        let c1 = assign(param(0, 0), b[0].clone());
        let c2 = assign(param(0, 1), b[1].clone());
        let c3 = make_op(param(0, 0), "*=", param(1, 0));
        let c4 = make_op(param(0, 1), "*=", param(1, 0));
        let mut block = vec![c0, c1, c2, c3, c4];
        assert(commands_view(block@) =~= seq![c0@, c1@, c2@, c3@, c4@]);
        cmds.append(&mut block);
        let mut tail = add_64_bit(d[0].clone(), d[1].clone(), param(0, 0), param(0, 1), dest.duplicate());
        let ghost tv = commands_view(tail@);
        cmds.append(&mut tail);
        assert(commands_view(cmds@) =~= head + seq![c0@, c1@, c2@, c3@, c4@] + tv);
        assert(tv == add_into_v(dest@, param_name(0, 0), param_name(0, 1)));
        assert(seq![c0@, c1@, c2@, c3@, c4@] + tv =~= scaled_add_v(dest@, bv, size as int, through_pointer));
    } else {
        let block = add_64_bit(d[0].clone(), d[1].clone(), b[0].clone(), b[1].clone(), dest.duplicate());
        assert(commands_view(block@) == add_into_v(dest@, bv[0], bv[1]));
        push_repeated(cmds, &block, size);
    }
}

/// The padded element size of `t`, which has a layout.
fn stride_of(t: &IrType, tys: &Types) -> (r: usize)
    requires
        layout_fits(*t, tys.named@, tys.named@.len()),
    ensures
        r as int == elem_stride(*t, *tys),
{
    let l = type_layout(t, tys);
    proof {
        lemma_layout_ok(*t, tys.named@, tys.named@.len());
    }
    padded(l)
}

/// Applies one index of an address computation: gives the new constant
/// offset and the type the next index walks into, and appends the
/// commands of a dynamic index.
fn gep_index<'a>(
    offset: i32,
    ty: &'a IrType,
    cmds: &mut Vec<Command>,
    index: &Operand,
    dest: &LocalName,
    globals: &GlobalTable,
    tys: &'a Types,
    counter: &mut TempCounter,
) -> (r: (i32, &'a IrType))
    requires
        gep_index_ok(
            gep_state(offset as int, *ty, commands_view(old(cmds)@), old(counter).next as nat),
            *index,
            globals.addrs@,
            *tys,
        ),
    ensures
        gep_state(r.0 as int, *r.1, commands_view(final(cmds)@), final(counter).next as nat)
            == gep_index_v(
            gep_state(offset as int, *ty, commands_view(old(cmds)@), old(counter).next as nat),
            *index,
            dest@,
            globals.addrs@,
            *tys,
        ),
{
    let e = eval_maybe_const(index, globals, tys, counter);
    match ty {
        IrType::Pointer { pointee, .. } => {
            let size = stride_of(&**pointee, tys);
            match e {
                MaybeConst::Const(c) => (offset + (size as i32) * c, &**pointee),
                MaybeConst::NonConst(mut a, b) => {
                    if b.len() == 1 || b.len() == 2 {
                        let ghost head = commands_view(cmds@);
                        let ghost av = commands_view(a@);
                        cmds.append(&mut a);
                        assert(commands_view(cmds@) =~= head + av);
                        push_scaled_add(cmds, dest, &b, size, true);
                    }
                    (offset, &**pointee)
                },
            }
        },
        IrType::Array { element_type, .. } => {
            let size = stride_of(&**element_type, tys);
            match e {
                MaybeConst::Const(c) => (offset + c * (size as i32), &**element_type),
                MaybeConst::NonConst(mut a, b) => {
                    if b.len() == 1 || b.len() == 2 {
                        let ghost head = commands_view(cmds@);
                        let ghost av = commands_view(a@);
                        cmds.append(&mut a);
                        assert(commands_view(cmds@) =~= head + av);
                        push_scaled_add(cmds, dest, &b, size, false);
                    }
                    (offset, &**element_type)
                },
            }
        },
        IrType::Vector { element_type, .. } => {
            let size = stride_of(&**element_type, tys);
            match e {
                MaybeConst::Const(c) => (offset + c * (size as i32), ty),
                MaybeConst::NonConst(mut a, b) => {
                    let ghost head = commands_view(cmds@);
                    let ghost av = commands_view(a@);
                    cmds.append(&mut a);
                    let d = ScoreHolder::from_local_name(dest.duplicate(), 8);
                    if b.len() == 1 {
                        proof {
                            crate::registers::lemma_op_symbols();
                        }
                        let c0 = make_op(d[0].clone(), "+=", b[0].clone());
                        cmds.push(c0);
                        assert(commands_view(cmds@) =~= head + av + seq![c0@]);
                    } else if b.len() == 2 {
                        let t0 = get_unique_holder(counter);
                        let t1 = get_unique_holder(counter);
                        let c0 = assign(t0.clone(), d[0].clone());
                        let c1 = assign(t1.clone(), d[1].clone());
                        let mut block = vec![c0, c1];
                        assert(commands_view(block@) =~= seq![c0@, c1@]);
                        cmds.append(&mut block);
                        let mut tail = add_64_bit(t0, t1, b[0].clone(), b[1].clone(), dest.duplicate());
                        let ghost tv = commands_view(tail@);
                        cmds.append(&mut tail);
                        assert(commands_view(cmds@) =~= head + av + seq![c0@, c1@] + tv);
                    } else {
                        assert(commands_view(cmds@) =~= head + av);
                    }
                    (offset, ty)
                },
            }
        },
        _ => {
            match fields_of(ty, tys) {
                Some((element_types, is_packed)) => {
                    let c: i32 = match e {
                        MaybeConst::Const(c) => c,
                        MaybeConst::NonConst(..) => 0,
                    };
                    let off = offset_of(element_types, is_packed, c as u32, tys);
                    (offset + (off as i32), &element_types[c as usize])
                },
                None => (offset, ty),
            }
        },
    }
}

/// The commands that start the pointer of `dest` from the address `m`
/// plus the constant `offset`.
fn gep_start(m: MaybeConst, dest: &LocalName, offset: i32) -> (r: Vec<Command>)
    requires
        m@ matches MaybeConstV::Const(addr) ==> fits_i32(addr + offset),
    ensures
        commands_view(r@) == gep_start_v(m@, dest@, offset as int),
{
    let d = ScoreHolder::from_local_name(dest.duplicate(), 8);
    match m {
        MaybeConst::Const(addr) => {
            let c0 = assign_lit(d[0].clone(), addr + offset);
            let r = vec![c0];
            assert(commands_view(r@) =~= seq![c0@]);
            r
        },
        MaybeConst::NonConst(mut cmds, addr) => {
            let ghost head = commands_view(cmds@);
            if addr.len() == 1 {
                let c0 = assign(d[0].clone(), addr[0].clone());
                let c1 = add_lit(d[0].clone(), offset);
                cmds.push(c0);
                cmds.push(c1);
                assert(commands_view(cmds@) =~= head + seq![c0@, c1@]);
            } else if addr.len() == 2 {
                let c0 = assign(d[0].clone(), addr[0].clone());
                let c1 = assign(d[1].clone(), addr[1].clone());
                let c2 = add_lit(d[0].clone(), offset);
                let mut block = vec![c0, c1, c2];
                assert(commands_view(block@) =~= seq![c0@, c1@, c2@]);
                cmds.append(&mut block);
                let ghost mid = commands_view(cmds@);
                if offset < 0 {
                    let conds0 = vec![crate::arith::matches(addr[0].clone(), McRange::HalfLeft(-1i32))];
                    let e0 = exec_if(conds0, add_lit(d[1].clone(), 1));
                    assert(conds0@.map_values(|c: ExecuteCondition| c@) =~= seq![
                        matches_v(addr@[0]@, McRange::HalfLeft(-1i32)),
                    ]);
                    let conds1 = vec![
                        crate::arith::matches(addr[0].clone(), McRange::HalfRight(0)),
                        crate::arith::matches(d[0].clone(), McRange::HalfRight(0)),
                    ];
                    assert(conds1@.map_values(|c: ExecuteCondition| c@) =~= seq![
                        matches_v(addr@[0]@, McRange::HalfRight(0)),
                        matches_v(d@[0]@, McRange::HalfRight(0)),
                    ]);
                    let e1 = exec_if(conds1, add_lit(d[1].clone(), 1));
                    cmds.push(e0);
                    cmds.push(e1);
                    assert(commands_view(cmds@) =~= mid + seq![e0@, e1@]);
                } else {
                    let conds = vec![
                        crate::arith::matches(addr[0].clone(), McRange::HalfLeft(-1i32)),
                        crate::arith::matches(d[0].clone(), McRange::HalfRight(0)),
                    ];
                    assert(conds@.map_values(|c: ExecuteCondition| c@) =~= seq![
                        matches_v(addr@[0]@, McRange::HalfLeft(-1i32)),
                        matches_v(d@[0]@, McRange::HalfRight(0)),
                    ]);
                    let e0 = exec_if(conds, add_lit(d[1].clone(), 1));
                    cmds.push(e0);
                    assert(commands_view(cmds@) =~= mid + seq![e0@]);
                }
                assert(commands_view(cmds@) == gep_start_v(m@, dest@, offset as int));
            }
            cmds
        },
    }
}

/// Compiles `dest = getelementptr address, indices`: the comment naming the
/// computation (with the given renderings of the address and the indices),
/// the start of the pointer from the address plus the constant offset of
/// all indices, and the additions of the dynamic indices.
pub fn compile_getelementptr(
    address: &Operand,
    indices: &Vec<Operand>,
    dest: &LocalName,
    address_text: &str,
    indices_text: &str,
    globals: &GlobalTable,
    tys: &Types,
    counter: &mut TempCounter,
) -> (r: Vec<Command>)
    requires
        gep_ok(*address, indices@, dest@, globals.addrs@, *tys, old(counter).next as nat),
    ensures
        (commands_view(r@), final(counter).next as nat) == gep_v(
            *address,
            indices@,
            dest@,
            address_text@,
            indices_text@,
            globals.addrs@,
            *tys,
            old(counter).next as nat,
        ),
{
    let ghost g = globals.addrs@;
    let ghost dv = dest@;
    let ghost st0 = gep_state(0, operand_type(*address).unwrap(), Seq::empty(), counter.next as nat);
    let mut ty: &IrType = match type_of(address) {
        Some(t) => t,
        None => {
            return Vec::new();
        },
    };
    let mut offset: i32 = 0;
    let mut cmds: Vec<Command> = Vec::new();
    let n = indices.len();
    let mut k: usize = 0;
    assert(commands_view(cmds@) =~= Seq::<CommandV>::empty());
    while k < n
        invariant
            n == indices@.len(),
            k <= n,
            gep_walk_ok(st0, indices@, n as nat, dv, g, *tys),
            dv == dest@,
            g == globals.addrs@,
            gep_state(offset as int, *ty, commands_view(cmds@), counter.next as nat) == gep_walk_v(
                st0,
                indices@,
                k as nat,
                dv,
                g,
                *tys,
            ),
        decreases n - k,
    {
        proof {
            lemma_gep_walk_ok_prefix(st0, indices@, (k + 1) as nat, n as nat, dv, g, *tys);
        }
        let (o, t) = gep_index(offset, ty, &mut cmds, &indices[k], dest, globals, tys, counter);
        offset = o;
        ty = t;
        k = k + 1;
    }
    let ghost st = gep_walk_v(st0, indices@, n as nat, dv, g, *tys);
    let m = eval_maybe_const(address, globals, tys, counter);
    let mut start = gep_start(m, dest, offset);
    let d = ScoreHolder::from_local_name(dest.duplicate(), 4);
    let mut text = String::from_str("getelementptr\naddress: ");
    text.append(address_text);
    text.append("\nindices: ");
    text.append(indices_text);
    text.append("\ndest: ");
    text.append(d[0].as_str());
    proof {
        reveal_strlit("getelementptr\naddress: ");
        reveal_strlit("\nindices: ");
        reveal_strlit("\ndest: ");
    }
    let c0 = Command::Comment(text);
    let mut out = vec![c0];
    let ghost sv = commands_view(start@);
    let ghost cv = commands_view(cmds@);
    out.append(&mut start);
    out.append(&mut cmds);
    assert(commands_view(out@) =~= seq![c0@] + sv + cv);
    out
}

} // verus!
