//! Reading and replacing fields of structures and elements of vectors.
use vstd::prelude::*;
use crate::arith::{div_256_v, numbered_text, shift_left_bytes, times_256_v, truncate_to, truncate_to_v, zero_low_bytes, zero_low_bytes_v};
use crate::cir::{Command, CommandV, McRange, ScoreHolder, ScoreOpKind, commands_view};
use crate::constants::GlobalTable;
use crate::layout::{IrType, Types, layout_fits, offset_of, offset_of_ok, offset_of_spec, type_layout, type_layout_spec};
use crate::locals::{LocalName, LocalNameV, local_word_name, word_count};
use crate::memory::{MaybeConst, MaybeConstV, TempCounter, temp_name};
use crate::operands::{
    Operand, eval_maybe_const, eval_operand, eval_operand_ok, eval_operand_spec, eval_operand_v,
    local_words, operand_ok, operand_type, type_of,
};
use crate::ops::is_int_type;
use crate::registers::{
    assign, assign_v, comment_v, const_holder_name, make_op, make_op_lit, mark_assertion_matches,
    matches_v, op_v,
};
use crate::render::cond_text;

verus! {

/// Pushes `c` at the end of `cmds`.
fn push1(cmds: &mut Vec<Command>, c: Command)
    ensures
        commands_view(final(cmds)@) == commands_view(old(cmds)@).push(c@),
{
    cmds.push(c);
    assert(commands_view(cmds@) =~= commands_view(old(cmds)@).push(c@));
}

/// Appends `more` to `cmds`.
fn append_all(cmds: &mut Vec<Command>, more: Vec<Command>)
    ensures
        commands_view(final(cmds)@) == commands_view(old(cmds)@) + commands_view(more@),
{
    let mut m = more;
    let ghost mv = commands_view(m@);
    cmds.append(&mut m);
    assert(commands_view(cmds@) =~= commands_view(old(cmds)@) + mv);
}

// ----------------------------------------------------------------------
// Structure fields
// ----------------------------------------------------------------------

/// The field types of a structure type.
pub open spec fn fields_of(ty: IrType) -> Seq<IrType> {
    ty->Struct_element_types@
}

/// The size of field `index` of the structure type `ty`, and its offset.
pub open spec fn field_place(ty: IrType, index: u32, tys: Types) -> (nat, nat) {
    (
        type_layout_spec(fields_of(ty)[index as int], tys).unwrap().size as nat,
        offset_of_spec(ty->Struct_element_types, ty->Struct_is_packed, index as nat, tys.named@).unwrap()
            as nat,
    )
}

/// The commands of `dest = extractvalue aggregate, index` and the counter
/// after: a field of four or eight bytes is copied from the words at its
/// offset; a one-byte field divides `dest` by 256 once per byte of offset
/// and keeps its lowest byte; other fields give no further commands.
pub open spec fn extract_value_v(
    aggregate: Operand,
    index: u32,
    dest: LocalNameV,
    g: Seq<(LocalName, u32)>,
    tys: Types,
    n: nat,
) -> (Seq<CommandV>, nat) {
    let e = eval_operand_v(aggregate, g, tys, n);
    let (size, offset) = field_place(operand_type(aggregate).unwrap(), index, tys);
    let d = local_words(dest, size);
    if size == 4 {
        (e.0.push(assign_v(d[0], e.1[(offset / 4) as int])), e.2)
    } else if size == 8 {
        (
            e.0 + seq![
                assign_v(d[0], e.1[(offset / 4) as int]),
                assign_v(d[1], e.1[(offset / 4 + 1) as int]),
            ],
            e.2,
        )
    } else if size == 1 {
        (e.0 + div_256_v(d[0], offset) + truncate_to_v(d[0], 1, temp_name(e.2)), e.2 + 1)
    } else {
        (e.0, e.2)
    }
}

/// Whether `dest = extractvalue aggregate, indices` can be compiled: one
/// index into a structure, a field with a layout, and the words of a
/// four- or eight-byte field at a word offset within the aggregate.
pub open spec fn extract_value_ok(
    aggregate: Operand,
    indices: Seq<u32>,
    g: Seq<(LocalName, u32)>,
    tys: Types,
    n: nat,
) -> bool {
    let e = eval_operand_v(aggregate, g, tys, n);
    let ty = operand_type(aggregate).unwrap();
    let index = indices[0];
    let (size, offset) = field_place(ty, index, tys);
    &&& eval_operand_ok(aggregate, g, tys, n)
    &&& indices.len() == 1
    &&& operand_type(aggregate) matches Some(IrType::Struct { .. })
    &&& index < fields_of(ty).len()
    &&& layout_fits(fields_of(ty)[index as int], tys.named@, tys.named@.len())
    &&& offset_of_ok(ty->Struct_element_types, ty->Struct_is_packed, index as nat, tys.named@)
    &&& size == 4 ==> offset % 4 == 0 && offset / 4 < e.1.len()
    &&& size == 8 ==> offset % 4 == 0 && offset / 4 + 1 < e.1.len()
    &&& size == 1 ==> e.2 < u32::MAX
}

fn div_256(x: ScoreHolder) -> (r: Command)
    ensures
        r@ == op_v(x@, ScoreOpKind::DivAssign, const_holder_name(256)),
{
    proof {
        crate::registers::lemma_op_symbols();
    }
    make_op_lit(x, "/=", 256)
}

/// Compiles `dest = extractvalue aggregate, indices`.
pub fn compile_extract_value(
    aggregate: &Operand,
    indices: &Vec<u32>,
    dest: LocalName,
    globals: &GlobalTable,
    tys: &Types,
    counter: &mut TempCounter,
) -> (r: Vec<Command>)
    requires
        extract_value_ok(*aggregate, indices@, globals.addrs@, *tys, old(counter).next as nat),
    ensures
        (commands_view(r@), final(counter).next as nat) == extract_value_v(
            *aggregate,
            indices@[0],
            dest@,
            globals.addrs@,
            *tys,
            old(counter).next as nat,
        ),
{
    let ghost dv = dest@;
    let (mut cmds, aggr) = eval_operand(aggregate, globals, tys, counter);
    let ghost head = commands_view(cmds@);
    let ghost va = aggr@.map_values(|x: ScoreHolder| x@);
    let index = indices[0];
    let (element_types, is_packed) = match type_of(aggregate) {
        Some(IrType::Struct { element_types, is_packed }) => (element_types, *is_packed),
        _ => {
            return cmds;
        },
    };
    let result_type = &element_types[index as usize];
    let size = type_layout(result_type, tys).size;
    let offset = offset_of(element_types, is_packed, index, tys);
    let d = ScoreHolder::from_local_name(dest, size);
    if size == 4 {
        push1(&mut cmds, assign(d[0].clone(), aggr[offset / 4].clone()));
    } else if size == 8 {
        push1(&mut cmds, assign(d[0].clone(), aggr[offset / 4].clone()));
        push1(&mut cmds, assign(d[1].clone(), aggr[offset / 4 + 1].clone()));
        assert(commands_view(cmds@) =~= head + seq![
            assign_v(d@[0]@, va[(offset / 4) as int]),
            assign_v(d@[1]@, va[(offset / 4 + 1) as int]),
        ]);
    } else if size == 1 {
        let dest0 = d[0].clone();
        let mut i: usize = 0;
        while i < offset
            invariant
                i <= offset,
                commands_view(cmds@) == head + div_256_v(dest0@, i as nat),
            decreases offset - i,
        {
            push1(&mut cmds, div_256(dest0.clone()));
            assert(div_256_v(dest0@, (i + 1) as nat) =~= div_256_v(dest0@, i as nat).push(
                op_v(dest0@, ScoreOpKind::DivAssign, const_holder_name(256)),
            ));
            i = i + 1;
        }
        append_all(&mut cmds, truncate_to(dest0, 1, counter));
    }
    cmds
}

/// The comment that marks the assertion that `h` holds one byte.
pub open spec fn byte_mark_v(h: Seq<char>) -> CommandV {
    comment_v(
        "!INTERPRETER: ASSERT "@ + "unless "@ + cond_text(matches_v(h, McRange::Between(0i32, 255i32))),
    )
}

/// The commands of `dest = insertvalue aggregate, element, index` and the
/// counter after. Both operands are brought into holders, but the
/// commands that do so are not kept: the result is the words of the
/// aggregate copied into `dest`, then the element written at its word. A
/// four-byte element replaces the word; a one-byte first field replaces
/// the lowest byte; a one-byte last field is added to the word after the
/// word is truncated to no bytes.
pub open spec fn insert_value_v(
    aggregate: Operand,
    element: Operand,
    index: u32,
    dest: LocalNameV,
    g: Seq<(LocalName, u32)>,
    tys: Types,
    n: nat,
) -> (Seq<CommandV>, nat) {
    let ty = operand_type(aggregate).unwrap();
    let a = eval_operand_v(aggregate, g, tys, n);
    let el = eval_operand_v(element, g, tys, a.2);
    let offset = field_place(ty, index, tys).1;
    let d = local_words(dest, type_layout_spec(ty, tys).unwrap().size as nat);
    let ii = (offset / 4) as int;
    let copy = Seq::new(d.len(), |i: int| assign_v(d[i], a.1[i]));
    let esize = type_layout_spec(operand_type(element).unwrap(), tys).unwrap().size;
    if esize == 4 {
        (copy.push(assign_v(d[ii], el.1[0])), el.2)
    } else if index == 0 {
        (
            copy + seq![byte_mark_v(d[ii])] + zero_low_bytes_v(d[ii], 1) + seq![
                op_v(d[ii], ScoreOpKind::AddAssign, el.1[0]),
            ],
            el.2,
        )
    } else {
        (
            copy + seq![byte_mark_v(d[ii])] + truncate_to_v(d[ii], 0, temp_name(el.2)) + seq![
                comment_v(numbered_text("shift_left_bytes by "@, 0, " bytes"@)),
            ] + times_256_v(el.1[0], 0) + seq![op_v(d[ii], ScoreOpKind::AddAssign, el.1[0])],
            el.2 + 1,
        )
    }
}

/// Whether `dest = insertvalue aggregate, element, indices` can be
/// compiled: one index into a structure with a layout, a field at a word
/// offset, the result as long as the aggregate in words, and an element of
/// four bytes, or of one byte in the first or last field.
pub open spec fn insert_value_ok(
    aggregate: Operand,
    element: Operand,
    indices: Seq<u32>,
    g: Seq<(LocalName, u32)>,
    tys: Types,
    n: nat,
) -> bool {
    let ty = operand_type(aggregate).unwrap();
    let a = eval_operand_v(aggregate, g, tys, n);
    let el = eval_operand_v(element, g, tys, a.2);
    let index = indices[0];
    let offset = field_place(ty, index, tys).1;
    let dl = word_count(type_layout_spec(ty, tys).unwrap().size as nat);
    let esize = type_layout_spec(operand_type(element).unwrap(), tys).unwrap().size;
    &&& operand_type(aggregate) matches Some(IrType::Struct { .. })
    &&& layout_fits(ty, tys.named@, tys.named@.len())
    &&& indices.len() == 1
    &&& eval_operand_ok(aggregate, g, tys, n)
    &&& eval_operand_ok(element, g, tys, a.2)
    &&& el.1.len() >= 1
    &&& offset_of_ok(ty->Struct_element_types, ty->Struct_is_packed, index as nat, tys.named@)
    &&& offset % 4 == 0
    &&& dl == a.1.len()
    &&& operand_type(element) matches Some(et) && layout_fits(et, tys.named@, tys.named@.len())
    &&& esize == 4 || esize == 1
    &&& offset / 4 < dl
    &&& esize == 1 && index != 0 ==> {
        &&& index < u32::MAX
        &&& (index + 1) as u32 == fields_of(ty).len() as u32
        &&& el.2 < u32::MAX
    }
}

fn add_holder(x: ScoreHolder, y: ScoreHolder) -> (r: Command)
    ensures
        r@ == op_v(x@, ScoreOpKind::AddAssign, y@),
{
    proof {
        crate::registers::lemma_op_symbols();
    }
    make_op(x, "+=", y)
}

/// Compiles `dest = insertvalue aggregate, element, indices`.
#[verifier::rlimit(40)]
pub fn compile_insert_value(
    aggregate: &Operand,
    element: &Operand,
    indices: &Vec<u32>,
    dest: LocalName,
    globals: &GlobalTable,
    tys: &Types,
    counter: &mut TempCounter,
) -> (r: Vec<Command>)
    requires
        insert_value_ok(*aggregate, *element, indices@, globals.addrs@, *tys, old(counter).next as nat),
    ensures
        (commands_view(r@), final(counter).next as nat) == insert_value_v(
            *aggregate,
            *element,
            indices@[0],
            dest@,
            globals.addrs@,
            *tys,
            old(counter).next as nat,
        ),
{
    let ghost dv = dest@;
    let aggr_ty = match type_of(aggregate) {
        Some(t) => t,
        None => {
            return Vec::new();
        },
    };
    let aggr_size = type_layout(aggr_ty, tys).size;
    let index = indices[0];
    let (element_types, is_packed) = match aggr_ty {
        IrType::Struct { element_types, is_packed } => (element_types, *is_packed),
        _ => {
            return Vec::new();
        },
    };
    let (_unused_cmds, aggr) = eval_operand(aggregate, globals, tys, counter);
    let (_unused_tmp, elem) = eval_operand(element, globals, tys, counter);
    let ghost va = aggr@.map_values(|x: ScoreHolder| x@);
    let ghost ve = elem@.map_values(|x: ScoreHolder| x@);
    let elem0 = elem[0].clone();
    let offset = offset_of(element_types, is_packed, index, tys);
    let d = ScoreHolder::from_local_name(dest, aggr_size);
    let ghost vd = d@.map_values(|x: ScoreHolder| x@);
    assert(vd =~= local_words(dv, aggr_size as nat));
    let insert_idx = offset / 4;
    let mut cmds: Vec<Command> = Vec::new();
    let mut i: usize = 0;
    while i < d.len()
        invariant
            i <= d@.len(),
            d@.len() == aggr@.len(),
            vd == d@.map_values(|x: ScoreHolder| x@),
            va == aggr@.map_values(|x: ScoreHolder| x@),
            commands_view(cmds@) == Seq::new(i as nat, |k: int| assign_v(vd[k], va[k])),
        decreases d@.len() - i,
    {
        let c = assign(d[i].clone(), aggr[i].clone());
        assert(c@ == assign_v(vd[i as int], va[i as int]));
        push1(&mut cmds, c);
        assert(Seq::new((i + 1) as nat, |k: int| assign_v(vd[k], va[k])) =~= Seq::new(
            i as nat,
            |k: int| assign_v(vd[k], va[k]),
        ).push(c@));
        i = i + 1;
    }
    let ghost copy = commands_view(cmds@);
    let et = match type_of(element) {
        Some(t) => t,
        None => {
            return cmds;
        },
    };
    let esize = type_layout(et, tys).size;
    let slot = d[insert_idx].clone();
    if esize == 4 {
        push1(&mut cmds, assign(slot, elem0));
    } else {
        push1(&mut cmds, mark_assertion_matches(true, slot.clone(), McRange::Between(0, 255)));
        if index == 0 {
            append_all(&mut cmds, zero_low_bytes(slot.clone(), 1));
            push1(&mut cmds, add_holder(slot, elem0));
        } else {
            append_all(&mut cmds, truncate_to(slot.clone(), 0, counter));
            append_all(&mut cmds, shift_left_bytes(elem0.clone(), 0));
            push1(&mut cmds, add_holder(slot, elem0));
        }
    }
    assert(commands_view(cmds@) =~= insert_value_v(
        *aggregate,
        *element,
        index,
        dv,
        globals.addrs@,
        *tys,
        old(counter).next as nat,
    ).0);
    cmds
}

// ----------------------------------------------------------------------
// Vector elements
// ----------------------------------------------------------------------

/// The element type of a vector type.
pub open spec fn element_of(ty: IrType) -> IrType {
    *ty->Vector_element_type
}

/// The constant that an index operand evaluates to.
pub open spec fn const_index(ix: MaybeConstV) -> i32 {
    ix->Const_0
}

/// The commands of `dest = extractelement vector, index` and the counter
/// after, for a constant index `c`: an element of 32 bits is the word
/// `c`; a one-bit element is the byte `c % 4` of the word `c / 4`; an
/// element of 64 bits gives its low word `2 * c` only.
pub open spec fn extract_element_v(
    vector: Operand,
    index: Operand,
    dest: LocalNameV,
    g: Seq<(LocalName, u32)>,
    tys: Types,
    n: nat,
) -> (Seq<CommandV>, nat) {
    let ety = element_of(operand_type(vector).unwrap());
    let d = local_words(dest, type_layout_spec(ety, tys).unwrap().size as nat);
    let e = eval_operand_v(vector, g, tys, n);
    let ix = eval_operand_spec(index, g, tys, e.2);
    let c = const_index(ix.0) as int;
    if ety == (IrType::Integer { bits: 32 }) {
        (e.0.push(assign_v(d[0], e.1[c])), ix.1)
    } else if ety == (IrType::Integer { bits: 1 }) {
        (
            e.0 + seq![
                assign_v(d[0], e.1[c / 4]),
                op_v(d[0], ScoreOpKind::DivAssign, const_holder_name(1i32 << ((8 * (c % 4)) as u32))),
            ],
            ix.1,
        )
    } else {
        (e.0.push(assign_v(d[0], e.1[2 * c])), ix.1)
    }
}

/// Whether `dest = extractelement vector, index` can be compiled: a
/// vector of 1-, 32- or 64-bit integers, a constant index that is not
/// negative, and the word it reads.
pub open spec fn extract_element_ok(
    vector: Operand,
    index: Operand,
    g: Seq<(LocalName, u32)>,
    tys: Types,
    n: nat,
) -> bool {
    let ety = element_of(operand_type(vector).unwrap());
    let e = eval_operand_v(vector, g, tys, n);
    let ix = eval_operand_spec(index, g, tys, e.2);
    let c = const_index(ix.0) as int;
    &&& operand_type(vector) matches Some(IrType::Vector { .. })
    &&& layout_fits(ety, tys.named@, tys.named@.len())
    &&& eval_operand_ok(vector, g, tys, n)
    &&& operand_ok(index, g, tys, e.2)
    &&& ix.0 is Const
    &&& c >= 0
    &&& ety == (IrType::Integer { bits: 32 }) ==> c < e.1.len()
    &&& ety == (IrType::Integer { bits: 1 }) ==> c / 4 < e.1.len()
    &&& ety == (IrType::Integer { bits: 64 }) ==> 2 * c < e.1.len()
    &&& ety == (IrType::Integer { bits: 32 }) || ety == (IrType::Integer { bits: 1 }) || ety == (
    IrType::Integer { bits: 64 })
}

/// Compiles `dest = extractelement vector, index`.
pub fn compile_extract_element(
    vector: &Operand,
    index: &Operand,
    dest: LocalName,
    globals: &GlobalTable,
    tys: &Types,
    counter: &mut TempCounter,
) -> (r: Vec<Command>)
    requires
        extract_element_ok(*vector, *index, globals.addrs@, *tys, old(counter).next as nat),
    ensures
        (commands_view(r@), final(counter).next as nat) == extract_element_v(
            *vector,
            *index,
            dest@,
            globals.addrs@,
            *tys,
            old(counter).next as nat,
        ),
{
    let element_type = match type_of(vector) {
        Some(IrType::Vector { element_type, .. }) => &**element_type,
        _ => {
            return Vec::new();
        },
    };
    let d = ScoreHolder::from_local_name(dest, type_layout(element_type, tys).size);
    let (mut cmds, vec) = eval_operand(vector, globals, tys, counter);
    let ghost head = commands_view(cmds@);
    let c = match eval_maybe_const(index, globals, tys, counter) {
        MaybeConst::Const(c) => c as usize,
        MaybeConst::NonConst(_, _) => {
            return cmds;
        },
    };
    if is_int_type(element_type, 32) {
        push1(&mut cmds, assign(d[0].clone(), vec[c].clone()));
    } else if is_int_type(element_type, 1) {
        let c0 = assign(d[0].clone(), vec[c / 4].clone());
        proof {
            crate::registers::lemma_op_symbols();
        }
        let shift: u32 = 8 * ((c % 4) as u32);
        let c1 = make_op_lit(d[0].clone(), "/=", 1i32 << shift);
        push1(&mut cmds, c0);
        push1(&mut cmds, c1);
        assert(commands_view(cmds@) =~= head + seq![c0@, c1@]);
    } else {
        push1(&mut cmds, assign(d[0].clone(), vec[c * 2].clone()));
    }
    cmds
}

/// The commands of `dest = insertelement vector, element, index` and the
/// counter after, for a constant index `c`: the words of the vector are
/// copied into `dest`, except that a one-word element replaces word `c`,
/// and a two-word element puts its low word into both words `2 * c` and
/// `2 * c + 1`; an element of other sizes gives no copies.
pub open spec fn insert_element_v(
    vector: Operand,
    element: Operand,
    index: Operand,
    dest: LocalNameV,
    g: Seq<(LocalName, u32)>,
    tys: Types,
    n: nat,
) -> (Seq<CommandV>, nat) {
    let d = local_words(dest, type_layout_spec(operand_type(vector).unwrap(), tys).unwrap().size as nat);
    let v = eval_operand_v(vector, g, tys, n);
    let el = eval_operand_v(element, g, tys, v.2);
    let ix = eval_operand_spec(index, g, tys, el.2);
    let c = const_index(ix.0);
    let k = if v.1.len() <= d.len() {
        v.1.len()
    } else {
        d.len()
    };
    let body = if el.1.len() == 1 {
        Seq::new(
            k,
            |i: int|
                if i == (c as usize) as int {
                    assign_v(d[i], el.1[0])
                } else {
                    assign_v(d[i], v.1[i])
                },
        )
    } else if el.1.len() == 2 {
        Seq::new(
            k,
            |i: int|
                if i == ((c * 2) as usize) as int || i == ((c * 2 + 1) as usize) as int {
                    assign_v(d[i], el.1[0])
                } else {
                    assign_v(d[i], v.1[i])
                },
        )
    } else {
        Seq::empty()
    };
    (v.0 + el.0 + body, ix.1)
}

/// Whether `dest = insertelement vector, element, index` can be compiled:
/// a vector with a layout, operands that evaluate, and a constant index
/// whose doubled successor fits in 32 bits when the element has two words.
pub open spec fn insert_element_ok(
    vector: Operand,
    element: Operand,
    index: Operand,
    g: Seq<(LocalName, u32)>,
    tys: Types,
    n: nat,
) -> bool {
    let v = eval_operand_v(vector, g, tys, n);
    let el = eval_operand_v(element, g, tys, v.2);
    let ix = eval_operand_spec(index, g, tys, el.2);
    let c = const_index(ix.0);
    &&& operand_type(vector) matches Some(t) && t is Vector && layout_fits(
        t,
        tys.named@,
        tys.named@.len(),
    )
    &&& eval_operand_ok(vector, g, tys, n)
    &&& eval_operand_ok(element, g, tys, v.2)
    &&& operand_ok(index, g, tys, el.2)
    &&& ix.0 is Const
    &&& el.1.len() == 2 ==> i32::MIN <= c * 2 && c * 2 + 1 <= i32::MAX
}

/// Compiles `dest = insertelement vector, element, index`.
#[verifier::rlimit(40)]
pub fn compile_insert_element(
    vector: &Operand,
    element: &Operand,
    index: &Operand,
    dest: LocalName,
    globals: &GlobalTable,
    tys: &Types,
    counter: &mut TempCounter,
) -> (r: Vec<Command>)
    requires
        insert_element_ok(*vector, *element, *index, globals.addrs@, *tys, old(counter).next as nat),
    ensures
        (commands_view(r@), final(counter).next as nat) == insert_element_v(
            *vector,
            *element,
            *index,
            dest@,
            globals.addrs@,
            *tys,
            old(counter).next as nat,
        ),
{
    let ghost dv = dest@;
    let vty = match type_of(vector) {
        Some(t) => t,
        None => {
            return Vec::new();
        },
    };
    let d = ScoreHolder::from_local_name(dest, type_layout(vty, tys).size);
    let ghost vd = d@.map_values(|x: ScoreHolder| x@);
    let (mut cmds, vec) = eval_operand(vector, globals, tys, counter);
    let (mut tmp, elem) = eval_operand(element, globals, tys, counter);
    let ghost a = commands_view(cmds@);
    let ghost b = commands_view(tmp@);
    cmds.append(&mut tmp);
    let ghost head = commands_view(cmds@);
    assert(head =~= a + b);
    let ghost vv = vec@.map_values(|x: ScoreHolder| x@);
    let ghost ve = elem@.map_values(|x: ScoreHolder| x@);
    let c = match eval_maybe_const(index, globals, tys, counter) {
        MaybeConst::Const(c) => c,
        MaybeConst::NonConst(_, _) => {
            return cmds;
        },
    };
    let k = if vec.len() <= d.len() {
        vec.len()
    } else {
        d.len()
    };
    if elem.len() == 1 || elem.len() == 2 {
        let one = elem.len() == 1;
        let first: usize = if one {
            c as usize
        } else {
            (c * 2) as usize
        };
        let second: usize = if one {
            c as usize
        } else {
            (c * 2 + 1) as usize
        };
        let ghost f = |i: int|
            if i == first as int || i == second as int {
                assign_v(vd[i], ve[0])
            } else {
                assign_v(vd[i], vv[i])
            };
        let mut i: usize = 0;
        while i < k
            invariant
                i <= k,
                k <= vec@.len(),
                k <= d@.len(),
                elem@.len() >= 1,
                vd == d@.map_values(|x: ScoreHolder| x@),
                vv == vec@.map_values(|x: ScoreHolder| x@),
                ve == elem@.map_values(|x: ScoreHolder| x@),
                f == (|i: int|
                    if i == first as int || i == second as int {
                        assign_v(vd[i], ve[0])
                    } else {
                        assign_v(vd[i], vv[i])
                    }),
                commands_view(cmds@) == head + Seq::new(i as nat, f),
            decreases k - i,
        {
            let cmd = if i == first || i == second {
                assign(d[i].clone(), elem[0].clone())
            } else {
                assign(d[i].clone(), vec[i].clone())
            };
            assert(cmd@ == f(i as int));
            push1(&mut cmds, cmd);
            assert(Seq::new((i + 1) as nat, f) =~= Seq::new(i as nat, f).push(cmd@));
            i = i + 1;
        }
        assert(commands_view(cmds@) =~= insert_element_v(
            *vector,
            *element,
            *index,
            dv,
            globals.addrs@,
            *tys,
            old(counter).next as nat,
        ).0);
    } else {
        assert(commands_view(cmds@) =~= head + Seq::<CommandV>::empty());
    }
    cmds
}

} // verus!
