//! The vector shuffle instruction: each element of the result is chosen
//! by a constant mask from the elements of two vectors.
use vstd::prelude::*;
use crate::cir::{Command, CommandV, ScoreHolder, ScoreOpKind, commands_view};
use crate::constants::{Constant, GlobalTable};
use crate::layout::{IrType, Types, layout_fits, type_layout, type_layout_spec};
use crate::locals::{LocalName, LocalNameV};
use crate::memory::{TempCounter, get_unique_holder, temp_name};
use crate::operands::{Operand, local_words, operand_type, type_of};
use crate::ops::{eval_operands, operands_ok, operands_v};
use crate::registers::{assign, assign_v, const_holder_name, make_op, make_op_lit, op_v};

verus! {

/// The number of elements of a shuffle mask.
pub open spec fn mask_len(mask: Constant) -> nat {
    match mask {
        Constant::AggregateZero(t) => t->Vector_num_elements as nat,
        Constant::Vector(v) => v@.len(),
        _ => 0,
    }
}

/// Element `k` of a shuffle mask: a zero mask is all zeros.
pub open spec fn mask_elem(mask: Constant, k: int) -> Constant {
    match mask {
        Constant::AggregateZero(_) => Constant::Int { bits: 32, value: 0 },
        Constant::Vector(v) => v@[k],
        _ => Constant::Null,
    }
}

/// Whether mask element `k` is undefined, or an integer of `bits` bits
/// (of any width when `bits` is 0).
pub open spec fn mask_elem_ok(mask: Constant, k: int, bits: u32) -> bool {
    match mask_elem(mask, k) {
        Constant::Undef(_) => true,
        Constant::Int { bits: b, .. } => bits == 0 || b == bits,
        _ => false,
    }
}

/// The word that index `v` picks: of the first vector when `v` is at
/// most `len0`, otherwise of the second, counted from `len0`.
pub open spec fn pick(s0: Seq<Seq<char>>, s1: Seq<Seq<char>>, len0: nat, v: int) -> Seq<char> {
    if v > len0 {
        s1[v - len0]
    } else {
        s0[v]
    }
}

/// Whether index `v` picks an existing word.
pub open spec fn pick_ok(s0: Seq<Seq<char>>, s1: Seq<Seq<char>>, len0: nat, v: int) -> bool {
    if v > len0 {
        v - len0 < s1.len()
    } else {
        v < s0.len()
    }
}

/// The commands for the first `k` elements of a shuffle of 32-bit
/// integers: each defined element copies the word it picks.
pub open spec fn shuffle_words_v(
    mask: Constant,
    s0: Seq<Seq<char>>,
    s1: Seq<Seq<char>>,
    d: Seq<Seq<char>>,
    len0: nat,
    k: nat,
) -> Seq<CommandV>
    decreases k,
{
    if k == 0 {
        Seq::empty()
    } else {
        let i = k - 1;
        shuffle_words_v(mask, s0, s1, d, len0, (k - 1) as nat) + match mask_elem(mask, i) {
            Constant::Int { value, .. } => seq![assign_v(d[i], pick(s0, s1, len0, (value as usize) as int))],
            _ => Seq::empty(),
        }
    }
}

/// The commands for the first `k` elements of a shuffle of 64-bit
/// integers: each defined element copies the two words from twice its
/// index.
pub open spec fn shuffle_pairs_v(
    mask: Constant,
    s0: Seq<Seq<char>>,
    s1: Seq<Seq<char>>,
    d: Seq<Seq<char>>,
    len0: nat,
    k: nat,
) -> Seq<CommandV>
    decreases k,
{
    if k == 0 {
        Seq::empty()
    } else {
        let i = k - 1;
        shuffle_pairs_v(mask, s0, s1, d, len0, (k - 1) as nat) + match mask_elem(mask, i) {
            Constant::Int { value, .. } => {
                let v2 = 2 * ((value as usize) as int);
                if v2 > len0 {
                    seq![
                        assign_v(d[2 * i], s1[v2 - len0]),
                        assign_v(d[2 * i + 1], s1[v2 + 1 - len0]),
                    ]
                } else {
                    seq![assign_v(d[2 * i], s0[v2]), assign_v(d[2 * i + 1], s0[v2 + 1])]
                }
            },
            _ => Seq::empty(),
        }
    }
}

/// Whether the doubled index `v2` picks two existing words.
pub open spec fn pair_ok(s0: Seq<Seq<char>>, s1: Seq<Seq<char>>, len0: nat, v2: int) -> bool {
    if v2 > len0 {
        v2 + 1 - len0 < s1.len()
    } else {
        v2 + 1 < s0.len()
    }
}

/// The word and the byte that index `v` picks among vectors of one-bit
/// values packed four to a word.
pub open spec fn pick_bit(s0: Seq<Seq<char>>, s1: Seq<Seq<char>>, len0: nat, v: int) -> (Seq<char>, int) {
    if v > len0 {
        (s1[(v - len0) / 4], (v - len0) % 4)
    } else {
        (s0[v / 4], v % 4)
    }
}

/// Whether index `v` picks an existing word of packed one-bit values.
pub open spec fn pick_bit_ok(s0: Seq<Seq<char>>, s1: Seq<Seq<char>>, len0: nat, v: int) -> bool {
    if v > len0 {
        (v - len0) / 4 < s1.len()
    } else {
        v / 4 < s0.len()
    }
}

/// The commands that move the picked value of element `i` into its byte
/// of the result through `db`.
pub open spec fn shuffle_bit_cmds(src: Seq<char>, bi: int, db: Seq<char>, d: Seq<Seq<char>>, i: int) -> Seq<
    CommandV,
> {
    seq![
        assign_v(db, src),
        op_v(db, ScoreOpKind::DivAssign, const_holder_name(bi as i32)),
        op_v(db, ScoreOpKind::ModAssign, const_holder_name(256)),
        op_v(db, ScoreOpKind::MulAssign, const_holder_name(1i32 << ((8 * (i % 4)) as u32))),
        op_v(d[i / 4], ScoreOpKind::AddAssign, db),
    ]
}

/// The commands for the first `k` elements of a shuffle of one-bit
/// values, packed four to a word: each defined element divides the word
/// it picks by its byte position, keeps the low byte, and adds it at the
/// element's byte of the result.
pub open spec fn shuffle_bits_v(
    mask: Constant,
    s0: Seq<Seq<char>>,
    s1: Seq<Seq<char>>,
    d: Seq<Seq<char>>,
    db: Seq<char>,
    len0: nat,
    k: nat,
) -> Seq<CommandV>
    decreases k,
{
    if k == 0 {
        Seq::empty()
    } else {
        let i = k - 1;
        shuffle_bits_v(mask, s0, s1, d, db, len0, (k - 1) as nat) + match mask_elem(mask, i) {
            Constant::Int { value, .. } => {
                let (src, bi) = pick_bit(s0, s1, len0, (value as usize) as int);
                shuffle_bit_cmds(src, bi, db, d, i)
            },
            _ => Seq::empty(),
        }
    }
}

/// Whether the first `count` mask elements of a shuffle of 32-bit
/// integers are undefined or 32-bit integers that pick existing words.
pub open spec fn words_mask_ok(mask: Constant, s0: Seq<Seq<char>>, s1: Seq<Seq<char>>, len0: nat, count: nat) -> bool {
    forall|k: int|
        0 <= k < count ==> #[trigger] mask_elem_ok(mask, k, 32) && (mask_elem(mask, k) matches Constant::Int {
            value,
            ..
        } ==> pick_ok(s0, s1, len0, (value as usize) as int))
}

/// Whether the mask elements of a shuffle of 64-bit integers are
/// undefined or integers whose doubled index and its successor fit and
/// pick existing words, with the result words they are copied into.
pub open spec fn pairs_mask_ok(mask: Constant, s0: Seq<Seq<char>>, s1: Seq<Seq<char>>, dl: nat, len0: nat) -> bool {
    forall|k: int|
        0 <= k < len0 ==> #[trigger] mask_elem_ok(mask, k, 0) && (mask_elem(mask, k) matches Constant::Int {
            value,
            ..
        } ==> {
            &&& 2 * (value as usize) + 1 <= usize::MAX
            &&& pair_ok(s0, s1, len0, 2 * ((value as usize) as int))
            &&& 2 * k + 1 < dl
        })
}

/// Whether the mask elements of a shuffle of one-bit values are undefined
/// or 32-bit integers that pick existing words, with the result word each
/// is added into.
pub open spec fn bits_mask_ok(mask: Constant, s0: Seq<Seq<char>>, s1: Seq<Seq<char>>, dl: nat, len0: nat) -> bool {
    forall|k: int|
        0 <= k < len0 ==> #[trigger] mask_elem_ok(mask, k, 32) && (mask_elem(mask, k) matches Constant::Int {
            value,
            ..
        } ==> pick_bit_ok(s0, s1, len0, (value as usize) as int) && k / 4 < dl)
}

/// The type of the result: a vector of the mask's length.
pub open spec fn shuffle_result_type(et: IrType, mask: Constant) -> IrType {
    IrType::Vector { element_type: Box::new(et), num_elements: mask_len(mask) as usize }
}

/// The commands of `dest = shufflevector op0, op1, mask` and the counter
/// after. Both operands are brought into holders; the elements of 32-bit
/// integers, 64-bit integers and one-bit values are then picked by the
/// mask, whose own length stands for the length of the first vector;
/// other element types give no further commands.
pub open spec fn shuffle_v(
    op0: Operand,
    op1: Operand,
    mask: Constant,
    dest: LocalNameV,
    g: Seq<(LocalName, u32)>,
    tys: Types,
    n: nat,
) -> (Seq<CommandV>, nat) {
    let o = operands_v(op0, op1, g, tys, n);
    let et = *operand_type(op0).unwrap()->Vector_element_type;
    let len = mask_len(mask);
    let d = local_words(dest, type_layout_spec(shuffle_result_type(et, mask), tys).unwrap().size as nat);
    if et == (IrType::Integer { bits: 32 }) {
        let count = if d.len() <= len {
            d.len()
        } else {
            len
        };
        (o.0 + shuffle_words_v(mask, o.1, o.2, d, len, count), o.3)
    } else if et == (IrType::Integer { bits: 64 }) {
        (o.0 + shuffle_pairs_v(mask, o.1, o.2, d, len, len), o.3)
    } else if et == (IrType::Integer { bits: 1 }) {
        (o.0 + shuffle_bits_v(mask, o.1, o.2, d, temp_name(o.3), len, len), o.3 + 1)
    } else {
        (o.0, o.3)
    }
}

/// Whether `dest = shufflevector op0, op1, mask` can be compiled: the
/// operands evaluate, the first is a vector, the mask is a zero vector or
/// a vector of constants, and for the element types that are shuffled the
/// result has a layout, each mask element is undefined or an integer, and
/// each picks existing words.
pub open spec fn shuffle_ok(
    op0: Operand,
    op1: Operand,
    mask: Constant,
    g: Seq<(LocalName, u32)>,
    tys: Types,
    n: nat,
) -> bool {
    let o = operands_v(op0, op1, g, tys, n);
    let et = *operand_type(op0).unwrap()->Vector_element_type;
    let len = mask_len(mask);
    let rt = shuffle_result_type(et, mask);
    let dl = crate::locals::word_count(type_layout_spec(rt, tys).unwrap().size as nat);
    let shuffled = et == (IrType::Integer { bits: 32 }) || et == (IrType::Integer { bits: 64 }) || et == (
    IrType::Integer { bits: 1 });
    &&& operands_ok(op0, op1, g, tys, n)
    &&& operand_type(op0) matches Some(IrType::Vector { .. })
    &&& mask matches Constant::AggregateZero(t) ==> t is Vector
    &&& mask is AggregateZero || mask is Vector
    &&& len <= usize::MAX
    &&& shuffled ==> layout_fits(rt, tys.named@, tys.named@.len())
    &&& et == (IrType::Integer { bits: 32 }) ==> words_mask_ok(
        mask,
        o.1,
        o.2,
        len,
        if dl <= len {
            dl
        } else {
            len
        },
    )
    &&& et == (IrType::Integer { bits: 64 }) ==> pairs_mask_ok(mask, o.1, o.2, dl, len)
    &&& et == (IrType::Integer { bits: 1 }) ==> {
        &&& o.3 < u32::MAX
        &&& bits_mask_ok(mask, o.1, o.2, dl, len)
    }
}

/// What a mask element is.
enum MaskEntry {
    Undef,
    Int(u32, u64),
    Other,
}

fn mask_entry(mask: &Constant, k: usize) -> (r: MaskEntry)
    requires
        k < mask_len(*mask),
    ensures
        match r {
            MaskEntry::Undef => mask_elem(*mask, k as int) is Undef,
            MaskEntry::Int(b, v) => mask_elem(*mask, k as int) == (Constant::Int { bits: b, value: v }),
            MaskEntry::Other => !(mask_elem(*mask, k as int) is Undef) && !(mask_elem(
                *mask,
                k as int,
            ) is Int),
        },
{
    match mask {
        Constant::AggregateZero(_) => MaskEntry::Int(32, 0),
        Constant::Vector(v) => match &v[k] {
            Constant::Undef(_) => MaskEntry::Undef,
            Constant::Int { bits, value } => MaskEntry::Int(*bits, *value),
            _ => MaskEntry::Other,
        },
        _ => MaskEntry::Other,
    }
}

fn mask_length(mask: &Constant) -> (r: usize)
    requires
        mask is AggregateZero || mask is Vector,
        mask matches Constant::AggregateZero(t) ==> t is Vector,
    ensures
        r == mask_len(*mask),
{
    match mask {
        Constant::AggregateZero(t) => match t {
            IrType::Vector { num_elements, .. } => *num_elements,
            _ => 0,
        },
        Constant::Vector(v) => v.len(),
        _ => 0,
    }
}

fn push1(cmds: &mut Vec<Command>, c: Command)
    ensures
        commands_view(final(cmds)@) == commands_view(old(cmds)@).push(c@),
{
    cmds.push(c);
    assert(commands_view(cmds@) =~= commands_view(old(cmds)@).push(c@));
}

/// Shuffles 32-bit integers.
fn shuffle_words(
    cmds: &mut Vec<Command>,
    mask: &Constant,
    op0: &Vec<ScoreHolder>,
    op1: &Vec<ScoreHolder>,
    d: &Vec<ScoreHolder>,
    len0: usize,
    count: usize,
)
    requires
        len0 == mask_len(*mask),
        count <= len0,
        count <= d@.len(),
        words_mask_ok(
            *mask,
            op0@.map_values(|x: ScoreHolder| x@),
            op1@.map_values(|x: ScoreHolder| x@),
            len0 as nat,
            count as nat,
        ),
    ensures
        commands_view(final(cmds)@) == commands_view(old(cmds)@) + shuffle_words_v(
            *mask,
            op0@.map_values(|x: ScoreHolder| x@),
            op1@.map_values(|x: ScoreHolder| x@),
            d@.map_values(|x: ScoreHolder| x@),
            len0 as nat,
            count as nat,
        ),
{
    let ghost start = commands_view(cmds@);
    let ghost v0 = op0@.map_values(|x: ScoreHolder| x@);
    let ghost v1 = op1@.map_values(|x: ScoreHolder| x@);
    let ghost vd = d@.map_values(|x: ScoreHolder| x@);
    let mut i: usize = 0;
    while i < count
        invariant
            i <= count <= len0,
            len0 == mask_len(*mask),
            count <= d@.len(),
            v0 == op0@.map_values(|x: ScoreHolder| x@),
            v1 == op1@.map_values(|x: ScoreHolder| x@),
            vd == d@.map_values(|x: ScoreHolder| x@),
            words_mask_ok(*mask, v0, v1, len0 as nat, count as nat),
            commands_view(cmds@) == start + shuffle_words_v(*mask, v0, v1, vd, len0 as nat, i as nat),
        decreases count - i,
    {
        assert(mask_elem_ok(*mask, i as int, 32));
        match mask_entry(mask, i) {
            MaskEntry::Int(_, value) => {
                let v = value as usize;
                let src = if v > len0 {
                    op1[v - len0].clone()
                } else {
                    op0[v].clone()
                };
                let c = assign(d[i].clone(), src);
                assert(c@ == assign_v(vd[i as int], pick(v0, v1, len0 as nat, v as int)));
                push1(cmds, c);
            },
            _ => {},
        }
        assert(commands_view(cmds@) =~= start + shuffle_words_v(
            *mask,
            v0,
            v1,
            vd,
            len0 as nat,
            (i + 1) as nat,
        ));
        i = i + 1;
    }
}

/// Shuffles 64-bit integers.
fn shuffle_pairs(
    cmds: &mut Vec<Command>,
    mask: &Constant,
    op0: &Vec<ScoreHolder>,
    op1: &Vec<ScoreHolder>,
    d: &Vec<ScoreHolder>,
    len0: usize,
)
    requires
        len0 == mask_len(*mask),
        pairs_mask_ok(
            *mask,
            op0@.map_values(|x: ScoreHolder| x@),
            op1@.map_values(|x: ScoreHolder| x@),
            d@.len(),
            len0 as nat,
        ),
    ensures
        commands_view(final(cmds)@) == commands_view(old(cmds)@) + shuffle_pairs_v(
            *mask,
            op0@.map_values(|x: ScoreHolder| x@),
            op1@.map_values(|x: ScoreHolder| x@),
            d@.map_values(|x: ScoreHolder| x@),
            len0 as nat,
            len0 as nat,
        ),
{
    let ghost start = commands_view(cmds@);
    let ghost v0 = op0@.map_values(|x: ScoreHolder| x@);
    let ghost v1 = op1@.map_values(|x: ScoreHolder| x@);
    let ghost vd = d@.map_values(|x: ScoreHolder| x@);
    let mut i: usize = 0;
    while i < len0
        invariant
            i <= len0,
            len0 == mask_len(*mask),
            v0 == op0@.map_values(|x: ScoreHolder| x@),
            v1 == op1@.map_values(|x: ScoreHolder| x@),
            vd == d@.map_values(|x: ScoreHolder| x@),
            pairs_mask_ok(*mask, v0, v1, d@.len(), len0 as nat),
            commands_view(cmds@) == start + shuffle_pairs_v(*mask, v0, v1, vd, len0 as nat, i as nat),
        decreases len0 - i,
    {
        assert(mask_elem_ok(*mask, i as int, 0));
        match mask_entry(mask, i) {
            MaskEntry::Int(_, value) => {
                let v2 = 2 * (value as usize);
                assert(v2 + 1 <= usize::MAX);
                let (src0, src1) = if v2 > len0 {
                    (op1[v2 - len0].clone(), op1[v2 + 1 - len0].clone())
                } else {
                    (op0[v2].clone(), op0[v2 + 1].clone())
                };
                let dlen = d.len();
                assert(2 * i + 1 < dlen);
                let c0 = assign(d[2 * i].clone(), src0);
                let c1 = assign(d[2 * i + 1].clone(), src1);
                let ghost before = commands_view(cmds@);
                push1(cmds, c0);
                push1(cmds, c1);
                assert(commands_view(cmds@) =~= before + seq![c0@, c1@]);
            },
            _ => {},
        }
        assert(commands_view(cmds@) =~= start + shuffle_pairs_v(
            *mask,
            v0,
            v1,
            vd,
            len0 as nat,
            (i + 1) as nat,
        ));
        i = i + 1;
    }
}

/// Shuffles one-bit values packed four to a word, through `db`.
fn shuffle_bits(
    cmds: &mut Vec<Command>,
    mask: &Constant,
    op0: &Vec<ScoreHolder>,
    op1: &Vec<ScoreHolder>,
    d: &Vec<ScoreHolder>,
    db: ScoreHolder,
    len0: usize,
)
    requires
        len0 == mask_len(*mask),
        bits_mask_ok(
            *mask,
            op0@.map_values(|x: ScoreHolder| x@),
            op1@.map_values(|x: ScoreHolder| x@),
            d@.len(),
            len0 as nat,
        ),
    ensures
        commands_view(final(cmds)@) == commands_view(old(cmds)@) + shuffle_bits_v(
            *mask,
            op0@.map_values(|x: ScoreHolder| x@),
            op1@.map_values(|x: ScoreHolder| x@),
            d@.map_values(|x: ScoreHolder| x@),
            db@,
            len0 as nat,
            len0 as nat,
        ),
{
    proof {
        crate::registers::lemma_op_symbols();
    }
    let ghost start = commands_view(cmds@);
    let ghost v0 = op0@.map_values(|x: ScoreHolder| x@);
    let ghost v1 = op1@.map_values(|x: ScoreHolder| x@);
    let ghost vd = d@.map_values(|x: ScoreHolder| x@);
    let mut i: usize = 0;
    while i < len0
        invariant
            i <= len0,
            len0 == mask_len(*mask),
            v0 == op0@.map_values(|x: ScoreHolder| x@),
            v1 == op1@.map_values(|x: ScoreHolder| x@),
            vd == d@.map_values(|x: ScoreHolder| x@),
            bits_mask_ok(*mask, v0, v1, d@.len(), len0 as nat),
            commands_view(cmds@) == start + shuffle_bits_v(*mask, v0, v1, vd, db@, len0 as nat, i as nat),
        decreases len0 - i,
    {
        assert(mask_elem_ok(*mask, i as int, 32));
        match mask_entry(mask, i) {
            MaskEntry::Int(_, value) => {
                let v = value as usize;
                let (src, byte_idx) = if v > len0 {
                    let w = v - len0;
                    (op1[w / 4].clone(), w % 4)
                } else {
                    (op0[v / 4].clone(), v % 4)
                };
                proof {
                    crate::registers::lemma_op_symbols();
                }
                let shift: u32 = 8 * ((i % 4) as u32);
                let c0 = assign(db.clone(), src);
                let c1 = make_op_lit(db.clone(), "/=", byte_idx as i32);
                let c2 = make_op_lit(db.clone(), "%=", 256);
                let c3 = make_op_lit(db.clone(), "*=", 1i32 << shift);
                let c4 = make_op(d[i / 4].clone(), "+=", db.clone());
                let ghost before = commands_view(cmds@);
                push1(cmds, c0);
                push1(cmds, c1);
                push1(cmds, c2);
                push1(cmds, c3);
                push1(cmds, c4);
                assert(commands_view(cmds@) =~= before + seq![c0@, c1@, c2@, c3@, c4@]);
            },
            _ => {},
        }
        assert(commands_view(cmds@) =~= start + shuffle_bits_v(
            *mask,
            v0,
            v1,
            vd,
            db@,
            len0 as nat,
            (i + 1) as nat,
        ));
        i = i + 1;
    }
}

/// Compiles `dest = shufflevector operand0, operand1, mask`.
#[verifier::rlimit(40)]
pub fn compile_shuffle_vector(
    operand0: &Operand,
    operand1: &Operand,
    mask: &Constant,
    dest: LocalName,
    globals: &GlobalTable,
    tys: &Types,
    counter: &mut TempCounter,
) -> (r: Vec<Command>)
    requires
        shuffle_ok(*operand0, *operand1, *mask, globals.addrs@, *tys, old(counter).next as nat),
    ensures
        (commands_view(r@), final(counter).next as nat) == shuffle_v(
            *operand0,
            *operand1,
            *mask,
            dest@,
            globals.addrs@,
            *tys,
            old(counter).next as nat,
        ),
{
    let ghost dv = dest@;
    let (mut cmds, op0, op1) = eval_operands(operand0, operand1, globals, tys, counter);
    let ghost head = commands_view(cmds@);
    let bits: u32 = match type_of(operand0) {
        Some(IrType::Vector { element_type, .. }) => match &**element_type {
            IrType::Integer { bits } => *bits,
            _ => {
                return cmds;
            },
        },
        _ => {
            return cmds;
        },
    };
    if bits != 32 && bits != 64 && bits != 1 {
        return cmds;
    }
    let len0 = mask_length(mask);
    let rt = IrType::Vector { element_type: Box::new(IrType::Integer { bits }), num_elements: len0 };
    let d = ScoreHolder::from_local_name(dest, type_layout(&rt, tys).size);
    assert(d@.map_values(|x: ScoreHolder| x@) =~= local_words(
        dv,
        type_layout_spec(rt, *tys).unwrap().size as nat,
    ));
    if bits == 32 {
        let count = if d.len() <= len0 {
            d.len()
        } else {
            len0
        };
        shuffle_words(&mut cmds, mask, &op0, &op1, &d, len0, count);
    } else if bits == 64 {
        shuffle_pairs(&mut cmds, mask, &op0, &op1, &d, len0);
    } else {
        let db = get_unique_holder(counter);
        shuffle_bits(&mut cmds, mask, &op0, &op1, &d, db, len0);
    }
    cmds
}

} // verus!
