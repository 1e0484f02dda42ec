//! Constants of the source program, and how each becomes a score or a
//! sequence of holders set by commands.
use vstd::prelude::*;
use crate::arith::IntPredicate;
use crate::cir::{Command, CommandV, ScoreHolder, commands_view, is_space, valid_holder};
use crate::layout::{
    IrType, LayoutV, TypeLayout, Types, find_named, lay_ok, layout_fits, lemma_layout_ok, named_def,
    offset_of, offset_of_ok, offset_of_spec, round_up, size_limit, type_layout, type_layout_spec,
};
use crate::locals::{LocalName, LocalNameV};
use crate::memory::{
    MaybeConst, MaybeConstV, TempCounter, force_v, get_unique_num, temp_name,
};
use crate::link::FUNC_REF_SUFFIX;
use crate::registers::{assign_lit, set_v};
use crate::text::{lemma_nat_text_digits, nat_text, u64_text};

verus! {

/// A constant of the source program, as far as compiling it into scores
/// needs. Floating-point constants are given by their bit patterns.
#[derive(Debug, PartialEq, Eq)]
pub enum Constant {
    Int { bits: u32, value: u64 },
    Float32(u32),
    Float64(u64),
    Null,
    AggregateZero(IrType),
    Struct { values: Vec<Constant>, is_packed: bool },
    Array { element_type: IrType, elements: Vec<Constant> },
    Vector(Vec<Constant>),
    Undef(IrType),
    GlobalReference { name: LocalName, ty: IrType },
    GetElementPtr { address: Box<Constant>, indices: Vec<Constant>, in_bounds: bool },
    BitCast { operand: Box<Constant>, to_type: IrType },
    PtrToInt { operand: Box<Constant>, to_type: IrType },
    IntToPtr { operand: Box<Constant>, to_type: IrType },
    ICmp { predicate: IntPredicate, operand0: Box<Constant>, operand1: Box<Constant> },
    Select { condition: Box<Constant>, true_value: Box<Constant>, false_value: Box<Constant> },
    /// Any other constant, with its type.
    Other { ty: IrType },
}

// ----------------------------------------------------------------------
// Types of constants
// ----------------------------------------------------------------------

/// The width of an integer type.
pub open spec fn type_int_bits(t: IrType) -> Option<u32> {
    match t {
        IrType::Integer { bits } => Some(bits),
        _ => None,
    }
}

/// Whether the type of a constant is a vector type.
pub open spec fn const_is_vector(c: Constant) -> bool
    decreases c,
{
    match c {
        Constant::Vector(_) => true,
        Constant::AggregateZero(t) => t is Vector,
        Constant::Undef(t) => t is Vector,
        Constant::BitCast { to_type, .. } => to_type is Vector,
        Constant::PtrToInt { to_type, .. } => to_type is Vector,
        Constant::IntToPtr { to_type, .. } => to_type is Vector,
        Constant::ICmp { operand0, .. } => const_is_vector(*operand0),
        Constant::Select { true_value, .. } => const_is_vector(*true_value),
        Constant::Other { ty } => ty is Vector,
        _ => false,
    }
}

/// The width of the type of a constant, when that type is an integer
/// type: a comparison of scalars is one bit wide.
pub open spec fn const_int_bits(c: Constant) -> Option<u32>
    decreases c,
{
    match c {
        Constant::Int { bits, .. } => Some(bits),
        Constant::AggregateZero(t) => type_int_bits(t),
        Constant::Undef(t) => type_int_bits(t),
        Constant::BitCast { to_type, .. } => type_int_bits(to_type),
        Constant::PtrToInt { to_type, .. } => type_int_bits(to_type),
        Constant::IntToPtr { to_type, .. } => type_int_bits(to_type),
        Constant::ICmp { operand0, .. } => if const_is_vector(*operand0) {
            None
        } else {
            Some(1u32)
        },
        Constant::Select { true_value, .. } => const_int_bits(*true_value),
        Constant::Other { ty } => type_int_bits(ty),
        _ => None,
    }
}

fn int_bits_of_type(t: &IrType) -> (r: Option<u32>)
    ensures
        r == type_int_bits(*t),
{
    match t {
        IrType::Integer { bits } => Some(*bits),
        _ => None,
    }
}

fn is_vector_type(t: &IrType) -> (r: bool)
    ensures
        r == (*t is Vector),
{
    match t {
        IrType::Vector { .. } => true,
        _ => false,
    }
}

/// Whether the type of a constant is a vector type.
pub fn is_vector_const(c: &Constant) -> (r: bool)
    ensures
        r == const_is_vector(*c),
    decreases c,
{
    match c {
        Constant::Vector(_) => true,
        Constant::AggregateZero(t) => is_vector_type(t),
        Constant::Undef(t) => is_vector_type(t),
        Constant::BitCast { to_type, .. } => is_vector_type(to_type),
        Constant::PtrToInt { to_type, .. } => is_vector_type(to_type),
        Constant::IntToPtr { to_type, .. } => is_vector_type(to_type),
        Constant::ICmp { operand0, .. } => is_vector_const(&**operand0),
        Constant::Select { true_value, .. } => is_vector_const(&**true_value),
        Constant::Other { ty } => is_vector_type(ty),
        _ => false,
    }
}

/// The width of the type of a constant, when it is an integer type.
pub fn int_bits_of(c: &Constant) -> (r: Option<u32>)
    ensures
        r == const_int_bits(*c),
    decreases c,
{
    match c {
        Constant::Int { bits, .. } => Some(*bits),
        Constant::AggregateZero(t) => int_bits_of_type(t),
        Constant::Undef(t) => int_bits_of_type(t),
        Constant::BitCast { to_type, .. } => int_bits_of_type(to_type),
        Constant::PtrToInt { to_type, .. } => int_bits_of_type(to_type),
        Constant::IntToPtr { to_type, .. } => int_bits_of_type(to_type),
        Constant::ICmp { operand0, .. } => if is_vector_const(&**operand0) {
            None
        } else {
            Some(1)
        },
        Constant::Select { true_value, .. } => int_bits_of(&**true_value),
        Constant::Other { ty } => int_bits_of_type(ty),
        _ => None,
    }
}

// ----------------------------------------------------------------------
// Addresses of globals
// ----------------------------------------------------------------------

/// The static address of each global of the program.
pub struct GlobalTable {
    pub addrs: Vec<(LocalName, u32)>,
}

/// The address the table gives `name`: that of its first entry.
pub open spec fn global_addr(g: Seq<(LocalName, u32)>, name: LocalNameV) -> Option<u32>
    decreases g.len(),
{
    if g.len() == 0 {
        None
    } else if g[0].0@ == name {
        Some(g[0].1)
    } else {
        global_addr(g.drop_first(), name)
    }
}

/// Whether two local names are the same.
pub fn local_name_eq(a: &LocalName, b: &LocalName) -> (r: bool)
    ensures
        r == (a@ == b@),
{
    match (a, b) {
        (LocalName::Name(x), LocalName::Name(y)) => crate::text::str_eq(x.as_str(), y.as_str()),
        (LocalName::Number(x), LocalName::Number(y)) => *x == *y,
        _ => false,
    }
}

proof fn lemma_addr_found(g: Seq<(LocalName, u32)>, k: LocalNameV)
    requires
        global_addr(g, k) is Some,
    ensures
        exists|j: int| 0 <= j < g.len() && g[j].0@ == k,
    decreases g.len(),
{
    if g[0].0@ != k {
        lemma_addr_found(g.drop_first(), k);
        let j = choose|j: int| 0 <= j < g.drop_first().len() && g.drop_first()[j].0@ == k;
        assert(g[j + 1] == g.drop_first()[j]);
    }
}

/// The addresses a table gives: that of the first entry of each name.
pub open spec fn table_map(g: Seq<(LocalName, u32)>) -> Map<LocalNameV, u32> {
    Map::new(|k: LocalNameV| global_addr(g, k) is Some, |k: LocalNameV| global_addr(g, k).unwrap())
}

proof fn lemma_addr_push(g: Seq<(LocalName, u32)>, e: (LocalName, u32), k: LocalNameV)
    ensures
        global_addr(g.push(e), k) == match global_addr(g, k) {
            Some(x) => Some(x),
            None => if e.0@ == k {
                Some(e.1)
            } else {
                None
            },
        },
    decreases g.len(),
{
    if g.len() > 0 {
        assert(g.push(e)[0] == g[0]);
        assert(g.push(e).drop_first() =~= g.drop_first().push(e));
        lemma_addr_push(g.drop_first(), e, k);
    } else {
        assert(g.push(e)[0] == e);
        assert(g.push(e).drop_first() =~= Seq::<(LocalName, u32)>::empty());
        assert(global_addr(g.push(e).drop_first(), k) is None);
    }
}

proof fn lemma_addr_update(g: Seq<(LocalName, u32)>, i: int, e: (LocalName, u32), k: LocalNameV)
    requires
        0 <= i < g.len(),
        g[i].0@ == e.0@,
        forall|j: int| 0 <= j < i ==> g[j].0@ != e.0@,
    ensures
        global_addr(g.update(i, e), k) == if k == e.0@ {
            Some(e.1)
        } else {
            global_addr(g, k)
        },
    decreases g.len(),
{
    if i == 0 {
        assert(g.update(0, e).drop_first() =~= g.drop_first());
    } else {
        assert(g.update(i, e).drop_first() =~= g.drop_first().update(i - 1, e));
        assert forall|j: int| 0 <= j < i - 1 implies g.drop_first()[j].0@ != e.0@ by {
            assert(g.drop_first()[j] == g[j + 1]);
        }
        lemma_addr_update(g.drop_first(), i - 1, e, k);
    }
}

impl GlobalTable {
    /// A table without entries.
    pub fn new() -> (r: GlobalTable)
        ensures
            r.addrs@.len() == 0,
            table_map(r.addrs@) =~= Map::empty(),
    {
        GlobalTable { addrs: Vec::new() }
    }

    /// Gives `name` the address `addr`, in place of any it had.
    pub fn insert(&mut self, name: LocalName, addr: u32)
        ensures
            table_map(final(self).addrs@) =~= table_map(old(self).addrs@).insert(name@, addr),
    {
        let ghost g = self.addrs@;
        let ghost e = (name, addr);
        let mut i: usize = 0;
        let mut found = false;
        while i < self.addrs.len()
            invariant
                g == self.addrs@,
                i <= g.len(),
                forall|j: int| 0 <= j < i ==> g[j].0@ != name@,
                found ==> i < g.len() && g[i as int].0@ == name@,
            ensures
                g == self.addrs@,
                forall|j: int| 0 <= j < i ==> g[j].0@ != name@,
                found ==> i < g.len() && g[i as int].0@ == name@,
                !found ==> i == g.len(),
            decreases g.len() - i,
        {
            if local_name_eq(&self.addrs[i].0, &name) {
                found = true;
                break;
            }
            i = i + 1;
        }
        if found {
            self.addrs.set(i, (name, addr));
            proof {
                assert(self.addrs@ == g.update(i as int, e));
                assert forall|k: LocalNameV| true implies global_addr(self.addrs@, k) == if k == e.0@ {
                    Some(addr)
                } else {
                    global_addr(g, k)
                } by {
                    lemma_addr_update(g, i as int, e, k);
                }
                assert(table_map(self.addrs@) =~= table_map(g).insert(e.0@, addr));
            }
        } else {
            proof {
                assert forall|k: LocalNameV| true implies global_addr(g.push(e), k) == match global_addr(
                    g,
                    k,
                ) {
                    Some(x) => Some(x),
                    None => if e.0@ == k {
                        Some(addr)
                    } else {
                        None
                    },
                } by {
                    lemma_addr_push(g, e, k);
                }
                assert forall|k: LocalNameV| k == e.0@ implies global_addr(g, k) is None by {
                    if global_addr(g, k) is Some {
                        lemma_addr_found(g, k);
                    }
                }
            }
            self.addrs.push((name, addr));
            assert(table_map(self.addrs@) =~= table_map(g).insert(e.0@, addr));
        }
    }

    /// The address of the global `name`, if the table has it.
    pub fn lookup(&self, name: &LocalName) -> (r: Option<u32>)
        ensures
            r == global_addr(self.addrs@, name@),
    {
        let ghost g = self.addrs@;
        let mut i: usize = 0;
        assert(g.skip(0) =~= g);
        while i < self.addrs.len()
            invariant
                g == self.addrs@,
                i <= g.len(),
                global_addr(g, name@) == global_addr(g.skip(i as int), name@),
            decreases g.len() - i,
        {
            let ghost rest = g.skip(i as int);
            assert(rest[0] == g[i as int]);
            if local_name_eq(&self.addrs[i].0, name) {
                return Some(self.addrs[i].1);
            }
            assert(rest.drop_first() =~= g.skip(i + 1));
            i = i + 1;
        }
        assert(g.skip(i as int) =~= Seq::<(LocalName, u32)>::empty());
        None
    }
}

// ----------------------------------------------------------------------
// Temporary words
// ----------------------------------------------------------------------

/// Word `idx` of temporary number `num`.
pub open spec fn temp_word(num: nat, idx: nat) -> Seq<char> {
    temp_name(num) + "%"@ + nat_text(idx)
}

/// Temporary number `num`, its words set to `vals` in order.
pub open spec fn words_v(num: nat, vals: Seq<i32>) -> MaybeConstV {
    MaybeConstV::NonConst(
        Seq::new(vals.len(), |i: int| set_v(temp_word(num, i as nat), vals[i])),
        Seq::new(vals.len(), |i: int| temp_word(num, i as nat)),
    )
}

/// `k` zero words.
pub open spec fn zeros(k: nat) -> Seq<i32> {
    Seq::new(k, |i: int| 0i32)
}

/// The holder of word `idx` of temporary number `num`.
fn temp_word_holder(num: u32, idx: usize) -> (r: ScoreHolder)
    ensures
        r@ == temp_word(num as nat, idx as nat),
{
    let mut s = String::from_str("%temp");
    let a = u64_text(num as u64);
    s.append(a.as_str());
    s.append("%");
    let b = u64_text(idx as u64);
    s.append(b.as_str());
    proof {
        reveal_strlit("%temp");
        reveal_strlit("%");
        lemma_nat_text_digits(num as nat);
        lemma_nat_text_digits(idx as nat);
        let t = temp_word(num as nat, idx as nat);
        let p = "%temp"@;
        let x = nat_text(num as nat);
        let y = nat_text(idx as nat);
        assert(t =~= p + x + "%"@ + y);
        assert forall|i: int| 0 <= i < t.len() implies !is_space(#[trigger] t[i]) by {
            if i < p.len() {
                assert(t[i] == p[i]);
            } else if i < p.len() + x.len() {
                assert(t[i] == x[i - p.len()]);
            } else if i == p.len() + x.len() {
                assert(t[i] == '%');
            } else {
                assert(t[i] == y[i - p.len() - x.len() - 1]);
            }
        }
    }
    ScoreHolder::from_valid(s)
}

/// Sets the words of temporary number `num` to `vals`.
fn set_words(num: u32, vals: &Vec<i32>) -> (r: MaybeConst)
    ensures
        r@ == words_v(num as nat, vals@),
{
    let mut cmds: Vec<Command> = Vec::new();
    let mut holders: Vec<ScoreHolder> = Vec::new();
    let mut i: usize = 0;
    while i < vals.len()
        invariant
            i <= vals@.len(),
            cmds@.len() == i,
            holders@.len() == i,
            forall|j: int|
                0 <= j < i ==> #[trigger] cmds@[j]@ == set_v(temp_word(num as nat, j as nat), vals@[j]),
            forall|j: int| 0 <= j < i ==> #[trigger] holders@[j]@ == temp_word(num as nat, j as nat),
        decreases vals.len() - i,
    {
        let h = temp_word_holder(num, i);
        cmds.push(assign_lit(h.clone(), vals[i]));
        holders.push(h);
        i = i + 1;
    }
    let r = MaybeConst::NonConst(cmds, holders);
    assert(r@ =~= words_v(num as nat, vals@)) by {
        assert(commands_view(cmds@) =~= Seq::new(
            vals@.len(),
            |i: int| set_v(temp_word(num as nat, i as nat), vals@[i]),
        ));
        assert(holders@.map_values(|x: ScoreHolder| x@) =~= Seq::new(
            vals@.len(),
            |i: int| temp_word(num as nat, i as nat),
        ));
    }
    r
}

/// `k` zero words.
fn zero_vec(k: usize) -> (r: Vec<i32>)
    ensures
        r@ == zeros(k as nat),
{
    let mut v: Vec<i32> = Vec::new();
    let mut i: usize = 0;
    while i < k
        invariant
            i <= k,
            v@ == zeros(i as nat),
        decreases k - i,
    {
        v.push(0);
        i = i + 1;
        assert(v@ =~= zeros(i as nat));
    }
    v
}

// ----------------------------------------------------------------------
// Integer constants
// ----------------------------------------------------------------------

/// An integer constant of `bits` bits with the counter at `n`: narrow
/// integers are scores (bytes and halfwords sign-extended), 48- and 64-bit
/// ones two words of a fresh temporary, 128-bit ones four words whose low
/// two are zero; other widths give zero.
pub open spec fn int_const_v(bits: u32, value: u64, n: nat) -> (MaybeConstV, nat) {
    if bits == 1 {
        (MaybeConstV::Const(value as i32), n)
    } else if bits == 8 {
        (MaybeConstV::Const((value as i8) as i32), n)
    } else if bits == 16 {
        (MaybeConstV::Const((value as i16) as i32), n)
    } else if bits == 24 || bits == 32 {
        (MaybeConstV::Const(value as i32), n)
    } else if bits == 48 || bits == 64 {
        (words_v(n, seq![value as i32, (value >> 32u64) as i32]), n + 1)
    } else if bits == 128 {
        (words_v(n, seq![0i32, 0i32, value as i32, (value >> 32u64) as i32]), n + 1)
    } else {
        (MaybeConstV::Const(0), n)
    }
}

/// An integer constant as a score or as the words of a fresh temporary.
fn eval_int(bits: u32, value: u64, counter: &mut TempCounter) -> (r: MaybeConst)
    requires
        int_const_v(bits, value, old(counter).next as nat).1 <= u32::MAX,
    ensures
        (r@, final(counter).next as nat) == int_const_v(bits, value, old(counter).next as nat),
{
    if bits == 1 {
        MaybeConst::Const(value as i32)
    } else if bits == 8 {
        MaybeConst::Const((value as i8) as i32)
    } else if bits == 16 {
        MaybeConst::Const((value as i16) as i32)
    } else if bits == 24 || bits == 32 {
        MaybeConst::Const(value as i32)
    } else if bits == 48 || bits == 64 {
        let num = get_unique_num(counter);
        let vals = vec![value as i32, (value >> 32u64) as i32];
        set_words(num, &vals)
    } else if bits == 128 {
        let num = get_unique_num(counter);
        let vals = vec![0i32, 0i32, value as i32, (value >> 32u64) as i32];
        set_words(num, &vals)
    } else {
        MaybeConst::Const(0)
    }
}

// ----------------------------------------------------------------------
// Constant addresses
// ----------------------------------------------------------------------

/// The size of a layout rounded up to its alignment.
pub open spec fn padded_size(l: LayoutV) -> int {
    round_up(l.size, l.align)
}

/// The size of a layout rounded up to its alignment.
pub(crate) fn padded(l: TypeLayout) -> (r: usize)
    requires
        lay_ok(l@),
        l@.size <= size_limit(),
    ensures
        r as int == padded_size(l@),
{
    if l.size % l.align == 0 {
        l.size
    } else {
        l.size + (l.align - l.size % l.align)
    }
}

/// The index an index constant gives: the low 32 bits of its value.
pub open spec fn index_value(c: Constant) -> u32 {
    match c {
        Constant::Int { value, .. } => value as u32,
        _ => 0,
    }
}

/// The fields of a structure type, following a named structure to its
/// definition.
pub open spec fn struct_fields(t: IrType, tys: Types) -> Option<(Vec<IrType>, bool)> {
    match t {
        IrType::NamedStruct { name } => match named_def(tys.named@, name@) {
            Some(Some(IrType::Struct { element_types, is_packed })) => Some((element_types, is_packed)),
            _ => None,
        },
        IrType::Struct { element_types, is_packed } => Some((element_types, is_packed)),
        _ => None,
    }
}

/// The padded size of the elements of type `t`.
pub open spec fn elem_stride(t: IrType, tys: Types) -> int {
    padded_size(type_layout_spec(t, tys).unwrap())
}

/// One index of a constant address: into a structure, the field's offset;
/// into an array or through a pointer of address space zero, that many
/// padded elements. The type moves to the field or element.
pub open spec fn gep_step(offset: int, ty: IrType, index: u32, tys: Types) -> (int, IrType) {
    match ty {
        IrType::Array { element_type, .. } => (
            offset + (elem_stride(*element_type, tys) as u32) * index,
            *element_type,
        ),
        IrType::Pointer { pointee, addr_space } => if addr_space == 0 {
            (offset + (elem_stride(*pointee, tys) as u32) * index, *pointee)
        } else {
            (offset, ty)
        },
        _ => match struct_fields(ty, tys) {
            Some(f) => (
                offset + (offset_of_spec(f.0, f.1, index as nat, tys.named@).unwrap() as u32),
                f.0@[index as int],
            ),
            None => (offset, ty),
        },
    }
}

/// Whether one index can be applied: the type is a structure (defined, with
/// that field), an array or a pointer whose element has a layout, and the
/// offset stays a 32-bit address.
pub open spec fn gep_step_ok(offset: int, ty: IrType, index: u32, tys: Types) -> bool {
    let named = tys.named@;
    match ty {
        IrType::Array { element_type, .. } => {
            &&& layout_fits(*element_type, named, named.len())
            &&& (elem_stride(*element_type, tys) as u32) * index <= u32::MAX
            &&& offset + (elem_stride(*element_type, tys) as u32) * index <= u32::MAX
        },
        IrType::Pointer { pointee, addr_space } => addr_space == 0 ==> {
            &&& layout_fits(*pointee, named, named.len())
            &&& (elem_stride(*pointee, tys) as u32) * index <= u32::MAX
            &&& offset + (elem_stride(*pointee, tys) as u32) * index <= u32::MAX
        },
        IrType::NamedStruct { .. } => match struct_fields(ty, tys) {
            Some(f) => {
                &&& (index as nat) < f.0@.len()
                &&& offset_of_ok(f.0, f.1, index as nat, named)
                &&& offset + (offset_of_spec(f.0, f.1, index as nat, named).unwrap() as u32)
                    <= u32::MAX
            },
            None => false,
        },
        IrType::Struct { .. } => match struct_fields(ty, tys) {
            Some(f) => {
                &&& (index as nat) < f.0@.len()
                &&& offset_of_ok(f.0, f.1, index as nat, named)
                &&& offset + (offset_of_spec(f.0, f.1, index as nat, named).unwrap() as u32)
                    <= u32::MAX
            },
            None => false,
        },
        _ => false,
    }
}

/// The offset and type after the indices `1..k`.
pub open spec fn gep_walk(indices: Seq<Constant>, k: nat, start: (int, IrType), tys: Types) -> (
    int,
    IrType,
)
    decreases k,
{
    if k <= 1 {
        start
    } else {
        let p = gep_walk(indices, (k - 1) as nat, start, tys);
        gep_step(p.0, p.1, index_value(indices[k - 1]), tys)
    }
}

/// Whether the indices `1..k` are integer constants that can be applied.
pub open spec fn gep_walk_ok(indices: Seq<Constant>, k: nat, start: (int, IrType), tys: Types) -> bool
    decreases k,
{
    if k <= 1 {
        true
    } else {
        let p = gep_walk(indices, (k - 1) as nat, start, tys);
        &&& gep_walk_ok(indices, (k - 1) as nat, start, tys)
        &&& indices[k - 1] is Int
        &&& gep_step_ok(p.0, p.1, index_value(indices[k - 1]), tys)
    }
}

proof fn lemma_gep_walk_ok_prefix(indices: Seq<Constant>, j: nat, k: nat, start: (int, IrType), tys: Types)
    requires
        j <= k,
        gep_walk_ok(indices, k, start, tys),
    ensures
        gep_walk_ok(indices, j, start, tys),
    decreases k,
{
    if j < k {
        lemma_gep_walk_ok_prefix(indices, j, (k - 1) as nat, start, tys);
    }
}

/// The address in the table for `name`, or zero when it has none.
pub open spec fn addr_or_zero(g: Seq<(LocalName, u32)>, name: LocalNameV) -> u32 {
    match global_addr(g, name) {
        Some(a) => a,
        None => 0,
    }
}

/// Where a constant address starts: a global, or a global cast to another
/// pointer type, with the type the indices walk.
pub open spec fn gep_base(address: Constant, g: Seq<(LocalName, u32)>) -> Option<(int, IrType)> {
    match address {
        Constant::GlobalReference { name, ty } => Some((addr_or_zero(g, name@) as int, ty)),
        Constant::BitCast { operand, to_type } => match *operand {
            Constant::GlobalReference { name, .. } => Some((addr_or_zero(g, name@) as int, to_type)),
            _ => None,
        },
        _ => None,
    }
}

/// The value of a constant address: zero when it does not start at a
/// global.
pub open spec fn gep_const_spec(
    address: Constant,
    indices: Seq<Constant>,
    g: Seq<(LocalName, u32)>,
    tys: Types,
) -> int {
    match gep_base(address, g) {
        Some(b) => gep_walk(indices, indices.len(), b, tys).0,
        None => 0,
    }
}

/// Whether a constant address can be computed: it is in bounds, and when it
/// starts at a global its indices can be applied after the first.
pub open spec fn gep_const_ok(
    address: Constant,
    indices: Seq<Constant>,
    in_bounds: bool,
    g: Seq<(LocalName, u32)>,
    tys: Types,
) -> bool {
    &&& in_bounds
    &&& (gep_base(address, g) matches Some(b) ==> indices.len() >= 1 && gep_walk_ok(
        indices,
        indices.len(),
        b,
        tys,
    ))
}

/// The fields of a structure type.
pub(crate) fn fields_of<'a>(ty: &'a IrType, tys: &'a Types) -> (r: Option<(&'a Vec<IrType>, bool)>)
    ensures
        match r {
            Some(f) => struct_fields(*ty, *tys) == Some((*f.0, f.1)),
            None => struct_fields(*ty, *tys) is None,
        },
{
    match ty {
        IrType::NamedStruct { name } => match find_named(&tys.named, name.as_str()) {
            Some(i) => match &tys.named[i].def {
                Some(IrType::Struct { element_types, is_packed }) => Some((element_types, *is_packed)),
                _ => None,
            },
            None => None,
        },
        IrType::Struct { element_types, is_packed } => Some((element_types, *is_packed)),
        _ => None,
    }
}

/// The value of a constant address.
fn getelementptr_const(
    address: &Constant,
    indices: &Vec<Constant>,
    in_bounds: bool,
    globals: &GlobalTable,
    tys: &Types,
) -> (r: u32)
    requires
        gep_const_ok(*address, indices@, in_bounds, globals.addrs@, *tys),
    ensures
        r as int == gep_const_spec(*address, indices@, globals.addrs@, *tys),
{
    let (name, start_ty) = match address {
        Constant::GlobalReference { name, ty } => (name, ty),
        Constant::BitCast { operand, to_type } => match &**operand {
            Constant::GlobalReference { name, .. } => (name, to_type),
            _ => {
                return 0;
            },
        },
        _ => {
            return 0;
        },
    };
    let mut offset: u32 = match globals.lookup(name) {
        Some(a) => a,
        None => 0,
    };
    let ghost start = (offset as int, *start_ty);
    assert(gep_base(*address, globals.addrs@) == Some(start));
    let mut ty = start_ty;
    let n = indices.len();
    let mut k: usize = 1;
    while k < n
        invariant
            n == indices@.len(),
            1 <= k <= n,
            gep_walk_ok(indices@, n as nat, start, *tys),
            (offset as int, *ty) == gep_walk(indices@, k as nat, start, *tys),
        decreases n - k,
    {
        proof {
            lemma_gep_walk_ok_prefix(indices@, (k + 1) as nat, n as nat, start, *tys);
        }
        let index: u32 = match &indices[k] {
            Constant::Int { value, .. } => *value as u32,
            _ => 0,
        };
        let ghost before_ty = *ty;
        match ty {
            IrType::Array { element_type, .. } => {
                let l = type_layout(&**element_type, tys);
                proof {
                    lemma_layout_ok(**element_type, tys.named@, tys.named@.len());
                }
                let stride = padded(l);
                offset = offset + (stride as u32) * index;
                ty = &**element_type;
            },
            IrType::Pointer { pointee, addr_space } => {
                if *addr_space == 0 {
                    let l = type_layout(&**pointee, tys);
                    proof {
                        lemma_layout_ok(**pointee, tys.named@, tys.named@.len());
                    }
                    let stride = padded(l);
                    offset = offset + (stride as u32) * index;
                    ty = &**pointee;
                }
            },
            _ => {
                match fields_of(ty, tys) {
                    Some((element_types, is_packed)) => {
                        let off = offset_of(element_types, is_packed, index, tys);
                        offset = offset + (off as u32);
                        ty = &element_types[index as usize];
                    },
                    None => {},
                }
            },
        }
        assert((offset as int, *ty) == gep_step(
            gep_walk(indices@, k as nat, start, *tys).0,
            before_ty,
            index_value(indices@[k as int]),
            *tys,
        ));
        k = k + 1;
    }
    offset
}

// ----------------------------------------------------------------------
// Evaluating constants
// ----------------------------------------------------------------------

/// Whether a constant's type is the byte or the bit type.
pub open spec fn is_byte_typed(c: Constant) -> bool {
    const_int_bits(c) == Some(8u32) || const_int_bits(c) == Some(1u32)
}

/// Whether a constant's type is the 32-bit integer type.
pub open spec fn is_word_typed(c: Constant) -> bool {
    const_int_bits(c) == Some(32u32)
}

/// Whether a constant's type is the 64-bit integer type.
pub open spec fn is_dword_typed(c: Constant) -> bool {
    const_int_bits(c) == Some(64u32)
}

/// Whether every constant of `vs` has the byte or the bit type.
pub open spec fn all_byte_typed(vs: Seq<Constant>) -> bool {
    forall|i: int| 0 <= i < vs.len() ==> is_byte_typed(#[trigger] vs[i])
}

/// Whether every constant of `vs` has the 32-bit integer type.
pub open spec fn all_word_typed(vs: Seq<Constant>) -> bool {
    forall|i: int| 0 <= i < vs.len() ==> is_word_typed(#[trigger] vs[i])
}

/// Whether every constant of `vs` has the 64-bit integer type.
pub open spec fn all_dword_typed(vs: Seq<Constant>) -> bool {
    forall|i: int| 0 <= i < vs.len() ==> is_dword_typed(#[trigger] vs[i])
}

/// The value of an integer constant.
pub open spec fn int_value(c: Constant) -> u64 {
    match c {
        Constant::Int { value, .. } => value,
        _ => 0,
    }
}

/// The score of a constant result.
pub open spec fn const_score(m: MaybeConstV) -> i32 {
    match m {
        MaybeConstV::Const(s) => s,
        _ => 0,
    }
}

/// Word `i` of bytes `b`, least significant first.
pub open spec fn le_word(b: Seq<u8>, i: int) -> i32 {
    (b[4 * i] + 256 * b[4 * i + 1] + 65536 * b[4 * i + 2] + 16777216 * b[4 * i + 3]) as i32
}

/// The low bytes of integer constants.
pub open spec fn const_bytes(vs: Seq<Constant>) -> Seq<u8> {
    vs.map_values(|c: Constant| int_value(c) as u8)
}

/// The two words, low then high, of each 64-bit constant.
pub open spec fn dword_scores(vs: Seq<Constant>) -> Seq<i32> {
    Seq::new(
        2 * vs.len(),
        |i: int|
            if i % 2 == 0 {
                int_value(vs[i / 2]) as i32
            } else {
                (int_value(vs[i / 2]) >> 32u64) as i32
            },
    )
}

/// A vector of bytes: four of them make one score; a multiple of four
/// make the words of a fresh temporary; any other number gives zero.
pub open spec fn bytes_vector_v(es: Seq<Constant>, n: nat) -> (MaybeConstV, nat) {
    let b = const_bytes(es);
    if es.len() == 4 {
        (MaybeConstV::Const(le_word(b, 0)), n)
    } else if es.len() % 4 == 0 {
        (words_v(n, Seq::new(es.len() / 4, |i: int| le_word(b, i))), n + 1)
    } else {
        (MaybeConstV::Const(0), n)
    }
}

/// The number of words a zeroed structure of integers takes: each field of
/// `bits` bits takes `(bits + 31) / 32`; other fields take none.
pub open spec fn int_field_words(ts: Seq<IrType>) -> int
    decreases ts.len(),
{
    if ts.len() == 0 {
        0
    } else {
        int_field_words(ts.drop_last()) + match ts.last() {
            IrType::Integer { bits } => (bits + 31) / 32,
            _ => 0,
        }
    }
}

/// Whether each running total of `int_field_words` fits in 32 bits.
pub open spec fn int_field_words_ok(ts: Seq<IrType>) -> bool {
    &&& forall|i: int| 0 <= i < ts.len() ==> (#[trigger] ts[i] matches IrType::Integer { bits } ==> bits
        + 31 <= u32::MAX)
    &&& int_field_words(ts) <= u32::MAX
}

/// The condition of a constant select: a comparison of a global cast to
/// another pointer type with null, `ule` (the global's address is zero)
/// or `ne` (it is not).
pub open spec fn select_cond(cond: Constant, g: Seq<(LocalName, u32)>) -> bool {
    match cond {
        Constant::ICmp { predicate, operand0, .. } => match *operand0 {
            Constant::BitCast { operand, .. } => match *operand {
                Constant::GlobalReference { name, .. } => {
                    let v = addr_or_zero(g, name@);
                    match predicate {
                        IntPredicate::ULE => v == 0,
                        _ => v != 0,
                    }
                },
                _ => false,
            },
            _ => false,
        },
        _ => false,
    }
}

/// Whether the condition of a constant select has the form that can be
/// decided.
pub open spec fn select_cond_ok(cond: Constant, g: Seq<(LocalName, u32)>) -> bool {
    match cond {
        Constant::ICmp { predicate, operand0, operand1 } => {
            &&& (predicate == IntPredicate::ULE || predicate == IntPredicate::NE)
            &&& *operand1 is Null
            &&& match *operand0 {
                Constant::BitCast { operand, .. } => match *operand {
                    Constant::GlobalReference { name, .. } => global_addr(g, name@) is Some,
                    _ => false,
                },
                _ => false,
            }
        },
        _ => false,
    }
}

/// What a constant becomes with the temporary counter at `n`, and the
/// counter after: a score, or commands setting holders.
pub open spec fn eval_const_spec(c: Constant, g: Seq<(LocalName, u32)>, tys: Types, n: nat) -> (
    MaybeConstV,
    nat,
)
    decreases c, 0nat,
{
    match c {
        Constant::GlobalReference { name, .. } => {
            let addr = addr_or_zero(g, name@);
            if addr == u32::MAX {
                match name {
                    LocalName::Name(s) => (
                        MaybeConstV::NonConst(Seq::empty(), seq![s@ + FUNC_REF_SUFFIX@]),
                        n,
                    ),
                    _ => (MaybeConstV::Const(0), n),
                }
            } else {
                (MaybeConstV::Const(addr as i32), n)
            }
        },
        Constant::PtrToInt { operand, .. } => match *operand {
            Constant::GlobalReference { name, .. } => (
                MaybeConstV::Const(addr_or_zero(g, name@) as i32),
                n,
            ),
            Constant::GetElementPtr { address, indices, .. } => (
                MaybeConstV::Const(gep_const_spec(*address, indices@, g, tys) as i32),
                n,
            ),
            _ => (MaybeConstV::Const(0), n),
        },
        Constant::Int { bits, value } => int_const_v(bits, value, n),
        Constant::Struct { values, .. } => {
            let w = struct_words(values@, values@.len(), g, tys, n);
            (MaybeConstV::NonConst(w.0, w.1), w.2)
        },
        Constant::BitCast { operand, .. } => eval_const_spec(*operand, g, tys, n),
        Constant::IntToPtr { operand, .. } => eval_const_spec(*operand, g, tys, n),
        Constant::Undef(ty) => (
            words_v(n, zeros(((type_layout_spec(ty, tys).unwrap().size + 3) / 4) as nat)),
            n + 1,
        ),
        Constant::GetElementPtr { address, indices, .. } => (
            MaybeConstV::Const(gep_const_spec(*address, indices@, g, tys) as i32),
            n,
        ),
        Constant::Null => (MaybeConstV::Const(0), n),
        Constant::AggregateZero(t) => match t {
            IrType::Vector { element_type, num_elements } => (
                words_v(
                    n,
                    zeros(
                        ((type_layout_spec(*element_type, tys).unwrap().size * num_elements) / 4) as nat,
                    ),
                ),
                n + 1,
            ),
            IrType::Struct { element_types, is_packed } => if !is_packed {
                (words_v(n, zeros(int_field_words(element_types@) as nat)), n + 1)
            } else {
                (MaybeConstV::Const(0), n)
            },
            _ => (MaybeConstV::Const(0), n),
        },
        Constant::Vector(elems) => {
            let es = elems@;
            if all_byte_typed(es) {
                bytes_vector_v(es, n)
            } else if all_word_typed(es) {
                (words_v(n, word_scores(es, es.len(), g, tys, n)), n + 1)
            } else if all_dword_typed(es) {
                (words_v(n, dword_scores(es)), n + 1)
            } else {
                (MaybeConstV::Const(0), n)
            }
        },
        Constant::ICmp { operand0, operand1, .. } => {
            let a = eval_const_spec(*operand0, g, tys, n);
            let b = eval_const_spec(*operand1, g, tys, a.1);
            (
                MaybeConstV::Const(
                    if const_score(a.0) != const_score(b.0) {
                        1i32
                    } else {
                        0i32
                    },
                ),
                b.1,
            )
        },
        Constant::Select { condition, true_value, false_value } => if select_cond(*condition, g) {
            eval_const_spec(*true_value, g, tys, n)
        } else {
            eval_const_spec(*false_value, g, tys, n)
        },
        Constant::Float32(bits) => (MaybeConstV::Const(bits as i32), n),
        Constant::Float64(bits) => (words_v(n, seq![bits as i32, (bits >> 32u64) as i32]), n + 1),
        Constant::Array { .. } => (MaybeConstV::Const(0), n),
        Constant::Other { .. } => (MaybeConstV::Const(0), n),
    }
}

/// The words of the first `k` fields of a structure constant, each field
/// evaluated and forced into holders in turn, and the counter after.
pub open spec fn struct_words(
    vs: Seq<Constant>,
    k: nat,
    g: Seq<(LocalName, u32)>,
    tys: Types,
    n: nat,
) -> (Seq<CommandV>, Seq<Seq<char>>, nat)
    decreases vs, k,
{
    if k == 0 || k > vs.len() {
        (Seq::empty(), Seq::empty(), n)
    } else {
        let p = struct_words(vs, (k - 1) as nat, g, tys, n);
        let e = eval_const_spec(vs[k - 1], g, tys, p.2);
        let f = force_v(e.0, e.1);
        (p.0 + f.0, p.1 + f.1, f.2)
    }
}

/// The scores of the first `k` elements of a vector of words, each
/// evaluated with the counter at `n`.
pub open spec fn word_scores(
    vs: Seq<Constant>,
    k: nat,
    g: Seq<(LocalName, u32)>,
    tys: Types,
    n: nat,
) -> Seq<i32>
    decreases vs, k,
{
    if k == 0 || k > vs.len() {
        Seq::empty()
    } else {
        word_scores(vs, (k - 1) as nat, g, tys, n).push(
            const_score(eval_const_spec(vs[k - 1], g, tys, n).0),
        )
    }
}

/// Whether every element of a byte-typed prefix of `vs` is an integer
/// constant.
pub open spec fn byte_prefix_ok(vs: Seq<Constant>) -> bool {
    forall|i: int|
        0 <= i < vs.len() && all_byte_typed(vs.take(i + 1)) ==> #[trigger] vs[i] is Int
}

/// Whether every element of a prefix of 64-bit integer type is a 64-bit
/// integer constant.
pub open spec fn dword_prefix_ok(vs: Seq<Constant>) -> bool {
    forall|i: int|
        0 <= i < vs.len() && all_dword_typed(vs.take(i + 1)) ==> match #[trigger] vs[i] {
            Constant::Int { bits, .. } => bits == 64,
            _ => false,
        }
}

/// Whether a constant can be evaluated with the counter at `n`: every
/// form the evaluation meets is one it handles.
pub open spec fn eval_const_ok(c: Constant, g: Seq<(LocalName, u32)>, tys: Types, n: nat) -> bool
    decreases c, 0nat,
{
    let named = tys.named@;
    match c {
        Constant::GlobalReference { name, .. } => addr_or_zero(g, name@) == u32::MAX ==> match name {
            LocalName::Name(s) => valid_holder(s@ + FUNC_REF_SUFFIX@),
            _ => false,
        },
        Constant::PtrToInt { operand, .. } => match *operand {
            Constant::GlobalReference { name, .. } => global_addr(g, name@) is Some,
            Constant::GetElementPtr { address, indices, in_bounds } => gep_const_ok(
                *address,
                indices@,
                in_bounds,
                g,
                tys,
            ),
            _ => true,
        },
        Constant::Struct { values, .. } => all_word_typed(values@) && struct_ok(
            values@,
            values@.len(),
            g,
            tys,
            n,
        ),
        Constant::BitCast { operand, .. } => eval_const_ok(*operand, g, tys, n),
        Constant::IntToPtr { operand, .. } => eval_const_ok(*operand, g, tys, n),
        Constant::Undef(ty) => layout_fits(ty, named, named.len()),
        Constant::GetElementPtr { address, indices, in_bounds } => gep_const_ok(
            *address,
            indices@,
            in_bounds,
            g,
            tys,
        ),
        Constant::AggregateZero(t) => match t {
            IrType::Vector { element_type, num_elements } => {
                &&& layout_fits(*element_type, named, named.len())
                &&& type_layout_spec(*element_type, tys).unwrap().size * num_elements <= usize::MAX
                &&& (type_layout_spec(*element_type, tys).unwrap().size * num_elements) % 4 == 0
            },
            IrType::Struct { element_types, is_packed } => !is_packed ==> int_field_words_ok(
                element_types@,
            ),
            _ => true,
        },
        Constant::Vector(elems) => {
            &&& byte_prefix_ok(elems@)
            &&& word_prefix_ok(elems@, elems@.len(), g, tys, n)
            &&& dword_prefix_ok(elems@)
        },
        Constant::ICmp { predicate, operand0, operand1 } => {
            let a = eval_const_spec(*operand0, g, tys, n);
            &&& eval_const_ok(*operand0, g, tys, n)
            &&& a.0 is Const
            &&& eval_const_ok(*operand1, g, tys, a.1)
            &&& eval_const_spec(*operand1, g, tys, a.1).0 is Const
            &&& predicate == IntPredicate::NE
        },
        Constant::Select { condition, true_value, false_value } => {
            &&& select_cond_ok(*condition, g)
            &&& if select_cond(*condition, g) {
                eval_const_ok(*true_value, g, tys, n)
            } else {
                eval_const_ok(*false_value, g, tys, n)
            }
        },
        _ => true,
    }
}

/// Whether the first `k` fields of a structure constant can be evaluated
/// in turn, each giving one command and one holder.
pub open spec fn struct_ok(
    vs: Seq<Constant>,
    k: nat,
    g: Seq<(LocalName, u32)>,
    tys: Types,
    n: nat,
) -> bool
    decreases vs, k,
{
    if k == 0 || k > vs.len() {
        true
    } else {
        let p = struct_words(vs, (k - 1) as nat, g, tys, n);
        let e = eval_const_spec(vs[k - 1], g, tys, p.2);
        let f = force_v(e.0, e.1);
        &&& struct_ok(vs, (k - 1) as nat, g, tys, n)
        &&& eval_const_ok(vs[k - 1], g, tys, p.2)
        &&& f.0.len() == 1
        &&& f.1.len() == 1
    }
}

/// Whether each element of a word-typed prefix of the first `k` elements
/// evaluates to a score.
pub open spec fn word_prefix_ok(
    vs: Seq<Constant>,
    k: nat,
    g: Seq<(LocalName, u32)>,
    tys: Types,
    n: nat,
) -> bool
    decreases vs, k,
{
    if k == 0 || k > vs.len() {
        true
    } else {
        &&& word_prefix_ok(vs, (k - 1) as nat, g, tys, n)
        &&& all_word_typed(vs.take(k as int)) ==> {
            &&& eval_const_ok(vs[k - 1], g, tys, n)
            &&& eval_const_spec(vs[k - 1], g, tys, n).0 is Const
        }
    }
}

/// Evaluation never moves the counter back, and a constant that evaluates
/// to a score leaves it where it was.
pub proof fn lemma_eval_counter(c: Constant, g: Seq<(LocalName, u32)>, tys: Types, n: nat)
    ensures
        eval_const_spec(c, g, tys, n).1 >= n,
        eval_const_ok(c, g, tys, n) && eval_const_spec(c, g, tys, n).0 is Const
            ==> eval_const_spec(c, g, tys, n).1 == n,
    decreases c, 0nat,
{
    match c {
        Constant::Struct { values, .. } => {
            lemma_struct_counter(values@, values@.len(), g, tys, n);
        },
        Constant::BitCast { operand, .. } => {
            lemma_eval_counter(*operand, g, tys, n);
        },
        Constant::IntToPtr { operand, .. } => {
            lemma_eval_counter(*operand, g, tys, n);
        },
        Constant::ICmp { operand0, operand1, .. } => {
            lemma_eval_counter(*operand0, g, tys, n);
            let a = eval_const_spec(*operand0, g, tys, n);
            lemma_eval_counter(*operand1, g, tys, a.1);
        },
        Constant::Select { condition, true_value, false_value } => {
            lemma_eval_counter(*true_value, g, tys, n);
            lemma_eval_counter(*false_value, g, tys, n);
        },
        _ => {},
    }
}

/// Evaluating more fields of a structure never moves the counter back.
pub proof fn lemma_struct_counter(
    vs: Seq<Constant>,
    k: nat,
    g: Seq<(LocalName, u32)>,
    tys: Types,
    n: nat,
)
    ensures
        struct_words(vs, k, g, tys, n).2 >= n,
        k <= vs.len() ==> forall|j: nat|
            j <= k ==> #[trigger] struct_words(vs, j, g, tys, n).2 <= struct_words(vs, k, g, tys, n).2,
    decreases vs, k,
{
    if k > 0 && k <= vs.len() {
        lemma_struct_counter(vs, (k - 1) as nat, g, tys, n);
        let p = struct_words(vs, (k - 1) as nat, g, tys, n);
        lemma_eval_counter(vs[k - 1], g, tys, p.2);
    }
}

proof fn lemma_word_prefix(
    vs: Seq<Constant>,
    k: nat,
    i: int,
    g: Seq<(LocalName, u32)>,
    tys: Types,
    n: nat,
)
    requires
        word_prefix_ok(vs, k, g, tys, n),
        k <= vs.len(),
        0 <= i < k,
        all_word_typed(vs),
    ensures
        eval_const_ok(vs[i], g, tys, n),
        eval_const_spec(vs[i], g, tys, n).0 is Const,
    decreases k,
{
    if i < k - 1 {
        lemma_word_prefix(vs, (k - 1) as nat, i, g, tys, n);
    } else {
        assert forall|j: int| 0 <= j < vs.take(k as int).len() implies is_word_typed(
            #[trigger] vs.take(k as int)[j],
        ) by {
            assert(vs.take(k as int)[j] == vs[j]);
        }
    }
}

proof fn lemma_struct_ok_prefix(
    vs: Seq<Constant>,
    j: nat,
    k: nat,
    g: Seq<(LocalName, u32)>,
    tys: Types,
    n: nat,
)
    requires
        j <= k <= vs.len(),
        struct_ok(vs, k, g, tys, n),
    ensures
        struct_ok(vs, j, g, tys, n),
    decreases k,
{
    if j < k {
        lemma_struct_ok_prefix(vs, j, (k - 1) as nat, g, tys, n);
    }
}

/// Whether the type of every constant of `vs` is an integer of `a` or of
/// `b` bits.
fn all_have_bits(vs: &Vec<Constant>, a: u32, b: u32) -> (r: bool)
    ensures
        r == (forall|i: int|
            0 <= i < vs@.len() ==> const_int_bits(#[trigger] vs@[i]) == Some(a) || const_int_bits(
                vs@[i],
            ) == Some(b)),
{
    let mut i: usize = 0;
    while i < vs.len()
        invariant
            i <= vs@.len(),
            forall|j: int|
                0 <= j < i ==> const_int_bits(#[trigger] vs@[j]) == Some(a) || const_int_bits(vs@[j])
                    == Some(b),
        decreases vs.len() - i,
    {
        let k = int_bits_of(&vs[i]);
        match k {
            Some(x) => {
                if x != a && x != b {
                    return false;
                }
            },
            None => {
                return false;
            },
        }
        i = i + 1;
    }
    true
}

/// Word `i` of `b`, least significant byte first.
fn le_word_of(b: &Vec<u8>, i: usize) -> (r: i32)
    requires
        4 * i + 3 < b@.len(),
    ensures
        r == le_word(b@, i as int),
{
    let n = b.len();
    assert(4 * i + 3 < n);
    let v: u32 = (b[4 * i] as u32) + (b[4 * i + 1] as u32) * 256 + (b[4 * i + 2] as u32) * 65536 + (b[4
        * i + 3] as u32) * 16777216;
    #[verifier::truncate]
    (v as i32)
}

/// Decides the condition of a constant select.
fn decide_select(cond: &Constant, globals: &GlobalTable) -> (r: bool)
    requires
        select_cond_ok(*cond, globals.addrs@),
    ensures
        r == select_cond(*cond, globals.addrs@),
{
    match cond {
        Constant::ICmp { predicate, operand0, .. } => match &**operand0 {
            Constant::BitCast { operand, .. } => match &**operand {
                Constant::GlobalReference { name, .. } => {
                    let v = match globals.lookup(name) {
                        Some(a) => a,
                        None => 0,
                    };
                    match predicate {
                        IntPredicate::ULE => v == 0,
                        _ => v != 0,
                    }
                },
                _ => false,
            },
            _ => false,
        },
        _ => false,
    }
}

/// The value of a constant: a score, or commands that set the holders that
/// carry it. Fresh temporaries come from `counter`.
pub fn eval_constant(
    con: &Constant,
    globals: &GlobalTable,
    tys: &Types,
    counter: &mut TempCounter,
) -> (r: MaybeConst)
    requires
        eval_const_ok(*con, globals.addrs@, *tys, old(counter).next as nat),
        eval_const_spec(*con, globals.addrs@, *tys, old(counter).next as nat).1 <= u32::MAX,
    ensures
        (r@, final(counter).next as nat) == eval_const_spec(
            *con,
            globals.addrs@,
            *tys,
            old(counter).next as nat,
        ),
    decreases con, 1nat,
{
    let ghost g = globals.addrs@;
    let ghost n = counter.next as nat;
    match con {
        Constant::GlobalReference { name, .. } => {
            let addr = match globals.lookup(name) {
                Some(a) => a,
                None => 0,
            };
            if addr == u32::MAX {
                match name {
                    LocalName::Name(s) => {
                        let text = crate::text::join(s.as_str(), FUNC_REF_SUFFIX);
                        let h = ScoreHolder::from_valid(text);
                        let hs = vec![h];
                        let empty: Vec<Command> = Vec::new();
                        assert(hs@.map_values(|x: ScoreHolder| x@) =~= seq![h@]);
                        assert(commands_view(empty@) =~= Seq::<CommandV>::empty());
                        MaybeConst::NonConst(empty, hs)
                    },
                    LocalName::Number(_) => MaybeConst::Const(0),
                }
            } else {
                MaybeConst::Const(addr as i32)
            }
        },
        Constant::PtrToInt { operand, .. } => match &**operand {
            Constant::GlobalReference { name, .. } => {
                let addr = match globals.lookup(name) {
                    Some(a) => a,
                    None => 0,
                };
                MaybeConst::Const(addr as i32)
            },
            Constant::GetElementPtr { address, indices, in_bounds } => {
                let v = getelementptr_const(&**address, indices, *in_bounds, globals, tys);
                MaybeConst::Const(v as i32)
            },
            _ => MaybeConst::Const(0),
        },
        Constant::Int { bits, value } => eval_int(*bits, *value, counter),
        Constant::Struct { .. } => eval_struct(con, globals, tys, counter),
        Constant::BitCast { operand, .. } => eval_constant(&**operand, globals, tys, counter),
        Constant::IntToPtr { operand, .. } => eval_constant(&**operand, globals, tys, counter),
        Constant::Undef(ty) => {
            let l = type_layout(ty, tys);
            let num = get_unique_num(counter);
            let zs = zero_vec((l.size + 3) / 4);
            set_words(num, &zs)
        },
        Constant::GetElementPtr { address, indices, in_bounds } => {
            let v = getelementptr_const(&**address, indices, *in_bounds, globals, tys);
            MaybeConst::Const(v as i32)
        },
        Constant::Null => MaybeConst::Const(0),
        Constant::AggregateZero(t) => match t {
            IrType::Vector { element_type, num_elements } => {
                let l = type_layout(&**element_type, tys);
                let size = l.size * *num_elements;
                let num = get_unique_num(counter);
                let zs = zero_vec(size / 4);
                set_words(num, &zs)
            },
            IrType::Struct { element_types, is_packed } => {
                if !*is_packed {
                    let num = get_unique_num(counter);
                    let ghost ts = element_types@;
                    let mut size: u32 = 0;
                    let mut k: usize = 0;
                    while k < element_types.len()
                        invariant
                            ts == element_types@,
                            k <= ts.len(),
                            int_field_words_ok(ts),
                            size as int == int_field_words(ts.take(k as int)),
                        decreases ts.len() - k,
                    {
                        assert(ts.take(k + 1).drop_last() =~= ts.take(k as int));
                        proof {
                            lemma_field_words_prefix(ts, (k + 1) as nat);
                        }
                        match &element_types[k] {
                            IrType::Integer { bits } => {
                                size = size + (*bits + 31) / 32;
                            },
                            _ => {},
                        }
                        k = k + 1;
                    }
                    assert(ts.take(ts.len() as int) =~= ts);
                    let zs = zero_vec(size as usize);
                    set_words(num, &zs)
                } else {
                    MaybeConst::Const(0)
                }
            },
            _ => MaybeConst::Const(0),
        },
        Constant::Vector(_) => eval_vector(con, globals, tys, counter),
        Constant::ICmp { operand0, operand1, .. } => {
            let ghost a = eval_const_spec(**operand0, g, *tys, n);
            proof {
                lemma_eval_counter(**operand1, g, *tys, a.1);
            }
            let x = match eval_constant(&**operand0, globals, tys, counter) {
                MaybeConst::Const(x) => x,
                MaybeConst::NonConst(..) => 0,
            };
            let y = match eval_constant(&**operand1, globals, tys, counter) {
                MaybeConst::Const(y) => y,
                MaybeConst::NonConst(..) => 0,
            };
            MaybeConst::Const(
                if x != y {
                    1
                } else {
                    0
                },
            )
        },
        Constant::Select { condition, true_value, false_value } => {
            if decide_select(&**condition, globals) {
                eval_constant(&**true_value, globals, tys, counter)
            } else {
                eval_constant(&**false_value, globals, tys, counter)
            }
        },
        Constant::Float32(bits) => MaybeConst::Const(*bits as i32),
        Constant::Float64(bits) => {
            let num = get_unique_num(counter);
            let vals = vec![*bits as i32, (*bits >> 32u64) as i32];
            set_words(num, &vals)
        },
        Constant::Array { .. } => MaybeConst::Const(0),
        Constant::Other { .. } => MaybeConst::Const(0),
    }
}

/// A vector of byte constants.
fn vector_of_bytes(elems: &Vec<Constant>, counter: &mut TempCounter) -> (r: MaybeConst)
    requires
        all_byte_typed(elems@),
        byte_prefix_ok(elems@),
        bytes_vector_v(elems@, old(counter).next as nat).1 <= u32::MAX,
    ensures
        (r@, final(counter).next as nat) == bytes_vector_v(elems@, old(counter).next as nat),
{
    let ghost es = elems@;
    let len = elems.len();
        let mut bytes: Vec<u8> = Vec::new();
        let mut i: usize = 0;
        while i < len
            invariant
                es == elems@,
                len == es.len(),
                i <= len,
                all_byte_typed(es),
                byte_prefix_ok(es),
                bytes@ == const_bytes(es.take(i as int)),
            decreases len - i,
        {
            assert(all_byte_typed(es.take(i + 1))) by {
                assert forall|j: int| 0 <= j < es.take(i + 1).len() implies is_byte_typed(
                    #[trigger] es.take(i + 1)[j],
                ) by {
                    assert(es.take(i + 1)[j] == es[j]);
                }
            }
            match &elems[i] {
                Constant::Int { value, .. } => {
                    bytes.push(*value as u8);
                },
                _ => {},
            }
            assert(bytes@ =~= const_bytes(es.take(i + 1)));
            i = i + 1;
        }
        assert(es.take(len as int) =~= es);
        if len == 4 {
            MaybeConst::Const(le_word_of(&bytes, 0))
        } else if len % 4 == 0 {
            let num = get_unique_num(counter);
            let mut vals: Vec<i32> = Vec::new();
            let mut k: usize = 0;
            while k < len / 4
                invariant
                    len == es.len(),
                    len % 4 == 0,
                    bytes@ == const_bytes(es),
                    k <= len / 4,
                    vals@ == Seq::new(k as nat, |j: int| le_word(bytes@, j)),
                decreases len / 4 - k,
            {
                let v = le_word_of(&bytes, k);
                vals.push(v);
                k = k + 1;
                assert(vals@ =~= Seq::new(k as nat, |j: int| le_word(bytes@, j)));
            }
            set_words(num, &vals)
        } else {
            MaybeConst::Const(0)
        }
}

/// A vector of 64-bit integer constants.
fn vector_of_dwords(elems: &Vec<Constant>, counter: &mut TempCounter) -> (r: MaybeConst)
    requires
        all_dword_typed(elems@),
        dword_prefix_ok(elems@),
        old(counter).next < u32::MAX,
    ensures
        r@ == words_v(old(counter).next as nat, dword_scores(elems@)),
        final(counter).next == old(counter).next + 1,
{
    let ghost es = elems@;
    let len = elems.len();
        let mut vals: Vec<i32> = Vec::new();
        let mut i: usize = 0;
        while i < len
            invariant
                es == elems@,
                len == es.len(),
                i <= len,
                vals@.len() == 2 * i,
                forall|j: int|
                    0 <= j < i ==> vals@[2 * j] == int_value(#[trigger] es[j]) as i32
                        && vals@[2 * j + 1] == (int_value(es[j]) >> 32u64) as i32,
            decreases len - i,
        {
            let v: u64 = match &elems[i] {
                Constant::Int { value, .. } => *value,
                _ => 0,
            };
            vals.push(v as i32);
            vals.push((v >> 32u64) as i32);
            i = i + 1;
        }
        assert forall|k: int| 0 <= k < vals@.len() implies vals@[k] == dword_scores(es)[k] by {
            let j = k / 2;
            assert(es[j] == es[j]);
            if k % 2 == 0 {
                assert(k == 2 * j);
            } else {
                assert(k == 2 * j + 1);
            }
        }
        assert(vals@ =~= dword_scores(es));
        let num = get_unique_num(counter);
        set_words(num, &vals)
}

/// The words of a structure constant: each field evaluated and forced into
/// one holder in turn.
fn eval_struct(
    con: &Constant,
    globals: &GlobalTable,
    tys: &Types,
    counter: &mut TempCounter,
) -> (r: MaybeConst)
    requires
        *con is Struct,
        eval_const_ok(*con, globals.addrs@, *tys, old(counter).next as nat),
        eval_const_spec(*con, globals.addrs@, *tys, old(counter).next as nat).1 <= u32::MAX,
    ensures
        (r@, final(counter).next as nat) == eval_const_spec(
            *con,
            globals.addrs@,
            *tys,
            old(counter).next as nat,
        ),
    decreases con, 0nat,
{
    let ghost g = globals.addrs@;
    let ghost n = counter.next as nat;
    match con {
        Constant::Struct { values, .. } => {
            let ghost vs = values@;
            let mut cmds: Vec<Command> = Vec::new();
            let mut words: Vec<ScoreHolder> = Vec::new();
            let mut i: usize = 0;
            proof {
                lemma_struct_counter(vs, vs.len(), g, *tys, n);
            }
            assert(decreases_to!(*con => *values));
            while i < values.len()
                invariant
                    decreases_to!(*con => *values),
                    vs == values@,
                    g == globals.addrs@,
                    i <= vs.len(),
                    struct_ok(vs, vs.len(), g, *tys, n),
                    struct_words(vs, vs.len(), g, *tys, n).2 <= u32::MAX,
                    forall|j: nat|
                        j <= vs.len() ==> #[trigger] struct_words(vs, j, g, *tys, n).2 <= struct_words(
                            vs,
                            vs.len(),
                            g,
                            *tys,
                            n,
                        ).2,
                    (commands_view(cmds@), words@.map_values(|x: ScoreHolder| x@), counter.next as nat)
                        == struct_words(vs, i as nat, g, *tys, n),
                decreases vs.len() - i,
            {
                let ghost p = struct_words(vs, i as nat, g, *tys, n);
                proof {
                    lemma_struct_ok_prefix(vs, (i + 1) as nat, vs.len(), g, *tys, n);
                    lemma_eval_counter(vs[i as int], g, *tys, p.2);
                    assert(struct_words(vs, (i + 1) as nat, g, *tys, n).2 <= struct_words(
                        vs,
                        vs.len(),
                        g,
                        *tys,
                        n,
                    ).2);
                }
                assert(decreases_to!(*values => values[i as int]));
                let m = eval_constant(&values[i], globals, tys, counter);
                let (mut c, mut w) = m.force_eval(counter);
                let ghost cv = commands_view(cmds@);
                let ghost wv = words@.map_values(|x: ScoreHolder| x@);
                let ghost c1 = commands_view(c@);
                let ghost w1 = w@.map_values(|x: ScoreHolder| x@);
                cmds.append(&mut c);
                words.append(&mut w);
                assert(commands_view(cmds@) =~= cv + c1);
                assert(words@.map_values(|x: ScoreHolder| x@) =~= wv + w1);
                i = i + 1;
            }
            MaybeConst::NonConst(cmds, words)
        },
        _ => MaybeConst::Const(0),
    }
}

/// A vector constant: bytes packed four to a word, words, or 64-bit
/// integers split into their low and high words.
fn eval_vector(
    con: &Constant,
    globals: &GlobalTable,
    tys: &Types,
    counter: &mut TempCounter,
) -> (r: MaybeConst)
    requires
        *con is Vector,
        eval_const_ok(*con, globals.addrs@, *tys, old(counter).next as nat),
        eval_const_spec(*con, globals.addrs@, *tys, old(counter).next as nat).1 <= u32::MAX,
    ensures
        (r@, final(counter).next as nat) == eval_const_spec(
            *con,
            globals.addrs@,
            *tys,
            old(counter).next as nat,
        ),
    decreases con, 0nat,
{
    let ghost g = globals.addrs@;
    let ghost n = counter.next as nat;
    match con {
        Constant::Vector(elems) => {
            let ghost es = elems@;
            let len = elems.len();
            if all_have_bits(elems, 8, 1) {
                vector_of_bytes(elems, counter)
            } else if all_have_bits(elems, 32, 32) {
                let mut scores: Vec<i32> = Vec::new();
                let mut i: usize = 0;
                proof {
                    lemma_eval_counter(*con, g, *tys, n);
                }
                assert(decreases_to!(*con => *elems));
                while i < len
                    invariant
                        decreases_to!(*con => *elems),
                        es == elems@,
                        g == globals.addrs@,
                        len == es.len(),
                        i <= len,
                        all_word_typed(es),
                        word_prefix_ok(es, es.len(), g, *tys, n),
                        n + 1 <= u32::MAX,
                        counter.next as nat == n,
                        scores@ == word_scores(es, i as nat, g, *tys, n),
                    decreases len - i,
                {
                    proof {
                        lemma_word_prefix(es, es.len(), i as int, g, *tys, n);
                        lemma_eval_counter(es[i as int], g, *tys, n);
                    }
                    assert(decreases_to!(*elems => elems[i as int]));
                    let m = eval_constant(&elems[i], globals, tys, counter);
                    match m {
                        MaybeConst::Const(x) => {
                            scores.push(x);
                        },
                        MaybeConst::NonConst(..) => {},
                    }
                    i = i + 1;
                }
                let num = get_unique_num(counter);
                set_words(num, &scores)
            } else if all_have_bits(elems, 64, 64) {
                vector_of_dwords(elems, counter)
            } else {
                MaybeConst::Const(0)
            }
        },
        _ => MaybeConst::Const(0),
    }
}

proof fn lemma_field_words_prefix(ts: Seq<IrType>, k: nat)
    requires
        k <= ts.len(),
        int_field_words_ok(ts),
    ensures
        0 <= int_field_words(ts.take(k as int)) <= int_field_words(ts),
    decreases ts.len(),
{
    lemma_field_words_nonneg(ts);
    if k < ts.len() {
        assert(ts.drop_last().take(k as int) =~= ts.take(k as int));
        assert forall|i: int| 0 <= i < ts.drop_last().len() implies (#[trigger] ts.drop_last()[i] matches IrType::Integer { bits } ==> bits + 31 <= u32::MAX) by {
            assert(ts.drop_last()[i] == ts[i]);
        }
        lemma_field_words_nonneg(ts.drop_last());
        assert(int_field_words(ts.drop_last()) <= int_field_words(ts));
        lemma_field_words_prefix(ts.drop_last(), k);
    } else {
        assert(ts.take(k as int) =~= ts);
    }
}

proof fn lemma_field_words_nonneg(ts: Seq<IrType>)
    ensures
        int_field_words(ts) >= 0,
    decreases ts.len(),
{
    if ts.len() > 0 {
        lemma_field_words_nonneg(ts.drop_last());
    }
}

} // verus!
