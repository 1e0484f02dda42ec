//! Static data: where the global variables live, the zero value of a
//! type, and the commands that write initial values into memory.
use vstd::prelude::*;
use crate::cir::{Command, CommandV, ScoreHolder, commands_view};
use crate::constants::{
    Constant, GlobalTable, eval_const_ok, eval_const_spec, eval_constant, global_addr, table_map,
};
use crate::gep::fits_i32;
use crate::layout::{
    IrType, NamedStruct, Types, array_offset_spec, find_named, lay, layout_fits, layout_of,
    named_def, offset_of_ok, offset_of_spec, repeat, size_limit, type_layout, type_layout_spec,
};
use crate::locals::{LocalName, LocalNameV, clean, clean_text};
use crate::memory::{
    MaybeConst, MaybeConstV, ROW_SIZE, StaticAllocator, TempCounter, address_ok, lemma_round_up4,
    round_up4, set_memory, set_memory_v,
};
use crate::starts::{Alias, AliasV};
use crate::registers::{assign_lit, cmd_count, const_holder, const_holder_name, set_v};

verus! {

/// A global variable: its name, its type (a pointer to the type of its
/// value) and its initial value, when it is defined here.
pub struct GlobalVariable {
    pub name: LocalName,
    pub ty: IrType,
    pub initializer: Option<Constant>,
}

/// Whether two types are the same, element by element.
pub open spec fn type_eq(a: IrType, b: IrType) -> bool
    decreases a,
{
    match a {
        IrType::Integer { bits } => b == (IrType::Integer { bits }),
        IrType::Struct { element_types, is_packed } => match b {
            IrType::Struct { element_types: others, is_packed: p } => {
                &&& p == is_packed
                &&& others@.len() == element_types@.len()
                &&& forall|i: int|
                    0 <= i < element_types@.len() ==> type_eq(
                        #[trigger] element_types@[i],
                        others@[i],
                    )
            },
            _ => false,
        },
        IrType::NamedStruct { name } => match b {
            IrType::NamedStruct { name: other } => other@ == name@,
            _ => false,
        },
        IrType::Vector { element_type, num_elements } => match b {
            IrType::Vector { element_type: other, num_elements: n } => n == num_elements && type_eq(
                *element_type,
                *other,
            ),
            _ => false,
        },
        IrType::Array { element_type, num_elements } => match b {
            IrType::Array { element_type: other, num_elements: n } => n == num_elements && type_eq(
                *element_type,
                *other,
            ),
            _ => false,
        },
        IrType::Pointer { pointee, addr_space } => match b {
            IrType::Pointer { pointee: other, addr_space: s } => s == addr_space && type_eq(
                *pointee,
                *other,
            ),
            _ => false,
        },
        IrType::Void => b is Void,
        IrType::FP(k) => b == IrType::FP(k),
        IrType::Other => b is Other,
    }
}

/// A copy of a type.
pub fn copy_type(t: &IrType) -> (r: IrType)
    ensures
        type_eq(*t, r),
    decreases *t,
{
    match t {
        IrType::Integer { bits } => IrType::Integer { bits: *bits },
        IrType::Struct { element_types, is_packed } => {
            let mut out: Vec<IrType> = Vec::new();
            assert(decreases_to!(*t => *element_types));
            let mut i: usize = 0;
            while i < element_types.len()
                invariant
                    i <= element_types@.len(),
                    out@.len() == i,
                    decreases_to!(*t => *element_types),
                    forall|j: int| 0 <= j < i ==> type_eq(#[trigger] element_types@[j], out@[j]),
                decreases element_types.len() - i,
            {
                assert(decreases_to!(*element_types => element_types[i as int]));
                let e = copy_type(&element_types[i]);
                out.push(e);
                i = i + 1;
            }
            IrType::Struct { element_types: out, is_packed: *is_packed }
        },
        IrType::NamedStruct { name } => IrType::NamedStruct { name: name.clone() },
        IrType::Vector { element_type, num_elements } => IrType::Vector {
            element_type: Box::new(copy_type(&**element_type)),
            num_elements: *num_elements,
        },
        IrType::Array { element_type, num_elements } => IrType::Array {
            element_type: Box::new(copy_type(&**element_type)),
            num_elements: *num_elements,
        },
        IrType::Pointer { pointee, addr_space } => IrType::Pointer {
            pointee: Box::new(copy_type(&**pointee)),
            addr_space: *addr_space,
        },
        IrType::Void => IrType::Void,
        IrType::FP(k) => IrType::FP(*k),
        IrType::Other => IrType::Other,
    }
}

/// Whether two types are the same, element by element.
pub fn same_type(a: &IrType, b: &IrType) -> (r: bool)
    ensures
        r == type_eq(*a, *b),
    decreases *a,
{
    match (a, b) {
        (IrType::Integer { bits: x }, IrType::Integer { bits: y }) => *x == *y,
        (IrType::FP(x), IrType::FP(y)) => *x == *y,
        (IrType::Void, IrType::Void) => true,
        (IrType::Other, IrType::Other) => true,
        (IrType::NamedStruct { name: x }, IrType::NamedStruct { name: y }) => crate::text::str_eq(
            y.as_str(),
            x.as_str(),
        ),
        (
            IrType::Vector { element_type: e1, num_elements: n1 },
            IrType::Vector { element_type: e2, num_elements: n2 },
        ) => *n1 == *n2 && same_type(&**e1, &**e2),
        (
            IrType::Array { element_type: e1, num_elements: n1 },
            IrType::Array { element_type: e2, num_elements: n2 },
        ) => *n1 == *n2 && same_type(&**e1, &**e2),
        (
            IrType::Pointer { pointee: p1, addr_space: s1 },
            IrType::Pointer { pointee: p2, addr_space: s2 },
        ) => *s2 == *s1 && same_type(&**p1, &**p2),
        (
            IrType::Struct { element_types: e1, is_packed: p1 },
            IrType::Struct { element_types: e2, is_packed: p2 },
        ) => {
            if *p2 != *p1 || e2.len() != e1.len() {
                return false;
            }
            assert(decreases_to!(*a => *e1));
            assert(type_eq(*a, *b) == forall|k: int|
                0 <= k < e1@.len() ==> type_eq(#[trigger] e1@[k], e2@[k]));
            let mut i: usize = 0;
            while i < e1.len()
                invariant
                    e1@.len() == e2@.len(),
                    i <= e1@.len(),
                    decreases_to!(*a => *e1),
                    type_eq(*a, *b) == forall|k: int|
                        0 <= k < e1@.len() ==> type_eq(#[trigger] e1@[k], e2@[k]),
                    forall|k: int| 0 <= k < i ==> type_eq(#[trigger] e1@[k], e2@[k]),
                decreases e1@.len() - i,
            {
                assert(decreases_to!(*e1 => e1[i as int]));
                if !same_type(&e1[i], &e2[i]) {
                    assert(!type_eq(e1@[i as int], e2@[i as int]));
                    return false;
                }
                i = i + 1;
            }
            true
        },
        _ => false,
    }
}

/// Whether a type has a zero value: integers, pointers, and structures,
/// arrays and defined named structures (followed at most `fuel` deep) of
/// such types.
pub open spec fn zero_ok(t: IrType, named: Seq<NamedStruct>, fuel: nat) -> bool
    decreases fuel, t,
{
    match t {
        IrType::Integer { .. } => true,
        IrType::Pointer { .. } => true,
        IrType::Struct { element_types, .. } => forall|i: int|
            0 <= i < element_types@.len() ==> zero_ok(#[trigger] element_types@[i], named, fuel),
        IrType::Array { element_type, .. } => zero_ok(*element_type, named, fuel),
        IrType::NamedStruct { name } => fuel > 0 && match named_def(named, name@) {
            Some(Some(def)) => zero_ok(def, named, (fuel - 1) as nat),
            _ => false,
        },
        _ => false,
    }
}

/// Whether `c` is the zero value of `t`: a zero integer of the same
/// width, a 32-bit zero for a pointer, and a structure or array of zeros
/// shaped as the type; a named structure has the zero of its definition.
pub open spec fn is_zero_of(c: Constant, t: IrType, named: Seq<NamedStruct>, fuel: nat) -> bool
    decreases fuel, t,
{
    match t {
        IrType::Integer { bits } => c == (Constant::Int { bits, value: 0 }),
        IrType::Pointer { .. } => c == (Constant::Int { bits: 32, value: 0 }),
        IrType::Struct { element_types, is_packed } => match c {
            Constant::Struct { values, is_packed: p } => {
                &&& p == is_packed
                &&& values@.len() == element_types@.len()
                &&& forall|i: int|
                    0 <= i < element_types@.len() ==> is_zero_of(
                        values@[i],
                        #[trigger] element_types@[i],
                        named,
                        fuel,
                    )
            },
            _ => false,
        },
        IrType::Array { element_type, num_elements } => match c {
            Constant::Array { element_type: et, elements } => {
                &&& type_eq(*element_type, et)
                &&& elements@.len() == num_elements
                &&& forall|i: int|
                    0 <= i < elements@.len() ==> is_zero_of(
                        #[trigger] elements@[i],
                        *element_type,
                        named,
                        fuel,
                    )
            },
            _ => false,
        },
        IrType::NamedStruct { name } => fuel > 0 && match named_def(named, name@) {
            Some(Some(def)) => is_zero_of(c, def, named, (fuel - 1) as nat),
            _ => false,
        },
        _ => false,
    }
}

fn zeroed_rec(ty: &IrType, tys: &Types, fuel: usize) -> (r: Constant)
    requires
        zero_ok(*ty, tys.named@, fuel as nat),
    ensures
        is_zero_of(r, *ty, tys.named@, fuel as nat),
    decreases fuel, *ty,
{
    match ty {
        IrType::Integer { bits } => Constant::Int { bits: *bits, value: 0 },
        IrType::Pointer { .. } => Constant::Int { bits: 32, value: 0 },
        IrType::Struct { element_types, is_packed } => {
            let mut values: Vec<Constant> = Vec::new();
            assert(decreases_to!(*ty => *element_types));
            assert(forall|j: int|
                0 <= j < element_types@.len() ==> zero_ok(
                    #[trigger] element_types@[j],
                    tys.named@,
                    fuel as nat,
                ));
            let mut i: usize = 0;
            while i < element_types.len()
                invariant
                    i <= element_types@.len(),
                    values@.len() == i,
                    forall|j: int|
                        0 <= j < element_types@.len() ==> zero_ok(
                            #[trigger] element_types@[j],
                            tys.named@,
                            fuel as nat,
                        ),
                    *ty == (IrType::Struct { element_types: *element_types, is_packed: *is_packed }),
                    decreases_to!(*ty => *element_types),
                    forall|j: int|
                        0 <= j < i ==> is_zero_of(
                            values@[j],
                            #[trigger] element_types@[j],
                            tys.named@,
                            fuel as nat,
                        ),
                decreases element_types.len() - i,
            {
                assert(decreases_to!(*element_types => element_types[i as int]));
                let z = zeroed_rec(&element_types[i], tys, fuel);
                values.push(z);
                i = i + 1;
            }
            Constant::Struct { values, is_packed: *is_packed }
        },
        IrType::Array { element_type, num_elements } => {
            let mut elements: Vec<Constant> = Vec::new();
            assert(decreases_to!(*ty => **element_type));
            let mut i: usize = 0;
            while i < *num_elements
                invariant
                    i <= *num_elements,
                    elements@.len() == i,
                    decreases_to!(*ty => **element_type),
                    zero_ok(**element_type, tys.named@, fuel as nat),
                    forall|j: int|
                        0 <= j < i ==> is_zero_of(
                            #[trigger] elements@[j],
                            **element_type,
                            tys.named@,
                            fuel as nat,
                        ),
                decreases *num_elements - i,
            {
                let z = zeroed_rec(&**element_type, tys, fuel);
                elements.push(z);
                i = i + 1;
            }
            Constant::Array { element_type: copy_type(&**element_type), elements }
        },
        IrType::NamedStruct { name } => {
            let k = find_named(&tys.named, name.as_str()).unwrap();
            match &tys.named[k].def {
                Some(def) => zeroed_rec(def, tys, fuel - 1),
                None => Constant::Null,
            }
        },
        _ => Constant::Null,
    }
}

/// The zero value of a type.
pub fn make_zeroed(ty: &IrType, tys: &Types) -> (r: Constant)
    requires
        zero_ok(*ty, tys.named@, tys.named@.len()),
    ensures
        is_zero_of(r, *ty, tys.named@, tys.named@.len()),
{
    zeroed_rec(ty, tys, tys.named.len())
}

// ----------------------------------------------------------------------
// Initial bytes of static data
// ----------------------------------------------------------------------

/// The first `count` little-endian bytes of `w`, at consecutive addresses
/// from `start`.
pub open spec fn le_bytes(start: int, w: nat, count: nat) -> Seq<(i32, u8)>
    decreases count,
{
    if count == 0 {
        Seq::empty()
    } else {
        seq![(start as i32, (w % 256) as u8)] + le_bytes(start + 1, w / 256, (count - 1) as nat)
    }
}

/// The number of elements of a structure or array type.
pub open spec fn elem_count(t: IrType) -> nat {
    match t {
        IrType::Struct { element_types, .. } => element_types@.len(),
        IrType::Array { num_elements, .. } => num_elements as nat,
        _ => 0,
    }
}

/// The bytes of a scalar of `count` bytes whose value is the constant
/// `value`, and the counter after evaluating it; `None` when the constant
/// does not evaluate to a score, or a byte's value is out of range.
pub open spec fn scalar_data(
    start: int,
    value: Constant,
    g: Seq<(LocalName, u32)>,
    tys: Types,
    n: nat,
    count: nat,
) -> Option<(Seq<(i32, u8)>, nat)> {
    let e = eval_const_spec(value, g, tys, n);
    if eval_const_ok(value, g, tys, n) && e.1 <= u32::MAX && fits_i32(start + count - 1) {
        match e.0 {
            MaybeConstV::Const(c) => if count == 1 && !(-128 <= c <= 127) {
                None
            } else {
                Some((le_bytes(start, (c as u32) as nat, count), e.1))
            },
            _ => None,
        }
    } else {
        None
    }
}

/// The address of an element that lies `off` bytes into data at `start`.
pub open spec fn at_offset(start: int, off: int) -> int {
    start + ((off as i32) as int)
}

/// The initial bytes of data of type `ty` at `start` holding `value`,
/// in the order they are written, and the counter after the constants
/// evaluated on the way; named structures are followed at most `fuel`
/// deep. `None` where the value does not fit the type or the data cannot
/// be laid out.
pub open spec fn data_of(
    start: int,
    ty: IrType,
    value: Constant,
    g: Seq<(LocalName, u32)>,
    tys: Types,
    fuel: nat,
    n: nat,
) -> Option<(Seq<(i32, u8)>, nat)>
    decreases fuel, ty, elem_count(ty) + 1,
{
    let named = tys.named@;
    match value {
        Constant::AggregateZero(t) => match zero_data(start, ty, t, named, fuel, named.len()) {
            Some(b) => Some((b, n)),
            None => None,
        },
        _ => match ty {
            IrType::Integer { bits } => if bits == 64 {
                match value {
                    Constant::Int { bits: 64, value: v } => if fits_i32(start + 7) {
                        Some((le_bytes(start, v as nat, 8), n))
                    } else {
                        None
                    },
                    _ => None,
                }
            } else if bits == 8 || bits == 16 || bits == 32 {
                scalar_data(start, value, g, tys, n, (bits / 8) as nat)
            } else {
                None
            },
            IrType::Pointer { .. } => scalar_data(start, value, g, tys, n, 4),
            IrType::Array { element_type, num_elements } => match value {
                Constant::Array { element_type: et, elements } => if type_eq(*element_type, et)
                    && elements@.len() == num_elements {
                    array_data(start, ty, elements@, num_elements as nat, g, tys, fuel, n)
                } else {
                    None
                },
                _ => None,
            },
            IrType::NamedStruct { name } => if fuel == 0 {
                None
            } else {
                match named_def(named, name@) {
                    Some(Some(def)) => data_of(start, def, value, g, tys, (fuel - 1) as nat, n),
                    _ => None,
                }
            },
            IrType::Struct { element_types, is_packed } => match value {
                Constant::Struct { values, is_packed: p } => if p == is_packed && values@.len()
                    == element_types@.len() {
                    fields_data(start, ty, values@, element_types@.len(), g, tys, fuel, n)
                } else {
                    None
                },
                _ => None,
            },
            _ => None,
        },
    }
}

/// The bytes of the first `k` elements of an array of type `ty` at
/// `start`, the elements holding `elems`.
pub open spec fn array_data(
    start: int,
    ty: IrType,
    elems: Seq<Constant>,
    k: nat,
    g: Seq<(LocalName, u32)>,
    tys: Types,
    fuel: nat,
    n: nat,
) -> Option<(Seq<(i32, u8)>, nat)>
    decreases fuel, ty, k,
{
    let named = tys.named@;
    match ty {
        IrType::Array { element_type, .. } => if k == 0 {
            Some((Seq::empty(), n))
        } else {
            match array_data(start, ty, elems, (k - 1) as nat, g, tys, fuel, n) {
                Some(p) => {
                    let l = type_layout_spec(*element_type, tys);
                    if k - 1 < u32::MAX && layout_fits(*element_type, named, named.len()) && repeat(
                        lay(0, 1),
                        l.unwrap(),
                        k,
                    ).size <= size_limit() {
                        let addr = at_offset(start, array_offset_spec(l.unwrap(), (k - 1) as nat));
                        if fits_i32(addr) && k - 1 < elems.len() {
                            match data_of(addr, *element_type, elems[k - 1], g, tys, fuel, p.1) {
                                Some(e) => Some((p.0 + e.0, e.1)),
                                None => None,
                            }
                        } else {
                            None
                        }
                    } else {
                        None
                    }
                },
                None => None,
            }
        },
        _ => None,
    }
}

/// The bytes of the first `k` fields of a structure of type `ty` at
/// `start`, the fields holding `vals`.
pub open spec fn fields_data(
    start: int,
    ty: IrType,
    vals: Seq<Constant>,
    k: nat,
    g: Seq<(LocalName, u32)>,
    tys: Types,
    fuel: nat,
    n: nat,
) -> Option<(Seq<(i32, u8)>, nat)>
    decreases fuel, ty, k,
{
    let named = tys.named@;
    match ty {
        IrType::Struct { element_types, is_packed } => if k == 0 {
            Some((Seq::empty(), n))
        } else {
            match fields_data(start, ty, vals, (k - 1) as nat, g, tys, fuel, n) {
                Some(p) => if k - 1 < u32::MAX && k - 1 < element_types@.len() && k - 1 < vals.len()
                    && offset_of_ok(element_types, is_packed, (k - 1) as nat, named) {
                    let addr = at_offset(
                        start,
                        offset_of_spec(element_types, is_packed, (k - 1) as nat, named).unwrap(),
                    );
                    if fits_i32(addr) {
                        match data_of(addr, element_types@[k - 1], vals[k - 1], g, tys, fuel, p.1) {
                            Some(e) => Some((p.0 + e.0, e.1)),
                            None => None,
                        }
                    } else {
                        None
                    }
                } else {
                    None
                },
                None => None,
            }
        },
        _ => None,
    }
}

/// `t` with named structures replaced by their definitions, at most
/// `fuel` deep, and the fuel left.
pub open spec fn resolve_named(t: IrType, named: Seq<NamedStruct>, fuel: nat) -> Option<(IrType, nat)>
    decreases fuel,
{
    match t {
        IrType::NamedStruct { name } => if fuel == 0 {
            None
        } else {
            match named_def(named, name@) {
                Some(Some(def)) => resolve_named(def, named, (fuel - 1) as nat),
                _ => None,
            }
        },
        _ => Some((t, fuel)),
    }
}

/// Whether the zero value of `t` (already resolved) evaluates to a score.
pub open spec fn zero_scalar_ok(t: IrType, named: Seq<NamedStruct>, fuel: nat) -> bool {
    match t {
        IrType::Integer { bits } => !(bits == 48 || bits == 64 || bits == 128),
        IrType::Pointer { .. } => true,
        IrType::Array { .. } => zero_ok(t, named, fuel),
        _ => false,
    }
}

/// The initial bytes of data of type `ty` at `start` holding the zero
/// value of type `t`: zero bytes at every scalar of `ty`, where the shape
/// of `t` fits that of `ty`. Named structures of `ty` are followed at most
/// `fuel` deep, those of `t` at most `tfuel` deep.
pub open spec fn zero_data(
    start: int,
    ty: IrType,
    t: IrType,
    named: Seq<NamedStruct>,
    fuel: nat,
    tfuel: nat,
) -> Option<Seq<(i32, u8)>>
    decreases fuel, ty, elem_count(ty) + 1,
{
    match resolve_named(t, named, tfuel) {
        None => None,
        Some((rt, tf)) => match ty {
            IrType::Integer { bits } => if bits == 64 {
                if rt == (IrType::Integer { bits: 64 }) && fits_i32(start + 7) {
                    Some(le_bytes(start, 0, 8))
                } else {
                    None
                }
            } else if (bits == 8 || bits == 16 || bits == 32) && zero_scalar_ok(rt, named, tf)
                && fits_i32(start + bits / 8 - 1) {
                Some(le_bytes(start, 0, (bits / 8) as nat))
            } else {
                None
            },
            IrType::Pointer { .. } => if zero_scalar_ok(rt, named, tf) && fits_i32(start + 3) {
                Some(le_bytes(start, 0, 4))
            } else {
                None
            },
            IrType::Array { element_type, num_elements } => match rt {
                IrType::Array { element_type: et, num_elements: count } => if type_eq(
                    *element_type,
                    *et,
                ) && count == num_elements {
                    zero_array(start, ty, *et, num_elements as nat, named, fuel, tf)
                } else {
                    None
                },
                _ => None,
            },
            IrType::NamedStruct { name } => if fuel == 0 {
                None
            } else {
                match named_def(named, name@) {
                    Some(Some(def)) => zero_data(start, def, t, named, (fuel - 1) as nat, tfuel),
                    _ => None,
                }
            },
            IrType::Struct { element_types, is_packed } => match rt {
                IrType::Struct { element_types: ets, is_packed: p } => if p == is_packed
                    && ets@.len() == element_types@.len() {
                    zero_fields(start, ty, ets@, element_types@.len(), named, fuel, tf)
                } else {
                    None
                },
                _ => None,
            },
            _ => None,
        },
    }
}

/// The zero bytes of the first `k` elements of an array of type `ty` at
/// `start`, holding zeros of type `et`.
pub open spec fn zero_array(
    start: int,
    ty: IrType,
    et: IrType,
    k: nat,
    named: Seq<NamedStruct>,
    fuel: nat,
    tfuel: nat,
) -> Option<Seq<(i32, u8)>>
    decreases fuel, ty, k,
{
    match ty {
        IrType::Array { element_type, .. } => if k == 0 {
            Some(Seq::empty())
        } else {
            match zero_array(start, ty, et, (k - 1) as nat, named, fuel, tfuel) {
                Some(p) => {
                    let l = layout_of(*element_type, named, named.len());
                    if k - 1 < u32::MAX && layout_fits(*element_type, named, named.len()) && repeat(
                        lay(0, 1),
                        l.unwrap(),
                        k,
                    ).size <= size_limit() {
                        let addr = at_offset(start, array_offset_spec(l.unwrap(), (k - 1) as nat));
                        if fits_i32(addr) {
                            match zero_data(addr, *element_type, et, named, fuel, tfuel) {
                                Some(e) => Some(p + e),
                                None => None,
                            }
                        } else {
                            None
                        }
                    } else {
                        None
                    }
                },
                None => None,
            }
        },
        _ => None,
    }
}

/// The zero bytes of the first `k` fields of a structure of type `ty` at
/// `start`, holding zeros of the types `ets`.
pub open spec fn zero_fields(
    start: int,
    ty: IrType,
    ets: Seq<IrType>,
    k: nat,
    named: Seq<NamedStruct>,
    fuel: nat,
    tfuel: nat,
) -> Option<Seq<(i32, u8)>>
    decreases fuel, ty, k,
{
    match ty {
        IrType::Struct { element_types, is_packed } => if k == 0 {
            Some(Seq::empty())
        } else {
            match zero_fields(start, ty, ets, (k - 1) as nat, named, fuel, tfuel) {
                Some(p) => if k - 1 < u32::MAX && k - 1 < element_types@.len() && k - 1 < ets.len()
                    && offset_of_ok(element_types, is_packed, (k - 1) as nat, named) {
                    let addr = at_offset(
                        start,
                        offset_of_spec(element_types, is_packed, (k - 1) as nat, named).unwrap(),
                    );
                    if fits_i32(addr) {
                        match zero_data(addr, element_types@[k - 1], ets[k - 1], named, fuel, tfuel) {
                            Some(e) => Some(p + e),
                            None => None,
                        }
                    } else {
                        None
                    }
                } else {
                    None
                },
                None => None,
            }
        },
        _ => None,
    }
}

proof fn lemma_zero_array_prefix(
    start: int,
    ty: IrType,
    et: IrType,
    j: nat,
    k: nat,
    named: Seq<NamedStruct>,
    fuel: nat,
    tfuel: nat,
)
    requires
        j <= k,
        zero_array(start, ty, et, k, named, fuel, tfuel) is Some,
    ensures
        zero_array(start, ty, et, j, named, fuel, tfuel) is Some,
    decreases k,
{
    if j < k {
        lemma_zero_array_prefix(start, ty, et, j, (k - 1) as nat, named, fuel, tfuel);
    }
}

proof fn lemma_zero_fields_prefix(
    start: int,
    ty: IrType,
    ets: Seq<IrType>,
    j: nat,
    k: nat,
    named: Seq<NamedStruct>,
    fuel: nat,
    tfuel: nat,
)
    requires
        j <= k,
        zero_fields(start, ty, ets, k, named, fuel, tfuel) is Some,
    ensures
        zero_fields(start, ty, ets, j, named, fuel, tfuel) is Some,
    decreases k,
{
    if j < k {
        lemma_zero_fields_prefix(start, ty, ets, j, (k - 1) as nat, named, fuel, tfuel);
    }
}

proof fn lemma_array_data_prefix(
    start: int,
    ty: IrType,
    elems: Seq<Constant>,
    j: nat,
    k: nat,
    g: Seq<(LocalName, u32)>,
    tys: Types,
    fuel: nat,
    n: nat,
)
    requires
        j <= k,
        array_data(start, ty, elems, k, g, tys, fuel, n) is Some,
    ensures
        array_data(start, ty, elems, j, g, tys, fuel, n) is Some,
    decreases k,
{
    if j < k {
        lemma_array_data_prefix(start, ty, elems, j, (k - 1) as nat, g, tys, fuel, n);
    }
}

proof fn lemma_fields_data_prefix(
    start: int,
    ty: IrType,
    vals: Seq<Constant>,
    j: nat,
    k: nat,
    g: Seq<(LocalName, u32)>,
    tys: Types,
    fuel: nat,
    n: nat,
)
    requires
        j <= k,
        fields_data(start, ty, vals, k, g, tys, fuel, n) is Some,
    ensures
        fields_data(start, ty, vals, j, g, tys, fuel, n) is Some,
    decreases k,
{
    if j < k {
        lemma_fields_data_prefix(start, ty, vals, j, (k - 1) as nat, g, tys, fuel, n);
    }
}

/// Appends the first `count` little-endian bytes of `w` at consecutive
/// addresses from `start`.
fn push_le_bytes(out: &mut Vec<(i32, u8)>, start: i32, w: u64, count: u32)
    requires
        1 <= count <= 8,
        fits_i32(start + count - 1),
    ensures
        final(out)@ == old(out)@ + le_bytes(start as int, w as nat, count as nat),
{
    let ghost s0 = out@;
    let ghost whole = le_bytes(start as int, w as nat, count as nat);
    let mut x: u64 = w;
    let mut k: u32 = 0;
    while k < count
        invariant
            k <= count <= 8,
            fits_i32(start + count - 1),
            out@ + le_bytes(start + k, x as nat, (count - k) as nat) == s0 + whole,
        decreases count - k,
    {
        let ghost rest = le_bytes(start + k + 1, (x / 256) as nat, (count - k - 1) as nat);
        assert(le_bytes(start + k, x as nat, (count - k) as nat) == seq![
            ((start + k) as i32, (x % 256) as u8),
        ] + rest);
        let b: u8 = (x % 256) as u8;
        let ghost prev = out@;
        out.push((start + k as i32, b));
        assert(out@ + rest =~= s0 + whole) by {
            assert(out@ =~= prev.push(((start + k) as i32, b)));
            assert(prev + seq![((start + k) as i32, (x % 256) as u8)] + rest =~= s0 + whole);
        }
        x = x / 256;
        k = k + 1;
    }
    assert(out@ =~= s0 + whole);
}

/// `t` with named structures replaced by their definitions, at most
/// `fuel` deep, and the fuel left.
fn resolve<'a>(t: &'a IrType, tys: &'a Types, fuel: usize) -> (r: Option<(&'a IrType, usize)>)
    ensures
        match r {
            Some(p) => resolve_named(*t, tys.named@, fuel as nat) == Some((*p.0, p.1 as nat)),
            None => resolve_named(*t, tys.named@, fuel as nat) is None,
        },
    decreases fuel,
{
    match t {
        IrType::NamedStruct { name } => {
            if fuel == 0 {
                return None;
            }
            match find_named(&tys.named, name.as_str()) {
                Some(k) => match &tys.named[k].def {
                    Some(def) => resolve(def, tys, fuel - 1),
                    None => None,
                },
                None => None,
            }
        },
        _ => Some((t, fuel)),
    }
}

/// Appends the zero bytes of data of type `ty` at `start` holding the
/// zero value of type `t`.
fn push_zero_data(
    out: &mut Vec<(i32, u8)>,
    start: i32,
    ty: &IrType,
    t: &IrType,
    tys: &Types,
    fuel: usize,
    tfuel: usize,
)
    requires
        zero_data(start as int, *ty, *t, tys.named@, fuel as nat, tfuel as nat) is Some,
    ensures
        final(out)@ == old(out)@ + zero_data(
            start as int,
            *ty,
            *t,
            tys.named@,
            fuel as nat,
            tfuel as nat,
        ).unwrap(),
    decreases fuel, *ty, elem_count(*ty) + 1,
{
    let ghost named = tys.named@;
    let (rt, tf) = match resolve(t, tys, tfuel) {
        Some(p) => p,
        None => {
            return;
        },
    };
    match ty {
        IrType::Integer { bits } => {
            if *bits == 64 {
                push_le_bytes(out, start, 0, 8);
            } else {
                push_le_bytes(out, start, 0, *bits / 8);
            }
        },
        IrType::Pointer { .. } => {
            push_le_bytes(out, start, 0, 4);
        },
        IrType::Array { element_type, num_elements } => {
            let et: &IrType = match rt {
                IrType::Array { element_type: et, .. } => &**et,
                _ => {
                    return;
                },
            };
            let ghost s0 = out@;
            let n = *num_elements;
            let mut i: usize = 0;
            assert(decreases_to!(*ty => **element_type));
            while i < n
                invariant
                    i <= n,
                    n == *num_elements,
                    named == tys.named@,
                    decreases_to!(*ty => **element_type),
                    *ty == (IrType::Array { element_type: *element_type, num_elements: *num_elements }),
                    zero_array(start as int, *ty, *et, n as nat, named, fuel as nat, tf as nat) is Some,
                    out@ == s0 + zero_array(start as int, *ty, *et, i as nat, named, fuel as nat, tf as nat).unwrap(),
                decreases n - i,
            {
                proof {
                    lemma_zero_array_prefix(start as int, *ty, *et, (i + 1) as nat, n as nat, named, fuel as nat, tf as nat);
                }
                let off = crate::layout::offset_of_array(&**element_type, i as u32, tys);
                let addr: i32 = start + off as i32;
                push_zero_data(out, addr, &**element_type, et, tys, fuel, tf);
                i = i + 1;
            }
        },
        IrType::NamedStruct { name } => {
            match find_named(&tys.named, name.as_str()) {
                Some(k) => match &tys.named[k].def {
                    Some(def) => push_zero_data(out, start, def, t, tys, fuel - 1, tfuel),
                    None => {},
                },
                None => {},
            }
        },
        IrType::Struct { element_types, is_packed } => {
            let ets: &Vec<IrType> = match rt {
                IrType::Struct { element_types: ets, .. } => ets,
                _ => {
                    return;
                },
            };
            let ghost s0 = out@;
            let n = element_types.len();
            let mut i: usize = 0;
            assert(decreases_to!(*ty => *element_types));
            while i < n
                invariant
                    i <= n,
                    n == element_types@.len(),
                    named == tys.named@,
                    decreases_to!(*ty => *element_types),
                    *ty == (IrType::Struct { element_types: *element_types, is_packed: *is_packed }),
                    zero_fields(start as int, *ty, ets@, n as nat, named, fuel as nat, tf as nat) is Some,
                    out@ == s0 + zero_fields(start as int, *ty, ets@, i as nat, named, fuel as nat, tf as nat).unwrap(),
                decreases n - i,
            {
                proof {
                    lemma_zero_fields_prefix(start as int, *ty, ets@, (i + 1) as nat, n as nat, named, fuel as nat, tf as nat);
                }
                let off = crate::layout::offset_of(element_types, *is_packed, i as u32, tys);
                let addr: i32 = start + off as i32;
                assert(decreases_to!(*element_types => element_types[i as int]));
                push_zero_data(out, addr, &element_types[i], &ets[i], tys, fuel, tf);
                i = i + 1;
            }
        },
        _ => {},
    }
}

/// Appends the bytes of a scalar of `count` bytes holding `value`.
fn push_scalar(
    out: &mut Vec<(i32, u8)>,
    start: i32,
    value: &Constant,
    count: u32,
    globals: &GlobalTable,
    tys: &Types,
    counter: &mut TempCounter,
)
    requires
        count == 1 || count == 2 || count == 4,
        scalar_data(start as int, *value, globals.addrs@, *tys, old(counter).next as nat, count as nat) is Some,
    ensures
        ({
            let d = scalar_data(
                start as int,
                *value,
                globals.addrs@,
                *tys,
                old(counter).next as nat,
                count as nat,
            ).unwrap();
            final(out)@ == old(out)@ + d.0 && final(counter).next as nat == d.1
        }),
{
    let m = eval_constant(value, globals, tys, counter);
    match m {
        MaybeConst::Const(c) => push_le_bytes(out, start, (c as u32) as u64, count),
        MaybeConst::NonConst(..) => {},
    }
}

/// Appends the initial bytes of data of type `ty` at `start` holding
/// `value`, following named structures at most `fuel` deep.
fn push_data(
    out: &mut Vec<(i32, u8)>,
    start: i32,
    ty: &IrType,
    value: &Constant,
    globals: &GlobalTable,
    tys: &Types,
    fuel: usize,
    counter: &mut TempCounter,
)
    requires
        data_of(start as int, *ty, *value, globals.addrs@, *tys, fuel as nat, old(counter).next as nat) is Some,
    ensures
        ({
            let d = data_of(
                start as int,
                *ty,
                *value,
                globals.addrs@,
                *tys,
                fuel as nat,
                old(counter).next as nat,
            ).unwrap();
            final(out)@ == old(out)@ + d.0 && final(counter).next as nat == d.1
        }),
    decreases fuel, *ty, elem_count(*ty) + 1,
{
    let ghost named = tys.named@;
    let ghost g = globals.addrs@;
    if let Constant::AggregateZero(t) = value {
        push_zero_data(out, start, ty, t, tys, fuel, tys.named.len());
        return;
    }
    match ty {
        IrType::Integer { bits } => {
            if *bits == 64 {
                match value {
                    Constant::Int { value: v, .. } => push_le_bytes(out, start, *v, 8),
                    _ => {},
                }
            } else {
                push_scalar(out, start, value, *bits / 8, globals, tys, counter);
            }
        },
        IrType::Pointer { .. } => {
            push_scalar(out, start, value, 4, globals, tys, counter);
        },
        IrType::Array { element_type, num_elements } => {
            let elements: &Vec<Constant> = match value {
                Constant::Array { elements, .. } => elements,
                _ => {
                    return;
                },
            };
            let ghost s0 = out@;
            let ghost n0 = counter.next as nat;
            let n = *num_elements;
            let mut i: usize = 0;
            assert(decreases_to!(*ty => **element_type));
            while i < n
                invariant
                    i <= n,
                    n == *num_elements,
                    named == tys.named@,
                    g == globals.addrs@,
                    decreases_to!(*ty => **element_type),
                    *ty == (IrType::Array { element_type: *element_type, num_elements: *num_elements }),
                    elements@.len() == n,
                    array_data(start as int, *ty, elements@, n as nat, g, *tys, fuel as nat, n0) is Some,
                    ({
                        let d = array_data(start as int, *ty, elements@, i as nat, g, *tys, fuel as nat, n0).unwrap();
                        out@ == s0 + d.0 && counter.next as nat == d.1
                    }),
                decreases n - i,
            {
                proof {
                    lemma_array_data_prefix(start as int, *ty, elements@, (i + 1) as nat, n as nat, g, *tys, fuel as nat, n0);
                }
                let off = crate::layout::offset_of_array(&**element_type, i as u32, tys);
                let addr: i32 = start + off as i32;
                push_data(out, addr, &**element_type, &elements[i], globals, tys, fuel, counter);
                i = i + 1;
            }
        },
        IrType::NamedStruct { name } => {
            match find_named(&tys.named, name.as_str()) {
                Some(k) => match &tys.named[k].def {
                    Some(def) => push_data(out, start, def, value, globals, tys, fuel - 1, counter),
                    None => {},
                },
                None => {},
            }
        },
        IrType::Struct { element_types, is_packed } => {
            let values: &Vec<Constant> = match value {
                Constant::Struct { values, .. } => values,
                _ => {
                    return;
                },
            };
            let ghost s0 = out@;
            let ghost n0 = counter.next as nat;
            let n = element_types.len();
            let mut i: usize = 0;
            assert(decreases_to!(*ty => *element_types));
            while i < n
                invariant
                    i <= n,
                    n == element_types@.len(),
                    named == tys.named@,
                    g == globals.addrs@,
                    decreases_to!(*ty => *element_types),
                    *ty == (IrType::Struct { element_types: *element_types, is_packed: *is_packed }),
                    values@.len() == n,
                    fields_data(start as int, *ty, values@, n as nat, g, *tys, fuel as nat, n0) is Some,
                    ({
                        let d = fields_data(start as int, *ty, values@, i as nat, g, *tys, fuel as nat, n0).unwrap();
                        out@ == s0 + d.0 && counter.next as nat == d.1
                    }),
                decreases n - i,
            {
                proof {
                    lemma_fields_data_prefix(start as int, *ty, values@, (i + 1) as nat, n as nat, g, *tys, fuel as nat, n0);
                }
                let off = crate::layout::offset_of(element_types, *is_packed, i as u32, tys);
                let addr: i32 = start + off as i32;
                assert(decreases_to!(*element_types => element_types[i as int]));
                push_data(out, addr, &element_types[i], &values[i], globals, tys, fuel, counter);
                i = i + 1;
            }
        },
        _ => {},
    }
}

/// The initial bytes of data of type `ty` at `start_addr` holding
/// `value`, as (address, byte) pairs in the order they are written; a
/// later pair for an address replaces an earlier one.
fn init_data(
    start_addr: i32,
    ty: &IrType,
    value: &Constant,
    globals: &GlobalTable,
    tys: &Types,
    counter: &mut TempCounter,
) -> (r: Vec<(i32, u8)>)
    requires
        data_of(
            start_addr as int,
            *ty,
            *value,
            globals.addrs@,
            *tys,
            tys.named@.len(),
            old(counter).next as nat,
        ) is Some,
    ensures
        (r@, final(counter).next as nat) == data_of(
            start_addr as int,
            *ty,
            *value,
            globals.addrs@,
            *tys,
            tys.named@.len(),
            old(counter).next as nat,
        ).unwrap(),
{
    let mut out: Vec<(i32, u8)> = Vec::new();
    push_data(&mut out, start_addr, ty, value, globals, tys, tys.named.len(), counter);
    assert(out@ =~= Seq::<(i32, u8)>::empty() + out@);
    out
}

// ----------------------------------------------------------------------
// Writing a global's initial value
// ----------------------------------------------------------------------

/// The least address of a non-empty list of written bytes.
pub open spec fn min_addr(bytes: Seq<(i32, u8)>) -> int
    decreases bytes.len(),
{
    if bytes.len() <= 1 {
        bytes[0].0 as int
    } else {
        let m = min_addr(bytes.drop_last());
        if (bytes.last().0 as int) < m {
            bytes.last().0 as int
        } else {
            m
        }
    }
}

/// The greatest address of a non-empty list of written bytes.
pub open spec fn max_addr(bytes: Seq<(i32, u8)>) -> int
    decreases bytes.len(),
{
    if bytes.len() <= 1 {
        bytes[0].0 as int
    } else {
        let m = max_addr(bytes.drop_last());
        if (bytes.last().0 as int) > m {
            bytes.last().0 as int
        } else {
            m
        }
    }
}

/// The byte written last at address `a`, or zero where none was written.
pub open spec fn byte_at(bytes: Seq<(i32, u8)>, a: int) -> u8
    decreases bytes.len(),
{
    if bytes.len() == 0 {
        0
    } else if bytes.last().0 as int == a {
        bytes.last().1
    } else {
        byte_at(bytes.drop_last(), a)
    }
}

/// The remainder of `x` by four, with the sign of `x`.
pub open spec fn rem4(x: int) -> int {
    if x >= 0 {
        x % 4
    } else {
        -((-x) % 4)
    }
}

/// One past the last written address, rounded up to a whole word.
pub open spec fn image_end(bytes: Seq<(i32, u8)>) -> int {
    let e = max_addr(bytes) + 1;
    if rem4(e) != 0 {
        e + (4 - rem4(e))
    } else {
        e
    }
}

/// The little-endian word of the memory image that starts `4 * w` bytes
/// after `begin`.
pub open spec fn image_word(bytes: Seq<(i32, u8)>, begin: int, w: int) -> i32 {
    let a = begin + 4 * w;
    (byte_at(bytes, a) + 256 * byte_at(bytes, a + 1) + 65536 * byte_at(bytes, a + 2) + 16777216
        * byte_at(bytes, a + 3)) as i32
}

/// The number of words of the memory image of non-empty `bytes`.
pub open spec fn image_words(bytes: Seq<(i32, u8)>) -> int {
    (image_end(bytes) - min_addr(bytes)) / 4
}

/// The holder of a global's address: `%@` and the global's name without
/// its last character, whitespace replaced by `_`.
pub open spec fn global_holder_name(name: Seq<char>) -> Seq<char> {
    "%@"@ + clean_text(name.drop_last())
}

/// The commands that initialise a global named `name` at `start` whose
/// initial bytes are `bytes`: the global's holder gets its address, then
/// the words from the least written address to the last one, rounded up,
/// are written from `start` on, with zeros where no byte was written.
pub open spec fn global_init_v(name: Seq<char>, start: u32, bytes: Seq<(i32, u8)>) -> Seq<CommandV> {
    seq![set_v(global_holder_name(name), start as i32)] + if bytes.len() == 0 {
        Seq::empty()
    } else {
        Seq::new(
            image_words(bytes) as nat,
            |w: int| set_memory_v(image_word(bytes, min_addr(bytes), w), start + 4 * w),
        )
    }
}

/// The text of a global's name, when it has one.
pub open spec fn global_name(v: GlobalVariable) -> Seq<char> {
    match v.name {
        LocalName::Name(s) => s@,
        _ => Seq::empty(),
    }
}

/// The type of a global's value: what its pointer type points to.
pub open spec fn value_type(v: GlobalVariable) -> IrType {
    match v.ty {
        IrType::Pointer { pointee, .. } => *pointee,
        _ => IrType::Other,
    }
}

/// The address of a global in the table.
pub open spec fn global_start(v: GlobalVariable, g: Seq<(LocalName, u32)>) -> u32 {
    global_addr(g, v.name@).unwrap()
}

/// The initial bytes of a global and the counter after.
pub open spec fn global_bytes(v: GlobalVariable, g: Seq<(LocalName, u32)>, tys: Types, n: nat) -> Option<
    (Seq<(i32, u8)>, nat),
> {
    data_of(
        (global_start(v, g) as i32) as int,
        value_type(v),
        v.initializer.unwrap(),
        g,
        tys,
        tys.named@.len(),
        n,
    )
}

/// Whether a global can be initialised: it has a name whose last
/// character is ASCII, an address in the table, a pointer type and an
/// initial value that fits it; its image starts on a word and all of it
/// lies in memory.
pub open spec fn global_init_ok(v: GlobalVariable, g: Seq<(LocalName, u32)>, tys: Types, n: nat) -> bool {
    let name = global_name(v);
    let start = global_start(v, g);
    let bytes = global_bytes(v, g, tys, n).unwrap().0;
    &&& v.name is Name
    &&& name.len() > 0
    &&& (name.last() as u32) < 128
    &&& global_addr(g, v.name@) is Some
    &&& v.ty is Pointer
    &&& v.initializer is Some
    &&& global_bytes(v, g, tys, n) is Some
    &&& bytes.len() > 0 ==> {
        &&& min_addr(bytes) % 4 == 0
        &&& max_addr(bytes) <= i32::MAX - 4
        &&& address_ok(start as int)
        &&& start / 4 + image_words(bytes) <= 128 * 16 * 16
    }
}

proof fn lemma_addr_bounds(bytes: Seq<(i32, u8)>)
    requires
        bytes.len() > 0,
    ensures
        forall|i: int|
            0 <= i < bytes.len() ==> min_addr(bytes) <= #[trigger] bytes[i].0 <= max_addr(bytes),
    decreases bytes.len(),
{
    if bytes.len() > 1 {
        lemma_addr_bounds(bytes.drop_last());
        assert forall|i: int| 0 <= i < bytes.len() implies min_addr(bytes) <= #[trigger] bytes[i].0
            <= max_addr(bytes) by {
            if i < bytes.len() - 1 {
                assert(bytes[i] == bytes.drop_last()[i]);
            }
        }
    }
}

/// The least and the greatest address of non-empty `bytes`.
fn addr_range(bytes: &Vec<(i32, u8)>) -> (r: (i32, i32))
    requires
        bytes@.len() > 0,
    ensures
        r.0 as int == min_addr(bytes@),
        r.1 as int == max_addr(bytes@),
{
    let mut lo = bytes[0].0;
    let mut hi = bytes[0].0;
    let mut i: usize = 1;
    while i < bytes.len()
        invariant
            1 <= i <= bytes@.len(),
            lo as int == min_addr(bytes@.take(i as int)),
            hi as int == max_addr(bytes@.take(i as int)),
        decreases bytes.len() - i,
    {
        assert(bytes@.take(i + 1).drop_last() =~= bytes@.take(i as int));
        let a = bytes[i].0;
        if a < lo {
            lo = a;
        }
        if a > hi {
            hi = a;
        }
        i = i + 1;
    }
    assert(bytes@.take(bytes@.len() as int) =~= bytes@);
    (lo, hi)
}

/// The memory image of `bytes` from `begin`, `len` bytes long: the byte
/// written last at each address, zero where none was.
fn dense_image(bytes: &Vec<(i32, u8)>, begin: i32, len: usize) -> (r: Vec<u8>)
    requires
        bytes@.len() > 0,
        begin as int == min_addr(bytes@),
        max_addr(bytes@) < begin + len,
    ensures
        r@.len() == len,
        forall|k: int| 0 <= k < len ==> #[trigger] r@[k] == byte_at(bytes@, begin + k),
{
    let mut dense: Vec<u8> = Vec::new();
    let mut k: usize = 0;
    while k < len
        invariant
            k <= len,
            dense@.len() == k,
            forall|j: int| 0 <= j < k ==> #[trigger] dense@[j] == 0u8,
        decreases len - k,
    {
        dense.push(0);
        k = k + 1;
    }
    proof {
        lemma_addr_bounds(bytes@);
    }
    let mut i: usize = 0;
    while i < bytes.len()
        invariant
            i <= bytes@.len(),
            bytes@.len() > 0,
            dense@.len() == len,
            begin as int == min_addr(bytes@),
            max_addr(bytes@) < begin + len,
            forall|j: int|
                0 <= j < bytes@.len() ==> min_addr(bytes@) <= #[trigger] bytes@[j].0 <= max_addr(bytes@),
            forall|j: int| 0 <= j < len ==> #[trigger] dense@[j] == byte_at(bytes@.take(i as int), begin + j),
        decreases bytes.len() - i,
    {
        let (a, b) = bytes[i];
        assert(bytes@[i as int].0 == a);
        let idx = (a as i64 - begin as i64) as usize;
        dense.set(idx, b);
        assert(bytes@.take(i + 1).drop_last() =~= bytes@.take(i as int));
        assert forall|j: int| 0 <= j < len implies #[trigger] dense@[j] == byte_at(
            bytes@.take(i + 1),
            begin + j,
        ) by {
            assert(bytes@.take(i + 1).last() == (a, b));
        }
        i = i + 1;
    }
    assert(bytes@.take(bytes@.len() as int) =~= bytes@);
    dense
}

/// The commands that initialise the global `v`: its holder gets its
/// address, then its initial value is written into memory word by word.
pub fn one_global_var_init(
    v: &GlobalVariable,
    globals: &GlobalTable,
    tys: &Types,
    counter: &mut TempCounter,
) -> (r: Vec<Command>)
    requires
        global_init_ok(*v, globals.addrs@, *tys, old(counter).next as nat),
    ensures
        ({
            let d = global_bytes(*v, globals.addrs@, *tys, old(counter).next as nat).unwrap();
            &&& commands_view(r@) == global_init_v(
                global_name(*v),
                global_start(*v, globals.addrs@),
                d.0,
            )
            &&& final(counter).next as nat == d.1
        }),
{
    let ghost g = globals.addrs@;
    let name: &String = match &v.name {
        LocalName::Name(s) => s,
        LocalName::Number(_) => {
            return Vec::new();
        },
    };
    let start: u32 = match globals.lookup(&v.name) {
        Some(a) => a,
        None => {
            return Vec::new();
        },
    };
    let pointee: &IrType = match &v.ty {
        IrType::Pointer { pointee, .. } => &**pointee,
        _ => {
            return Vec::new();
        },
    };
    let init: &Constant = match &v.initializer {
        Some(c) => c,
        None => {
            return Vec::new();
        },
    };
    let n = name.as_str().unicode_len();
    let inner = name.as_str().substring_char(0, n - 1);
    let mut text = String::from_str("%@");
    let cleaned = clean(inner);
    text.append(cleaned.as_str());
    proof {
        reveal_strlit("%@");
        crate::locals::lemma_clean_no_space(inner@);
        assert(text@ =~= "%@"@ + clean_text(inner@));
        assert forall|i: int| 0 <= i < text@.len() implies !crate::cir::is_space(#[trigger] text@[i]) by {
            if i >= 2 {
                assert(text@[i] == clean_text(inner@)[i - 2]);
            }
        }
    }
    let target = ScoreHolder::from_valid(text);
    let bytes = init_data(start as i32, pointee, init, globals, tys, counter);
    let c0 = assign_lit(target, start as i32);
    let mut cmds = vec![c0];
    assert(commands_view(cmds@) =~= seq![c0@]);
    if bytes.len() > 0 {
        let ghost bv = bytes@;
        let (begin, hi) = addr_range(&bytes);
        let mut end: i32 = hi + 1;
        if end % 4 != 0 {
            end = end + (4 - end % 4);
        }
        assert(end as int == image_end(bv));
        let len = (end - begin) as usize;
        let dense = dense_image(&bytes, begin, len);
        let words = len / 4;
        let mut w: usize = 0;
        while w < words
            invariant
                w <= words,
                words as int == image_words(bv),
                len == 4 * words,
                dense@.len() == len,
                begin as int == min_addr(bv),
                forall|k: int| 0 <= k < len ==> #[trigger] dense@[k] == byte_at(bv, begin + k),
                address_ok(start as int),
                start / 4 + image_words(bv) <= 128 * 16 * 16,
                commands_view(cmds@) == seq![c0@] + Seq::new(
                    w as nat,
                    |j: int| set_memory_v(image_word(bv, min_addr(bv), j), start + 4 * j),
                ),
            decreases words - w,
        {
            let b0 = dense[4 * w] as u32;
            let b1 = dense[4 * w + 1] as u32;
            let b2 = dense[4 * w + 2] as u32;
            let b3 = dense[4 * w + 3] as u32;
            let value: u32 = b0 + 256 * b1 + 65536 * b2 + 16777216 * b3;
            let word = value as i32;
            assert(word == image_word(bv, min_addr(bv), w as int));
            let address: i32 = start as i32 + (w as i32) * 4;
            assert(address_ok(address as int));
            let c = set_memory(word, address);
            let ghost before = commands_view(cmds@);
            cmds.push(c);
            assert(commands_view(cmds@) =~= before.push(c@));
            assert(commands_view(cmds@) =~= seq![c0@] + Seq::new(
                (w + 1) as nat,
                |j: int| set_memory_v(image_word(bv, min_addr(bv), j), start + 4 * j),
            ));
            w = w + 1;
        }
    }
    cmds
}

/// The commands that initialise the first `k` globals of `vars`, and the
/// counter after.
pub open spec fn vars_init_v(
    vars: Seq<GlobalVariable>,
    k: nat,
    g: Seq<(LocalName, u32)>,
    tys: Types,
    n: nat,
) -> (Seq<CommandV>, nat)
    decreases k,
{
    if k == 0 || k > vars.len() {
        (Seq::empty(), n)
    } else {
        let p = vars_init_v(vars, (k - 1) as nat, g, tys, n);
        let v = vars[k - 1];
        let d = global_bytes(v, g, tys, p.1).unwrap();
        (p.0 + global_init_v(global_name(v), global_start(v, g), d.0), d.1)
    }
}

/// Whether the first `k` globals of `vars` can be initialised in turn.
pub open spec fn vars_init_ok(
    vars: Seq<GlobalVariable>,
    k: nat,
    g: Seq<(LocalName, u32)>,
    tys: Types,
    n: nat,
) -> bool
    decreases k,
{
    if k == 0 || k > vars.len() {
        true
    } else {
        &&& vars_init_ok(vars, (k - 1) as nat, g, tys, n)
        &&& global_init_ok(vars[k - 1], g, tys, vars_init_v(vars, (k - 1) as nat, g, tys, n).1)
    }
}

proof fn lemma_vars_init_ok_prefix(
    vars: Seq<GlobalVariable>,
    j: nat,
    k: nat,
    g: Seq<(LocalName, u32)>,
    tys: Types,
    n: nat,
)
    requires
        j <= k <= vars.len(),
        vars_init_ok(vars, k, g, tys, n),
    ensures
        vars_init_ok(vars, j, g, tys, n),
    decreases k,
{
    if j < k {
        lemma_vars_init_ok_prefix(vars, j, (k - 1) as nat, g, tys, n);
    }
}

/// Two to the power `v`.
pub open spec fn two_pow(v: nat) -> nat
    decreases v,
{
    if v == 0 {
        1
    } else {
        2 * two_pow((v - 1) as nat)
    }
}

/// The holders of the constants the generated code reads: the sign bit,
/// the row size of the function grid, sixteen, minus one, the powers of
/// two below the sign bit, and the command counter reset to zero.
pub open spec fn constant_holders_v() -> Seq<CommandV> {
    seq![
        set_v("%%31BITSHIFT"@, -2147483648i32),
        set_v("%%ROW_SIZE"@, 32),
        set_v("%%SIXTEEN"@, 16),
        set_v(const_holder_name(-1i32), -1i32),
    ] + Seq::new(
        31,
        |v: int| set_v(const_holder_name(two_pow(v as nat) as i32), two_pow(v as nat) as i32),
    ) + seq![set_v("%%cmdcount"@, 0)]
}

/// The commands that set the constant holders.
fn constant_holders() -> (r: Vec<Command>)
    ensures
        commands_view(r@) == constant_holders_v(),
{
    let mut cmds: Vec<Command> = Vec::new();
    proof {
        reveal_strlit("%%31BITSHIFT");
        reveal_strlit("%%ROW_SIZE");
        reveal_strlit("%%SIXTEEN");
    }
    assert(crate::cir::valid_holder("%%31BITSHIFT"@));
    assert(crate::cir::valid_holder("%%ROW_SIZE"@));
    assert(crate::cir::valid_holder("%%SIXTEEN"@));
    let c0 = assign_lit(ScoreHolder::from_valid(String::from_str("%%31BITSHIFT")), -2147483648i32);
    let c1 = assign_lit(ScoreHolder::from_valid(String::from_str("%%ROW_SIZE")), ROW_SIZE as i32);
    let c2 = assign_lit(ScoreHolder::from_valid(String::from_str("%%SIXTEEN")), 16);
    let c3 = assign_lit(const_holder(-1), -1);
    let mut block = vec![c0, c1, c2, c3];
    assert(commands_view(block@) =~= seq![c0@, c1@, c2@, c3@]);
    cmds.append(&mut block);
    let ghost mid = commands_view(cmds@);
    let ghost powers = Seq::new(
        31,
        |v: int| set_v(const_holder_name(two_pow(v as nat) as i32), two_pow(v as nat) as i32),
    );
    let mut p: i32 = 1;
    let mut v: usize = 0;
    while v < 31
        invariant
            v <= 31,
            v <= 30 ==> p as int == two_pow(v as nat),
            powers == Seq::new(
                31,
                |v: int| set_v(const_holder_name(two_pow(v as nat) as i32), two_pow(v as nat) as i32),
            ),
            commands_view(cmds@) == mid + powers.take(v as int),
        decreases 31 - v,
    {
        let c = assign_lit(const_holder(p), p);
        let ghost before = commands_view(cmds@);
        cmds.push(c);
        assert(commands_view(cmds@) =~= mid + powers.take(v + 1)) by {
            assert(commands_view(cmds@) =~= before.push(c@));
            assert(powers.take(v + 1) =~= powers.take(v as int).push(powers[v as int]));
        }
        if v < 30 {
            assert(two_pow((v + 1) as nat) == 2 * two_pow(v as nat));
            assert(two_pow(v as nat) <= 536870912) by {
                lemma_two_pow_bound(v as nat);
            }
            p = p * 2;
        }
        v = v + 1;
    }
    let last = assign_lit(cmd_count(), 0);
    let ghost before = commands_view(cmds@);
    cmds.push(last);
    assert(commands_view(cmds@) =~= before.push(last@));
    assert(powers.take(31) =~= powers);
    assert(commands_view(cmds@) =~= constant_holders_v());
    cmds
}

/// The commands that initialise all globals of `vars`, then the constant
/// holders.
pub fn compile_global_var_init(
    vars: &Vec<GlobalVariable>,
    globals: &GlobalTable,
    tys: &Types,
    counter: &mut TempCounter,
) -> (r: Vec<Command>)
    requires
        vars_init_ok(vars@, vars@.len(), globals.addrs@, *tys, old(counter).next as nat),
    ensures
        ({
            let p = vars_init_v(vars@, vars@.len(), globals.addrs@, *tys, old(counter).next as nat);
            commands_view(r@) == p.0 + constant_holders_v() && final(counter).next as nat == p.1
        }),
{
    let ghost g = globals.addrs@;
    let ghost n0 = counter.next as nat;
    let mut cmds: Vec<Command> = Vec::new();
    let mut i: usize = 0;
    while i < vars.len()
        invariant
            i <= vars@.len(),
            g == globals.addrs@,
            vars_init_ok(vars@, vars@.len(), g, *tys, n0),
            (commands_view(cmds@), counter.next as nat) == vars_init_v(vars@, i as nat, g, *tys, n0),
        decreases vars.len() - i,
    {
        proof {
            lemma_vars_init_ok_prefix(vars@, (i + 1) as nat, vars@.len(), g, *tys, n0);
        }
        let ghost before = commands_view(cmds@);
        let mut c = one_global_var_init(&vars[i], globals, tys, counter);
        let ghost cv = commands_view(c@);
        cmds.append(&mut c);
        assert(commands_view(cmds@) =~= before + cv);
        i = i + 1;
    }
    let ghost head = commands_view(cmds@);
    let mut tail = constant_holders();
    let ghost tv = commands_view(tail@);
    cmds.append(&mut tail);
    assert(commands_view(cmds@) =~= head + tv);
    cmds
}

proof fn lemma_two_pow_mono(a: nat, b: nat)
    requires
        a <= b,
    ensures
        two_pow(a) <= two_pow(b),
    decreases b,
{
    if a < b {
        lemma_two_pow_mono(a, (b - 1) as nat);
    }
}

proof fn lemma_two_pow_bound(v: nat)
    requires
        v < 30,
    ensures
        two_pow(v) <= 536870912,
{
    reveal_with_fuel(two_pow, 31);
    assert(two_pow(29) == 536870912);
    lemma_two_pow_mono(v, 29);
}

// ----------------------------------------------------------------------
// Placing the globals
// ----------------------------------------------------------------------

/// The size in bytes of a global's value.
pub open spec fn value_size(v: GlobalVariable, tys: Types) -> int {
    type_layout_spec(value_type(v), tys).unwrap().size
}

/// The addresses after placing the defined globals among the first `k` of
/// `vars` one after another from `a`, each on a whole number of words,
/// and the first free address after them.
pub open spec fn vars_layout(
    vars: Seq<GlobalVariable>,
    k: nat,
    m: Map<LocalNameV, u32>,
    a: nat,
    tys: Types,
) -> (Map<LocalNameV, u32>, nat)
    decreases k,
{
    if k == 0 || k > vars.len() {
        (m, a)
    } else {
        let p = vars_layout(vars, (k - 1) as nat, m, a, tys);
        let v = vars[k - 1];
        if v.initializer is Some {
            (
                p.0.insert(v.name@, p.1 as u32),
                p.1 + round_up4(((value_size(v, tys) as u32) as int)) as nat,
            )
        } else {
            p
        }
    }
}

/// Whether the defined globals among the first `k` of `vars` can be
/// placed from `a`: each has a pointer type whose value has a layout, and
/// the addresses stay 32-bit.
pub open spec fn vars_layout_ok(
    vars: Seq<GlobalVariable>,
    k: nat,
    m: Map<LocalNameV, u32>,
    a: nat,
    tys: Types,
) -> bool
    decreases k,
{
    if k == 0 || k > vars.len() {
        a <= u32::MAX
    } else {
        let p = vars_layout(vars, (k - 1) as nat, m, a, tys);
        let v = vars[k - 1];
        &&& vars_layout_ok(vars, (k - 1) as nat, m, a, tys)
        &&& v.initializer is Some ==> {
            &&& v.ty is Pointer
            &&& layout_fits(value_type(v), tys.named@, tys.named@.len())
            &&& p.1 + round_up4(((value_size(v, tys) as u32) as int)) <= u32::MAX
        }
    }
}

proof fn lemma_vars_layout_ok_prefix(
    vars: Seq<GlobalVariable>,
    j: nat,
    k: nat,
    m: Map<LocalNameV, u32>,
    a: nat,
    tys: Types,
)
    requires
        j <= k <= vars.len(),
        vars_layout_ok(vars, k, m, a, tys),
    ensures
        vars_layout_ok(vars, j, m, a, tys),
        vars_layout(vars, j, m, a, tys).1 <= u32::MAX,
    decreases k,
{
    if j < k {
        lemma_vars_layout_ok_prefix(vars, j, (k - 1) as nat, m, a, tys);
    } else if k > 0 {
        lemma_vars_layout_ok_prefix(vars, (k - 1) as nat, (k - 1) as nat, m, a, tys);
        lemma_round_up4(((value_size(vars[k - 1], tys) as u32) as int));
    }
}

/// The addresses after giving the functions named by the first `k` of
/// `names` the address of a function.
pub open spec fn funcs_layout(names: Seq<Seq<char>>, k: nat, m: Map<LocalNameV, u32>) -> Map<
    LocalNameV,
    u32,
>
    decreases k,
{
    if k == 0 || k > names.len() {
        m
    } else {
        funcs_layout(names, (k - 1) as nat, m).insert(LocalNameV::Name(names[k - 1]), u32::MAX)
    }
}

/// The addresses after giving each of the first `k` aliases that refers
/// to a global the address of that global.
pub open spec fn aliases_layout(aliases: Seq<AliasV>, k: nat, m: Map<LocalNameV, u32>) -> Map<
    LocalNameV,
    u32,
>
    decreases k,
{
    if k == 0 || k > aliases.len() {
        m
    } else {
        let p = aliases_layout(aliases, (k - 1) as nat, m);
        match aliases[k - 1].aliasee {
            Some(t) => p.insert(aliases[k - 1].name, p[t]),
            None => p,
        }
    }
}

/// Whether every alias that refers to a global refers to one that has an
/// address by then.
pub open spec fn aliases_ok(aliases: Seq<AliasV>, k: nat, m: Map<LocalNameV, u32>) -> bool
    decreases k,
{
    if k == 0 || k > aliases.len() {
        true
    } else {
        &&& aliases_ok(aliases, (k - 1) as nat, m)
        &&& aliases[k - 1].aliasee matches Some(t) ==> aliases_layout(
            aliases,
            (k - 1) as nat,
            m,
        ).dom().contains(t)
    }
}

proof fn lemma_aliases_ok_prefix(aliases: Seq<AliasV>, j: nat, k: nat, m: Map<LocalNameV, u32>)
    requires
        j <= k <= aliases.len(),
        aliases_ok(aliases, k, m),
    ensures
        aliases_ok(aliases, j, m),
    decreases k,
{
    if j < k {
        lemma_aliases_ok_prefix(aliases, j, (k - 1) as nat, m);
    }
}

/// The table of addresses of a program: the defined globals placed one
/// after another by the allocator, the functions, and the aliases.
pub open spec fn globals_layout(
    vars: Seq<GlobalVariable>,
    aliases: Seq<AliasV>,
    names: Seq<Seq<char>>,
    a: nat,
    tys: Types,
) -> Map<LocalNameV, u32> {
    let placed = vars_layout(vars, vars.len(), Map::empty(), a, tys).0;
    aliases_layout(aliases, aliases.len(), funcs_layout(names, names.len(), placed))
}

/// Places the defined globals one after another with `alloc`, gives every
/// function the address `u32::MAX` that marks a function, and gives each
/// alias of a global the address of that global.
pub fn global_var_layout(
    vars: &Vec<GlobalVariable>,
    aliases: &Vec<Alias>,
    function_names: &Vec<String>,
    alloc: &mut StaticAllocator,
    tys: &Types,
) -> (r: GlobalTable)
    requires
        vars_layout_ok(vars@, vars@.len(), Map::empty(), old(alloc).0 as nat, *tys),
        aliases_ok(
            aliases@.map_values(|x: Alias| x@),
            aliases@.len(),
            funcs_layout(
                function_names@.map_values(|x: String| x@),
                function_names@.len(),
                vars_layout(vars@, vars@.len(), Map::empty(), old(alloc).0 as nat, *tys).0,
            ),
        ),
    ensures
        table_map(r.addrs@) == globals_layout(
            vars@,
            aliases@.map_values(|x: Alias| x@),
            function_names@.map_values(|x: String| x@),
            old(alloc).0 as nat,
            *tys,
        ),
        final(alloc).0 as nat == vars_layout(
            vars@,
            vars@.len(),
            Map::empty(),
            old(alloc).0 as nat,
            *tys,
        ).1,
{
    let ghost a0 = alloc.0 as nat;
    let mut table = GlobalTable::new();
    let mut i: usize = 0;
    while i < vars.len()
        invariant
            i <= vars@.len(),
            vars_layout_ok(vars@, vars@.len(), Map::empty(), a0, *tys),
            (table_map(table.addrs@), alloc.0 as nat) == vars_layout(
                vars@,
                i as nat,
                Map::empty(),
                a0,
                *tys,
            ),
        decreases vars.len() - i,
    {
        proof {
            lemma_vars_layout_ok_prefix(vars@, (i + 1) as nat, vars@.len(), Map::empty(), a0, *tys);
            lemma_vars_layout_ok_prefix(vars@, i as nat, vars@.len(), Map::empty(), a0, *tys);
        }
        let v = &vars[i];
        if v.initializer.is_some() {
            match &v.ty {
                IrType::Pointer { pointee, .. } => {
                    let l = type_layout(&**pointee, tys);
                    let start = alloc.reserve(l.size as u32);
                    table.insert(v.name.duplicate(), start);
                },
                _ => {},
            }
        }
        i = i + 1;
    }
    let ghost placed = table_map(table.addrs@);
    let ghost names = function_names@.map_values(|x: String| x@);
    let mut j: usize = 0;
    while j < function_names.len()
        invariant
            j <= function_names@.len(),
            names == function_names@.map_values(|x: String| x@),
            table_map(table.addrs@) == funcs_layout(names, j as nat, placed),
        decreases function_names.len() - j,
    {
        table.insert(LocalName::Name(function_names[j].clone()), u32::MAX);
        j = j + 1;
    }
    assert(names.len() == function_names@.len());
    let ghost funcs = table_map(table.addrs@);
    let ghost av = aliases@.map_values(|x: Alias| x@);
    let mut k: usize = 0;
    while k < aliases.len()
        invariant
            k <= aliases@.len(),
            av == aliases@.map_values(|x: Alias| x@),
            aliases_ok(av, aliases@.len(), funcs),
            table_map(table.addrs@) == aliases_layout(av, k as nat, funcs),
        decreases aliases.len() - k,
    {
        proof {
            lemma_aliases_ok_prefix(av, (k + 1) as nat, aliases@.len(), funcs);
        }
        match &aliases[k].aliasee {
            Some(target) => {
                let addr = match table.lookup(target) {
                    Some(a) => a,
                    None => 0,
                };
                table.insert(aliases[k].name.duplicate(), addr);
            },
            None => {},
        }
        k = k + 1;
    }
    table
}

} // verus!
