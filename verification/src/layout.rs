//! Sizes, alignments and field offsets of the source program's types,
//! following the rules of a standard memory layout builder: a field
//! starts at the next multiple of its alignment, and a type's alignment
//! is the largest of its fields'.
use vstd::prelude::*;

verus! {

/// Floating-point formats.
#[derive(Debug, Clone, Copy, PartialEq, Eq, Structural)]
pub enum FpKind {
    Half,
    Single,
    Double,
    FP128,
    X86FP80,
    PPCFP128,
}

/// A type of the source program, as far as its layout matters.
#[derive(Debug, PartialEq, Eq)]
pub enum IrType {
    Integer { bits: u32 },
    Struct { element_types: Vec<IrType>, is_packed: bool },
    NamedStruct { name: String },
    Vector { element_type: Box<IrType>, num_elements: usize },
    Array { element_type: Box<IrType>, num_elements: usize },
    /// A pointer to `pointee` in address space `addr_space`.
    Pointer { pointee: Box<IrType>, addr_space: u32 },
    Void,
    FP(FpKind),
    /// Labels, metadata, functions and the other types without a layout
    /// here.
    Other,
}

/// The definition of a named structure type; `None` when it is opaque.
#[derive(Debug, PartialEq, Eq)]
pub struct NamedStruct {
    pub name: String,
    pub def: Option<IrType>,
}

/// The named structure types of a module.
#[derive(Debug, PartialEq, Eq)]
pub struct Types {
    pub named: Vec<NamedStruct>,
}

impl Types {
    /// A table without named types.
    pub fn blank_for_testing() -> (r: Types)
        ensures
            r.named@.len() == 0,
    {
        Types { named: Vec::new() }
    }
}

/// A layout: a size and an alignment, in bytes.
#[derive(Debug, Clone, Copy, PartialEq, Eq)]
pub struct TypeLayout {
    pub size: usize,
    pub align: usize,
}

/// The view of a [`TypeLayout`].
pub struct LayoutV {
    pub size: int,
    pub align: int,
}

impl View for TypeLayout {
    type V = LayoutV;

    open spec fn view(&self) -> LayoutV {
        LayoutV { size: self.size as int, align: self.align as int }
    }
}

/// A layout of `size` bytes aligned to `align`.
pub open spec fn lay(size: int, align: int) -> LayoutV {
    LayoutV { size, align }
}

/// `x` rounded up to a multiple of `a`.
pub open spec fn round_up(x: int, a: int) -> int {
    if a <= 0 {
        x
    } else if x % a == 0 {
        x
    } else {
        x + (a - x % a)
    }
}

/// The larger of two numbers.
pub open spec fn max(a: int, b: int) -> int {
    if a >= b {
        a
    } else {
        b
    }
}

/// Where a field of layout `next` starts when appended to `l`.
pub open spec fn extend_offset(l: LayoutV, next: LayoutV) -> int {
    round_up(l.size, next.align)
}

/// The layout of `l` followed by a field of layout `next`.
pub open spec fn extend(l: LayoutV, next: LayoutV) -> LayoutV {
    lay(extend_offset(l, next) + next.size, max(l.align, next.align))
}

/// `n` more copies of `e` appended to `l`.
pub open spec fn repeat(l: LayoutV, e: LayoutV, n: nat) -> LayoutV
    decreases n,
{
    if n == 0 {
        l
    } else {
        extend(repeat(l, e, (n - 1) as nat), e)
    }
}

/// The definition of the named structure `name`: the first entry that
/// carries the name, if any.
pub open spec fn named_def(named: Seq<NamedStruct>, name: Seq<char>) -> Option<Option<IrType>>
    decreases named.len(),
{
    if named.len() == 0 {
        None
    } else if named[0].name@ == name {
        Some(named[0].def)
    } else {
        named_def(named.drop_first(), name)
    }
}

/// The layout of an integer of `bits` bits, for the widths the compiler
/// lays out.
pub open spec fn int_layout(bits: u32) -> Option<LayoutV> {
    if bits == 1 || bits == 8 {
        Some(lay(1, 1))
    } else if bits == 16 {
        Some(lay(2, 2))
    } else if bits == 24 {
        Some(lay(3, 4))
    } else if bits == 32 {
        Some(lay(4, 4))
    } else if bits == 48 {
        Some(lay(6, 4))
    } else if bits == 64 {
        Some(lay(8, 4))
    } else if bits == 128 {
        Some(lay(16, 4))
    } else {
        None
    }
}

/// The layout of a floating-point format.
pub open spec fn fp_layout(k: FpKind) -> LayoutV {
    match k {
        FpKind::Half => lay(2, 4),
        FpKind::Single => lay(4, 4),
        FpKind::Double => lay(8, 4),
        FpKind::FP128 => lay(16, 4),
        FpKind::X86FP80 => lay(12, 4),
        FpKind::PPCFP128 => lay(16, 4),
    }
}

/// The number of elements of a structure type.
pub open spec fn field_count(t: IrType) -> nat {
    match t {
        IrType::Struct { element_types, .. } => element_types@.len(),
        _ => 0,
    }
}

/// The layout of a type, following named structures at most `fuel` times
/// deep; `None` when the type has no layout here.
pub open spec fn layout_of(t: IrType, named: Seq<NamedStruct>, fuel: nat) -> Option<LayoutV>
    decreases fuel, t, field_count(t) + 1,
{
    match t {
        IrType::Integer { bits } => int_layout(bits),
        IrType::Struct { element_types, is_packed } => if is_packed {
            match packed_size(t, named, fuel, element_types@.len()) {
                Some(size) => Some(lay(size, 1)),
                None => None,
            }
        } else {
            struct_prefix(t, named, fuel, element_types@.len())
        },
        IrType::NamedStruct { name } => if fuel == 0 {
            None
        } else {
            match named_def(named, name@) {
                Some(Some(def)) => layout_of(def, named, (fuel - 1) as nat),
                _ => None,
            }
        },
        IrType::Vector { element_type, num_elements } => if num_elements == 0 {
            None
        } else {
            match layout_of(*element_type, named, fuel) {
                Some(e) => {
                    let l = repeat(e, e, (num_elements - 1) as nat);
                    Some(lay(l.size, max(l.align, 4)))
                },
                None => None,
            }
        },
        IrType::Array { element_type, num_elements } => if num_elements == 0 {
            Some(lay(0, 1))
        } else {
            match layout_of(*element_type, named, fuel) {
                Some(e) => Some(repeat(e, e, (num_elements - 1) as nat)),
                None => None,
            }
        },
        IrType::Pointer { .. } => Some(lay(4, 4)),
        IrType::Void => Some(lay(0, 4)),
        IrType::FP(k) => Some(fp_layout(k)),
        IrType::Other => None,
    }
}

/// The layout of the first `k` fields of the structure `t`, laid out one
/// after the other from an empty layout.
pub open spec fn struct_prefix(t: IrType, named: Seq<NamedStruct>, fuel: nat, k: nat) -> Option<
    LayoutV,
>
    decreases fuel, t, k,
{
    match t {
        IrType::Struct { element_types, .. } => if k == 0 || k > element_types@.len() {
            if k == 0 {
                Some(lay(0, 1))
            } else {
                None
            }
        } else {
            match (
                struct_prefix(t, named, fuel, (k - 1) as nat),
                layout_of(element_types@[k - 1], named, fuel),
            ) {
                (Some(p), Some(e)) => Some(extend(p, e)),
                _ => None,
            }
        },
        _ => None,
    }
}

/// The sum of the sizes of the first `k` fields of the structure `t`.
pub open spec fn packed_size(t: IrType, named: Seq<NamedStruct>, fuel: nat, k: nat) -> Option<int>
    decreases fuel, t, k,
{
    match t {
        IrType::Struct { element_types, .. } => if k == 0 || k > element_types@.len() {
            if k == 0 {
                Some(0)
            } else {
                None
            }
        } else {
            match (
                packed_size(t, named, fuel, (k - 1) as nat),
                layout_of(element_types@[k - 1], named, fuel),
            ) {
                (Some(p), Some(e)) => Some(p + e.size),
                _ => None,
            }
        },
        _ => None,
    }
}

/// The layout of `t` in the table `tys`.
pub open spec fn type_layout_spec(t: IrType, tys: Types) -> Option<LayoutV> {
    layout_of(t, tys.named@, tys.named@.len())
}

// ----------------------------------------------------------------------
// Facts about layouts
// ----------------------------------------------------------------------

/// The alignments that the layout rules produce.
pub open spec fn align_ok(a: int) -> bool {
    a == 1 || a == 2 || a == 4
}

/// A layout with a non-negative size and one of the produced alignments.
pub open spec fn lay_ok(l: LayoutV) -> bool {
    l.size >= 0 && align_ok(l.align)
}

/// The largest size the layouts handled here may reach.
pub open spec fn size_limit() -> int {
    isize::MAX as int - 3
}

proof fn lemma_round_up(x: int, a: int)
    requires
        x >= 0,
        align_ok(a),
    ensures
        x <= round_up(x, a) < x + a,
        round_up(x, a) % a == 0,
{
}

proof fn lemma_extend(l: LayoutV, e: LayoutV)
    requires
        lay_ok(l),
        lay_ok(e),
    ensures
        lay_ok(extend(l, e)),
        extend(l, e).size >= l.size,
        extend(l, e).size >= e.size,
        extend(l, e).align >= l.align,
        extend_offset(l, e) <= extend(l, e).size,
        l.size <= extend_offset(l, e),
{
    lemma_round_up(l.size, e.align);
}

proof fn lemma_repeat(l: LayoutV, e: LayoutV, m: nat, n: nat)
    requires
        lay_ok(l),
        lay_ok(e),
        m <= n,
    ensures
        lay_ok(repeat(l, e, n)),
        repeat(l, e, m).size <= repeat(l, e, n).size,
        e.size <= repeat(l, e, n).size || n == 0,
    decreases n,
{
    if n > 0 {
        lemma_repeat(l, e, if m == n { (n - 1) as nat } else { m }, (n - 1) as nat);
        lemma_extend(repeat(l, e, (n - 1) as nat), e);
    }
}

proof fn lemma_int_layout(bits: u32)
    ensures
        int_layout(bits) matches Some(l) ==> lay_ok(l),
{
}

/// Every layout that the rules give has a non-negative size and an
/// alignment of 1, 2 or 4.
pub proof fn lemma_layout_ok(t: IrType, named: Seq<NamedStruct>, fuel: nat)
    ensures
        layout_of(t, named, fuel) matches Some(l) ==> lay_ok(l),
    decreases fuel, t, field_count(t) + 1,
{
    match t {
        IrType::Struct { element_types, is_packed } => {
            if is_packed {
                lemma_packed(t, named, fuel, element_types@.len(), element_types@.len());
            } else {
                lemma_prefix(t, named, fuel, element_types@.len(), element_types@.len());
            }
        },
        IrType::NamedStruct { name } => {
            if fuel > 0 {
                if let Some(Some(def)) = named_def(named, name@) {
                    lemma_layout_ok(def, named, (fuel - 1) as nat);
                }
            }
        },
        IrType::Vector { element_type, num_elements } => {
            lemma_layout_ok(*element_type, named, fuel);
            if let Some(e) = layout_of(*element_type, named, fuel) {
                if num_elements > 0 {
                    lemma_repeat(e, e, 0, (num_elements - 1) as nat);
                }
            }
        },
        IrType::Array { element_type, num_elements } => {
            lemma_layout_ok(*element_type, named, fuel);
            if let Some(e) = layout_of(*element_type, named, fuel) {
                if num_elements > 0 {
                    lemma_repeat(e, e, 0, (num_elements - 1) as nat);
                }
            }
        },
        _ => {},
    }
}

/// The layouts of the prefixes of a structure are well formed and grow
/// with the prefix, and each field's layout fits inside them.
pub proof fn lemma_prefix(t: IrType, named: Seq<NamedStruct>, fuel: nat, m: nat, k: nat)
    requires
        m <= k,
    ensures
        struct_prefix(t, named, fuel, k) matches Some(p) ==> {
            &&& lay_ok(p)
            &&& struct_prefix(t, named, fuel, m) matches Some(q)
            &&& q.size <= p.size
            &&& q.align <= p.align
            &&& (m > 0 ==> (layout_of(field_at(t, (m - 1) as nat), named, fuel) matches Some(e)
                && e.size <= p.size && lay_ok(e)))
        },
    decreases fuel, t, k,
{
    if let IrType::Struct { element_types, .. } = t {
        if k > 0 && k <= element_types@.len() {
            lemma_prefix(t, named, fuel, if m == k { (k - 1) as nat } else { m }, (k - 1) as nat);
            lemma_layout_ok(element_types@[k - 1], named, fuel);
            if let (Some(p), Some(e)) = (
                struct_prefix(t, named, fuel, (k - 1) as nat),
                layout_of(element_types@[k - 1], named, fuel),
            ) {
                lemma_extend(p, e);
            }
        }
    }
}

/// The field `i` of a structure type.
pub open spec fn field_at(t: IrType, i: nat) -> IrType {
    match t {
        IrType::Struct { element_types, .. } => element_types@[i as int],
        _ => IrType::Other,
    }
}

/// The sums of the sizes of the prefixes of a structure grow with the
/// prefix, and each field's size fits inside them.
pub proof fn lemma_packed(t: IrType, named: Seq<NamedStruct>, fuel: nat, m: nat, k: nat)
    requires
        m <= k,
    ensures
        packed_size(t, named, fuel, k) matches Some(p) ==> {
            &&& p >= 0
            &&& packed_size(t, named, fuel, m) matches Some(q)
            &&& q <= p
            &&& (m > 0 ==> (layout_of(field_at(t, (m - 1) as nat), named, fuel) matches Some(e)
                && e.size <= p && lay_ok(e)))
        },
    decreases fuel, t, k,
{
    if let IrType::Struct { element_types, .. } = t {
        if k > 0 && k <= element_types@.len() {
            lemma_packed(t, named, fuel, if m == k { (k - 1) as nat } else { m }, (k - 1) as nat);
            lemma_layout_ok(element_types@[k - 1], named, fuel);
        }
    }
}

// ----------------------------------------------------------------------
// Computing layouts
// ----------------------------------------------------------------------

/// The layout of `l` followed by a field of layout `next`, and the offset
/// at which that field starts.
pub fn extend_layout(l: TypeLayout, next: TypeLayout) -> (r: (TypeLayout, usize))
    requires
        lay_ok(l@),
        lay_ok(next@),
        extend(l@, next@).size <= size_limit(),
    ensures
        r.0@ == extend(l@, next@),
        r.1 as int == extend_offset(l@, next@),
{
    proof {
        lemma_round_up(l.size as int, next.align as int);
    }
    let rem = l.size % next.align;
    let offset = if rem == 0 {
        l.size
    } else {
        l.size + (next.align - rem)
    };
    let size = offset + next.size;
    let align = if l.align >= next.align {
        l.align
    } else {
        next.align
    };
    (TypeLayout { size, align }, offset)
}

/// The index of the first named structure called `name`.
pub(crate) fn find_named(named: &Vec<NamedStruct>, name: &str) -> (r: Option<usize>)
    ensures
        r matches Some(i) ==> i < named@.len() && named_def(named@, name@) == Some(named@[i as int].def),
        r is None ==> named_def(named@, name@) is None,
{
    let mut i: usize = 0;
    assert(named@.skip(0) =~= named@);
    while i < named.len()
        invariant
            i <= named@.len(),
            named_def(named@, name@) == named_def(named@.skip(i as int), name@),
        decreases named@.len() - i,
    {
        let ghost rest = named@.skip(i as int);
        if crate::text::str_eq(named[i].name.as_str(), name) {
            assert(rest[0] == named@[i as int]);
            return Some(i);
        }
        assert(rest.drop_first() =~= named@.skip(i + 1));
        i = i + 1;
    }
    assert(named@.skip(i as int) =~= Seq::<NamedStruct>::empty());
    None
}

fn int_type_layout(bits: u32) -> (r: TypeLayout)
    requires
        int_layout(bits) is Some,
    ensures
        int_layout(bits) == Some(r@),
{
    if bits == 1 || bits == 8 {
        TypeLayout { size: 1, align: 1 }
    } else if bits == 16 {
        TypeLayout { size: 2, align: 2 }
    } else if bits == 24 {
        TypeLayout { size: 3, align: 4 }
    } else if bits == 32 {
        TypeLayout { size: 4, align: 4 }
    } else if bits == 48 {
        TypeLayout { size: 6, align: 4 }
    } else if bits == 64 {
        TypeLayout { size: 8, align: 4 }
    } else {
        TypeLayout { size: 16, align: 4 }
    }
}

/// Whether `t` has a layout in `named` within `fuel` steps, of a size
/// that the layout rules can hold.
pub open spec fn layout_fits(t: IrType, named: Seq<NamedStruct>, fuel: nat) -> bool {
    layout_of(t, named, fuel) matches Some(l) && l.size <= size_limit()
}

fn repeat_layout(e: TypeLayout, n: usize) -> (r: TypeLayout)
    requires
        lay_ok(e@),
        repeat(e@, e@, n as nat).size <= size_limit(),
    ensures
        r@ == repeat(e@, e@, n as nat),
{
    let mut result = e;
    let mut i: usize = 0;
    while i < n
        invariant
            i <= n,
            lay_ok(e@),
            repeat(e@, e@, n as nat).size <= size_limit(),
            result@ == repeat(e@, e@, i as nat),
        decreases n - i,
    {
        proof {
            lemma_repeat(e@, e@, (i + 1) as nat, n as nat);
            lemma_repeat(e@, e@, i as nat, i as nat);
        }
        let (r, _) = extend_layout(result, e);
        result = r;
        i = i + 1;
    }
    result
}

fn layout_rec(ty: &IrType, tys: &Types, fuel: usize) -> (r: TypeLayout)
    requires
        layout_fits(*ty, tys.named@, fuel as nat),
    ensures
        layout_of(*ty, tys.named@, fuel as nat) == Some(r@),
    decreases fuel, *ty,
{
    let ghost named = tys.named@;
    proof {
        lemma_layout_ok(*ty, named, fuel as nat);
    }
    match ty {
        IrType::Integer { bits } => int_type_layout(*bits),
        IrType::Struct { element_types, is_packed } => {
            let n = element_types.len();
            if *is_packed {
                let mut sum: usize = 0;
                let mut i: usize = 0;
                while i < n
                    invariant
                        n == element_types@.len(),
                        i <= n,
                        *ty == (IrType::Struct { element_types: *element_types, is_packed: *is_packed }),
                        layout_fits(*ty, named, fuel as nat),
                        named == tys.named@,
                        packed_size(*ty, named, fuel as nat, i as nat) == Some(sum as int),
                        packed_size(*ty, named, fuel as nat, n as nat) matches Some(total) && total
                            <= size_limit(),
                    decreases n - i,
                {
                    proof {
                        lemma_packed(*ty, named, fuel as nat, (i + 1) as nat, n as nat);
                    }
                    let e = layout_rec(&element_types[i], tys, fuel);
                    sum = sum + e.size;
                    i = i + 1;
                }
                TypeLayout { size: sum, align: 1 }
            } else {
                let mut result = TypeLayout { size: 0, align: 1 };
                let mut i: usize = 0;
                while i < n
                    invariant
                        n == element_types@.len(),
                        i <= n,
                        *ty == (IrType::Struct { element_types: *element_types, is_packed: *is_packed }),
                        named == tys.named@,
                        struct_prefix(*ty, named, fuel as nat, i as nat) == Some(result@),
                        struct_prefix(*ty, named, fuel as nat, n as nat) matches Some(total)
                            && total.size <= size_limit(),
                    decreases n - i,
                {
                    proof {
                        lemma_prefix(*ty, named, fuel as nat, (i + 1) as nat, n as nat);
                        lemma_prefix(*ty, named, fuel as nat, i as nat, (i + 1) as nat);
                        lemma_prefix(*ty, named, fuel as nat, i as nat, i as nat);
                    }
                    let e = layout_rec(&element_types[i], tys, fuel);
                    let (r, _) = extend_layout(result, e);
                    result = r;
                    i = i + 1;
                }
                result
            }
        },
        IrType::NamedStruct { name } => {
            let idx = find_named(&tys.named, name.as_str());
            match idx {
                Some(k) => {
                    match &tys.named[k].def {
                        Some(def) => layout_rec(def, tys, fuel - 1),
                        None => {
                            assert(false);
                            TypeLayout { size: 0, align: 1 }
                        },
                    }
                },
                None => {
                    assert(false);
                    TypeLayout { size: 0, align: 1 }
                },
            }
        },
        IrType::Vector { element_type, num_elements } => {
            let ghost ev = layout_of(**element_type, named, fuel as nat).unwrap();
            proof {
                lemma_layout_ok(**element_type, named, fuel as nat);
                lemma_repeat(ev, ev, 0, (*num_elements - 1) as nat);
            }
            let e = layout_rec(&**element_type, tys, fuel);
            let l = repeat_layout(e, *num_elements - 1);
            let align = if l.align >= 4 {
                l.align
            } else {
                4
            };
            TypeLayout { size: l.size, align }
        },
        IrType::Array { element_type, num_elements } => {
            if *num_elements == 0 {
                TypeLayout { size: 0, align: 1 }
            } else {
                let ghost ev = layout_of(**element_type, named, fuel as nat).unwrap();
                proof {
                    lemma_layout_ok(**element_type, named, fuel as nat);
                    lemma_repeat(ev, ev, 0, (*num_elements - 1) as nat);
                }
                let e = layout_rec(&**element_type, tys, fuel);
                repeat_layout(e, *num_elements - 1)
            }
        },
        IrType::Pointer { .. } => TypeLayout { size: 4, align: 4 },
        IrType::Void => TypeLayout { size: 0, align: 4 },
        IrType::FP(k) => match k {
            FpKind::Half => TypeLayout { size: 2, align: 4 },
            FpKind::Single => TypeLayout { size: 4, align: 4 },
            FpKind::Double => TypeLayout { size: 8, align: 4 },
            FpKind::FP128 => TypeLayout { size: 16, align: 4 },
            FpKind::X86FP80 => TypeLayout { size: 12, align: 4 },
            FpKind::PPCFP128 => TypeLayout { size: 16, align: 4 },
        },
        IrType::Other => {
            assert(false);
            TypeLayout { size: 0, align: 1 }
        },
    }
}

/// The layout of `ty`, with the named structures of `tys`.
pub fn type_layout(ty: &IrType, tys: &Types) -> (r: TypeLayout)
    requires
        layout_fits(*ty, tys.named@, tys.named@.len()),
    ensures
        type_layout_spec(*ty, *tys) == Some(r@),
{
    layout_rec(ty, tys, tys.named.len())
}

// ----------------------------------------------------------------------
// Field offsets
// ----------------------------------------------------------------------

/// The structure type with the given fields.
pub open spec fn struct_of(element_types: Vec<IrType>, is_packed: bool) -> IrType {
    IrType::Struct { element_types, is_packed }
}

/// The offset of field `field` of a structure: the sum of the sizes before
/// it when packed, and otherwise where the layout rules place it.
pub open spec fn offset_of_spec(
    element_types: Vec<IrType>,
    is_packed: bool,
    field: nat,
    named: Seq<NamedStruct>,
) -> Option<int> {
    let t = struct_of(element_types, is_packed);
    let fuel = named.len();
    if is_packed {
        packed_size(t, named, fuel, field)
    } else if field < element_types@.len() {
        match (
            struct_prefix(t, named, fuel, field),
            layout_of(element_types@[field as int], named, fuel),
        ) {
            (Some(p), Some(e)) => Some(extend_offset(p, e)),
            _ => None,
        }
    } else {
        None
    }
}

/// Whether `offset_of` can compute the offset of `field`: the fields up to
/// it have layouts of sizes the rules can hold.
pub open spec fn offset_of_ok(
    element_types: Vec<IrType>,
    is_packed: bool,
    field: nat,
    named: Seq<NamedStruct>,
) -> bool {
    let t = struct_of(element_types, is_packed);
    let fuel = named.len();
    if is_packed {
        packed_size(t, named, fuel, field) matches Some(p) && p <= size_limit()
    } else {
        &&& field < element_types@.len()
        &&& struct_prefix(t, named, fuel, field + 1) matches Some(p)
        &&& p.size <= size_limit()
    }
}

/// Where the layout rules place field `k` of the structure `t`.
pub open spec fn offset_at(t: IrType, named: Seq<NamedStruct>, fuel: nat, k: nat) -> Option<int> {
    match (struct_prefix(t, named, fuel, k), layout_of(field_at(t, k), named, fuel)) {
        (Some(p), Some(e)) => Some(extend_offset(p, e)),
        _ => None,
    }
}

/// The offset in bytes of field `field` of a structure with the given
/// fields.
pub fn offset_of(element_types: &Vec<IrType>, is_packed: bool, field: u32, tys: &Types) -> (r: usize)
    requires
        offset_of_ok(*element_types, is_packed, field as nat, tys.named@),
    ensures
        offset_of_spec(*element_types, is_packed, field as nat, tys.named@) == Some(r as int),
{
    let ghost t = struct_of(*element_types, is_packed);
    let ghost named = tys.named@;
    let fuel = tys.named.len();
    let n = field as usize;
    if is_packed {
        let mut sum: usize = 0;
        let mut i: usize = 0;
        while i < n
            invariant
                i <= n,
                n == field,
                t == struct_of(*element_types, is_packed),
                named == tys.named@,
                fuel == named.len(),
                packed_size(t, named, fuel as nat, i as nat) == Some(sum as int),
                packed_size(t, named, fuel as nat, n as nat) matches Some(total) && total
                    <= size_limit(),
            decreases n - i,
        {
            proof {
                lemma_packed(t, named, fuel as nat, (i + 1) as nat, n as nat);
            }
            assert(field_at(t, i as nat) == element_types@[i as int]);
            let e = layout_rec(&element_types[i], tys, fuel);
            sum = sum + e.size;
            i = i + 1;
        }
        sum
    } else {
        let mut result = TypeLayout { size: 0, align: 1 };
        let mut offset: usize = 0;
        let mut i: usize = 0;
        let len = element_types.len();
        while i <= n
            invariant
                len == element_types@.len(),
                i <= n + 1,
                n == field,
                n < element_types@.len(),
                t == struct_of(*element_types, is_packed),
                named == tys.named@,
                fuel == named.len(),
                struct_prefix(t, named, fuel as nat, i as nat) == Some(result@),
                i > 0 ==> offset_at(t, named, fuel as nat, (i - 1) as nat) == Some(offset as int),
                struct_prefix(t, named, fuel as nat, (n + 1) as nat) matches Some(total)
                    && total.size <= size_limit(),
            decreases n + 1 - i,
        {
            proof {
                lemma_prefix(t, named, fuel as nat, (i + 1) as nat, (n + 1) as nat);
                lemma_prefix(t, named, fuel as nat, i as nat, (i + 1) as nat);
                lemma_prefix(t, named, fuel as nat, i as nat, i as nat);
            }
            assert(field_at(t, i as nat) == element_types@[i as int]);
            let e = layout_rec(&element_types[i], tys, fuel);
            let (r, o) = extend_layout(result, e);
            result = r;
            offset = o;
            i = i + 1;
        }
        offset
    }
}

/// The offset of element `field` of an array of `element`s: where the
/// layout rules place the element after `field` others.
pub open spec fn array_offset_spec(e: LayoutV, field: nat) -> int {
    extend_offset(repeat(lay(0, 1), e, field), e)
}

/// The offset in bytes of element `field` of an array of `element_type`.
pub fn offset_of_array(element_type: &IrType, field: u32, tys: &Types) -> (r: usize)
    requires
        field < u32::MAX,
        layout_fits(*element_type, tys.named@, tys.named@.len()),
        repeat(
            lay(0, 1),
            type_layout_spec(*element_type, *tys).unwrap(),
            field as nat + 1,
        ).size <= size_limit(),
    ensures
        r as int == array_offset_spec(type_layout_spec(*element_type, *tys).unwrap(), field as nat),
{
    let e = type_layout(element_type, tys);
    proof {
        lemma_layout_ok(*element_type, tys.named@, tys.named@.len());
    }
    let mut result = TypeLayout { size: 0, align: 1 };
    let mut offset: usize = 0;
    let mut i: u32 = 0;
    while i <= field
        invariant
            i <= field + 1,
            field < u32::MAX,
            lay_ok(e@),
            result@ == repeat(lay(0, 1), e@, i as nat),
            i > 0 ==> offset == extend_offset(repeat(lay(0, 1), e@, (i - 1) as nat), e@),
            repeat(lay(0, 1), e@, field as nat + 1).size <= size_limit(),
        decreases field + 1 - i,
    {
        proof {
            lemma_repeat(lay(0, 1), e@, (i + 1) as nat, field as nat + 1);
            lemma_repeat(lay(0, 1), e@, i as nat, i as nat);
        }
        let (r, o) = extend_layout(result, e);
        result = r;
        offset = o;
        i = i + 1;
    }
    offset
}

} // verus!
