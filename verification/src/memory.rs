//! Addresses: where functions and memory words live in the world, the
//! static allocator, and fresh temporary holders.
use vstd::prelude::*;
use crate::cir::{
    Command, CommandV, Data, DataKind, DataKindV, DataModifyKind, DataModifySource, DataTarget,
    DataTargetV, ModifySourceV, ScoreHolder, commands_view, is_space, valid_holder,
};
use crate::registers::{assign_lit, memory_path, set_v};
use crate::text::{i32_text, int_text, lemma_nat_text_digits, nat_text, u64_text};

verus! {

/// The number of function blocks in one row of the function grid.
pub const ROW_SIZE: usize = 32;

/// The number of bytes reserved for the condition stack.
pub const COND_STACK_BYTES: usize = 500;

// ----------------------------------------------------------------------
// The function grid
// ----------------------------------------------------------------------

/// The index of the function whose block stands at column `x`, row `z`.
pub open spec fn pos_index(x: int, z: int) -> int {
    32 * (-2 - x) + z
}

/// The column and row of the block of function `f`.
pub open spec fn func_pos(f: int) -> (int, int) {
    (-2 - f / 32, f % 32)
}

/// Whether `pos_to_func_idx` can compute the index of `(x, z)` in 32-bit
/// arithmetic, and the index is not negative.
pub open spec fn pos_index_ok(x: i32, z: i32) -> bool {
    &&& i32::MIN <= -2 - x <= i32::MAX
    &&& i32::MIN <= 32 * (-2 - x) <= i32::MAX
    &&& 0 <= pos_index(x as int, z as int) <= i32::MAX
}

/// The index of the function whose block stands at column `x`, row `z`.
pub fn pos_to_func_idx(x: i32, z: i32) -> (r: usize)
    requires
        pos_index_ok(x, z),
    ensures
        r as int == pos_index(x as int, z as int),
{
    let col: i32 = -2 - x;
    let base: i32 = 32 * col;
    let idx: i32 = base + z;
    idx as usize
}

/// The column and row of the block of function `f`.
pub fn func_idx_to_pos(f: usize) -> (r: (i32, i32))
    requires
        f / 32 < i32::MAX,
    ensures
        (r.0 as int, r.1 as int) == func_pos(f as int),
{
    let row = (f / ROW_SIZE) as i32;
    (-2 - row, (f % ROW_SIZE) as i32)
}

/// Placing a function and reading back its index gives the function.
pub proof fn lemma_func_pos_roundtrip(f: int)
    requires
        0 <= f,
    ensures
        pos_index(func_pos(f).0, func_pos(f).1) == f,
{
}

/// Reading the index of a place in the grid and placing that function
/// gives the place, for every row of the grid.
pub proof fn lemma_pos_index_roundtrip(x: int, z: int)
    requires
        0 <= z < 32,
    ensures
        func_pos(pos_index(x, z)) == (x, z),
{
    let f = pos_index(x, z);
    assert(f == 32 * (-2 - x) + z);
    assert(f / 32 == -2 - x && f % 32 == z) by (nonlinear_arith)
        requires
            f == 32 * (-2 - x) + z,
            0 <= z < 32,
    ;
}

// ----------------------------------------------------------------------
// Memory words
// ----------------------------------------------------------------------

/// Errors of memory accesses.
#[derive(Debug, Clone, Copy, PartialEq, Eq)]
pub enum InterpError {
    /// The coordinates lie outside the memory region.
    OutOfBoundsAccess(i32, i32, i32),
}

/// Whether `(x, y, z)` lies in the memory region.
pub open spec fn in_memory(x: int, y: int, z: int) -> bool {
    0 <= x < 128 && 0 <= y < 16 && 0 <= z < 16
}

/// The byte address of the word stored at `(x, y, z)`.
pub open spec fn word_address(x: int, y: int, z: int) -> int {
    (x * 16 * 16 + y * 16 + z) * 4
}

/// The address of the word at `(x, y, z)`, or an error when that place
/// lies outside memory.
pub fn get_index(x: i32, y: i32, z: i32) -> (r: Result<i32, InterpError>)
    ensures
        in_memory(x as int, y as int, z as int) ==> r == Ok::<i32, InterpError>(
            word_address(x as int, y as int, z as int) as i32,
        ),
        !in_memory(x as int, y as int, z as int) ==> r == Err::<i32, InterpError>(
            InterpError::OutOfBoundsAccess(x, y, z),
        ),
        in_memory(x as int, y as int, z as int) ==> 0 <= word_address(x as int, y as int, z as int)
            < 128 * 16 * 16 * 4,
{
    if 0 <= x && x < 128 && 0 <= y && y < 16 && 0 <= z && z < 16 {
        assert(0 <= word_address(x as int, y as int, z as int) < 128 * 16 * 16 * 4)
            by (nonlinear_arith)
            requires
                0 <= x < 128,
                0 <= y < 16,
                0 <= z < 16,
        ;
        Ok((x * 16 * 16 + y * 16 + z) * 4)
    } else {
        Err(InterpError::OutOfBoundsAccess(x, y, z))
    }
}

/// Whether `get_address` accepts `address`: a positive multiple of four
/// below the end of memory.
pub open spec fn address_ok(address: int) -> bool {
    &&& 0 < address
    &&& address % 4 == 0
    &&& address / 4 < 128 * 16 * 16
}

/// The place `(x, y, z)` of the word at `address`.
pub open spec fn address_place(address: int) -> (int, int, int) {
    let w = address / 4;
    ((w / 16 / 16) % 128, (w / 16) % 16, w % 16)
}

/// The place `(x, y, z)` of the word at `address`.
pub fn get_address(address: i32) -> (r: (i32, i32, i32))
    requires
        address_ok(address as int),
    ensures
        (r.0 as int, r.1 as int, r.2 as int) == address_place(address as int),
        in_memory(r.0 as int, r.1 as int, r.2 as int),
{
    let mut a = address / 4;
    let z = a % 16;
    a = a / 16;
    let y = a % 16;
    a = a / 16;
    let x = a % 128;
    (x, y, z)
}

/// Looking up the place of an address that `get_index` gave back gives
/// the place, for every place in memory but the first, whose address zero
/// `get_address` refuses.
pub proof fn lemma_index_address_roundtrip(x: int, y: int, z: int)
    requires
        in_memory(x, y, z),
        (x, y, z) != (0int, 0int, 0int),
    ensures
        address_ok(word_address(x, y, z)),
        address_place(word_address(x, y, z)) == (x, y, z),
{
    let a = word_address(x, y, z);
    let w = x * 256 + y * 16 + z;
    assert(a == w * 4 && a / 4 == w && a % 4 == 0) by (nonlinear_arith)
        requires
            a == (x * 16 * 16 + y * 16 + z) * 4,
            w == x * 256 + y * 16 + z,
    ;
    assert(w > 0) by (nonlinear_arith)
        requires
            w == x * 256 + y * 16 + z,
            0 <= x,
            0 <= y,
            0 <= z,
            (x, y, z) != (0int, 0int, 0int),
    ;
    assert(w % 16 == z && w / 16 == x * 16 + y) by (nonlinear_arith)
        requires
            w == x * 256 + y * 16 + z,
            0 <= z < 16,
            0 <= y,
            0 <= x,
    ;
    assert((x * 16 + y) % 16 == y && (x * 16 + y) / 16 == x) by (nonlinear_arith)
        requires
            0 <= y < 16,
            0 <= x,
    ;
    assert(w < 128 * 16 * 16) by (nonlinear_arith)
        requires
            w == x * 256 + y * 16 + z,
            0 <= x < 128,
            0 <= y < 16,
            0 <= z < 16,
    ;
}

/// The text of a block position `x y z`.
pub open spec fn coords_text(x: int, y: int, z: int) -> Seq<char> {
    int_text(x) + " "@ + int_text(y) + " "@ + int_text(z)
}

/// Writes `value` into the memory word at the constant `address`.
pub open spec fn set_memory_v(value: i32, address: int) -> CommandV {
    let p = address_place(address);
    CommandV::Data {
        target: DataTargetV::Block(coords_text(p.0, p.1, p.2)),
        kind: DataKindV::Modify {
            path: memory_path(),
            kind: DataModifyKind::Overwrite,
            source: ModifySourceV::Value(value),
        },
    }
}

/// Writes `value` into the memory word at the constant `address`.
pub fn set_memory(value: i32, address: i32) -> (r: Command)
    requires
        address_ok(address as int),
    ensures
        r@ == set_memory_v(value, address as int),
{
    let (x, y, z) = get_address(address);
    let mut pos = i32_text(x);
    pos.append(" ");
    let ys = i32_text(y);
    pos.append(ys.as_str());
    pos.append(" ");
    let zs = i32_text(z);
    pos.append(zs.as_str());
    Command::Data(
        Data {
            target: DataTarget::Block(pos),
            kind: DataKind::Modify {
                path: String::from_str("RecordItem.tag.Memory"),
                kind: DataModifyKind::Overwrite,
                source: DataModifySource::Value(value),
            },
        },
    )
}

// ----------------------------------------------------------------------
// The static allocator
// ----------------------------------------------------------------------

/// `amount` rounded up to a multiple of four.
pub open spec fn round_up4(amount: int) -> int {
    if amount % 4 != 0 {
        amount + (4 - amount % 4)
    } else {
        amount
    }
}

/// Hands out static memory, in words, from a growing pointer.
#[derive(Debug, Clone, Copy, PartialEq, Eq)]
pub struct StaticAllocator(pub u32);

impl StaticAllocator {
    /// Reserves `amount` bytes, rounded up to whole words, and gives the
    /// address of the first byte.
    pub fn reserve(&mut self, amount: u32) -> (r: u32)
        requires
            old(self).0 + round_up4(amount as int) <= u32::MAX,
        ensures
            r == old(self).0,
            final(self).0 == old(self).0 + round_up4(amount as int),
    {
        let mut amount = amount;
        if amount % 4 != 0 {
            amount += 4 - (amount % 4);
        }
        let result = self.0;
        self.0 += amount;
        result
    }
}

/// Rounding up gives a multiple of four no smaller than the amount and
/// less than four above it.
pub proof fn lemma_round_up4(amount: int)
    requires
        0 <= amount,
    ensures
        round_up4(amount) % 4 == 0,
        amount <= round_up4(amount) < amount + 4,
{
}

/// Two successive reservations are disjoint and word-aligned when the
/// allocator started on a word boundary: the second starts where the
/// first ends, and both start on a multiple of four.
pub proof fn lemma_reserve_disjoint(start: int, a: int, b: int)
    requires
        start % 4 == 0,
        0 <= a,
        0 <= b,
    ensures
        (start + round_up4(a)) % 4 == 0,
        start + a <= start + round_up4(a),
        (start + round_up4(a) + round_up4(b)) % 4 == 0,
{
}

// ----------------------------------------------------------------------
// Fresh temporaries
// ----------------------------------------------------------------------

/// The source of fresh temporary numbers; every number it hands out is
/// larger than all those before.
#[derive(Debug, Clone, Copy, PartialEq, Eq)]
pub struct TempCounter {
    pub next: u32,
}

impl TempCounter {
    /// A counter that starts at zero.
    pub fn new() -> (r: TempCounter)
        ensures
            r.next == 0,
    {
        TempCounter { next: 0 }
    }
}

/// Gives the next fresh number.
pub fn get_unique_num(counter: &mut TempCounter) -> (r: u32)
    requires
        old(counter).next < u32::MAX,
    ensures
        r == old(counter).next,
        final(counter).next == old(counter).next + 1,
{
    let r = counter.next;
    counter.next = counter.next + 1;
    r
}

/// The name of temporary number `n`.
pub open spec fn temp_name(n: nat) -> Seq<char> {
    "%temp"@ + nat_text(n)
}

/// The holder of temporary number `n`.
pub fn temp_holder(n: u32) -> (r: ScoreHolder)
    ensures
        r@ == temp_name(n as nat),
{
    let mut s = String::from_str("%temp");
    let t = u64_text(n as u64);
    s.append(t.as_str());
    proof {
        reveal_strlit("%temp");
        lemma_nat_text_digits(n as nat);
        let a = "%temp"@;
        let b = nat_text(n as nat);
        assert forall|i: int| 0 <= i < (a + b).len() implies !is_space(#[trigger] (a + b)[i]) by {
            if i < a.len() {
                assert((a + b)[i] == a[i]);
            } else {
                assert((a + b)[i] == b[i - a.len()]);
                assert('0' <= b[i - a.len()] <= '9');
            }
        }
    }
    ScoreHolder::from_valid(s)
}

/// A fresh temporary holder.
pub fn get_unique_holder(counter: &mut TempCounter) -> (r: ScoreHolder)
    requires
        old(counter).next < u32::MAX,
    ensures
        r@ == temp_name(old(counter).next as nat),
        final(counter).next == old(counter).next + 1,
{
    let n = get_unique_num(counter);
    temp_holder(n)
}

proof fn lemma_digit_text_injective(d1: int, d2: int)
    requires
        0 <= d1 < 10,
        0 <= d2 < 10,
        crate::text::digit_text(d1) == crate::text::digit_text(d2),
    ensures
        d1 == d2,
{
    reveal_strlit("0");
    reveal_strlit("1");
    reveal_strlit("2");
    reveal_strlit("3");
    reveal_strlit("4");
    reveal_strlit("5");
    reveal_strlit("6");
    reveal_strlit("7");
    reveal_strlit("8");
    reveal_strlit("9");
    let t1 = crate::text::digit_text(d1);
    let t2 = crate::text::digit_text(d2);
    assert(t1[0] == t2[0]);
}

/// Decimal texts of distinct numbers differ.
proof fn lemma_nat_text_injective(a: nat, b: nat)
    requires
        nat_text(a) == nat_text(b),
    ensures
        a == b,
    decreases a,
{
    crate::text::lemma_digit_text((a % 10) as int);
    crate::text::lemma_digit_text((b % 10) as int);
    if a >= 10 && b >= 10 {
        lemma_nat_text_digits(a / 10);
        lemma_nat_text_digits(b / 10);
        let ta = nat_text(a);
        let tb = nat_text(b);
        let pa = nat_text(a / 10);
        let pb = nat_text(b / 10);
        let da = crate::text::digit_text((a % 10) as int);
        let db = crate::text::digit_text((b % 10) as int);
        assert(ta == pa + da);
        assert(tb == pb + db);
        assert(pa.len() == pb.len());
        assert(pa =~= ta.subrange(0, pa.len() as int));
        assert(pb =~= tb.subrange(0, pb.len() as int));
        assert(da =~= ta.subrange(pa.len() as int, ta.len() as int));
        assert(db =~= tb.subrange(pb.len() as int, tb.len() as int));
        lemma_nat_text_injective(a / 10, b / 10);
        lemma_digit_text_injective((a % 10) as int, (b % 10) as int);
    } else if a >= 10 {
        lemma_nat_text_digits(a / 10);
        assert(nat_text(a).len() >= 2);
    } else if b >= 10 {
        lemma_nat_text_digits(b / 10);
        assert(nat_text(b).len() >= 2);
    } else {
        lemma_digit_text_injective(a as int, b as int);
    }
}

/// Temporaries with different numbers have different names, so the
/// holders that a counter hands out one after the other never clash.
pub proof fn lemma_temp_names_distinct(a: nat, b: nat)
    requires
        a != b,
    ensures
        temp_name(a) != temp_name(b),
{
    if temp_name(a) == temp_name(b) {
        let p = "%temp"@;
        assert(temp_name(a).subrange(p.len() as int, temp_name(a).len() as int) =~= nat_text(a));
        assert(temp_name(b).subrange(p.len() as int, temp_name(b).len() as int) =~= nat_text(b));
        lemma_nat_text_injective(a, b);
    }
}

// ----------------------------------------------------------------------
// Possibly constant operands
// ----------------------------------------------------------------------

/// An operand that is either a known constant or held in holders after
/// some commands have run.
#[derive(Debug, PartialEq)]
pub enum MaybeConst {
    Const(i32),
    NonConst(Vec<Command>, Vec<ScoreHolder>),
}

/// The view of a [`MaybeConst`].
pub enum MaybeConstV {
    Const(i32),
    NonConst(Seq<CommandV>, Seq<Seq<char>>),
}

impl View for MaybeConst {
    type V = MaybeConstV;

    open spec fn view(&self) -> MaybeConstV {
        match self {
            MaybeConst::Const(s) => MaybeConstV::Const(*s),
            MaybeConst::NonConst(c, h) => MaybeConstV::NonConst(
                commands_view(c@),
                h@.map_values(|x: ScoreHolder| x@),
            ),
        }
    }
}

/// What `force_eval` gives for `m` when the counter stands at `n`: the
/// commands, the holders, and the counter after.
pub open spec fn force_v(m: MaybeConstV, n: nat) -> (Seq<CommandV>, Seq<Seq<char>>, nat) {
    match m {
        MaybeConstV::Const(score) => (seq![set_v(temp_name(n), score)], seq![temp_name(n)], n + 1),
        MaybeConstV::NonConst(c, h) => (c, h, n),
    }
}

impl MaybeConst {
    /// The commands and holders that make the operand available in
    /// holders: a constant is set into a fresh temporary.
    pub fn force_eval(self, counter: &mut TempCounter) -> (r: (Vec<Command>, Vec<ScoreHolder>))
        requires
            self is Const ==> old(counter).next < u32::MAX,
        ensures
            match self {
                MaybeConst::Const(score) => {
                    &&& commands_view(r.0@) == seq![
                        set_v(temp_name(old(counter).next as nat), score),
                    ]
                    &&& r.1@.len() == 1
                    &&& r.1@[0]@ == temp_name(old(counter).next as nat)
                    &&& final(counter).next == old(counter).next + 1
                },
                MaybeConst::NonConst(cmds, ids) => {
                    &&& r.0 == cmds
                    &&& r.1 == ids
                    &&& final(counter).next == old(counter).next
                },
            },
            (commands_view(r.0@), r.1@.map_values(|x: ScoreHolder| x@), final(counter).next as nat)
                == force_v(self@, old(counter).next as nat),
    {
        match self {
            MaybeConst::Const(score) => {
                let n = get_unique_num(counter);
                let target = temp_holder(n);
                let c = assign_lit(target.clone(), score);
                let cmds = vec![c];
                let ids = vec![target];
                assert(commands_view(cmds@) =~= seq![c@]);
                assert(ids@.map_values(|x: ScoreHolder| x@) =~= seq![temp_name(n as nat)]);
                (cmds, ids)
            },
            MaybeConst::NonConst(cmds, id) => (cmds, id),
        }
    }
}

} // verus!
