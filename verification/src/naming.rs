//! Function identifiers as values: comparing them, finding a function by
//! its identifier, and reading an identifier back from its text.
use vstd::prelude::*;
use crate::cir::{Function, FunctionId, FunctionIdV, FunctionV};
use crate::render::id_text;
use crate::text::{
    digit_text, has_infix, lemma_digit_text, lemma_nat_text_digits, nat_text, occurs_at, str_eq,
};

verus! {

// ----------------------------------------------------------------------
// Finding a function by its identifier
// ----------------------------------------------------------------------

/// The views of a list of functions.
pub open spec fn funcs_view(fs: Seq<Function>) -> Seq<FunctionV> {
    fs.map_values(|f: Function| f@)
}

/// The identifiers of a list of functions, in order.
pub open spec fn ids_of(fs: Seq<FunctionV>) -> Seq<FunctionIdV> {
    fs.map_values(|f: FunctionV| f.id)
}

/// Whether `id` occurs in `ids`.
pub open spec fn contains_id(ids: Seq<FunctionIdV>, id: FunctionIdV) -> bool {
    exists|i: int| 0 <= i < ids.len() && #[trigger] ids[i] == id
}

/// Whether `i` is the first position of `id` in `ids`.
pub open spec fn is_first_index(ids: Seq<FunctionIdV>, id: FunctionIdV, i: int) -> bool {
    &&& 0 <= i < ids.len()
    &&& ids[i] == id
    &&& forall|j: int| 0 <= j < i ==> #[trigger] ids[j] != id
}

/// The first position of `id` in `ids` (meaningful when it occurs).
pub open spec fn index_of_id(ids: Seq<FunctionIdV>, id: FunctionIdV) -> int {
    choose|i: int| is_first_index(ids, id, i)
}

/// There is at most one first position.
pub proof fn lemma_first_index_unique(ids: Seq<FunctionIdV>, id: FunctionIdV, i: int, k: int)
    requires
        is_first_index(ids, id, i),
        is_first_index(ids, id, k),
    ensures
        i == k,
{
    if i < k {
        assert(ids[i] != id);
    } else if k < i {
        assert(ids[k] != id);
    }
}

/// A first position, once found, is the one `index_of_id` names.
pub proof fn lemma_index_of_id(ids: Seq<FunctionIdV>, id: FunctionIdV, i: int)
    requires
        is_first_index(ids, id, i),
    ensures
        index_of_id(ids, id) == i,
{
    let k = index_of_id(ids, id);
    lemma_first_index_unique(ids, id, i, k);
}

/// Every identifier that occurs has a first position, which
/// `index_of_id` names.
pub proof fn lemma_contains_first(ids: Seq<FunctionIdV>, id: FunctionIdV, i: int)
    requires
        0 <= i < ids.len(),
        ids[i] == id,
    ensures
        is_first_index(ids, id, index_of_id(ids, id)),
    decreases i,
{
    if exists|j: int| 0 <= j < i && #[trigger] ids[j] == id {
        let j = choose|j: int| 0 <= j < i && #[trigger] ids[j] == id;
        lemma_contains_first(ids, id, j);
    } else {
        assert(is_first_index(ids, id, i));
    }
}

/// Whether two identifiers are the same.
pub fn id_eq(a: &FunctionId, b: &FunctionId) -> (r: bool)
    ensures
        r == (a@ == b@),
{
    a.sub == b.sub && str_eq(a.name.as_str(), b.name.as_str())
}

/// The position of the first function with identifier `id`, if any.
pub fn find_function(funcs: &Vec<Function>, id: &FunctionId) -> (r: Option<usize>)
    ensures
        match r {
            Some(i) => is_first_index(ids_of(funcs_view(funcs@)), id@, i as int),
            None => !contains_id(ids_of(funcs_view(funcs@)), id@),
        },
{
    let ghost ids = ids_of(funcs_view(funcs@));
    let mut i: usize = 0;
    while i < funcs.len()
        invariant
            ids == ids_of(funcs_view(funcs@)),
            ids.len() == funcs@.len(),
            i <= funcs.len(),
            forall|j: int| 0 <= j < i ==> #[trigger] ids[j] != id@,
        decreases funcs.len() - i,
    {
        assert(ids[i as int] == funcs@[i as int].id@);
        if id_eq(&funcs[i].id, id) {
            return Some(i);
        }
        i = i + 1;
    }
    None
}

// ----------------------------------------------------------------------
// Reading an identifier from its text
// ----------------------------------------------------------------------

/// The marker between a function's name and its sub-block number.
pub const SUB_MARKER: &'static str = "-sub";

/// Whether `c` is a decimal digit.
pub open spec fn is_digit(c: char) -> bool {
    '0' <= c <= '9'
}

/// The value of a decimal digit.
pub open spec fn digit_value(c: char) -> nat {
    (c as int - '0' as int) as nat
}

/// The value of a run of decimal digits.
pub open spec fn digits_value(t: Seq<char>) -> nat
    decreases t.len(),
{
    if t.len() == 0 {
        0
    } else {
        digits_value(t.drop_last()) * 10 + digit_value(t.last())
    }
}

/// Whether `t` is a non-empty run of decimal digits.
pub open spec fn all_digits(t: Seq<char>) -> bool {
    t.len() > 0 && forall|i: int| 0 <= i < t.len() ==> is_digit(#[trigger] t[i])
}

/// The number a text denotes as a `usize`: a non-empty run of decimal
/// digits whose value fits.
pub open spec fn parse_usize_spec(t: Seq<char>) -> Option<nat> {
    if all_digits(t) && digits_value(t) <= usize::MAX {
        Some(digits_value(t))
    } else {
        None
    }
}

/// The first position of `p` in `s` (meaningful when it occurs).
pub open spec fn first_occurrence(s: Seq<char>, p: Seq<char>) -> int {
    choose|i: int| occurs_at(s, p, i) && forall|j: int| 0 <= j < i ==> !occurs_at(s, p, j)
}

/// The identifier a text denotes: with no sub-block marker the whole text
/// is the name and the sub-block is zero; otherwise the name is what comes
/// before the first marker and the sub-block is the number after it.
pub open spec fn parse_id_spec(s: Seq<char>) -> Option<FunctionIdV> {
    if has_infix(s, SUB_MARKER@) {
        let i = first_occurrence(s, SUB_MARKER@);
        match parse_usize_spec(s.subrange(i + 4, s.len() as int)) {
            Some(n) => Some(FunctionIdV { name: s.subrange(0, i), sub: n }),
            None => None,
        }
    } else {
        Some(FunctionIdV { name: s, sub: 0 })
    }
}

/// A prefix of a run of digits has a value no greater than the run.
proof fn lemma_digits_prefix(t: Seq<char>, k: int)
    requires
        0 <= k <= t.len(),
    ensures
        digits_value(t.subrange(0, k)) <= digits_value(t),
    decreases t.len(),
{
    if k < t.len() {
        lemma_digits_prefix(t.drop_last(), k);
        assert(t.drop_last().subrange(0, k) =~= t.subrange(0, k));
    } else {
        assert(t.subrange(0, k) =~= t);
    }
}

/// Reads a `usize` written in decimal digits.
pub fn parse_usize(t: &str) -> (r: Option<usize>)
    ensures
        match r {
            Some(n) => parse_usize_spec(t@) == Some(n as nat),
            None => parse_usize_spec(t@) is None,
        },
{
    let n = t.unicode_len();
    if n == 0 {
        return None;
    }
    let mut acc: usize = 0;
    let mut i: usize = 0;
    while i < n
        invariant
            n == t@.len(),
            0 < n,
            i <= n,
            acc as nat == digits_value(t@.subrange(0, i as int)),
            forall|j: int| 0 <= j < i ==> is_digit(#[trigger] t@[j]),
        decreases n - i,
    {
        let c = t.get_char(i);
        if !('0' <= c && c <= '9') {
            assert(!all_digits(t@));
            return None;
        }
        let d = (c as u32 - '0' as u32) as usize;
        assert(t@.subrange(0, i + 1).drop_last() =~= t@.subrange(0, i as int));
        assert(digits_value(t@.subrange(0, i + 1)) == acc * 10 + d);
        match acc.checked_mul(10) {
            Some(m) => match m.checked_add(d) {
                Some(v) => {
                    acc = v;
                },
                None => {
                    proof {
                        if all_digits(t@) {
                            lemma_digits_prefix(t@, i + 1);
                        }
                    }
                    return None;
                },
            },
            None => {
                proof {
                    if all_digits(t@) {
                        lemma_digits_prefix(t@, i + 1);
                    }
                }
                return None;
            },
        }
        i = i + 1;
    }
    assert(t@.subrange(0, n as int) =~= t@);
    Some(acc)
}

/// The first position of `p` in `s`, if it occurs.
fn find_text(s: &str, p: &str) -> (r: Option<usize>)
    requires
        p@.len() > 0,
    ensures
        match r {
            Some(i) => occurs_at(s@, p@, i as int) && forall|j: int|
                0 <= j < i ==> !occurs_at(s@, p@, j),
            None => !has_infix(s@, p@),
        },
{
    let ls = s.unicode_len();
    let lp = p.unicode_len();
    if lp > ls {
        return None;
    }
    let mut i: usize = 0;
    while i <= ls - lp
        invariant
            ls == s@.len(),
            lp == p@.len(),
            0 < lp <= ls,
            forall|j: int| 0 <= j < i ==> !occurs_at(s@, p@, j),
        decreases ls - lp + 1 - i,
    {
        let rest = s.substring_char(i, i + lp);
        if str_eq(rest, p) {
            assert(occurs_at(s@, p@, i as int));
            return Some(i);
        }
        i = i + 1;
    }
    assert forall|j: int| !occurs_at(s@, p@, j) by {
        if 0 <= j && j + lp <= ls {
            assert(j < i);
        }
    }
    None
}

/// A first occurrence, once found, is the one `first_occurrence` names.
proof fn lemma_first_occurrence(s: Seq<char>, p: Seq<char>, i: int)
    requires
        occurs_at(s, p, i),
        forall|j: int| 0 <= j < i ==> !occurs_at(s, p, j),
    ensures
        first_occurrence(s, p) == i,
{
    let k = first_occurrence(s, p);
    assert(occurs_at(s, p, k) && forall|j: int| 0 <= j < k ==> !occurs_at(s, p, j));
    if k < i {
        assert(!occurs_at(s, p, k));
    } else if i < k {
        assert(!occurs_at(s, p, i));
    }
}

/// Reads a function identifier from its text: the name, then optionally
/// `-sub` and the sub-block number.
pub fn parse_function_id(s: &str) -> (r: Option<FunctionId>)
    ensures
        match r {
            Some(id) => parse_id_spec(s@) == Some(id@),
            None => parse_id_spec(s@) is None,
        },
{
    let marker = SUB_MARKER;
    proof {
        reveal_strlit("-sub");
    }
    match find_text(s, marker) {
        None => Some(FunctionId { name: String::from_str(s), sub: 0 }),
        Some(i) => {
            proof {
                lemma_first_occurrence(s@, SUB_MARKER@, i as int);
            }
            let n = s.unicode_len();
            let digits = s.substring_char(i + 4, n);
            match parse_usize(digits) {
                Some(sub) => {
                    let name = s.substring_char(0, i);
                    Some(FunctionId { name: String::from_str(name), sub })
                },
                None => None,
            }
        },
    }
}

// ----------------------------------------------------------------------
// Reading back the text of an identifier
// ----------------------------------------------------------------------

/// Each digit's text is the one character whose value is the digit.
proof fn lemma_digit_value(d: int)
    requires
        0 <= d < 10,
    ensures
        digit_text(d).len() == 1,
        digit_value(digit_text(d)[0]) == d,
{
    reveal_strlit("0");
    reveal_strlit("1");
    reveal_strlit("2");
    reveal_strlit("3");
    reveal_strlit("4");
    reveal_strlit("5");
    reveal_strlit("6");
    reveal_strlit("7");
    reveal_strlit("8");
    reveal_strlit("9");
}

/// The decimal text of a number reads back as the number.
pub proof fn lemma_nat_text_value(n: nat)
    ensures
        all_digits(nat_text(n)),
        digits_value(nat_text(n)) == n,
    decreases n,
{
    lemma_nat_text_digits(n);
    if n < 10 {
        lemma_digit_value(n as int);
        let t = nat_text(n);
        assert(t == digit_text(n as int));
        assert(t.drop_last() =~= Seq::<char>::empty());
        assert(digits_value(t.drop_last()) == 0);
        assert(digits_value(t) == digit_value(t.last()));
    } else {
        lemma_nat_text_value(n / 10);
        lemma_digit_value((n % 10) as int);
        let a = nat_text(n / 10);
        let b = digit_text((n % 10) as int);
        let t = nat_text(n);
        assert(t == a + b);
        assert(t.drop_last() =~= a);
        assert(t.last() == b[0]);
        assert(digits_value(t) == digits_value(a) * 10 + digit_value(b[0]));
        assert(digits_value(t) == (n / 10) * 10 + n % 10);
    }
}

/// A run of digits holds no sub-block marker.
proof fn lemma_digits_no_marker(t: Seq<char>)
    requires
        forall|i: int| 0 <= i < t.len() ==> is_digit(#[trigger] t[i]),
    ensures
        !has_infix(t, SUB_MARKER@),
{
    reveal_strlit("-sub");
    assert forall|i: int| !occurs_at(t, SUB_MARKER@, i) by {
        if occurs_at(t, SUB_MARKER@, i) {
            assert(t.subrange(i, i + 4)[0] == t[i]);
        }
    }
}

/// No marker starts inside `name` when `name` holds none and the marker
/// follows it directly.
proof fn lemma_marker_first_after(name: Seq<char>, rest: Seq<char>)
    requires
        !has_infix(name, SUB_MARKER@),
        rest.len() >= 4,
        rest.subrange(0, 4) == SUB_MARKER@,
    ensures
        forall|j: int| 0 <= j < name.len() ==> !occurs_at(name + rest, SUB_MARKER@, j),
        occurs_at(name + rest, SUB_MARKER@, name.len() as int),
{
    reveal_strlit("-sub");
    let m = SUB_MARKER@;
    let s = name + rest;
    let k = name.len() as int;
    assert(s.subrange(k, k + 4) =~= rest.subrange(0, 4));
    assert forall|j: int| 0 <= j < k implies !occurs_at(s, m, j) by {
        if occurs_at(s, m, j) {
            if j + 4 <= k {
                assert(name.subrange(j, j + 4) =~= s.subrange(j, j + 4));
                assert(occurs_at(name, m, j));
            } else {
                assert(s[k] == rest[0]);
                assert(rest[0] == m[0]);
                assert(s.subrange(j, j + 4)[k - j] == s[k]);
                assert(m[k - j] == s[k]);
            }
        }
    }
}

/// Reading the text of an identifier gives the identifier back, for every
/// identifier whose name holds no sub-block marker.
pub proof fn lemma_id_text_roundtrip(id: FunctionIdV)
    requires
        !has_infix(id.name, SUB_MARKER@),
        id.sub <= usize::MAX,
    ensures
        parse_id_spec(id_text(id)) == Some(id),
{
    reveal_strlit("-sub");
    let m = SUB_MARKER@;
    if id.sub != 0 {
        let name = id.name;
        let digits = nat_text(id.sub);
        lemma_nat_text_value(id.sub);
        let rest = m + digits;
        let s = id_text(id);
        assert(s =~= name + rest);
        assert(rest.subrange(0, 4) =~= m);
        lemma_marker_first_after(name, rest);
        let k = name.len() as int;
        lemma_first_occurrence(s, m, k);
        assert(s.subrange(k + 4, s.len() as int) =~= digits);
        assert(s.subrange(0, k) =~= name);
    }
}

} // verus!
