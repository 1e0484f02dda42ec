//! Small text utilities: decimal rendering of integers and
//! character-level predicates on strings.
use vstd::prelude::*;

verus! {

/// The one-character text of a decimal digit.
pub open spec fn digit_text(d: int) -> Seq<char> {
    if d == 0 {
        "0"@
    } else if d == 1 {
        "1"@
    } else if d == 2 {
        "2"@
    } else if d == 3 {
        "3"@
    } else if d == 4 {
        "4"@
    } else if d == 5 {
        "5"@
    } else if d == 6 {
        "6"@
    } else if d == 7 {
        "7"@
    } else if d == 8 {
        "8"@
    } else {
        "9"@
    }
}

/// Decimal text of a natural number, without leading zeros.
pub open spec fn nat_text(n: nat) -> Seq<char>
    decreases n,
{
    if n < 10 {
        digit_text(n as int)
    } else {
        nat_text(n / 10) + digit_text((n % 10) as int)
    }
}

/// Decimal text of an integer, with a leading `-` when it is negative.
pub open spec fn int_text(i: int) -> Seq<char> {
    if i < 0 {
        "-"@ + nat_text((-i) as nat)
    } else {
        nat_text(i as nat)
    }
}

fn digit_str(d: u64) -> (r: &'static str)
    requires
        d < 10,
    ensures
        r@ == digit_text(d as int),
{
    if d == 0 {
        "0"
    } else if d == 1 {
        "1"
    } else if d == 2 {
        "2"
    } else if d == 3 {
        "3"
    } else if d == 4 {
        "4"
    } else if d == 5 {
        "5"
    } else if d == 6 {
        "6"
    } else if d == 7 {
        "7"
    } else if d == 8 {
        "8"
    } else {
        "9"
    }
}

/// Decimal text of an unsigned integer.
pub fn u64_text(n: u64) -> (r: String)
    ensures
        r@ == nat_text(n as nat),
    decreases n,
{
    if n < 10 {
        String::from_str(digit_str(n))
    } else {
        let mut s = u64_text(n / 10);
        s.append(digit_str(n % 10));
        s
    }
}

/// Decimal text of a signed 32-bit integer.
pub fn i32_text(i: i32) -> (r: String)
    ensures
        r@ == int_text(i as int),
{
    if i < 0 {
        let m: i64 = -(i as i64);
        let digits = u64_text(m as u64);
        let mut s = String::from_str("-");
        s.append(digits.as_str());
        s
    } else {
        u64_text(i as u64)
    }
}

/// Whether `s` starts with `p`.
pub open spec fn has_prefix(s: Seq<char>, p: Seq<char>) -> bool {
    p.len() <= s.len() && s.subrange(0, p.len() as int) == p
}

/// Whether `s` ends with `p`.
pub open spec fn has_suffix(s: Seq<char>, p: Seq<char>) -> bool {
    p.len() <= s.len() && s.subrange(s.len() - p.len(), s.len() as int) == p
}

/// Whether `p` occurs in `s` at position `i`.
pub open spec fn occurs_at(s: Seq<char>, p: Seq<char>, i: int) -> bool {
    0 <= i && i + p.len() <= s.len() && s.subrange(i, i + p.len()) == p
}

/// Whether `p` occurs anywhere in `s`.
pub open spec fn has_infix(s: Seq<char>, p: Seq<char>) -> bool {
    exists|i: int| occurs_at(s, p, i)
}

/// Whether `p` occurs in `s` at position `at`, checked character by character.
fn matches_at(s: &str, p: &str, at: usize) -> (r: bool)
    requires
        at + p@.len() <= s@.len(),
    ensures
        r == (s@.subrange(at as int, at + p@.len()) == p@),
{
    let n = p.unicode_len();
    let _ls = s.unicode_len();
    let mut k: usize = 0;
    while k < n
        invariant
            n == p@.len(),
            _ls == s@.len(),
            at + n <= s@.len(),
            k <= n,
            forall|j: int| 0 <= j < k ==> s@[at + j] == p@[j],
        decreases n - k,
    {
        if s.get_char(at + k) != p.get_char(k) {
            assert(s@.subrange(at as int, at + n)[k as int] != p@[k as int]);
            return false;
        }
        k = k + 1;
    }
    assert(s@.subrange(at as int, at + n) =~= p@);
    true
}

/// Whether `s` starts with `p`.
pub fn starts_with(s: &str, p: &str) -> (r: bool)
    ensures
        r == has_prefix(s@, p@),
{
    let ls = s.unicode_len();
    let lp = p.unicode_len();
    if lp > ls {
        false
    } else {
        matches_at(s, p, 0)
    }
}

/// Whether `s` ends with `p`.
pub fn ends_with(s: &str, p: &str) -> (r: bool)
    ensures
        r == has_suffix(s@, p@),
{
    let ls = s.unicode_len();
    let lp = p.unicode_len();
    if lp > ls {
        false
    } else {
        matches_at(s, p, ls - lp)
    }
}

/// Whether `p` occurs anywhere in `s`.
pub fn contains(s: &str, p: &str) -> (r: bool)
    ensures
        r == has_infix(s@, p@),
{
    let ls = s.unicode_len();
    let lp = p.unicode_len();
    if lp > ls {
        return false;
    }
    if lp == 0 {
        assert(s@.subrange(0, 0) =~= p@);
        assert(occurs_at(s@, p@, 0));
        return true;
    }
    let mut i: usize = 0;
    while i <= ls - lp
        invariant
            ls == s@.len(),
            lp == p@.len(),
            0 < lp <= ls,
            forall|j: int| 0 <= j < i ==> !occurs_at(s@, p@, j),
        decreases ls - lp + 1 - i,
    {
        if matches_at(s, p, i) {
            assert(occurs_at(s@, p@, i as int));
            return true;
        }
        i = i + 1;
    }
    assert forall|j: int| !occurs_at(s@, p@, j) by {
        if 0 <= j && j + lp <= ls {
            assert(j < i);
        }
    }
    false
}

/// The text of `s` without its last `k` characters.
pub fn drop_last_chars(s: &str, k: usize) -> (r: String)
    requires
        k <= s@.len(),
    ensures
        r@ == s@.subrange(0, s@.len() - k),
{
    let n = s.unicode_len();
    String::from_str(s.substring_char(0, n - k))
}

/// The text of `s` without its first `k` characters.
pub fn drop_first_chars(s: &str, k: usize) -> (r: String)
    requires
        k <= s@.len(),
    ensures
        r@ == s@.subrange(k as int, s@.len() as int),
{
    let n = s.unicode_len();
    String::from_str(s.substring_char(k, n))
}

/// Concatenation of two strings.
pub fn join(a: &str, b: &str) -> (r: String)
    ensures
        r@ == a@ + b@,
{
    let mut s = String::from_str(a);
    s.append(b);
    s
}

/// Whether two strings are equal, character by character.
pub fn str_eq(a: &str, b: &str) -> (r: bool)
    ensures
        r == (a@ == b@),
{
    let la = a.unicode_len();
    let lb = b.unicode_len();
    if la != lb {
        return false;
    }
    let r = matches_at(a, b, 0);
    assert(a@.subrange(0, la as int) =~= a@);
    r
}

/// Characters of a decimal digit's text.
pub proof fn lemma_digit_text(d: int)
    ensures
        digit_text(d).len() == 1,
        '0' <= digit_text(d)[0] <= '9',
{
    reveal_strlit("0");
    reveal_strlit("1");
    reveal_strlit("2");
    reveal_strlit("3");
    reveal_strlit("4");
    reveal_strlit("5");
    reveal_strlit("6");
    reveal_strlit("7");
    reveal_strlit("8");
    reveal_strlit("9");
}

/// The decimal text of a natural number is a non-empty run of digits.
pub proof fn lemma_nat_text_digits(n: nat)
    ensures
        nat_text(n).len() > 0,
        forall|i: int| 0 <= i < nat_text(n).len() ==> '0' <= #[trigger] nat_text(n)[i] <= '9',
    decreases n,
{
    if n < 10 {
        lemma_digit_text(n as int);
    } else {
        lemma_nat_text_digits(n / 10);
        lemma_digit_text((n % 10) as int);
        let a = nat_text(n / 10);
        let b = digit_text((n % 10) as int);
        assert forall|i: int| 0 <= i < nat_text(n).len() implies '0' <= #[trigger] nat_text(n)[i]
            <= '9' by {
            if i < a.len() {
                assert(nat_text(n)[i] == a[i]);
            } else {
                assert(nat_text(n)[i] == b[i - a.len()]);
            }
        }
    }
}

proof fn lemma_digit_inj(a: int, b: int)
    requires
        0 <= a <= 9,
        0 <= b <= 9,
        digit_text(a)[0] == digit_text(b)[0],
    ensures
        a == b,
{
    reveal_strlit("0");
    reveal_strlit("1");
    reveal_strlit("2");
    reveal_strlit("3");
    reveal_strlit("4");
    reveal_strlit("5");
    reveal_strlit("6");
    reveal_strlit("7");
    reveal_strlit("8");
    reveal_strlit("9");
}

/// Different numbers have different decimal texts.
pub proof fn lemma_nat_text_inj(a: nat, b: nat)
    requires
        nat_text(a) == nat_text(b),
    ensures
        a == b,
    decreases a + b,
{
    lemma_digit_text((a % 10) as int);
    lemma_digit_text((b % 10) as int);
    if a < 10 && b < 10 {
        lemma_digit_inj(a as int, b as int);
    } else if a < 10 {
        lemma_nat_text_digits(b / 10);
        assert(nat_text(b).len() >= 2);
        lemma_digit_text(a as int);
    } else if b < 10 {
        lemma_nat_text_digits(a / 10);
        assert(nat_text(a).len() >= 2);
        lemma_digit_text(b as int);
    } else {
        let ta = nat_text(a);
        let tb = nat_text(b);
        assert(ta.last() == digit_text((a % 10) as int)[0]);
        assert(tb.last() == digit_text((b % 10) as int)[0]);
        lemma_digit_inj((a % 10) as int, (b % 10) as int);
        assert(ta.drop_last() =~= nat_text(a / 10));
        assert(tb.drop_last() =~= nat_text(b / 10));
        lemma_nat_text_inj(a / 10, b / 10);
    }
}

/// The decimal text of an integer holds only digits and a leading minus sign.
pub proof fn lemma_int_text_chars(i: int)
    ensures
        int_text(i).len() > 0,
        forall|k: int|
            0 <= k < int_text(i).len() ==> ('0' <= #[trigger] int_text(i)[k] <= '9' || int_text(
                i,
            )[k] == '-'),
{
    reveal_strlit("-");
    if i < 0 {
        lemma_nat_text_digits((-i) as nat);
        let t = nat_text((-i) as nat);
        assert forall|k: int| 0 <= k < int_text(i).len() implies ('0' <= #[trigger] int_text(
            i,
        )[k] <= '9' || int_text(i)[k] == '-') by {
            if k > 0 {
                assert(int_text(i)[k] == t[k - 1]);
            }
        }
    } else {
        lemma_nat_text_digits(i as nat);
    }
}

} // verus!
