//! Ordered sets of holders: the registers a function clobbers, kept in
//! the order of their names, each once.
use vstd::prelude::*;
use crate::cir::ScoreHolder;

verus! {

/// Whether `a` comes before `b` in the order of names: character by
/// character by code point, a proper prefix first.
pub open spec fn name_lt(a: Seq<char>, b: Seq<char>) -> bool
    decreases a.len(),
{
    if a.len() == 0 {
        b.len() > 0
    } else if b.len() == 0 {
        false
    } else if a[0] != b[0] {
        (a[0] as u32) < (b[0] as u32)
    } else {
        name_lt(a.drop_first(), b.drop_first())
    }
}

/// No name comes before itself.
pub proof fn lemma_lt_irreflexive(a: Seq<char>)
    ensures
        !name_lt(a, a),
    decreases a.len(),
{
    if a.len() > 0 {
        lemma_lt_irreflexive(a.drop_first());
    }
}

/// The order of names is transitive.
pub proof fn lemma_lt_transitive(a: Seq<char>, b: Seq<char>, c: Seq<char>)
    requires
        name_lt(a, b),
        name_lt(b, c),
    ensures
        name_lt(a, c),
    decreases a.len(),
{
    if a.len() > 0 && b.len() > 0 && c.len() > 0 {
        if a[0] == b[0] && b[0] == c[0] {
            lemma_lt_transitive(a.drop_first(), b.drop_first(), c.drop_first());
        }
    }
}

proof fn lemma_char_code(c: char, d: char)
    requires
        c as u32 == d as u32,
    ensures
        c == d,
{
}

/// Of two different names, one comes before the other.
pub proof fn lemma_lt_total(a: Seq<char>, b: Seq<char>)
    requires
        a != b,
    ensures
        name_lt(a, b) || name_lt(b, a),
    decreases a.len(),
{
    if a.len() > 0 && b.len() > 0 && a[0] == b[0] {
        if a.drop_first() == b.drop_first() {
            assert(a =~= seq![a[0]] + a.drop_first());
            assert(b =~= seq![b[0]] + b.drop_first());
        }
        lemma_lt_total(a.drop_first(), b.drop_first());
    } else if a.len() > 0 && b.len() > 0 {
        if (a[0] as u32) == (b[0] as u32) {
            lemma_char_code(a[0], b[0]);
        }
    } else if a.len() == 0 && b.len() == 0 {
        assert(a =~= b);
    }
}

/// Whether the names are in strictly increasing order.
pub open spec fn strictly_sorted(s: Seq<Seq<char>>) -> bool {
    forall|i: int, j: int| 0 <= i < j < s.len() ==> name_lt(#[trigger] s[i], #[trigger] s[j])
}

/// The names in increasing order that make up the set `names`.
pub open spec fn sorted_names(names: Set<Seq<char>>) -> Seq<Seq<char>> {
    choose|s: Seq<Seq<char>>| strictly_sorted(s) && s.to_set() == names
}

/// Two increasing lists of the same names are the same list.
pub proof fn lemma_sorted_unique(a: Seq<Seq<char>>, b: Seq<Seq<char>>)
    requires
        strictly_sorted(a),
        strictly_sorted(b),
        a.to_set() == b.to_set(),
    ensures
        a == b,
    decreases a.len(),
{
    if a.len() == 0 {
        if b.len() > 0 {
            assert(b.to_set().contains(b[0]));
        }
        assert(a =~= b);
    } else if b.len() == 0 {
        assert(a.to_set().contains(a[0]));
    } else {
        assert(a.to_set().contains(a[0]));
        assert(b.to_set().contains(b[0]));
        let ia = choose|i: int| 0 <= i < a.len() && a[i] == b[0];
        let ib = choose|i: int| 0 <= i < b.len() && b[i] == a[0];
        if a[0] != b[0] {
            if ia > 0 {
                if ib > 0 {
                    lemma_lt_transitive(a[0], a[ia], b[ib]);
                    lemma_lt_irreflexive(a[0]);
                }
            }
            if ia == 0 {
                assert(a[0] == b[0]);
            }
        }
        assert(a[0] == b[0]);
        let a1 = a.drop_first();
        let b1 = b.drop_first();
        assert forall|x: Seq<char>| a1.to_set().contains(x) implies b1.to_set().contains(x) by {
            let i = choose|i: int| 0 <= i < a1.len() && a1[i] == x;
            assert(a.to_set().contains(x));
            let j = choose|j: int| 0 <= j < b.len() && b[j] == x;
            if j == 0 {
                assert(name_lt(a[0], a[i + 1]));
                lemma_lt_irreflexive(x);
            }
            assert(b1[j - 1] == x);
        }
        assert forall|x: Seq<char>| b1.to_set().contains(x) implies a1.to_set().contains(x) by {
            let i = choose|i: int| 0 <= i < b1.len() && b1[i] == x;
            assert(b.to_set().contains(x));
            let j = choose|j: int| 0 <= j < a.len() && a[j] == x;
            if j == 0 {
                assert(name_lt(b[0], b[i + 1]));
                lemma_lt_irreflexive(x);
            }
            assert(a1[j - 1] == x);
        }
        assert(a1.to_set() =~= b1.to_set());
        lemma_sorted_unique(a1, b1);
        assert(a =~= seq![a[0]] + a1);
        assert(b =~= seq![b[0]] + b1);
    }
}

/// Whether the name of `a` comes before that of `b`.
pub fn holder_lt(a: &ScoreHolder, b: &ScoreHolder) -> (r: bool)
    ensures
        r == name_lt(a@, b@),
{
    let sa = a.as_str();
    let sb = b.as_str();
    let la = sa.unicode_len();
    let lb = sb.unicode_len();
    let mut i: usize = 0;
    assert(a@.skip(0) =~= a@);
    assert(b@.skip(0) =~= b@);
    while i < la && i < lb
        invariant
            i <= la == sa@.len(),
            i <= lb == sb@.len(),
            sa@ == a@,
            sb@ == b@,
            name_lt(a@, b@) == name_lt(a@.skip(i as int), b@.skip(i as int)),
        decreases la - i,
    {
        let ca = sa.get_char(i);
        let cb = sb.get_char(i);
        assert(a@.skip(i as int)[0] == ca);
        assert(b@.skip(i as int)[0] == cb);
        if ca != cb {
            return (ca as u32) < (cb as u32);
        }
        assert(a@.skip(i as int).drop_first() =~= a@.skip(i + 1));
        assert(b@.skip(i as int).drop_first() =~= b@.skip(i + 1));
        i = i + 1;
    }
    i < lb
}

/// Adds `h` to the increasing list `set`, where it is missing.
pub fn insert_holder(set: &mut Vec<ScoreHolder>, h: ScoreHolder)
    requires
        strictly_sorted(old(set)@.map_values(|x: ScoreHolder| x@)),
    ensures
        strictly_sorted(final(set)@.map_values(|x: ScoreHolder| x@)),
        final(set)@.map_values(|x: ScoreHolder| x@).to_set() == old(set)@.map_values(
            |x: ScoreHolder| x@,
        ).to_set().insert(h@),
{
    let ghost v = set@.map_values(|x: ScoreHolder| x@);
    let mut p: usize = 0;
    while p < set.len() && holder_lt(&set[p], &h)
        invariant
            p <= set@.len(),
            v == set@.map_values(|x: ScoreHolder| x@),
            strictly_sorted(v),
            forall|i: int| 0 <= i < p ==> name_lt(#[trigger] v[i], h@),
        decreases set.len() - p,
    {
        p = p + 1;
    }
    if p < set.len() && set[p].same_as(&h) {
        assert(v.to_set() =~= v.to_set().insert(h@)) by {
            assert(v[p as int] == h@);
        }
        return;
    }
    proof {
        if p < v.len() {
            assert(v[p as int] != h@);
            lemma_lt_total(v[p as int], h@);
        }
    }
    set.insert(p, h);
    proof {
        let w = set@.map_values(|x: ScoreHolder| x@);
        assert(w =~= v.insert(p as int, h@));
        assert forall|i: int, j: int| 0 <= i < j < w.len() implies name_lt(
            #[trigger] w[i],
            #[trigger] w[j],
        ) by {
            if j < p {
            } else if i < p && j == p {
            } else if i < p && j > p {
                assert(w[j] == v[j - 1]);
                if j - 1 > p {
                    lemma_lt_transitive(h@, v[p as int], v[j - 1]);
                }
                lemma_lt_transitive(v[i], h@, v[j - 1]);
            } else if i == p {
                assert(w[j] == v[j - 1]);
                if j - 1 > p {
                    lemma_lt_transitive(h@, v[p as int], v[j - 1]);
                }
            } else {
                assert(w[i] == v[i - 1]);
                assert(w[j] == v[j - 1]);
            }
        }
        assert forall|x: Seq<char>| w.to_set().contains(x) == v.to_set().insert(h@).contains(x) by {
            if w.to_set().contains(x) {
                let i = choose|i: int| 0 <= i < w.len() && w[i] == x;
                if i < p {
                    assert(v[i] == x);
                } else if i > p {
                    assert(v[i - 1] == x);
                }
            }
            if v.to_set().contains(x) {
                let i = choose|i: int| 0 <= i < v.len() && v[i] == x;
                if i < p {
                    assert(w[i] == x);
                } else {
                    assert(w[i + 1] == x);
                }
            }
            if x == h@ {
                assert(w[p as int] == x);
            }
        }
        assert(w.to_set() =~= v.to_set().insert(h@));
    }
}

} // verus!
