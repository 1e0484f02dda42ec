//! Local values of the source program and the holders that carry them,
//! one holder per four-byte word.
use vstd::prelude::*;
use crate::cir::{ScoreHolder, is_space, valid_holder};
use crate::text::{lemma_nat_text_digits, nat_text, u64_text};

verus! {

/// The name of a local value of the source program.
#[derive(Debug, Clone, PartialEq, Eq)]
pub enum LocalName {
    Name(String),
    Number(usize),
}

/// The view of a [`LocalName`].
pub enum LocalNameV {
    Name(Seq<char>),
    Number(nat),
}

impl View for LocalName {
    type V = LocalNameV;

    open spec fn view(&self) -> LocalNameV {
        match self {
            LocalName::Name(s) => LocalNameV::Name(s@),
            LocalName::Number(n) => LocalNameV::Number(*n as nat),
        }
    }
}

impl LocalName {
    /// A copy of the name.
    pub fn duplicate(&self) -> (r: LocalName)
        ensures
            r@ == self@,
    {
        match self {
            LocalName::Name(s) => LocalName::Name(s.clone()),
            LocalName::Number(n) => LocalName::Number(*n),
        }
    }
}

/// A character with whitespace replaced by `_`.
pub open spec fn clean_char(c: char) -> char {
    if is_space(c) {
        '_'
    } else {
        c
    }
}

/// Text with every whitespace character replaced by `_`.
pub open spec fn clean_text(s: Seq<char>) -> Seq<char> {
    s.map_values(|c: char| clean_char(c))
}

/// The text of a local name: `%` then the name or the number.
pub open spec fn local_text(name: LocalNameV) -> Seq<char> {
    match name {
        LocalNameV::Name(s) => "%"@ + clean_text(s),
        LocalNameV::Number(n) => "%"@ + nat_text(n),
    }
}

/// The number of four-byte words in `size` bytes.
pub open spec fn word_count(size: nat) -> nat {
    (size + 3) / 4
}

/// The holder of word `word` of the local `name`.
pub open spec fn local_word_name(name: LocalNameV, word: nat) -> Seq<char> {
    local_text(name) + "%"@ + nat_text(word)
}

/// Replaces whitespace in `s` by `_`.
pub fn clean(s: &str) -> (r: String)
    ensures
        r@ == clean_text(s@),
{
    let n = s.unicode_len();
    let mut out = String::new();
    let mut i: usize = 0;
    while i < n
        invariant
            n == s@.len(),
            i <= n,
            out@ =~= clean_text(s@.take(i as int)),
        decreases n - i,
    {
        let c = s.get_char(i);
        proof {
            reveal_strlit("_");
        }
        if c == ' ' || c == '\t' || c == '\n' || c == '\r' {
            out.append("_");
        } else {
            out.append(s.substring_char(i, i + 1));
        }
        assert(clean_text(s@.take(i + 1)) =~= clean_text(s@.take(i as int)) + seq![
            clean_char(s@[i as int]),
        ]);
        i = i + 1;
    }
    assert(s@.take(n as int) =~= s@);
    out
}

pub proof fn lemma_clean_no_space(s: Seq<char>)
    ensures
        forall|i: int| 0 <= i < clean_text(s).len() ==> !is_space(#[trigger] clean_text(s)[i]),
{
}

proof fn lemma_digits_no_space(n: nat)
    ensures
        forall|i: int| 0 <= i < nat_text(n).len() ==> !is_space(#[trigger] nat_text(n)[i]),
{
    lemma_nat_text_digits(n);
    assert forall|i: int| 0 <= i < nat_text(n).len() implies !is_space(
        #[trigger] nat_text(n)[i],
    ) by {
        assert('0' <= nat_text(n)[i] <= '9');
    }
}

proof fn lemma_concat_no_space(a: Seq<char>, b: Seq<char>)
    requires
        forall|i: int| 0 <= i < a.len() ==> !is_space(#[trigger] a[i]),
        forall|i: int| 0 <= i < b.len() ==> !is_space(#[trigger] b[i]),
    ensures
        forall|i: int| 0 <= i < (a + b).len() ==> !is_space(#[trigger] (a + b)[i]),
{
    assert forall|i: int| 0 <= i < (a + b).len() implies !is_space(#[trigger] (a + b)[i]) by {
        if i < a.len() {
            assert((a + b)[i] == a[i]);
        } else {
            assert((a + b)[i] == b[i - a.len()]);
        }
    }
}

/// The text of a local name.
pub fn local_to_text(name: &LocalName) -> (r: String)
    ensures
        r@ == local_text(name@),
{
    let mut s = String::from_str("%");
    match name {
        LocalName::Name(n) => {
            let c = clean(n.as_str());
            s.append(c.as_str());
        },
        LocalName::Number(n) => {
            let t = u64_text(*n as u64);
            s.append(t.as_str());
        },
    }
    s
}

impl ScoreHolder {
    /// The holders of the words of the local `name`, whose value takes
    /// `size` bytes: one holder per started four-byte word.
    pub fn from_local_name(name: LocalName, size: usize) -> (r: Vec<ScoreHolder>)
        ensures
            r@.len() == word_count(size as nat),
            forall|i: int| 0 <= i < r@.len() ==> #[trigger] r@[i]@ == local_word_name(name@, i as nat),
    {
        let prefix = local_to_text(&name);
        proof {
            reveal_strlit("%");
            lemma_digits_no_space(0);
            match name@ {
                LocalNameV::Name(s) => {
                    lemma_clean_no_space(s);
                    lemma_concat_no_space("%"@, clean_text(s));
                },
                LocalNameV::Number(n) => {
                    lemma_digits_no_space(n);
                    lemma_concat_no_space("%"@, nat_text(n));
                },
            }
        }
        let count = size / 4 + if size % 4 != 0 { 1usize } else { 0usize };
        assert(count == word_count(size as nat));
        let mut out: Vec<ScoreHolder> = Vec::new();
        let mut i: usize = 0;
        while i < count
            invariant
                i <= count,
                count == word_count(size as nat),
                prefix@ == local_text(name@),
                forall|k: int| 0 <= k < prefix@.len() ==> !is_space(#[trigger] prefix@[k]),
                prefix@.len() > 0,
                out@.len() == i,
                forall|k: int| 0 <= k < i ==> #[trigger] out@[k]@ == local_word_name(name@, k as nat),
            decreases count - i,
        {
            let mut s = prefix.clone();
            s.append("%");
            let t = u64_text(i as u64);
            s.append(t.as_str());
            proof {
                reveal_strlit("%");
                lemma_digits_no_space(i as nat);
                lemma_concat_no_space(prefix@, "%"@);
                lemma_concat_no_space(prefix@ + "%"@, nat_text(i as nat));
                assert(valid_holder(s@));
            }
            out.push(ScoreHolder::from_valid(s));
            i = i + 1;
        }
        out
    }
}

} // verus!
