//! The table from a source function's name to the generated function
//! where it starts, and the linking of aliases into that table.
use vstd::prelude::*;
use crate::cir::{FunctionId, FunctionIdV};
use crate::locals::{LocalName, LocalNameV};
use crate::text::str_eq;

verus! {

/// Where each source function starts: a table from function names to the
/// identifiers of generated functions, with each name at most once.
pub struct FuncStarts {
    entries: Vec<(String, FunctionId)>,
}

/// Whether no name occurs twice among the entries.
pub open spec fn keys_distinct(es: Seq<(String, FunctionId)>) -> bool {
    forall|i: int, j: int|
        0 <= i < es.len() && 0 <= j < es.len() && i != j ==> (#[trigger] es[i]).0@ != (
        #[trigger] es[j]).0@
}

/// Whether the entry at `i` is for the name `k`.
pub open spec fn entry_for(es: Seq<(String, FunctionId)>, k: Seq<char>, i: int) -> bool {
    0 <= i < es.len() && es[i].0@ == k
}

/// The table that a list of entries describes.
pub open spec fn entries_map(es: Seq<(String, FunctionId)>) -> Map<Seq<char>, FunctionIdV> {
    Map::new(
        |k: Seq<char>| exists|i: int| entry_for(es, k, i),
        |k: Seq<char>| es[choose|i: int| entry_for(es, k, i)].1@,
    )
}

/// With distinct names, the table gives each entry's name that entry's
/// identifier.
proof fn lemma_entry(es: Seq<(String, FunctionId)>, i: int)
    requires
        keys_distinct(es),
        0 <= i < es.len(),
    ensures
        entries_map(es).contains_key(es[i].0@),
        entries_map(es)[es[i].0@] == es[i].1@,
{
    let k = es[i].0@;
    assert(entry_for(es, k, i));
    let c = choose|c: int| entry_for(es, k, c);
    assert(entry_for(es, k, c));
    assert(c == i);
}

impl View for FuncStarts {
    type V = Map<Seq<char>, FunctionIdV>;

    closed spec fn view(&self) -> Map<Seq<char>, FunctionIdV> {
        entries_map(self.entries@)
    }
}

impl FuncStarts {
    #[verifier::type_invariant]
    spec fn well_formed(self) -> bool {
        keys_distinct(self.entries@)
    }

    /// An empty table.
    pub fn new() -> (r: FuncStarts)
        ensures
            r@ == Map::<Seq<char>, FunctionIdV>::empty(),
    {
        let r = FuncStarts { entries: Vec::new() };
        assert(r@ =~= Map::<Seq<char>, FunctionIdV>::empty());
        r
    }

    /// The position of the entry for `name`, if there is one.
    fn position(&self, name: &str) -> (r: Option<usize>)
        ensures
            match r {
                Some(i) => entry_for(self.entries@, name@, i as int),
                None => forall|i: int| !entry_for(self.entries@, name@, i),
            },
    {
        let mut i: usize = 0;
        while i < self.entries.len()
            invariant
                i <= self.entries@.len(),
                forall|j: int| 0 <= j < i ==> !entry_for(self.entries@, name@, j),
            decreases self.entries.len() - i,
        {
            if str_eq(self.entries[i].0.as_str(), name) {
                return Some(i);
            }
            i = i + 1;
        }
        None
    }

    /// Whether the table has an entry for `name`.
    pub fn contains_key(&self, name: &str) -> (r: bool)
        ensures
            r == self@.contains_key(name@),
    {
        match self.position(name) {
            Some(_) => true,
            None => false,
        }
    }

    /// The identifier the table gives for `name`, if any.
    pub fn get(&self, name: &str) -> (r: Option<&FunctionId>)
        ensures
            match r {
                Some(id) => self@.contains_key(name@) && self@[name@] == id@,
                None => !self@.contains_key(name@),
            },
    {
        proof {
            use_type_invariant(self);
        }
        match self.position(name) {
            Some(i) => {
                proof {
                    lemma_entry(self.entries@, i as int);
                }
                Some(&self.entries[i].1)
            },
            None => None,
        }
    }

    /// Sets the identifier for `name`, replacing the one it had.
    pub fn insert(&mut self, name: String, id: FunctionId)
        ensures
            final(self)@ == old(self)@.insert(name@, id@),
    {
        proof {
            use_type_invariant(&*self);
        }
        let ghost old_es = self.entries@;
        let ghost k = name@;
        let ghost v = id@;
        let found = self.position(name.as_str());
        let mut es_vec: Vec<(String, FunctionId)> = Vec::new();
        std::mem::swap(&mut es_vec, &mut self.entries);
        match found {
            Some(i) => {
                es_vec.set(i, (name, id));
                let ghost es = es_vec@;
                assert(es == old_es.update(i as int, es[i as int]));
                assert forall|a: int, b: int|
                    0 <= a < es.len() && 0 <= b < es.len() && a != b implies (
                    #[trigger] es[a]).0@ != (#[trigger] es[b]).0@ by {
                    if a != i && b != i {
                        assert(old_es[a].0@ != old_es[b].0@);
                    } else if a == i {
                        assert(old_es[i as int].0@ != old_es[b].0@);
                    } else {
                        assert(old_es[a].0@ != old_es[i as int].0@);
                    }
                }
            },
            None => {
                es_vec.push((name, id));
                let ghost es = es_vec@;
                assert forall|a: int, b: int|
                    0 <= a < es.len() && 0 <= b < es.len() && a != b implies (
                    #[trigger] es[a]).0@ != (#[trigger] es[b]).0@ by {
                    if a < old_es.len() && b < old_es.len() {
                        assert(old_es[a].0@ != old_es[b].0@);
                    } else if a == old_es.len() {
                        assert(!entry_for(old_es, k, b));
                    } else {
                        assert(!entry_for(old_es, k, a));
                    }
                }
            },
        }
        self.entries = es_vec;
        proof {
            let es = self.entries@;
            assert forall|key: Seq<char>|
                #[trigger] entries_map(es).contains_key(key) == entries_map(old_es).insert(k, v).contains_key(
                    key,
                ) by {
                if key == k {
                    let i = choose|i: int| entry_for(es, k, i);
                    assert(exists|i: int| entry_for(es, k, i)) by {
                        if exists|i: int| entry_for(old_es, k, i) {
                            let j = choose|j: int| entry_for(old_es, k, j);
                            assert(entry_for(es, k, j));
                        } else {
                            assert(entry_for(es, k, old_es.len() as int));
                        }
                    }
                } else {
                    if exists|i: int| entry_for(es, key, i) {
                        let i = choose|i: int| entry_for(es, key, i);
                        assert(entry_for(old_es, key, i));
                    }
                    if exists|i: int| entry_for(old_es, key, i) {
                        let i = choose|i: int| entry_for(old_es, key, i);
                        assert(entry_for(es, key, i));
                    }
                }
            }
            assert forall|key: Seq<char>| #[trigger] entries_map(es).contains_key(key) implies entries_map(es)[key]
                == entries_map(old_es).insert(k, v)[key] by {
                let i = choose|i: int| entry_for(es, key, i);
                lemma_entry(es, i);
                if key != k {
                    assert(entry_for(old_es, key, i));
                    lemma_entry(old_es, i);
                }
            }
            assert(entries_map(es) =~= entries_map(old_es).insert(k, v));
        }
    }
}

impl FuncStarts {
    /// The names that have a start, each once.
    pub fn names(&self) -> (r: Vec<String>)
        ensures
            forall|i: int, j: int|
                0 <= i < r@.len() && 0 <= j < r@.len() && i != j ==> (#[trigger] r@[i])@ != (
                #[trigger] r@[j])@,
            forall|i: int| 0 <= i < r@.len() ==> self@.contains_key((#[trigger] r@[i])@),
            forall|k: Seq<char>|
                self@.contains_key(k) ==> exists|i: int| 0 <= i < r@.len() && (#[trigger] r@[i])@ == k,
    {
        proof {
            use_type_invariant(self);
        }
        let ghost es = self.entries@;
        let mut out: Vec<String> = Vec::new();
        let mut i: usize = 0;
        while i < self.entries.len()
            invariant
                es == self.entries@,
                keys_distinct(es),
                i <= es.len(),
                out@.len() == i,
                forall|j: int| 0 <= j < i ==> (#[trigger] out@[j])@ == es[j].0@,
            decreases es.len() - i,
        {
            out.push(self.entries[i].0.clone());
            i = i + 1;
        }
        proof {
            assert forall|a: int| 0 <= a < out@.len() implies self@.contains_key(
                (#[trigger] out@[a])@,
            ) by {
                lemma_entry(es, a);
            }
            assert forall|k: Seq<char>| self@.contains_key(k) implies exists|a: int|
                0 <= a < out@.len() && (#[trigger] out@[a])@ == k by {
                let a = choose|a: int| entry_for(es, k, a);
                assert(out@[a]@ == k);
            }
        }
        out
    }
}

// ----------------------------------------------------------------------
// Aliases
// ----------------------------------------------------------------------

/// An alias of the source program: its name, and the name of the global it
/// refers to when its target is a reference to a global.
pub struct Alias {
    pub name: LocalName,
    pub aliasee: Option<LocalName>,
}

/// The view of an [`Alias`].
pub struct AliasV {
    pub name: LocalNameV,
    pub aliasee: Option<LocalNameV>,
}

impl View for Alias {
    type V = AliasV;

    open spec fn view(&self) -> AliasV {
        AliasV {
            name: self.name@,
            aliasee: match self.aliasee {
                Some(a) => Some(a@),
                None => None,
            },
        }
    }
}

/// What became of one alias.
#[derive(Debug, PartialEq, Eq)]
pub enum AliasOutcome {
    /// `alias` now starts where `target` starts.
    Linked { target: String, alias: String },
    /// The alias has a number for a name, so it cannot be linked.
    NumberedAlias { target: String },
    /// The target names no function.
    MissingTarget { target: String },
    /// The target is not a reference to a named global.
    NotAFunction,
}

/// The view of an [`AliasOutcome`].
pub enum AliasOutcomeV {
    Linked { target: Seq<char>, alias: Seq<char> },
    NumberedAlias { target: Seq<char> },
    MissingTarget { target: Seq<char> },
    NotAFunction,
}

impl View for AliasOutcome {
    type V = AliasOutcomeV;

    open spec fn view(&self) -> AliasOutcomeV {
        match self {
            AliasOutcome::Linked { target, alias } => AliasOutcomeV::Linked {
                target: target@,
                alias: alias@,
            },
            AliasOutcome::NumberedAlias { target } => AliasOutcomeV::NumberedAlias {
                target: target@,
            },
            AliasOutcome::MissingTarget { target } => AliasOutcomeV::MissingTarget {
                target: target@,
            },
            AliasOutcome::NotAFunction => AliasOutcomeV::NotAFunction,
        }
    }
}

/// One alias linked into the table: the table after it and what became of
/// it.
pub open spec fn link_alias_spec(m: Map<Seq<char>, FunctionIdV>, a: AliasV) -> (
    Map<Seq<char>, FunctionIdV>,
    AliasOutcomeV,
) {
    match a.aliasee {
        Some(LocalNameV::Name(target)) => if m.contains_key(target) {
            match a.name {
                LocalNameV::Name(alias) => (
                    m.insert(alias, m[target]),
                    AliasOutcomeV::Linked { target, alias },
                ),
                LocalNameV::Number(_) => (m, AliasOutcomeV::NumberedAlias { target }),
            }
        } else {
            (m, AliasOutcomeV::MissingTarget { target })
        },
        _ => (m, AliasOutcomeV::NotAFunction),
    }
}

/// Aliases linked in order: the table after them and what became of each.
pub open spec fn link_aliases_spec(m: Map<Seq<char>, FunctionIdV>, aliases: Seq<AliasV>) -> (
    Map<Seq<char>, FunctionIdV>,
    Seq<AliasOutcomeV>,
)
    decreases aliases.len(),
{
    if aliases.len() == 0 {
        (m, Seq::empty())
    } else {
        let before = link_aliases_spec(m, aliases.drop_last());
        let step = link_alias_spec(before.0, aliases.last());
        (step.0, before.1.push(step.1))
    }
}

/// Makes each alias of a function start where that function starts, in
/// order, and reports what became of each alias.
pub fn link_aliases(starts: &mut FuncStarts, aliases: &Vec<Alias>) -> (r: Vec<AliasOutcome>)
    ensures
        final(starts)@ == link_aliases_spec(old(starts)@, aliases@.map_values(|a: Alias| a@)).0,
        r@.map_values(|o: AliasOutcome| o@) == link_aliases_spec(
            old(starts)@,
            aliases@.map_values(|a: Alias| a@),
        ).1,
{
    let ghost m0 = starts@;
    let ghost avs = aliases@.map_values(|a: Alias| a@);
    let mut out: Vec<AliasOutcome> = Vec::new();
    let mut i: usize = 0;
    while i < aliases.len()
        invariant
            i <= aliases@.len(),
            avs == aliases@.map_values(|a: Alias| a@),
            starts@ == link_aliases_spec(m0, avs.take(i as int)).0,
            out@.map_values(|o: AliasOutcome| o@) == link_aliases_spec(m0, avs.take(i as int)).1,
        decreases aliases.len() - i,
    {
        assert(avs.take(i + 1).drop_last() =~= avs.take(i as int));
        let a = &aliases[i];
        let ghost before = starts@;
        let outcome = match &a.aliasee {
            Some(LocalName::Name(target)) => {
                let found = match starts.get(target.as_str()) {
                    Some(id) => Some(id.clone()),
                    None => None,
                };
                match found {
                    Some(id) => match &a.name {
                        LocalName::Name(alias) => {
                            starts.insert(alias.clone(), id);
                            AliasOutcome::Linked { target: target.clone(), alias: alias.clone() }
                        },
                        LocalName::Number(_) => AliasOutcome::NumberedAlias {
                            target: target.clone(),
                        },
                    },
                    None => AliasOutcome::MissingTarget { target: target.clone() },
                }
            },
            _ => AliasOutcome::NotAFunction,
        };
        let ghost prev = out@.map_values(|o: AliasOutcome| o@);
        out.push(outcome);
        assert(out@.map_values(|o: AliasOutcome| o@) =~= prev.push(outcome@));
        i = i + 1;
    }
    assert(avs.take(aliases@.len() as int) =~= avs);
    out
}

} // verus!
