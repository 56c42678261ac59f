//! Alias tables: a raw name is replaced by a display name, found by its exact
//! key or, failing that, by a key that matches it as a regular expression.

use crate::pattern::compile;
use crate::pattern::regex_compiled;
use crate::pattern::regex_replaced;
use crate::pattern::replace_first;
use crate::text::str_eq;
use std::borrow::Cow;
use vstd::prelude::*;

verus! {

/// The index of the first entry at or after `from` whose key is `key`.
pub open spec fn position_from(m: Seq<(Seq<char>, Seq<char>)>, key: Seq<char>, from: int) -> Option<int>
    decreases m.len() - from,
{
    if from < 0 || from >= m.len() {
        None
    } else if m[from].0 == key {
        Some(from)
    } else {
        position_from(m, key, from + 1)
    }
}

/// The index of the entry whose key is `key`.
pub open spec fn position(m: Seq<(Seq<char>, Seq<char>)>, key: Seq<char>) -> Option<int> {
    position_from(m, key, 0)
}

/// The value stored under exactly `key`.
pub open spec fn value_of(m: Seq<(Seq<char>, Seq<char>)>, key: Seq<char>) -> Option<Seq<char>> {
    match position(m, key) {
        Some(i) => Some(m[i].1),
        None => None,
    }
}

/// No key occurs twice.
pub open spec fn distinct_keys(m: Seq<(Seq<char>, Seq<char>)>) -> bool {
    forall|i: int, j: int| 0 <= i < j < m.len() ==> m[i].0 != m[j].0
}

/// The table after `key` is set to `value`: an entry with that key keeps its
/// place and takes the new value, a new key goes to the end.
pub open spec fn with_entry(
    m: Seq<(Seq<char>, Seq<char>)>,
    key: Seq<char>,
    value: Seq<char>,
) -> Seq<(Seq<char>, Seq<char>)> {
    match position(m, key) {
        Some(i) => m.update(i, (key, value)),
        None => m.push((key, value)),
    }
}

/// A key as the pattern it is matched as: anchored at both ends.
pub open spec fn anchored(key: Seq<char>) -> Seq<char> {
    seq!['^'] + key + seq!['$']
}

/// What one entry makes of `candidate` when its key is taken as a pattern:
/// the candidate rewritten by the value as a template where the anchored key
/// compiles and matches, `None` otherwise. A key that matches counts also
/// where the template gives the candidate back as it was.
pub open spec fn rewrite_by(key: Seq<char>, value: Seq<char>, candidate: Seq<char>) -> Option<Seq<char>> {
    match regex_compiled(anchored(key)) {
        Some(re) => regex_replaced(re, candidate, value),
        None => None,
    }
}

/// The rewrite by the first entry at or after `from` whose key matches.
pub open spec fn first_rewrite_from(
    m: Seq<(Seq<char>, Seq<char>)>,
    candidate: Seq<char>,
    from: int,
) -> Option<Seq<char>>
    decreases m.len() - from,
{
    if from < 0 || from >= m.len() {
        None
    } else {
        match rewrite_by(m[from].0, m[from].1, candidate) {
            Some(s) => Some(s),
            None => first_rewrite_from(m, candidate, from + 1),
        }
    }
}

/// The alias of `candidate`: the value under its exact key, else the rewrite
/// by the first entry whose key matches it as a pattern, else none.
pub open spec fn alias_for(m: Seq<(Seq<char>, Seq<char>)>, candidate: Seq<char>) -> Option<Seq<char>> {
    match value_of(m, candidate) {
        Some(v) => Some(v),
        None => first_rewrite_from(m, candidate, 0),
    }
}

/// The alias of `candidate` where it has one, `candidate` itself where not.
pub open spec fn alias_or_self(m: Seq<(Seq<char>, Seq<char>)>, candidate: Seq<char>) -> Seq<char> {
    match alias_for(m, candidate) {
        Some(s) => s,
        None => candidate,
    }
}

/// `position_from` finds the first entry with the key and nothing before it.
pub proof fn lemma_position_from(m: Seq<(Seq<char>, Seq<char>)>, key: Seq<char>, from: int)
    requires
        0 <= from,
    ensures
        match position_from(m, key, from) {
            Some(p) => from <= p < m.len() && m[p].0 == key && forall|j: int|
                from <= j < p ==> m[j].0 != key,
            None => forall|j: int| from <= j < m.len() ==> m[j].0 != key,
        },
    decreases m.len() - from,
{
    if from < m.len() && m[from].0 != key {
        lemma_position_from(m, key, from + 1);
    }
}

/// An exact key wins: where the table holds `candidate` as a key, the alias
/// is the value under that key, whatever the other keys match as patterns.
pub proof fn lemma_exact_key_wins(m: Seq<(Seq<char>, Seq<char>)>, candidate: Seq<char>, i: int)
    requires
        distinct_keys(m),
        0 <= i < m.len(),
        m[i].0 == candidate,
    ensures
        alias_for(m, candidate) == Some(m[i].1),
        alias_or_self(m, candidate) == m[i].1,
{
    lemma_position_from(m, candidate, 0);
}

/// Without an exact key and without a key that matches, a name stays as it is.
pub proof fn lemma_no_alias(m: Seq<(Seq<char>, Seq<char>)>, candidate: Seq<char>)
    requires
        forall|i: int| 0 <= i < m.len() ==> m[i].0 != candidate,
        forall|i: int| 0 <= i < m.len() ==> rewrite_by(m[i].0, m[i].1, candidate) is None,
    ensures
        alias_for(m, candidate) is None,
        alias_or_self(m, candidate) == candidate,
{
    lemma_position_from(m, candidate, 0);
    lemma_no_rewrite_from(m, candidate, 0);
}

proof fn lemma_no_rewrite_from(m: Seq<(Seq<char>, Seq<char>)>, candidate: Seq<char>, from: int)
    requires
        0 <= from,
        forall|i: int| 0 <= i < m.len() ==> rewrite_by(m[i].0, m[i].1, candidate) is None,
    ensures
        first_rewrite_from(m, candidate, from) is None,
    decreases m.len() - from,
{
    if from < m.len() {
        lemma_no_rewrite_from(m, candidate, from + 1);
    }
}

/// A table from raw names to display names. A key is held once. The entries
/// keep the order in which their keys came in, and where several keys match
/// a name as patterns, the earliest of them counts. It is a list and no hash
/// map, so that what a lookup finds is known from the entries alone.
pub struct AliasMap {
    entries: Vec<(String, String)>,
}

impl View for AliasMap {
    type V = Seq<(Seq<char>, Seq<char>)>;

    closed spec fn view(&self) -> Seq<(Seq<char>, Seq<char>)> {
        Seq::new(self.entries@.len(), |i: int| (self.entries@[i].0@, self.entries@[i].1@))
    }
}

impl AliasMap {
    #[verifier::type_invariant]
    spec fn keys_held_once(&self) -> bool {
        distinct_keys(self@)
    }

    /// An empty table.
    pub fn new() -> (table: AliasMap)
        ensures
            table@ == Seq::<(Seq<char>, Seq<char>)>::empty(),
            distinct_keys(table@),
    {
        AliasMap { entries: Vec::new() }
    }

    /// The number of entries.
    pub fn len(&self) -> (n: usize)
        ensures
            n == self@.len(),
            distinct_keys(self@),
    {
        proof {
            use_type_invariant(self);
        }
        self.entries.len()
    }

    fn find(&self, key: &str) -> (found: Option<usize>)
        ensures
            match found {
                Some(i) => position(self@, key@) == Some(i as int) && i < self.entries@.len(),
                None => position(self@, key@) is None,
            },
    {
        let mut i: usize = 0;
        while i < self.entries.len()
            invariant
                i <= self.entries@.len(),
                self@.len() == self.entries@.len(),
                position(self@, key@) == position_from(self@, key@, i as int),
            decreases self.entries@.len() - i,
        {
            if str_eq(self.entries[i].0.as_str(), key) {
                return Some(i);
            }
            i += 1;
        }
        None
    }

    /// The value stored under exactly `key`.
    pub fn get(&self, key: &str) -> (value: Option<&str>)
        ensures
            match value {
                Some(v) => value_of(self@, key@) == Some(v@),
                None => value_of(self@, key@) is None,
            },
            distinct_keys(self@),
    {
        proof {
            use_type_invariant(self);
        }
        match self.find(key) {
            Some(i) => Some(self.entries[i].1.as_str()),
            None => None,
        }
    }

    /// Sets `key` to `value` and hands back the value it had before.
    pub fn insert(&mut self, key: String, value: String) -> (previous: Option<String>)
        ensures
            final(self)@ == with_entry(old(self)@, key@, value@),
            match previous {
                Some(v) => value_of(old(self)@, key@) == Some(v@),
                None => value_of(old(self)@, key@) is None,
            },
            distinct_keys(final(self)@),
    {
        proof {
            use_type_invariant(&*self);
            lemma_position_from(self@, key@, 0);
        }
        let found = self.find(key.as_str());
        let ghost before = self@;
        let mut entries: Vec<(String, String)> = Vec::new();
        std::mem::swap(&mut self.entries, &mut entries);
        let previous = match found {
            Some(i) => {
                let previous = entries[i].1.clone();
                entries.set(i, (key, value));
                Some(previous)
            },
            None => {
                entries.push((key, value));
                None
            },
        };
        proof {
            let after = Seq::new(entries@.len(), |i: int| (entries@[i].0@, entries@[i].1@));
            assert(after =~= with_entry(before, key@, value@));
        }
        std::mem::swap(&mut self.entries, &mut entries);
        previous
    }
}

fn anchored_pattern(key: &str) -> (pattern: String)
    ensures
        pattern@ == anchored(key@),
{
    proof {
        reveal_strlit("^");
        reveal_strlit("$");
    }
    String::from_str("^").concat(key).concat("$")
}

/// The rewrite of `candidate` by one entry, its key taken as a pattern.
pub fn rewrite(key: &str, value: &str, candidate: &str) -> (r: Option<String>)
    ensures
        match r {
            Some(s) => rewrite_by(key@, value@, candidate@) == Some(s@),
            None => rewrite_by(key@, value@, candidate@) is None,
        },
{
    let pattern = anchored_pattern(key);
    match compile(pattern.as_str()) {
        Some(re) => replace_first(&re, candidate, value),
        None => None,
    }
}

/// The alias of a name: the value under its exact key, else the rewrite by
/// the first entry whose key matches it as a pattern.
pub fn get_alias<'a>(aliases: &'a AliasMap, alias_candidate: &'a str) -> (alias: Option<Cow<'a, str>>)
    ensures
        match alias {
            Some(s) => alias_for(aliases@, alias_candidate@) == Some(s@),
            None => alias_for(aliases@, alias_candidate@) is None,
        },
{
    match aliases.get(alias_candidate) {
        Some(value) => Some(Cow::Borrowed(value)),
        None => {
            let mut i: usize = 0;
            while i < aliases.entries.len()
                invariant
                    i <= aliases.entries@.len(),
                    aliases@.len() == aliases.entries@.len(),
                    value_of(aliases@, alias_candidate@) is None,
                    forall|j: int|
                        0 <= j < aliases@.len() ==> aliases@[j] == (
                            aliases.entries@[j].0@,
                            aliases.entries@[j].1@,
                        ),
                    first_rewrite_from(aliases@, alias_candidate@, 0) == first_rewrite_from(
                        aliases@,
                        alias_candidate@,
                        i as int,
                    ),
                decreases aliases.entries@.len() - i,
            {
                let replaced = rewrite(
                    aliases.entries[i].0.as_str(),
                    aliases.entries[i].1.as_str(),
                    alias_candidate,
                );
                match replaced {
                    Some(s) => {
                        return Some(Cow::Owned(s));
                    },
                    None => {},
                }
                i += 1;
            }
            None
        },
    }
}

} // verus!
