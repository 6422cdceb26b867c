//! The alias table: command names mapped to replacement text.
use vstd::prelude::*;
use crate::text::same_text;

verus! {

/// The replacement of `name` among `entries`; a later entry for a name
/// overrides an earlier one.
pub open spec fn lookup_in(entries: Seq<(String, String)>, name: Seq<char>) -> Option<Seq<char>>
    decreases entries.len(),
{
    if entries.len() == 0 {
        None
    } else if entries.last().0@ == name {
        Some(entries.last().1@)
    } else {
        lookup_in(entries.drop_last(), name)
    }
}

/// The index of the last entry named `name`.
pub fn find_last(entries: &Vec<(String, String)>, name: &str) -> (r: Option<usize>)
    ensures
        r matches Some(i) ==> i < entries@.len() && lookup_in(entries@, name@) == Some(entries@[i as int].1@),
        r is None ==> lookup_in(entries@, name@) is None,
{
    let mut i: usize = entries.len();
    assert(entries@.take(i as int) =~= entries@);
    while i > 0
        invariant
            i <= entries@.len(),
            lookup_in(entries@, name@) == lookup_in(entries@.take(i as int), name@),
        decreases i,
    {
        let ghost pre = entries@.take(i as int);
        assert(pre.drop_last() =~= entries@.take(i - 1));
        assert(pre.last() == entries@[i - 1]);
        if same_text(entries[i - 1].0.as_str(), name) {
            return Some(i - 1);
        }
        i = i - 1;
    }
    None
}

/// The replacement of `name` among `front` followed by `back`: `back` wins.
pub proof fn lemma_lookup_concat(front: Seq<(String, String)>, back: Seq<(String, String)>, name: Seq<char>)
    ensures
        lookup_in(front + back, name) == (match lookup_in(back, name) {
            Some(v) => Some(v),
            None => lookup_in(front, name),
        }),
    decreases back.len(),
{
    if back.len() == 0 {
        assert(front + back =~= front);
    } else {
        assert((front + back).drop_last() =~= front + back.drop_last());
        assert((front + back).last() == back.last());
        lemma_lookup_concat(front, back.drop_last(), name);
    }
}

/// Aliases by command name, matched exactly and case-sensitively.
pub struct AliasTable {
    pub entries: Vec<(String, String)>,
}

impl AliasTable {
    /// The replacement text for `name`, if it is an alias.
    pub open spec fn lookup(&self, name: Seq<char>) -> Option<Seq<char>> {
        lookup_in(self.entries@, name)
    }

    /// A table without aliases.
    pub fn new() -> (r: Self)
        ensures
            forall|name: Seq<char>| #[trigger] r.lookup(name) is None,
    {
        AliasTable { entries: Vec::new() }
    }

    /// Makes `name` an alias for `expansion`, replacing any earlier one.
    pub fn insert(&mut self, name: String, expansion: String)
        ensures
            final(self).lookup(name@) == Some(expansion@),
            forall|other: Seq<char>| other != name@ ==> #[trigger] final(self).lookup(other) == old(self).lookup(other),
    {
        let ghost before = self.entries@;
        self.entries.push((name, expansion));
        assert(self.entries@.drop_last() =~= before);
    }

    /// The replacement text for `name`, if it is an alias.
    pub fn get(&self, name: &str) -> (r: Option<&String>)
        ensures
            r matches Some(e) ==> self.lookup(name@) == Some(e@),
            r is None ==> self.lookup(name@) is None,
    {
        match find_last(&self.entries, name) {
            Some(i) => Some(&self.entries[i].1),
            None => None,
        }
    }
}

} // verus!
