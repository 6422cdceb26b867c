//! The settings read from the configuration file, and the alias table they
//! define.
use vstd::prelude::*;
use crate::alias::AliasTable;

verus! {

/// How the prompt looks.
pub struct PromptConfig {
    pub style: Option<String>,
    pub promptchar: Option<String>,
    pub color: Option<[u8; 3]>,
    pub text_color: Option<[u8; 3]>,
    pub double: Option<bool>,
    /// The prompt's template; see `theme`.
    pub theme: Option<String>,
}

/// Other settings: aliases as `[name, replacement]` pairs.
pub struct Misc {
    pub alias: Option<Vec<[String; 2]>>,
}

/// How suggestions are highlighted.
pub struct EffectsCtx {
    pub truecolors: Option<bool>,
    pub underlined: Option<bool>,
    pub bold: Option<bool>,
    pub dimmed: Option<bool>,
    pub suggestion_color: Option<String>,
    pub true_suggestion_color: Option<[u8; 3]>,
}

/// The whole configuration; each section may be missing.
pub struct Config {
    pub prompt: Option<PromptConfig>,
    pub misc: Option<Misc>,
    pub effects: Option<EffectsCtx>,
}

/// The alias pairs a configuration lists, in order.
pub open spec fn config_aliases(c: Config) -> Seq<[String; 2]> {
    match c.misc {
        Some(m) => match m.alias {
            Some(v) => v@,
            None => seq![],
        },
        None => seq![],
    }
}

/// The replacement of `name` among the pairs; a later pair wins.
pub open spec fn pairs_lookup(pairs: Seq<[String; 2]>, name: Seq<char>) -> Option<Seq<char>>
    decreases pairs.len(),
{
    if pairs.len() == 0 {
        None
    } else if pairs.last()@[0]@ == name {
        Some(pairs.last()@[1]@)
    } else {
        pairs_lookup(pairs.drop_last(), name)
    }
}

/// The alias table a configuration defines.
pub fn get_alias(data: &Config) -> (r: AliasTable)
    ensures
        forall|name: Seq<char>| #[trigger] r.lookup(name) == pairs_lookup(config_aliases(*data), name),
{
    let mut table = AliasTable::new();
    let pairs: &Vec<[String; 2]> = match &data.misc {
        Some(m) => match &m.alias {
            Some(v) => v,
            None => {
                return table;
            },
        },
        None => {
            return table;
        },
    };
    let ghost ps = pairs@;
    let mut i: usize = 0;
    while i < pairs.len()
        invariant
            ps == pairs@,
            ps == config_aliases(*data),
            i <= ps.len(),
            forall|name: Seq<char>| #[trigger] table.lookup(name) == pairs_lookup(ps.take(i as int), name),
        decreases ps.len() - i,
    {
        let pair = &pairs[i];
        assert(ps.take(i + 1).drop_last() =~= ps.take(i as int));
        assert(ps.take(i + 1).last() == ps[i as int]);
        table.insert(pair[0].clone(), pair[1].clone());
        i = i + 1;
    }
    assert(ps.take(ps.len() as int) =~= ps);
    table
}

} // verus!
