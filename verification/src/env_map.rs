//! A map of environment variables. The process environment and the command
//! line are read elsewhere; here they are values.

use vstd::prelude::*;
use crate::text::{opt_str_view, opt_string_view, same_text, trim, trimmed};

verus! {

/// Variables and their values. A later entry for a name hides the earlier ones.
#[derive(Debug)]
pub struct EnvMap {
    entries: Vec<(String, String)>,
}

/// The map that a list of entries stands for.
pub open spec fn entries_map(entries: Seq<(String, String)>) -> Map<Seq<char>, Seq<char>>
    decreases entries.len(),
{
    if entries.len() == 0 {
        Map::empty()
    } else {
        entries_map(entries.drop_last()).insert(entries.last().0@, entries.last().1@)
    }
}

impl View for EnvMap {
    type V = Map<Seq<char>, Seq<char>>;

    closed spec fn view(&self) -> Map<Seq<char>, Seq<char>> {
        entries_map(self.entries@)
    }
}

/// The value of the variable `key`.
pub open spec fn value_of(env: Map<Seq<char>, Seq<char>>, key: Seq<char>) -> Option<Seq<char>> {
    if env.contains_key(key) {
        Some(env[key])
    } else {
        None
    }
}

/// The value of the variable `key`, unless it is missing or only white space.
pub open spec fn nonempty_value(env: Map<Seq<char>, Seq<char>>, key: Seq<char>) -> Option<
    Seq<char>,
> {
    match value_of(env, key) {
        Some(v) => if trimmed(v).len() == 0 {
            None
        } else {
            Some(v)
        },
        None => None,
    }
}

impl EnvMap {
    /// The map without variables.
    pub fn new() -> (r: EnvMap)
        ensures
            r@ == Map::<Seq<char>, Seq<char>>::empty(),
    {
        EnvMap { entries: Vec::new() }
    }

    /// Gives the variable `key` the value `value`.
    pub fn insert(&mut self, key: String, value: String)
        ensures
            final(self)@ == old(self)@.insert(key@, value@),
    {
        let ghost before = self.entries@;
        self.entries.push((key, value));
        assert(self.entries@.drop_last() =~= before);
    }

    /// The value of the variable `key`.
    pub fn get(&self, key: &str) -> (r: Option<&str>)
        ensures
            opt_str_view(r) == value_of(self@, key@),
    {
        let ghost all = self.entries@;
        let mut i: usize = self.entries.len();
        assert(all.take(i as int) =~= all);
        while i > 0
            invariant
                all == self.entries@,
                i <= all.len(),
                value_of(entries_map(all.take(i as int)), key@) == value_of(self@, key@),
            decreases i,
        {
            assert(all.take(i as int).drop_last() =~= all.take(i - 1));
            i = i - 1;
            if same_text(self.entries[i].0.as_str(), key) {
                return Some(self.entries[i].1.as_str());
            }
        }
        None
    }
}

impl Clone for EnvMap {
    fn clone(&self) -> (r: Self)
        ensures
            r@ == self@,
    {
        let mut r = EnvMap::new();
        r.merge(self);
        assert(Map::<Seq<char>, Seq<char>>::empty().union_prefer_right(self@) =~= self@);
        r
    }
}

impl EnvMap {
    /// Takes over every variable of `overrides`.
    pub fn merge(&mut self, overrides: &EnvMap)
        ensures
            final(self)@ == old(self)@.union_prefer_right(overrides@),
    {
        let ghost all = overrides.entries@;
        let ghost base = self@;
        assert(entries_map(all.take(0)) =~= Map::empty());
        assert(base.union_prefer_right(Map::empty()) =~= base);
        for i in 0..overrides.entries.len()
            invariant
                all == overrides.entries@,
                self@ == base.union_prefer_right(entries_map(all.take(i as int))),
        {
            assert(all.take(i + 1).drop_last() =~= all.take(i as int));
            self.insert(overrides.entries[i].0.clone(), overrides.entries[i].1.clone());
            assert(self@ =~= base.union_prefer_right(entries_map(all.take(i + 1))));
        }
        assert(all.take(all.len() as int) =~= all);
    }
}

/// The variables of `base` with those of `overrides` laid over them.
pub fn get_env_map(base: EnvMap, overrides: EnvMap) -> (r: EnvMap)
    ensures
        r@ == base@.union_prefer_right(overrides@),
{
    let mut env = base;
    env.merge(&overrides);
    env
}

/// The value of the variable `key`.
pub fn env_value<'a>(env: &'a EnvMap, key: &str) -> (r: Option<&'a str>)
    ensures
        opt_str_view(r) == value_of(env@, key@),
{
    env.get(key)
}

/// The value of the variable `key`, unless it is missing or only white space.
pub fn env_nonempty(env: &EnvMap, key: &str) -> (r: Option<String>)
    ensures
        opt_string_view(r) == nonempty_value(env@, key@),
{
    match env.get(key) {
        Some(v) => if trim(v).is_empty() {
            None
        } else {
            Some(v.to_string())
        },
        None => None,
    }
}

} // verus!
