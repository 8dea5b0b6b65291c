//! Registered API keys.

use crate::session_cache::clone_opt;
use crate::signals::schemas::opt_text;
use vstd::hash_map::StringHashMap;
use vstd::prelude::*;

verus! {

/// Info about a registered API key's project.
#[derive(Debug)]
pub struct RegisteredKeyInfo {
    pub project_id: u128,
    pub provider: String,
    pub upstream_url: String,
    pub display_name: Option<String>,
    pub is_active: bool,
    pub egress_ip: String,
}

/// What a [`RegisteredKeyInfo`] says.
pub struct KeyInfoFacts {
    pub project_id: u128,
    pub provider: Seq<char>,
    pub upstream_url: Seq<char>,
    pub display_name: Option<Seq<char>>,
    pub is_active: bool,
    pub egress_ip: Seq<char>,
}

impl View for RegisteredKeyInfo {
    type V = KeyInfoFacts;

    open spec fn view(&self) -> KeyInfoFacts {
        KeyInfoFacts {
            project_id: self.project_id,
            provider: self.provider@,
            upstream_url: self.upstream_url@,
            display_name: opt_text(self.display_name),
            is_active: self.is_active,
            egress_ip: self.egress_ip@,
        }
    }
}

impl Clone for RegisteredKeyInfo {
    fn clone(&self) -> (r: Self)
        ensures
            r@ == self@,
    {
        RegisteredKeyInfo {
            project_id: self.project_id,
            provider: self.provider.clone(),
            upstream_url: self.upstream_url.clone(),
            display_name: clone_opt(&self.display_name),
            is_active: self.is_active,
            egress_ip: self.egress_ip.clone(),
        }
    }
}

/// The table that rows fill in order: a later row replaces an earlier one.
pub open spec fn table_of(rows: Seq<(String, RegisteredKeyInfo)>) -> Map<
    Seq<char>,
    RegisteredKeyInfo,
>
    decreases rows.len(),
{
    if rows.len() == 0 {
        Map::empty()
    } else {
        table_of(rows.drop_last()).insert(rows.last().0@, rows.last().1)
    }
}

/// In-memory registry of API key hashes to project info.
pub struct ApiKeyRegistry {
    entries: StringHashMap<RegisteredKeyInfo>,
}

impl View for ApiKeyRegistry {
    type V = Map<Seq<char>, RegisteredKeyInfo>;

    closed spec fn view(&self) -> Map<Seq<char>, RegisteredKeyInfo> {
        self.entries@
    }
}

impl Default for ApiKeyRegistry {
    fn default() -> (r: Self)
        ensures
            r@ == Map::<Seq<char>, RegisteredKeyInfo>::empty(),
    {
        Self::new()
    }
}

impl ApiKeyRegistry {
    /// A registry without keys.
    pub fn new() -> (r: Self)
        ensures
            r@ == Map::<Seq<char>, RegisteredKeyInfo>::empty(),
    {
        ApiKeyRegistry { entries: StringHashMap::new() }
    }

    /// Look up a registered API key by its hash.
    pub fn lookup(&self, key_hash: &str) -> (r: Option<RegisteredKeyInfo>)
        ensures
            match r {
                Some(info) => self@.contains_key(key_hash@) && info@ == self@[key_hash@]@,
                None => !self@.contains_key(key_hash@),
            },
    {
        match self.entries.get(key_hash) {
            Some(info) => Some(info.clone()),
            None => None,
        }
    }

    /// Replace the registry by the given rows, and return the number of keys.
    pub fn reload(&mut self, rows: Vec<(String, RegisteredKeyInfo)>) -> (count: usize)
        ensures
            final(self)@ == table_of(rows@),
            count == final(self)@.len(),
    {
        let ghost all = rows@;
        let mut rest: Vec<(String, RegisteredKeyInfo)> = rows;
        let mut entries: StringHashMap<RegisteredKeyInfo> = StringHashMap::new();
        let ghost mut done: int = 0;
        assert(all.take(0) =~= Seq::empty());
        assert(all.skip(0) =~= all);
        while rest.len() > 0
            invariant
                0 <= done <= all.len(),
                rest@ == all.skip(done),
                entries@ == table_of(all.take(done)),
            decreases rest.len(),
        {
            let (key, info) = rest.remove(0);
            proof {
                let cut = all.take(done + 1);
                assert(all.skip(done)[0] == all[done]);
                assert(cut.last() == (key, info));
                assert(cut.drop_last() =~= all.take(done));
                assert(rest@ =~= all.skip(done + 1));
                done = done + 1;
            }
            entries.insert(key, info);
        }
        assert(all.take(done) =~= all);
        let count: usize = entries.len();
        self.entries = entries;
        count
    }
}

} // verus!
