//! The load-once, read-only cache of serialized user records.
//!
//! The loader scans the persistent store's entries exactly once, before any
//! request is served, and keeps each entry whose payload decodes to a user
//! record with the entry's own key; undecodable or mismatched entries are
//! skipped, never fatal. The cache exposes no mutation after construction.

use std::collections::HashMap;
use vstd::prelude::*;

use crate::payload::{payload_matches_key, valid_entry};

verus! {

broadcast use vstd::std_specs::hash::group_hash_axioms;

/// The map a load pass builds from a sequence of store entries: every entry
/// whose payload decodes to a user record carrying the entry's own key is
/// inserted, a later entry replacing an earlier one under the same key;
/// every other entry is skipped.
pub open spec fn loaded_map(entries: Seq<(u32, Vec<u8>)>) -> Map<u32, Seq<u8>>
    decreases entries.len(),
{
    if entries.len() == 0 {
        Map::empty()
    } else {
        let prev = loaded_map(entries.drop_last());
        let e = entries.last();
        if valid_entry(e.0, e.1@) {
            prev.insert(e.0, e.1@)
        } else {
            prev
        }
    }
}

/// In-memory mirror of the persistent store: id to the raw serialized bytes
/// committed at load time. Its view is the mathematical map those entries
/// form; no method mutates a cache once `load_cache` has built it.
pub struct Cache {
    map: HashMap<u32, Vec<u8>>,
}

impl View for Cache {
    type V = Map<u32, Seq<u8>>;

    closed spec fn view(&self) -> Map<u32, Seq<u8>> {
        self.map@.map_values(|v: Vec<u8>| v@)
    }
}

impl Cache {
    /// The exact bytes stored for `id` at load time, unmodified, or `None`
    /// when the id is absent.
    pub fn get(&self, id: u32) -> (r: Option<&Vec<u8>>)
        ensures
            match r {
                Some(v) => self@.contains_key(id) && v@ == self@[id],
                None => !self@.contains_key(id),
            },
    {
        self.map.get(&id)
    }

    /// Whether an entry is stored under `id`.
    pub fn contains(&self, id: u32) -> (r: bool)
        ensures
            r == self@.contains_key(id),
    {
        self.map.contains_key(&id)
    }

    /// The number of entries kept at load time.
    pub fn len(&self) -> (n: usize)
        ensures
            n == self@.len(),
    {
        proof {
            assert(self@.dom() =~= self.map@.dom());
        }
        self.map.len()
    }
}

/// Scans the given store entries once and populates a fresh cache: exactly
/// the entries whose payload decodes to a user record with the entry's own
/// key are kept, and the rest are skipped.
pub fn load_cache(entries: &Vec<(u32, Vec<u8>)>) -> (c: Cache)
    ensures
        c@ == loaded_map(entries@),
{
    let mut map: HashMap<u32, Vec<u8>> = HashMap::new();
    let mut i: usize = 0;
    while i < entries.len()
        invariant
            0 <= i <= entries@.len(),
            map@.map_values(|v: Vec<u8>| v@) == loaded_map(entries@.take(i as int)),
        decreases entries@.len() - i,
    {
        let key = entries[i].0;
        let payload: &Vec<u8> = &entries[i].1;
        let ghost prefix = entries@.take(i as int);
        if payload_matches_key(key, payload.as_slice()) {
            let kept = vstd::slice::slice_to_vec(payload.as_slice());
            map.insert(key, kept);
        }
        proof {
            assert(entries@.take(i + 1).drop_last() =~= prefix);
            assert(entries@.take(i + 1).last() == entries@[i as int]);
            assert(map@.map_values(|v: Vec<u8>| v@) =~= loaded_map(entries@.take(i + 1)));
        }
        i += 1;
    }
    proof {
        assert(entries@.take(entries@.len() as int) =~= entries@);
    }
    Cache { map }
}

} // verus!
