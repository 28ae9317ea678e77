//! The storage snapshot interface: an immutable, content-addressed
//! key-value view of state, consumed read-only, plus the usage statistics
//! that are reported back to it for observability.

use vstd::prelude::*;
use crate::model::{log_map, opt_bytes_view, StateKey, WriteEntry};

verus! {

/// Storage-access counters accumulated over one call; informational only.
pub struct UsageStats {
    pub reads: u64,
    pub writes: u64,
    pub bytes_read: u64,
    pub bytes_written: u64,
}

/// Saturating addition on counters.
pub fn sat_add(a: u64, b: u64) -> (r: u64)
    ensures
        r == if a + b > u64::MAX {
            u64::MAX as int
        } else {
            a + b
        },
{
    if a > u64::MAX - b {
        u64::MAX
    } else {
        a + b
    }
}

impl UsageStats {
    pub fn new() -> (r: UsageStats)
        ensures
            r.reads == 0 && r.writes == 0 && r.bytes_read == 0 && r.bytes_written == 0,
    {
        UsageStats { reads: 0, writes: 0, bytes_read: 0, bytes_written: 0 }
    }

    /// Counts one read of `n` bytes, saturating.
    pub fn note_read(&mut self, n: u64)
        ensures
            final(self).reads == if old(self).reads == u64::MAX {
                u64::MAX as int
            } else {
                old(self).reads + 1
            },
            final(self).writes == old(self).writes,
            final(self).bytes_written == old(self).bytes_written,
    {
        self.reads = sat_add(self.reads, 1);
        self.bytes_read = sat_add(self.bytes_read, n);
    }

    /// Counts one write of `n` bytes, saturating.
    pub fn note_write(&mut self, n: u64)
        ensures
            final(self).writes == if old(self).writes == u64::MAX {
                u64::MAX as int
            } else {
                old(self).writes + 1
            },
            final(self).reads == old(self).reads,
            final(self).bytes_read == old(self).bytes_read,
    {
        self.writes = sat_add(self.writes, 1);
        self.bytes_written = sat_add(self.bytes_written, n);
    }
}

/// A storage snapshot: deterministic reads of top-level and child-scoped
/// keys for a fixed root, never mutated in place.
pub trait Backend {
    /// The key-value view of the snapshot.
    spec fn view(&self) -> Map<StateKey, Seq<u8>>;

    /// Reads a top-level storage key.
    fn get(&self, key: &Vec<u8>) -> (r: Option<Vec<u8>>)
        ensures
            r matches Some(v) ==> self.view().contains_key((None::<Seq<u8>>, key@))
                && self.view()[(None::<Seq<u8>>, key@)] == v@,
            r is None ==> !self.view().contains_key((None::<Seq<u8>>, key@)),
    ;

    /// Reads a child-scoped storage key.
    fn get_child(&self, scope: &Vec<u8>, key: &Vec<u8>) -> (r: Option<Vec<u8>>)
        ensures
            r matches Some(v) ==> self.view().contains_key((Some(scope@), key@))
                && self.view()[(Some(scope@), key@)] == v@,
            r is None ==> !self.view().contains_key((Some(scope@), key@)),
    ;

    /// Receives the accumulated storage-access statistics of one call; a
    /// side effect with no bearing on correctness.
    fn register_stats(&self, stats: &UsageStats);
}

/// Reads a key in either the top-level or a child scope.
pub fn backend_get<B: Backend>(backend: &B, scope: &Option<Vec<u8>>, key: &Vec<u8>) -> (r: Option<
    Vec<u8>,
>)
    ensures
        r matches Some(v) ==> backend.view().contains_key((opt_bytes_view(*scope), key@))
            && backend.view()[(opt_bytes_view(*scope), key@)] == v@,
        r is None ==> !backend.view().contains_key((opt_bytes_view(*scope), key@)),
{
    match scope {
        Some(s) => backend.get_child(s, key),
        None => backend.get(key),
    }
}

/// A snapshot backed by plain memory, filled through `insert` calls before
/// a call is executed against it.
pub struct InMemoryBackend {
    log: Vec<WriteEntry>,
}

impl InMemoryBackend {
    pub fn new() -> (r: InMemoryBackend)
        ensures
            r.view() == Map::<StateKey, Seq<u8>>::empty(),
    {
        let r = InMemoryBackend { log: Vec::new() };
        proof {
            assert(r.view() =~= Map::<StateKey, Seq<u8>>::empty());
        }
        r
    }

    /// Places a value under a top-level key.
    pub fn insert(&mut self, key: Vec<u8>, value: Vec<u8>)
        ensures
            final(self).view() == old(self).view().insert((None::<Seq<u8>>, key@), value@),
    {
        self.log.push(WriteEntry { scope: None, key, value: Some(value) });
        proof {
            assert(self.log@.drop_last() =~= old(self).log@);
            assert(self.view() =~= old(self).view().insert((None::<Seq<u8>>, key@), value@));
        }
    }

    /// Places a value under a child-scoped key.
    pub fn insert_child(&mut self, scope: Vec<u8>, key: Vec<u8>, value: Vec<u8>)
        ensures
            final(self).view() == old(self).view().insert((Some(scope@), key@), value@),
    {
        self.log.push(WriteEntry { scope: Some(scope), key, value: Some(value) });
        proof {
            assert(self.log@.drop_last() =~= old(self).log@);
            assert(self.view() =~= old(self).view().insert((Some(scope@), key@), value@));
        }
    }
}

impl Backend for InMemoryBackend {
    closed spec fn view(&self) -> Map<StateKey, Seq<u8>> {
        Map::new(
            |k: StateKey| log_map(self.log@).contains_key(k) && log_map(self.log@)[k] is Some,
            |k: StateKey| log_map(self.log@)[k]->Some_0,
        )
    }

    fn get(&self, key: &Vec<u8>) -> (r: Option<Vec<u8>>) {
        match crate::overlay::scan_log(&self.log, &None, key) {
            Some(Some(v)) => Some(v),
            Some(None) => None,
            None => None,
        }
    }

    fn get_child(&self, scope: &Vec<u8>, key: &Vec<u8>) -> (r: Option<Vec<u8>>) {
        let s = Some(crate::bytes::copy_bytes(scope));
        match crate::overlay::scan_log(&self.log, &s, key) {
            Some(Some(v)) => Some(v),
            Some(None) => None,
            None => None,
        }
    }

    fn register_stats(&self, stats: &UsageStats) {
    }
}

} // verus!
