//! The execution context: the read/write/extension-capability surface
//! handed to the executed program for the duration of one call.
//!
//! It bridges the overlay, the storage snapshot, the transaction cache and
//! the extensions registry.  Reads consult the overlay first and fall back
//! to the snapshot; writes land in the overlay's top frame and invalidate
//! the touched scope's cached delta.  It grants no authority over the
//! frames that were open when runtime scope was entered.

use vstd::prelude::*;
use crate::OverlayError;
use crate::backend::{Backend, UsageStats};
use crate::bytes::copy_bytes;
use crate::cache::{delta_keys_unique, delta_map, delta_spec, TxCache};
use crate::extensions::Extensions;
use crate::model::{
    commit_shape, effective_read, opt_bytes_view, rollback_shape, set_shape, start_shape,
    WriteEntry,
};
use crate::overlay::Overlay;

verus! {

/// The per-call execution context.
pub struct Ext<X> {
    overlay: Overlay,
    cache: TxCache,
    extensions: Extensions<X>,
    stats: UsageStats,
    id: u64,
}

impl<X> Ext<X> {
    /// The overlay as the context currently holds it.
    pub closed spec fn overlay_state(self) -> Overlay {
        self.overlay
    }

    /// The transaction cache as the context currently holds it.
    pub closed spec fn cache_state(self) -> TxCache {
        self.cache
    }

    /// The extensions registry.
    pub closed spec fn exts_state(self) -> Extensions<X> {
        self.extensions
    }

    /// The accumulated storage-access statistics.
    pub closed spec fn stats_state(self) -> UsageStats {
        self.stats
    }

    /// The opaque identifier correlating this call's trace output.
    pub closed spec fn id_state(self) -> u64 {
        self.id
    }

    /// A context is well-formed while the call runs: the overlay is
    /// well-formed and runtime scope is active.
    pub open spec fn wf(self) -> bool {
        &&& self.overlay_state().wf()
        &&& self.overlay_state().runtime_active()
    }

    /// Whether every cached delta matches the overlay and the snapshot.
    pub open spec fn valid_cache<B: Backend>(self, b: B) -> bool {
        self.cache_state().valid_for(self.overlay_state(), b)
    }

    /// The frames that were already open when runtime scope was entered,
    /// below the call-level frame; the context never touches them.
    pub open spec fn sealed_frames(self) -> Seq<Seq<WriteEntry>> {
        self.overlay_state().frames_seq().take(
            self.overlay_state().runtime_depth() - 1,
        )
    }

    /// Builds the context over its borrowed-in parts.
    pub(crate) fn new(overlay: Overlay, cache: TxCache, extensions: Extensions<X>, id: u64) -> (r:
        Ext<X>)
        ensures
            r.overlay_state() == overlay,
            r.cache_state() == cache,
            r.exts_state() == extensions,
            r.id_state() == id,
            r.stats_state().reads == 0 && r.stats_state().writes == 0,
    {
        Ext { overlay, cache, extensions, stats: UsageStats::new(), id }
    }

    /// Takes the context apart when the call is over.
    pub(crate) fn into_parts(self) -> (r: (Overlay, TxCache, Extensions<X>, UsageStats))
        ensures
            r.0 == self.overlay_state(),
            r.1 == self.cache_state(),
            r.2 == self.exts_state(),
            r.3 == self.stats_state(),
    {
        let Ext { overlay, cache, extensions, stats, id: _ } = self;
        (overlay, cache, extensions, stats)
    }

    /// Reads a top-level key: the overlay first, the snapshot as fall-back;
    /// absent when neither has it or the overlay holds a deletion.
    pub fn read<B: Backend>(&mut self, backend: &B, key: &Vec<u8>) -> (r: Option<Vec<u8>>)
        ensures
            opt_bytes_view(r) == effective_read(
                old(self).overlay_state().contents(),
                backend.view(),
                (None::<Seq<u8>>, key@),
            ),
            final(self).overlay_state() == old(self).overlay_state(),
            final(self).cache_state() == old(self).cache_state(),
            final(self).exts_state() == old(self).exts_state(),
            final(self).id_state() == old(self).id_state(),
    {
        let found = self.overlay.get(key);
        match found {
            Some(Some(v)) => {
                self.stats.note_read(v.len() as u64);
                Some(v)
            },
            Some(None) => {
                self.stats.note_read(0);
                None
            },
            None => {
                let fallback = backend.get(key);
                match fallback {
                    Some(v) => {
                        self.stats.note_read(v.len() as u64);
                        Some(v)
                    },
                    None => {
                        self.stats.note_read(0);
                        None
                    },
                }
            },
        }
    }

    /// Reads a child-scoped key, the same way.
    pub fn read_child<B: Backend>(&mut self, backend: &B, scope: &Vec<u8>, key: &Vec<u8>) -> (r:
        Option<Vec<u8>>)
        ensures
            opt_bytes_view(r) == effective_read(
                old(self).overlay_state().contents(),
                backend.view(),
                (Some(scope@), key@),
            ),
            final(self).overlay_state() == old(self).overlay_state(),
            final(self).cache_state() == old(self).cache_state(),
            final(self).exts_state() == old(self).exts_state(),
            final(self).id_state() == old(self).id_state(),
    {
        let found = self.overlay.get_child(scope, key);
        match found {
            Some(Some(v)) => {
                self.stats.note_read(v.len() as u64);
                Some(v)
            },
            Some(None) => {
                self.stats.note_read(0);
                None
            },
            None => {
                let fallback = backend.get_child(scope, key);
                match fallback {
                    Some(v) => {
                        self.stats.note_read(v.len() as u64);
                        Some(v)
                    },
                    None => {
                        self.stats.note_read(0);
                        None
                    },
                }
            },
        }
    }

    /// Writes a value or a deletion marker into the overlay's top frame and
    /// invalidates the scope's cached delta.
    fn set_in_scope<B: Backend>(
        &mut self,
        backend: &B,
        scope: Option<Vec<u8>>,
        key: Vec<u8>,
        value: Option<Vec<u8>>,
    )
        requires
            old(self).wf(),
            old(self).valid_cache(*backend),
        ensures
            final(self).wf(),
            final(self).valid_cache(*backend),
            final(self).overlay_state().frames_seq() == set_shape(
                old(self).overlay_state().frames_seq(),
                WriteEntry { scope, key, value },
            ),
            final(self).overlay_state().contents() == old(self).overlay_state().contents().insert(
                (opt_bytes_view(scope), key@),
                opt_bytes_view(value),
            ),
            final(self).overlay_state().depth() == old(self).overlay_state().depth(),
            final(self).overlay_state().runtime_active(),
            final(self).overlay_state().runtime_depth() == old(
                self,
            ).overlay_state().runtime_depth(),
            final(self).sealed_frames() == old(self).sealed_frames(),
            final(self).exts_state() == old(self).exts_state(),
            final(self).id_state() == old(self).id_state(),
    {
        let ghost old_overlay = self.overlay;
        let klen = key.len();
        let vlen = match &value {
            Some(v) => v.len(),
            None => 0,
        };
        let ghost sv = opt_bytes_view(scope);
        let scope_for_cache = crate::bytes::copy_opt_bytes(&scope);
        self.overlay.set_entry(scope, key, value);
        self.cache.invalidate(&scope_for_cache);
        self.stats.note_write(crate::backend::sat_add(klen as u64, vlen as u64));
        proof {
            assert(self.sealed_frames() =~= old(self).sealed_frames());
            assert forall|s: Option<Seq<u8>>|
                self.cache.entry_valid(self.overlay, *backend, s) by {
                assert(old(self).cache_state().entry_valid(old_overlay, *backend, s));
                if s != sv {
                    assert(delta_spec(self.overlay.contents(), backend.view(), s) =~= delta_spec(
                        old_overlay.contents(),
                        backend.view(),
                        s,
                    ));
                }
            }
        }
    }

    /// Writes a value under a top-level key.
    pub fn write<B: Backend>(&mut self, backend: &B, key: Vec<u8>, value: Vec<u8>)
        requires
            old(self).wf(),
            old(self).valid_cache(*backend),
        ensures
            final(self).wf(),
            final(self).valid_cache(*backend),
            final(self).overlay_state().contents() == old(self).overlay_state().contents().insert(
                (None::<Seq<u8>>, key@),
                Some(value@),
            ),
            final(self).overlay_state().frames_seq() == set_shape(
                old(self).overlay_state().frames_seq(),
                WriteEntry { scope: None, key, value: Some(value) },
            ),
            final(self).overlay_state().depth() == old(self).overlay_state().depth(),
            final(self).overlay_state().runtime_depth() == old(
                self,
            ).overlay_state().runtime_depth(),
            final(self).sealed_frames() == old(self).sealed_frames(),
            final(self).exts_state() == old(self).exts_state(),
            final(self).id_state() == old(self).id_state(),
    {
        self.set_in_scope(backend, None, key, Some(value))
    }

    /// Marks a top-level key deleted.
    pub fn delete<B: Backend>(&mut self, backend: &B, key: Vec<u8>)
        requires
            old(self).wf(),
            old(self).valid_cache(*backend),
        ensures
            final(self).wf(),
            final(self).valid_cache(*backend),
            final(self).overlay_state().contents() == old(self).overlay_state().contents().insert(
                (None::<Seq<u8>>, key@),
                None::<Seq<u8>>,
            ),
            final(self).overlay_state().frames_seq() == set_shape(
                old(self).overlay_state().frames_seq(),
                WriteEntry { scope: None, key, value: None },
            ),
            final(self).overlay_state().depth() == old(self).overlay_state().depth(),
            final(self).overlay_state().runtime_depth() == old(
                self,
            ).overlay_state().runtime_depth(),
            final(self).sealed_frames() == old(self).sealed_frames(),
            final(self).exts_state() == old(self).exts_state(),
            final(self).id_state() == old(self).id_state(),
    {
        self.set_in_scope(backend, None, key, None)
    }

    /// Writes a value under a child-scoped key.
    pub fn write_child<B: Backend>(&mut self, backend: &B, scope: Vec<u8>, key: Vec<u8>, value: Vec<u8>)
        requires
            old(self).wf(),
            old(self).valid_cache(*backend),
        ensures
            final(self).wf(),
            final(self).valid_cache(*backend),
            final(self).overlay_state().contents() == old(self).overlay_state().contents().insert(
                (Some(scope@), key@),
                Some(value@),
            ),
            final(self).overlay_state().depth() == old(self).overlay_state().depth(),
            final(self).overlay_state().runtime_depth() == old(
                self,
            ).overlay_state().runtime_depth(),
            final(self).sealed_frames() == old(self).sealed_frames(),
            final(self).exts_state() == old(self).exts_state(),
            final(self).id_state() == old(self).id_state(),
    {
        self.set_in_scope(backend, Some(scope), key, Some(value))
    }

    /// Marks a child-scoped key deleted.
    pub fn delete_child<B: Backend>(&mut self, backend: &B, scope: Vec<u8>, key: Vec<u8>)
        requires
            old(self).wf(),
            old(self).valid_cache(*backend),
        ensures
            final(self).wf(),
            final(self).valid_cache(*backend),
            final(self).overlay_state().contents() == old(self).overlay_state().contents().insert(
                (Some(scope@), key@),
                None::<Seq<u8>>,
            ),
            final(self).overlay_state().depth() == old(self).overlay_state().depth(),
            final(self).overlay_state().runtime_depth() == old(
                self,
            ).overlay_state().runtime_depth(),
            final(self).sealed_frames() == old(self).sealed_frames(),
            final(self).exts_state() == old(self).exts_state(),
            final(self).id_state() == old(self).id_state(),
    {
        self.set_in_scope(backend, Some(scope), key, None)
    }

    /// Opens a nested transaction for the executed program.
    pub fn start_transaction(&mut self)
        requires
            old(self).wf(),
        ensures
            final(self).wf(),
            final(self).overlay_state().frames_seq() == start_shape(
                old(self).overlay_state().frames_seq(),
            ),
            final(self).overlay_state().contents() == old(self).overlay_state().contents(),
            final(self).overlay_state().depth() == old(self).overlay_state().depth() + 1,
            final(self).overlay_state().runtime_depth() == old(
                self,
            ).overlay_state().runtime_depth(),
            final(self).sealed_frames() == old(self).sealed_frames(),
            final(self).cache_state() == old(self).cache_state(),
            final(self).exts_state() == old(self).exts_state(),
            final(self).id_state() == old(self).id_state(),
    {
        self.overlay.start_transaction();
        proof {
            assert(self.sealed_frames() =~= old(self).sealed_frames());
        }
    }

    /// Commits the executed program's most recent nested transaction.  The
    /// call-level frame and everything below it cannot be closed from here:
    /// runtime scope is active, so such an attempt fails with
    /// `NoOpenTransaction`.
    pub fn commit_transaction(&mut self) -> (r: Result<(), OverlayError>)
        requires
            old(self).wf(),
        ensures
            final(self).wf(),
            final(self).cache_state() == old(self).cache_state(),
            final(self).exts_state() == old(self).exts_state(),
            final(self).id_state() == old(self).id_state(),
            final(self).overlay_state().runtime_depth() == old(
                self,
            ).overlay_state().runtime_depth(),
            !old(self).overlay_state().can_close() ==> r == Err::<(), OverlayError>(
                OverlayError::NoOpenTransaction,
            ) && final(self).overlay_state() == old(self).overlay_state(),
            old(self).overlay_state().can_close() ==> {
                &&& r == Ok::<(), OverlayError>(())
                &&& final(self).overlay_state().frames_seq() == commit_shape(
                    old(self).overlay_state().frames_seq(),
                )
                &&& final(self).overlay_state().contents() == old(self).overlay_state().contents()
                &&& final(self).overlay_state().depth() == old(self).overlay_state().depth() - 1
                &&& final(self).sealed_frames() == old(self).sealed_frames()
            },
    {
        let r = self.overlay.commit_transaction();
        proof {
            if old(self).overlay_state().can_close() {
                assert(self.sealed_frames() =~= old(self).sealed_frames());
            }
        }
        r
    }

    /// Rolls the executed program's most recent nested transaction back,
    /// discarding its writes, and drops the cached deltas that the discard
    /// may have outdated.  The same boundary holds as for commit.
    pub fn rollback_transaction(&mut self) -> (r: Result<(), OverlayError>)
        requires
            old(self).wf(),
        ensures
            final(self).wf(),
            final(self).exts_state() == old(self).exts_state(),
            final(self).id_state() == old(self).id_state(),
            final(self).overlay_state().runtime_depth() == old(
                self,
            ).overlay_state().runtime_depth(),
            final(self).cache_state().view_map() == Map::<
                Option<Seq<u8>>,
                Option<Vec<(Vec<u8>, Option<Vec<u8>>)>>,
            >::empty(),
            !old(self).overlay_state().can_close() ==> r == Err::<(), OverlayError>(
                OverlayError::NoOpenTransaction,
            ) && final(self).overlay_state() == old(self).overlay_state(),
            old(self).overlay_state().can_close() ==> {
                &&& r == Ok::<(), OverlayError>(())
                &&& final(self).overlay_state().frames_seq() == rollback_shape(
                    old(self).overlay_state().frames_seq(),
                )
                &&& final(self).overlay_state().depth() == old(self).overlay_state().depth() - 1
                &&& final(self).sealed_frames() == old(self).sealed_frames()
            },
    {
        let r = self.overlay.rollback_transaction();
        self.cache.clear();
        proof {
            if old(self).overlay_state().can_close() {
                assert(self.sealed_frames() =~= old(self).sealed_frames());
            }
        }
        r
    }

    /// The delta the top-level storage scope requires, through the cache.
    pub fn storage_delta<B: Backend>(&mut self, backend: &B) -> (d: Vec<(Vec<u8>, Option<Vec<u8>>)>)
        requires
            old(self).wf(),
            old(self).valid_cache(*backend),
        ensures
            final(self).wf(),
            final(self).valid_cache(*backend),
            delta_keys_unique(d@),
            delta_map(d@) == delta_spec(
                old(self).overlay_state().contents(),
                backend.view(),
                None::<Seq<u8>>,
            ),
            final(self).overlay_state() == old(self).overlay_state(),
            final(self).exts_state() == old(self).exts_state(),
            final(self).id_state() == old(self).id_state(),
    {
        self.cache.get_or_compute(&self.overlay, backend, &None)
    }

    /// The delta a child storage scope requires, through the cache.
    pub fn child_storage_delta<B: Backend>(&mut self, backend: &B, scope: &Vec<u8>) -> (d: Vec<
        (Vec<u8>, Option<Vec<u8>>),
    >)
        requires
            old(self).wf(),
            old(self).valid_cache(*backend),
        ensures
            final(self).wf(),
            final(self).valid_cache(*backend),
            delta_keys_unique(d@),
            delta_map(d@) == delta_spec(
                old(self).overlay_state().contents(),
                backend.view(),
                Some(scope@),
            ),
            final(self).overlay_state() == old(self).overlay_state(),
            final(self).exts_state() == old(self).exts_state(),
            final(self).id_state() == old(self).id_state(),
    {
        let s = Some(copy_bytes(scope));
        self.cache.get_or_compute(&self.overlay, backend, &s)
    }

    /// Looks an auxiliary capability up by kind.
    pub fn extension(&self, kind: u32) -> (r: Option<&X>)
        ensures
            r is None <==> !self.exts_state().view_map().contains_key(kind),
            r matches Some(x) ==> self.exts_state().view_map().contains_key(kind)
                && self.exts_state().view_map()[kind] == *x,
    {
        self.extensions.lookup(kind)
    }

    /// The opaque identifier correlating this call's trace output.
    pub fn context_id(&self) -> (r: u64)
        ensures
            r == self.id_state(),
    {
        self.id
    }

    /// How many frames are open, the sentinel included.
    pub fn transaction_depth(&self) -> (r: usize)
        ensures
            r == self.overlay_state().depth(),
    {
        self.overlay.transaction_depth()
    }
}

} // verus!
