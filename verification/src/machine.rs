//! The state machine: orchestrates one runtime call end-to-end.
//!
//! `create` binds a snapshot, an overlay, an executor, an extensions
//! registry, a method and its call-data.  `call` opens a call-level
//! transaction, enters runtime scope, hands an execution context to the
//! executor, and commits on success or rolls back on failure: a failing
//! call leaves the overlay's observable contents exactly as they were.

use vstd::prelude::*;
use crate::backend::Backend;
use crate::bytes::copy_bytes;
use crate::cache::{lemma_empty_cache_valid, lemma_valid_for_same_contents, TxCache};
use crate::ext::Ext;
use crate::extensions::Extensions;
use crate::model::{
    frames_map, frames_map_upto, lemma_frames_map_upto_agree, log_map, StateKey,
};
use crate::overlay::Overlay;

verus! {

/// The error an executed program failed with; propagated verbatim to the
/// caller of `call`, always after a rollback of the call-level frame.
#[derive(Clone, Copy, Debug, PartialEq, Eq, Structural)]
pub struct ExecutorError {
    pub code: u64,
}

/// The external component that interprets and runs the called program's
/// method against an execution context.
///
/// An implementation reaches the state only through the context, which is
/// why the bounds below hold of every implementation: the frames open at
/// runtime entry stay untouched, every nested transaction the program
/// opens is closed again before it returns, and the cached deltas still
/// match the overlay.
pub trait Executor<B: Backend, X> {
    /// Runs `method` with `call_data` against the context, returning the
    /// output bytes and whether a native path was used, or the program's
    /// error.
    fn call(
        &mut self,
        context: &mut Ext<X>,
        backend: &B,
        runtime_code: &Vec<u8>,
        method: &Vec<u8>,
        call_data: &Vec<u8>,
    ) -> (r: Result<(Vec<u8>, bool), ExecutorError>)
        requires
            old(context).wf(),
            old(context).valid_cache(*backend),
            old(context).overlay_state().depth() == old(context).overlay_state().runtime_depth(),
            old(context).overlay_state().runtime_depth() >= 2,
        ensures
            final(context).wf(),
            final(context).valid_cache(*backend),
            final(context).overlay_state().runtime_depth() == old(
                context,
            ).overlay_state().runtime_depth(),
            final(context).overlay_state().depth() == old(
                context,
            ).overlay_state().runtime_depth(),
            final(context).sealed_frames() == old(context).sealed_frames(),
    ;
}

/// An executor that runs no program: it echoes the call-data back as its
/// output and leaves the state untouched.
pub struct EchoExecutor {
}

impl<B: Backend, X> Executor<B, X> for EchoExecutor {
    fn call(
        &mut self,
        context: &mut Ext<X>,
        backend: &B,
        runtime_code: &Vec<u8>,
        method: &Vec<u8>,
        call_data: &Vec<u8>,
    ) -> (r: Result<(Vec<u8>, bool), ExecutorError>) {
        Ok((copy_bytes(call_data), false))
    }
}

/// The orchestrator of one call: Idle once constructed, Executed after
/// `call`; an instance executes at most once.
pub struct StateMachine<B: Backend, E: Executor<B, X>, X> {
    overlay: Overlay,
    backend: B,
    executor: E,
    extensions: Extensions<X>,
    cache: TxCache,
    runtime_code: Vec<u8>,
    method: Vec<u8>,
    call_data: Vec<u8>,
    parent_hash: Option<Vec<u8>>,
    ext_id: u64,
    executed: bool,
}

impl<B: Backend, E: Executor<B, X>, X> StateMachine<B, E, X> {
    /// The overlay the machine is bound to.
    pub closed spec fn overlay_state(self) -> Overlay {
        self.overlay
    }

    /// The storage snapshot the machine is bound to.
    pub closed spec fn backend_state(self) -> B {
        self.backend
    }

    /// The transaction cache the machine threads through its call.
    pub closed spec fn cache_state(self) -> TxCache {
        self.cache
    }

    /// The extensions registry exposed to the executed program.
    pub closed spec fn exts_state(self) -> Extensions<X> {
        self.extensions
    }

    /// Whether `call` has already run.
    pub closed spec fn executed_state(self) -> bool {
        self.executed
    }

    pub open spec fn wf(self) -> bool {
        &&& self.overlay_state().wf()
        &&& !self.overlay_state().runtime_active()
        &&& self.cache_state().valid_for(self.overlay_state(), self.backend_state())
    }

    /// Binds a state machine to a snapshot, an overlay, an executor, an
    /// extensions registry, a runtime code blob, a method and call-data.
    /// The opaque context identifier correlates this call's trace output.
    pub fn create(
        overlay: Overlay,
        backend: B,
        executor: E,
        extensions: Extensions<X>,
        runtime_code: Vec<u8>,
        method: Vec<u8>,
        call_data: Vec<u8>,
        ext_id: u64,
    ) -> (m: StateMachine<B, E, X>)
        requires
            overlay.wf(),
            !overlay.runtime_active(),
        ensures
            m.wf(),
            !m.executed_state(),
            m.overlay_state() == overlay,
            m.backend_state() == backend,
            m.exts_state() == extensions,
    {
        let cache = TxCache::new();
        let m = StateMachine {
            overlay,
            backend,
            executor,
            extensions,
            cache,
            runtime_code,
            method,
            call_data,
            parent_hash: None,
            ext_id,
            executed: false,
        };
        proof {
            lemma_empty_cache_valid(m.cache, m.overlay, m.backend);
        }
        m
    }

    /// Supplies an externally held transaction cache, to share caching
    /// across several calls against the same overlay and snapshot.
    pub fn with_cache(self, cache: TxCache) -> (m: StateMachine<B, E, X>)
        requires
            cache.valid_for(self.overlay_state(), self.backend_state()),
        ensures
            m.cache_state() == cache,
            m.overlay_state() == self.overlay_state(),
            m.backend_state() == self.backend_state(),
            m.exts_state() == self.exts_state(),
            m.executed_state() == self.executed_state(),
            self.wf() ==> m.wf(),
    {
        StateMachine { cache, ..self }
    }

    /// Records the parent block identifier, used purely for diagnostic
    /// correlation.
    pub fn with_parent_hash(self, parent: Vec<u8>) -> (m: StateMachine<B, E, X>)
        ensures
            m.overlay_state() == self.overlay_state(),
            m.backend_state() == self.backend_state(),
            m.cache_state() == self.cache_state(),
            m.exts_state() == self.exts_state(),
            m.executed_state() == self.executed_state(),
            self.wf() ==> m.wf(),
    {
        StateMachine { parent_hash: Some(parent), ..self }
    }

    /// Hands the bound parts back, typically after the call, so that the
    /// caller can read the overlay and thread the cache on.
    pub fn into_parts(self) -> (r: (Overlay, B, E, Extensions<X>, TxCache))
        ensures
            r.0 == self.overlay_state(),
            r.1 == self.backend_state(),
            r.3 == self.exts_state(),
            r.4 == self.cache_state(),
    {
        let StateMachine {
            overlay,
            backend,
            executor,
            extensions,
            cache,
            runtime_code: _,
            method: _,
            call_data: _,
            parent_hash: _,
            ext_id: _,
            executed: _,
        } = self;
        (overlay, backend, executor, extensions, cache)
    }

    /// Executes the call: opens a call-level transaction, enters runtime
    /// scope, delegates to the executor, exits runtime scope, and commits
    /// on success or rolls back on failure.
    ///
    /// A failed call returns exactly the executor's error with zero
    /// observable state mutation: frames and contents afterwards equal
    /// those before.  A successful call merges its writes into the parent
    /// overlay frame: the frames beneath the parent frame are untouched and
    /// the contents afterwards are the old contents overridden by the
    /// call's writes.  Afterwards the machine is Executed and the
    /// accumulated storage-access statistics have been reported to the
    /// snapshot.
    pub fn call(self) -> (r: (StateMachine<B, E, X>, Result<Vec<u8>, ExecutorError>))
        requires
            self.wf(),
            !self.executed_state(),
        ensures
            r.0.wf(),
            r.0.executed_state(),
            r.0.backend_state() == self.backend_state(),
            !r.0.overlay_state().runtime_active(),
            r.1 matches Err(_) ==> r.0.overlay_state().frames_seq()
                == self.overlay_state().frames_seq() && r.0.overlay_state().contents()
                == self.overlay_state().contents(),
            r.1 matches Ok(_) ==> {
                &&& r.0.overlay_state().depth() == self.overlay_state().depth()
                &&& r.0.overlay_state().frames_seq().take(self.overlay_state().depth() - 1)
                    == self.overlay_state().frames_seq().take(self.overlay_state().depth() - 1)
                &&& exists|w: Map<StateKey, Option<Seq<u8>>>|
                    r.0.overlay_state().contents() == self.overlay_state().contents(
                    ).union_prefer_right(w)
            },
    {
        let StateMachine {
            mut overlay,
            backend,
            mut executor,
            extensions,
            cache,
            runtime_code,
            method,
            call_data,
            parent_hash,
            ext_id,
            executed: _,
        } = self;
        let ghost f0 = overlay.frames_seq();
        let ghost h = f0.len() + 1;
        overlay.start_transaction();
        let _ = overlay.enter_runtime();
        proof {
            lemma_valid_for_same_contents(cache, self.overlay_state(), overlay, backend);
        }
        let mut context = Ext::new(overlay, cache, extensions, ext_id);
        proof {
            assert(context.sealed_frames() =~= f0.take(h - 1));
        }
        let call_res = executor.call(&mut context, &backend, &runtime_code, &method, &call_data);
        let parts = context.into_parts();
        let mut overlay = parts.0;
        let mut cache = parts.1;
        let extensions = parts.2;
        let stats = parts.3;
        let ghost g = overlay.frames_seq();
        proof {
            assert(g.take(h - 1) == f0.take(h - 1));
            assert(f0.take(h - 1) =~= f0);
        }
        let _ = overlay.exit_runtime();
        let output: Result<Vec<u8>, ExecutorError>;
        match call_res {
            Ok((bytes, _used_native)) => {
                let ghost before_commit = overlay;
                let _ = overlay.commit_transaction();
                proof {
                    lemma_frames_map_upto_agree(g, f0, h - 2);
                    assert(frames_map_upto(g, h - 1) == frames_map_upto(g, h - 2)
                        .union_prefer_right(log_map(g[h - 2])));
                    assert(g[h - 2] == f0[h - 2]);
                    assert(frames_map_upto(f0, h - 1) == frames_map_upto(f0, h - 2)
                        .union_prefer_right(log_map(f0[h - 2])));
                    assert(frames_map_upto(g, h - 1) == frames_map(f0));
                    assert(overlay.contents() == frames_map_upto(g, h - 1).union_prefer_right(
                        log_map(g[h - 1]),
                    )) by {
                        assert(before_commit.contents() == frames_map_upto(g, h - 1)
                            .union_prefer_right(log_map(g[h - 1])));
                    }
                    assert(overlay.frames_seq().take(h - 2) =~= f0.take(h - 2));
                    lemma_valid_for_same_contents(cache, parts.0, overlay, backend);
                }
                output = Ok(bytes);
            },
            Err(e) => {
                let _ = overlay.rollback_transaction();
                cache.clear();
                proof {
                    assert(overlay.frames_seq() =~= g.take(h - 1));
                    lemma_empty_cache_valid(cache, overlay, backend);
                }
                output = Err(e);
            },
        }
        backend.register_stats(&stats);
        let m = StateMachine {
            overlay,
            backend,
            executor,
            extensions,
            cache,
            runtime_code,
            method,
            call_data,
            parent_hash,
            ext_id,
            executed: true,
        };
        proof {
            if output matches Ok(_) {
                assert(m.overlay_state().contents() == self.overlay_state().contents()
                    .union_prefer_right(log_map(g[h - 1])));
            }
        }
        (m, output)
    }
}

} // verus!
