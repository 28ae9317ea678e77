//! The overlay: a mutable, nested write log layered on top of an immutable
//! storage snapshot.
//!
//! Writes go into the top frame of a stack of frames.  `start_transaction`
//! pushes a frame, `commit_transaction` merges the top frame into the frame
//! beneath it, `rollback_transaction` discards it.  A sentinel frame always
//! remains at the bottom.  The runtime scope marker records the frame depth
//! at which the executed program started running: while inside runtime
//! scope, the frames that were open at entry may not be closed.

use vstd::prelude::*;
use crate::OverlayError;
use crate::bytes::{bytes_eq, copy_opt_bytes, opt_bytes_eq};
use crate::model::{
    commit_shape, frames_map, frames_map_upto, lemma_commit_preserves, lemma_rollback_drops,
    lemma_set_updates, lemma_start_preserves, log_map, opt_bytes_view, rollback_shape, set_shape,
    start_shape, StateKey, WriteEntry,
};

verus! {

/// The nested write log.
pub struct Overlay {
    frames: Vec<Vec<WriteEntry>>,
    in_runtime: bool,
    runtime_start: usize,
}

impl Overlay {
    /// The stack of frame logs, bottom first.
    pub closed spec fn frames_seq(self) -> Seq<Seq<WriteEntry>> {
        self.frames@.map_values(|f: Vec<WriteEntry>| f@)
    }

    /// How many frames are open, the sentinel included.
    pub open spec fn depth(self) -> nat {
        self.frames_seq().len()
    }

    /// Whether the executed program is currently running.
    pub closed spec fn runtime_active(self) -> bool {
        self.in_runtime
    }

    /// The frame depth recorded when runtime scope was entered.
    pub closed spec fn runtime_depth(self) -> nat {
        self.runtime_start as nat
    }

    /// The observable key/value contents: every frame folded bottom-up.
    pub open spec fn contents(self) -> Map<StateKey, Option<Seq<u8>>> {
        frames_map(self.frames_seq())
    }

    /// The contents described by the lowest `n` frames only.
    pub open spec fn contents_upto(self, n: int) -> Map<StateKey, Option<Seq<u8>>> {
        frames_map_upto(self.frames_seq(), n)
    }

    /// The lowest depth at which commit or rollback may currently close a
    /// frame: the runtime entry depth while inside runtime scope, else the
    /// sentinel alone is protected.
    pub open spec fn close_floor(self) -> nat {
        if self.runtime_active() {
            self.runtime_depth()
        } else {
            1
        }
    }

    /// Whether a commit or rollback is currently allowed.
    pub open spec fn can_close(self) -> bool {
        self.depth() > self.close_floor()
    }

    pub open spec fn wf(self) -> bool {
        &&& self.depth() >= 1
        &&& (self.runtime_active() ==> 1 <= self.runtime_depth() <= self.depth())
    }

    /// A fresh overlay: only the sentinel frame, no pending write, outside
    /// runtime scope.
    pub fn new() -> (r: Overlay)
        ensures
            r.wf(),
            r.depth() == 1,
            !r.runtime_active(),
            r.contents() == Map::<StateKey, Option<Seq<u8>>>::empty(),
    {
        let mut frames: Vec<Vec<WriteEntry>> = Vec::new();
        frames.push(Vec::new());
        let r = Overlay { frames, in_runtime: false, runtime_start: 0 };
        proof {
            assert(r.frames_seq() =~= seq![Seq::<WriteEntry>::empty()]);
            assert(frames_map_upto(r.frames_seq(), 0) == Map::<StateKey, Option<Seq<u8>>>::empty());
            assert(log_map(r.frames_seq()[0]) =~= Map::<StateKey, Option<Seq<u8>>>::empty());
            assert(r.contents() =~= Map::<StateKey, Option<Seq<u8>>>::empty());
        }
        r
    }

    /// Pushes a new, empty frame.  Never fails.
    pub fn start_transaction(&mut self)
        requires
            old(self).wf(),
        ensures
            final(self).wf(),
            final(self).frames_seq() == start_shape(old(self).frames_seq()),
            final(self).depth() == old(self).depth() + 1,
            final(self).contents() == old(self).contents(),
            final(self).runtime_active() == old(self).runtime_active(),
            final(self).runtime_depth() == old(self).runtime_depth(),
    {
        self.frames.push(Vec::new());
        proof {
            assert(self.frames_seq() =~= start_shape(old(self).frames_seq()));
            lemma_start_preserves(old(self).frames_seq());
        }
    }

    /// Records a write in the current top frame: a value, or a deletion
    /// marker (`None`).  Never fails.
    pub(crate) fn set_entry(&mut self, scope: Option<Vec<u8>>, key: Vec<u8>, value: Option<Vec<u8>>)
        requires
            old(self).wf(),
        ensures
            final(self).wf(),
            final(self).frames_seq() == set_shape(
                old(self).frames_seq(),
                WriteEntry { scope, key, value },
            ),
            final(self).depth() == old(self).depth(),
            final(self).contents() == old(self).contents().insert(
                (opt_bytes_view(scope), key@),
                opt_bytes_view(value),
            ),
            final(self).runtime_active() == old(self).runtime_active(),
            final(self).runtime_depth() == old(self).runtime_depth(),
    {
        let ghost e = WriteEntry { scope: scope, key: key, value: value };
        let mut top = self.frames.pop().unwrap();
        top.push(WriteEntry { scope, key, value });
        self.frames.push(top);
        proof {
            assert(self.frames_seq() =~= set_shape(old(self).frames_seq(), e));
            lemma_set_updates(old(self).frames_seq(), e);
        }
    }

    /// Writes a top-level storage key in the current top frame.
    pub fn set(&mut self, key: Vec<u8>, value: Option<Vec<u8>>)
        requires
            old(self).wf(),
        ensures
            final(self).wf(),
            final(self).frames_seq() == set_shape(
                old(self).frames_seq(),
                WriteEntry { scope: None, key, value },
            ),
            final(self).depth() == old(self).depth(),
            final(self).contents() == old(self).contents().insert(
                (None::<Seq<u8>>, key@),
                opt_bytes_view(value),
            ),
            final(self).runtime_active() == old(self).runtime_active(),
            final(self).runtime_depth() == old(self).runtime_depth(),
    {
        self.set_entry(None, key, value)
    }

    /// Writes a child-scoped storage key in the current top frame.
    pub fn set_child(&mut self, scope: Vec<u8>, key: Vec<u8>, value: Option<Vec<u8>>)
        requires
            old(self).wf(),
        ensures
            final(self).wf(),
            final(self).frames_seq() == set_shape(
                old(self).frames_seq(),
                WriteEntry { scope: Some(scope), key, value },
            ),
            final(self).depth() == old(self).depth(),
            final(self).contents() == old(self).contents().insert(
                (Some(scope@), key@),
                opt_bytes_view(value),
            ),
            final(self).runtime_active() == old(self).runtime_active(),
            final(self).runtime_depth() == old(self).runtime_depth(),
    {
        self.set_entry(Some(scope), key, value)
    }

    /// Merges the top frame into the frame beneath it, later writes
    /// shadowing earlier ones, then pops it.  The observable contents are
    /// unchanged.  Fails with `NoOpenTransaction` when no closeable frame is
    /// open at this boundary.
    pub fn commit_transaction(&mut self) -> (r: Result<(), OverlayError>)
        requires
            old(self).wf(),
        ensures
            final(self).wf(),
            !old(self).can_close() ==> r == Err::<(), OverlayError>(OverlayError::NoOpenTransaction)
                && *final(self) == *old(self),
            old(self).can_close() ==> {
                &&& r == Ok::<(), OverlayError>(())
                &&& final(self).frames_seq() == commit_shape(old(self).frames_seq())
                &&& final(self).depth() == old(self).depth() - 1
                &&& final(self).contents() == old(self).contents()
                &&& final(self).runtime_active() == old(self).runtime_active()
                &&& final(self).runtime_depth() == old(self).runtime_depth()
            },
    {
        let floor = if self.in_runtime {
            self.runtime_start
        } else {
            1
        };
        if self.frames.len() <= floor {
            return Err(OverlayError::NoOpenTransaction);
        }
        let mut top = self.frames.pop().unwrap();
        let mut below = self.frames.pop().unwrap();
        below.append(&mut top);
        self.frames.push(below);
        proof {
            assert(self.frames_seq() =~= commit_shape(old(self).frames_seq()));
            lemma_commit_preserves(old(self).frames_seq());
        }
        Ok(())
    }

    /// Discards the top frame entirely, with no merge.  Afterwards the
    /// observable contents are those of the remaining frames.  Fails with
    /// `NoOpenTransaction` when no closeable frame is open at this boundary.
    pub fn rollback_transaction(&mut self) -> (r: Result<(), OverlayError>)
        requires
            old(self).wf(),
        ensures
            final(self).wf(),
            !old(self).can_close() ==> r == Err::<(), OverlayError>(OverlayError::NoOpenTransaction)
                && *final(self) == *old(self),
            old(self).can_close() ==> {
                &&& r == Ok::<(), OverlayError>(())
                &&& final(self).frames_seq() == rollback_shape(old(self).frames_seq())
                &&& final(self).depth() == old(self).depth() - 1
                &&& final(self).contents() == old(self).contents_upto(old(self).depth() - 1)
                &&& final(self).runtime_active() == old(self).runtime_active()
                &&& final(self).runtime_depth() == old(self).runtime_depth()
            },
    {
        let floor = if self.in_runtime {
            self.runtime_start
        } else {
            1
        };
        if self.frames.len() <= floor {
            return Err(OverlayError::NoOpenTransaction);
        }
        let _ = self.frames.pop();
        proof {
            assert(self.frames_seq() =~= rollback_shape(old(self).frames_seq()));
            lemma_rollback_drops(old(self).frames_seq());
        }
        Ok(())
    }

    /// Marks the beginning of runtime execution, recording the current
    /// depth.  Fails with `AlreadyInRuntime` when runtime scope is already
    /// active: re-entrant runtime execution is not supported by this layer.
    pub fn enter_runtime(&mut self) -> (r: Result<(), OverlayError>)
        requires
            old(self).wf(),
        ensures
            final(self).wf(),
            old(self).runtime_active() ==> r == Err::<(), OverlayError>(OverlayError::AlreadyInRuntime)
                && *final(self) == *old(self),
            !old(self).runtime_active() ==> {
                &&& r == Ok::<(), OverlayError>(())
                &&& final(self).runtime_active()
                &&& final(self).runtime_depth() == old(self).depth()
                &&& final(self).frames_seq() == old(self).frames_seq()
                &&& final(self).contents() == old(self).contents()
            },
    {
        if self.in_runtime {
            return Err(OverlayError::AlreadyInRuntime);
        }
        self.in_runtime = true;
        self.runtime_start = self.frames.len();
        Ok(())
    }

    /// Marks the end of runtime execution.  Fails with
    /// `TransactionsRemainOpen` when frames opened inside the scope are
    /// still open, and with `NotInRuntime` when the scope was never entered;
    /// both are contract violations of the caller, not expected conditions.
    pub fn exit_runtime(&mut self) -> (r: Result<(), OverlayError>)
        requires
            old(self).wf(),
        ensures
            final(self).wf(),
            !old(self).runtime_active() ==> r == Err::<(), OverlayError>(OverlayError::NotInRuntime)
                && *final(self) == *old(self),
            old(self).runtime_active() && old(self).depth() > old(self).runtime_depth() ==> r
                == Err::<(), OverlayError>(OverlayError::TransactionsRemainOpen) && *final(self)
                == *old(self),
            old(self).runtime_active() && old(self).depth() == old(self).runtime_depth() ==> {
                &&& r == Ok::<(), OverlayError>(())
                &&& !final(self).runtime_active()
                &&& final(self).frames_seq() == old(self).frames_seq()
                &&& final(self).contents() == old(self).contents()
            },
    {
        if !self.in_runtime {
            return Err(OverlayError::NotInRuntime);
        }
        if self.frames.len() > self.runtime_start {
            return Err(OverlayError::TransactionsRemainOpen);
        }
        self.in_runtime = false;
        Ok(())
    }

    /// The most recent overlay entry for a storage location, scanning the
    /// frames top to bottom: `None` when no frame has one (the caller then
    /// defers to the snapshot), `Some(None)` when the location was deleted,
    /// `Some(Some(v))` when `v` was written.
    pub(crate) fn get_entry(&self, scope: &Option<Vec<u8>>, key: &Vec<u8>) -> (r: Option<
        Option<Vec<u8>>,
    >)
        ensures
            r is None <==> !self.contents().contains_key((opt_bytes_view(*scope), key@)),
            r matches Some(v) ==> self.contents().contains_key((opt_bytes_view(*scope), key@))
                && self.contents()[(opt_bytes_view(*scope), key@)] == opt_bytes_view(v),
    {
        let ghost fs = self.frames_seq();
        let ghost sk: StateKey = (opt_bytes_view(*scope), key@);
        let mut i: usize = self.frames.len();
        while i > 0
            invariant
                i <= self.frames.len(),
                fs == self.frames_seq(),
                sk == (opt_bytes_view(*scope), key@),
                frames_map(fs).contains_key(sk) <==> frames_map_upto(fs, i as int).contains_key(
                    sk,
                ),
                frames_map(fs).contains_key(sk) ==> frames_map(fs)[sk] == frames_map_upto(
                    fs,
                    i as int,
                )[sk],
            decreases i,
        {
            let found = scan_log(&self.frames[i - 1], scope, key);
            proof {
                assert(fs[i - 1 as int] == self.frames@[i - 1 as int]@);
            }
            match found {
                Some(v) => {
                    return Some(v);
                },
                None => {
                    i = i - 1;
                },
            }
        }
        None
    }

    /// Reads the most recent overlay value for a top-level key.
    pub fn get(&self, key: &Vec<u8>) -> (r: Option<Option<Vec<u8>>>)
        ensures
            r is None <==> !self.contents().contains_key((None::<Seq<u8>>, key@)),
            r matches Some(v) ==> self.contents().contains_key((None::<Seq<u8>>, key@))
                && self.contents()[(None::<Seq<u8>>, key@)] == opt_bytes_view(v),
    {
        self.get_entry(&None, key)
    }

    /// Reads the most recent overlay value for a child-scoped key.
    pub fn get_child(&self, scope: &Vec<u8>, key: &Vec<u8>) -> (r: Option<Option<Vec<u8>>>)
        ensures
            r is None <==> !self.contents().contains_key((Some(scope@), key@)),
            r matches Some(v) ==> self.contents().contains_key((Some(scope@), key@))
                && self.contents()[(Some(scope@), key@)] == opt_bytes_view(v),
    {
        let s = Some(crate::bytes::copy_bytes(scope));
        self.get_entry(&s, key)
    }

    /// How many frames the stack holds.
    pub(crate) fn frame_count(&self) -> (n: usize)
        ensures
            n == self.depth(),
    {
        self.frames.len()
    }

    /// How many entries the `i`-th frame's log holds.
    pub(crate) fn frame_len(&self, i: usize) -> (n: usize)
        requires
            i < self.depth(),
        ensures
            n == self.frames_seq()[i as int].len(),
    {
        self.frames[i].len()
    }

    /// The `j`-th entry of the `i`-th frame's log.
    pub(crate) fn entry_at(&self, i: usize, j: usize) -> (e: &WriteEntry)
        requires
            i < self.depth(),
            j < self.frames_seq()[i as int].len(),
        ensures
            *e == self.frames_seq()[i as int][j as int],
    {
        &self.frames[i][j]
    }

    /// How many frames are open, the sentinel included.
    pub fn transaction_depth(&self) -> (r: usize)
        ensures
            r == self.depth(),
    {
        self.frames.len()
    }

    /// Whether runtime scope is currently active.
    pub fn is_in_runtime(&self) -> (r: bool)
        ensures
            r == self.runtime_active(),
    {
        self.in_runtime
    }
}

/// The most recent entry for a location within one log, scanning back to
/// front.
pub(crate) fn scan_log(log: &Vec<WriteEntry>, scope: &Option<Vec<u8>>, key: &Vec<u8>) -> (r: Option<
    Option<Vec<u8>>,
>)
    ensures
        r is None <==> !log_map(log@).contains_key((opt_bytes_view(*scope), key@)),
        r matches Some(v) ==> log_map(log@).contains_key((opt_bytes_view(*scope), key@))
            && log_map(log@)[(opt_bytes_view(*scope), key@)] == opt_bytes_view(v),
{
    let ghost sk: StateKey = (opt_bytes_view(*scope), key@);
    proof {
        assert(log@.take(log@.len() as int) =~= log@);
    }
    let mut j: usize = log.len();
    while j > 0
        invariant
            j <= log.len(),
            sk == (opt_bytes_view(*scope), key@),
            log_map(log@).contains_key(sk) <==> log_map(log@.take(j as int)).contains_key(sk),
            log_map(log@).contains_key(sk) ==> log_map(log@)[sk] == log_map(
                log@.take(j as int),
            )[sk],
        decreases j,
    {
        let e = &log[j - 1];
        proof {
            assert(log@.take(j as int).drop_last() =~= log@.take(j - 1 as int));
            assert(log@.take(j as int).last() == log@[j - 1 as int]);
        }
        if opt_bytes_eq(&e.scope, scope) && bytes_eq(&e.key, key) {
            return Some(copy_opt_bytes(&e.value));
        }
        j = j - 1;
    }
    proof {
        assert(log@.take(0) =~= Seq::<WriteEntry>::empty());
    }
    None
}

} // verus!
