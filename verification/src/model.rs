//! Mathematical model of the overlay's nested write log.
//!
//! An overlay is a stack of frames; each frame is a log of write entries.  A
//! later entry for a key shadows an earlier one, and an entry in a higher
//! frame shadows the frames beneath it.  The model of a frame stack is the
//! map obtained by folding every frame's log bottom-up, which the exec
//! operations' contracts and the laws below are stated over.

use vstd::prelude::*;
use vstd::map::*;

verus! {

/// A storage location: the child scope it lives in (`None` for top-level
/// storage) and its key.
pub type StateKey = (Option<Seq<u8>>, Seq<u8>);

/// One pending write: a value, or a deletion marker (`None`).
pub struct WriteEntry {
    pub scope: Option<Vec<u8>>,
    pub key: Vec<u8>,
    pub value: Option<Vec<u8>>,
}

pub open spec fn opt_bytes_view(o: Option<Vec<u8>>) -> Option<Seq<u8>> {
    match o {
        Some(v) => Some(v@),
        None => None,
    }
}

impl WriteEntry {
    /// The storage location this entry writes.
    pub open spec fn skey(self) -> StateKey {
        (opt_bytes_view(self.scope), self.key@)
    }

    /// The written value, `None` standing for deletion.
    pub open spec fn val(self) -> Option<Seq<u8>> {
        opt_bytes_view(self.value)
    }
}

/// The map described by one frame's log: later entries shadow earlier ones.
pub open spec fn log_map(log: Seq<WriteEntry>) -> Map<StateKey, Option<Seq<u8>>>
    decreases log.len(),
{
    if log.len() == 0 {
        Map::empty()
    } else {
        log_map(log.drop_last()).insert(log.last().skey(), log.last().val())
    }
}

/// The map described by the first `n` frames of a stack: higher frames
/// shadow lower ones.
pub open spec fn frames_map_upto(frames: Seq<Seq<WriteEntry>>, n: int) -> Map<
    StateKey,
    Option<Seq<u8>>,
>
    decreases n,
{
    if n <= 0 {
        Map::empty()
    } else {
        frames_map_upto(frames, n - 1).union_prefer_right(log_map(frames[n - 1]))
    }
}

/// The map described by a whole frame stack.
pub open spec fn frames_map(frames: Seq<Seq<WriteEntry>>) -> Map<StateKey, Option<Seq<u8>>> {
    frames_map_upto(frames, frames.len() as int)
}

/// The stack after `start_transaction`: a fresh empty frame on top.
pub open spec fn start_shape(frames: Seq<Seq<WriteEntry>>) -> Seq<Seq<WriteEntry>> {
    frames.push(Seq::empty())
}

/// The stack after `set`: the entry appended to the top frame.
pub open spec fn set_shape(frames: Seq<Seq<WriteEntry>>, e: WriteEntry) -> Seq<Seq<WriteEntry>> {
    frames.update(frames.len() - 1, frames.last().push(e))
}

/// The stack after `commit_transaction`: the top frame's log appended to the
/// frame beneath it.
pub open spec fn commit_shape(frames: Seq<Seq<WriteEntry>>) -> Seq<Seq<WriteEntry>> {
    frames.drop_last().update(frames.len() - 2, frames[frames.len() - 2] + frames.last())
}

/// The stack after `rollback_transaction`: the top frame discarded.
pub open spec fn rollback_shape(frames: Seq<Seq<WriteEntry>>) -> Seq<Seq<WriteEntry>> {
    frames.drop_last()
}

/// Folding a concatenated log equals folding the parts in order.
pub proof fn lemma_log_map_concat(a: Seq<WriteEntry>, b: Seq<WriteEntry>)
    ensures
        log_map(a + b) == log_map(a).union_prefer_right(log_map(b)),
    decreases b.len(),
{
    if b.len() == 0 {
        assert(a + b =~= a);
        assert(log_map(a).union_prefer_right(log_map(b)) =~= log_map(a));
    } else {
        lemma_log_map_concat(a, b.drop_last());
        assert((a + b).drop_last() =~= a + b.drop_last());
        assert((a + b).last() == b.last());
        assert(log_map(a).union_prefer_right(log_map(b.drop_last())).insert(
            b.last().skey(),
            b.last().val(),
        ) =~= log_map(a).union_prefer_right(
            log_map(b.drop_last()).insert(b.last().skey(), b.last().val()),
        ));
    }
}

/// The fold of the first `n` frames depends only on those frames.
pub proof fn lemma_frames_map_upto_agree(f1: Seq<Seq<WriteEntry>>, f2: Seq<Seq<WriteEntry>>, n: int)
    requires
        0 <= n <= f1.len(),
        n <= f2.len(),
        forall|i: int| 0 <= i < n ==> f1[i] == f2[i],
    ensures
        frames_map_upto(f1, n) == frames_map_upto(f2, n),
    decreases n,
{
    if n > 0 {
        lemma_frames_map_upto_agree(f1, f2, n - 1);
    }
}

/// Opening a transaction leaves the overall contents unchanged.
pub proof fn lemma_start_preserves(frames: Seq<Seq<WriteEntry>>)
    ensures
        frames_map(start_shape(frames)) == frames_map(frames),
{
    let f2 = start_shape(frames);
    lemma_frames_map_upto_agree(f2, frames, frames.len() as int);
    assert(frames_map_upto(f2, f2.len() as int) =~= frames_map_upto(frames, frames.len() as int));
}

/// Writing an entry updates the overall contents at exactly its location.
pub proof fn lemma_set_updates(frames: Seq<Seq<WriteEntry>>, e: WriteEntry)
    requires
        frames.len() >= 1,
    ensures
        frames_map(set_shape(frames, e)) == frames_map(frames).insert(e.skey(), e.val()),
{
    let n = frames.len() as int;
    let f2 = set_shape(frames, e);
    lemma_frames_map_upto_agree(f2, frames, n - 1);
    assert(f2[n - 1] == frames.last().push(e));
    assert(frames.last().push(e).drop_last() =~= frames.last());
    assert(log_map(f2[n - 1]) == log_map(frames.last()).insert(e.skey(), e.val()));
    assert(frames_map_upto(f2, n) =~= frames_map_upto(frames, n).insert(e.skey(), e.val()));
}

/// Committing the top frame leaves the overall contents unchanged.
pub proof fn lemma_commit_preserves(frames: Seq<Seq<WriteEntry>>)
    requires
        frames.len() >= 2,
    ensures
        frames_map(commit_shape(frames)) == frames_map(frames),
{
    let n = frames.len() as int;
    let f2 = commit_shape(frames);
    lemma_frames_map_upto_agree(f2, frames, n - 2);
    lemma_log_map_concat(frames[n - 2], frames.last());
    assert(f2[n - 2] == frames[n - 2] + frames.last());
    assert(frames_map_upto(frames, n - 1) == frames_map_upto(frames, n - 2).union_prefer_right(
        log_map(frames[n - 2]),
    ));
    assert(frames_map_upto(f2, n - 1) == frames_map_upto(f2, n - 2).union_prefer_right(
        log_map(f2[n - 2]),
    ));
    assert(frames_map_upto(f2, n - 1) =~= frames_map_upto(frames, n));
}

/// Rolling back restores the contents described by the remaining frames.
pub proof fn lemma_rollback_drops(frames: Seq<Seq<WriteEntry>>)
    requires
        frames.len() >= 1,
    ensures
        frames_map(rollback_shape(frames)) == frames_map_upto(frames, frames.len() - 1),
{
    lemma_frames_map_upto_agree(rollback_shape(frames), frames, frames.len() - 1);
}

/// Commit visibility: writes made inside a transaction that is then
/// committed are exactly what the surrounding frames see afterwards — the
/// merged contents equal the old contents overridden by the two writes.
pub proof fn lemma_commit_visibility(frames: Seq<Seq<WriteEntry>>, e1: WriteEntry, e2: WriteEntry)
    requires
        frames.len() >= 1,
    ensures
        frames_map(commit_shape(set_shape(set_shape(start_shape(frames), e1), e2)))
            == frames_map(frames).insert(e1.skey(), e1.val()).insert(e2.skey(), e2.val()),
{
    let f1 = start_shape(frames);
    let f2 = set_shape(f1, e1);
    let f3 = set_shape(f2, e2);
    lemma_start_preserves(frames);
    lemma_set_updates(f1, e1);
    lemma_set_updates(f2, e2);
    lemma_commit_preserves(f3);
}

/// Nesting isolation: a nested transaction that is rolled back discards
/// exactly its own writes; a write made in the enclosing frame beforehand is
/// left intact, both structurally and in the contents.
pub proof fn lemma_nesting_isolation(frames: Seq<Seq<WriteEntry>>, outer: WriteEntry, inner: WriteEntry)
    requires
        frames.len() >= 1,
    ensures
        rollback_shape(set_shape(start_shape(set_shape(frames, outer)), inner))
            == set_shape(frames, outer),
        frames_map(rollback_shape(set_shape(start_shape(set_shape(frames, outer)), inner)))
            == frames_map(frames).insert(outer.skey(), outer.val()),
{
    let f1 = set_shape(frames, outer);
    let f2 = start_shape(f1);
    let f3 = set_shape(f2, inner);
    assert(f3.drop_last() =~= f1);
    lemma_set_updates(frames, outer);
}

/// Whether some entry of a log writes the given location.
pub open spec fn log_has_key(log: Seq<WriteEntry>, sk: StateKey) -> bool {
    exists|j: int| 0 <= j < log.len() && log[j].skey() == sk
}

/// Whether some entry of the first `n` frames writes the given location.
pub open spec fn frames_have_key(frames: Seq<Seq<WriteEntry>>, n: int, sk: StateKey) -> bool {
    exists|i: int, j: int|
        0 <= i < n && 0 <= j < frames[i].len() && frames[i][j].skey() == sk
}

/// A location is in a log's map exactly when some entry writes it.
pub proof fn lemma_log_map_domain(log: Seq<WriteEntry>, sk: StateKey)
    ensures
        log_map(log).contains_key(sk) <==> log_has_key(log, sk),
    decreases log.len(),
{
    if log.len() > 0 {
        lemma_log_map_domain(log.drop_last(), sk);
        if log_map(log).contains_key(sk) {
            if sk == log.last().skey() {
                assert(log[log.len() - 1].skey() == sk);
            } else {
let j = choose|j: int| 0 <= j < log.drop_last().len() && (#[trigger] log.drop_last()[j]).skey() == sk;
                assert(log[j].skey() == sk);
            }
        }
        if log_has_key(log, sk) {
            let j = choose|j: int| 0 <= j < log.len() && (#[trigger] log[j]).skey() == sk;
            if j < log.len() - 1 {
                assert(log.drop_last()[j].skey() == sk);
            }
        }
    }
}

/// A location is in the fold of the first `n` frames exactly when some of
/// their entries writes it.
pub proof fn lemma_frames_map_domain(frames: Seq<Seq<WriteEntry>>, n: int, sk: StateKey)
    requires
        0 <= n <= frames.len(),
    ensures
        frames_map_upto(frames, n).contains_key(sk) <==> frames_have_key(frames, n, sk),
    decreases n,
{
    if n > 0 {
        lemma_frames_map_domain(frames, n - 1, sk);
        lemma_log_map_domain(frames[n - 1], sk);
        if frames_map_upto(frames, n).contains_key(sk) {
            if log_map(frames[n - 1]).contains_key(sk) {
                let j = choose|j: int| 0 <= j < frames[n - 1].len() && (#[trigger] frames[n - 1][j]).skey() == sk;
                assert(0 <= n - 1 < n && 0 <= j < frames[n - 1].len() && frames[n - 1][j].skey()
                    == sk);
            } else {
                let (i, j) = choose|i: int, j: int|
                    0 <= i < n - 1 && 0 <= j < frames[i].len() && (#[trigger] frames[i][j]).skey() == sk;
                assert(0 <= i < n && 0 <= j < frames[i].len() && frames[i][j].skey() == sk);
            }
        }
        if frames_have_key(frames, n, sk) {
            let (i, j) = choose|i: int, j: int|
                0 <= i < n && 0 <= j < frames[i].len() && (#[trigger] frames[i][j]).skey() == sk;
            if i == n - 1 {
                assert(log_has_key(frames[n - 1], sk));
            } else {
                assert(frames_have_key(frames, n - 1, sk));
            }
        }
    }
}

/// Taking one more entry of a log extends the locations written by exactly
/// that entry's.
pub proof fn lemma_log_take_step(log: Seq<WriteEntry>, j: int, sk: StateKey)
    requires
        0 <= j < log.len(),
    ensures
        log_has_key(log.take(j + 1), sk) <==> (log_has_key(log.take(j), sk) || log[j].skey()
            == sk),
{
    if log_has_key(log.take(j + 1), sk) {
        let t = choose|t: int| 0 <= t < log.take(j + 1).len() && (#[trigger] log.take(j + 1)[t]).skey() == sk;
        if t < j {
            assert(log.take(j)[t].skey() == sk);
        }
    }
    if log_has_key(log.take(j), sk) {
        let t = choose|t: int| 0 <= t < log.take(j).len() && (#[trigger] log.take(j)[t]).skey() == sk;
        assert(log.take(j + 1)[t].skey() == sk);
    }
    if log[j].skey() == sk {
        assert(log.take(j + 1)[j].skey() == sk);
    }
}

/// Adding one frame's entries extends the locations written accordingly.
pub proof fn lemma_frames_have_key_step(frames: Seq<Seq<WriteEntry>>, n: int, sk: StateKey)
    requires
        0 <= n < frames.len(),
    ensures
        frames_have_key(frames, n + 1, sk) <==> (frames_have_key(frames, n, sk) || log_has_key(
            frames[n],
            sk,
        )),
{
    if frames_have_key(frames, n + 1, sk) {
        let (i, j) = choose|i: int, j: int|
            0 <= i < n + 1 && 0 <= j < frames[i].len() && (#[trigger] frames[i][j]).skey() == sk;
        if i == n {
            assert(log_has_key(frames[n], sk));
        } else {
            assert(frames_have_key(frames, n, sk));
        }
    }
    if frames_have_key(frames, n, sk) {
        let (i, j) = choose|i: int, j: int|
            0 <= i < n && 0 <= j < frames[i].len() && (#[trigger] frames[i][j]).skey() == sk;
        assert(0 <= i < n + 1 && 0 <= j < frames[i].len() && frames[i][j].skey() == sk);
    }
    if log_has_key(frames[n], sk) {
        let j = choose|j: int| 0 <= j < frames[n].len() && (#[trigger] frames[n][j]).skey() == sk;
        assert(0 <= n < n + 1 && 0 <= j < frames[n].len() && frames[n][j].skey() == sk);
    }
}

/// What a read through the execution context observes: the overlay first,
/// the snapshot as fall-back; an overlay deletion hides the snapshot value.
pub open spec fn effective_read(
    overlay: Map<StateKey, Option<Seq<u8>>>,
    snapshot: Map<StateKey, Seq<u8>>,
    k: StateKey,
) -> Option<Seq<u8>> {
    if overlay.contains_key(k) {
        overlay[k]
    } else if snapshot.contains_key(k) {
        Some(snapshot[k])
    } else {
        None
    }
}

/// Deletion versus absence: a key written then deleted reads as absent, and
/// a key never written reads as the snapshot has it — absent when the
/// snapshot lacks it too.
pub proof fn lemma_deletion_vs_absence(
    overlay: Map<StateKey, Option<Seq<u8>>>,
    snapshot: Map<StateKey, Seq<u8>>,
    k: StateKey,
)
    ensures
        effective_read(overlay.insert(k, None), snapshot, k) == None::<Seq<u8>>,
        !overlay.contains_key(k) && !snapshot.contains_key(k) ==> effective_read(
            overlay,
            snapshot,
            k,
        ) == None::<Seq<u8>>,
        !overlay.contains_key(k) && snapshot.contains_key(k) ==> effective_read(
            overlay,
            snapshot,
            k,
        ) == Some(snapshot[k]),
{
}

} // verus!
