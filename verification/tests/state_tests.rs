use chain_state::backend::{Backend, InMemoryBackend};
use chain_state::cache::TxCache;
use chain_state::ext::Ext;
use chain_state::extensions::Extensions;
use chain_state::machine::{EchoExecutor, Executor, ExecutorError, StateMachine};
use chain_state::overlay::Overlay;
use chain_state::OverlayError;

fn b(s: &str) -> Vec<u8> {
    s.as_bytes().to_vec()
}

struct WriteThenFail;

impl Executor<InMemoryBackend, u32> for WriteThenFail {
    fn call(
        &mut self,
        context: &mut Ext<u32>,
        backend: &InMemoryBackend,
        _runtime_code: &Vec<u8>,
        _method: &Vec<u8>,
        _call_data: &Vec<u8>,
    ) -> Result<(Vec<u8>, bool), ExecutorError> {
        context.write(backend, b("a"), b("2"));
        Err(ExecutorError { code: 7 })
    }
}

struct WriteThenSucceed;

impl Executor<InMemoryBackend, u32> for WriteThenSucceed {
    fn call(
        &mut self,
        context: &mut Ext<u32>,
        backend: &InMemoryBackend,
        _runtime_code: &Vec<u8>,
        _method: &Vec<u8>,
        _call_data: &Vec<u8>,
    ) -> Result<(Vec<u8>, bool), ExecutorError> {
        context.write(backend, b("x"), b("y"));
        Ok((b("done"), false))
    }
}

struct NestedRollbackThenWrite;

impl Executor<InMemoryBackend, u32> for NestedRollbackThenWrite {
    fn call(
        &mut self,
        context: &mut Ext<u32>,
        backend: &InMemoryBackend,
        _runtime_code: &Vec<u8>,
        _method: &Vec<u8>,
        _call_data: &Vec<u8>,
    ) -> Result<(Vec<u8>, bool), ExecutorError> {
        context.start_transaction();
        context.write(backend, b("z"), b("1"));
        context.rollback_transaction().unwrap();
        context.write(backend, b("z"), b("2"));
        Ok((Vec::new(), false))
    }
}

struct ReadingExec {
    observed: Vec<Option<Vec<u8>>>,
}

impl Executor<InMemoryBackend, u32> for ReadingExec {
    fn call(
        &mut self,
        context: &mut Ext<u32>,
        backend: &InMemoryBackend,
        _runtime_code: &Vec<u8>,
        _method: &Vec<u8>,
        _call_data: &Vec<u8>,
    ) -> Result<(Vec<u8>, bool), ExecutorError> {
        context.delete(backend, b("gone"));
        self.observed.push(context.read(backend, &b("gone")));
        self.observed.push(context.read(backend, &b("never")));
        self.observed.push(context.read(backend, &b("kept")));
        Ok((Vec::new(), false))
    }
}

#[test]
fn overlay_set_get_and_depth() {
    let mut o = Overlay::new();
    assert_eq!(o.transaction_depth(), 1);
    assert_eq!(o.get(&b("k")), None);
    o.set(b("k"), Some(b("v")));
    assert_eq!(o.get(&b("k")), Some(Some(b("v"))));
    o.set(b("k"), None);
    assert_eq!(o.get(&b("k")), Some(None));
}

#[test]
fn overlay_child_keys_are_separate() {
    let mut o = Overlay::new();
    o.set(b("k"), Some(b("top")));
    o.set_child(b("s"), b("k"), Some(b("child")));
    assert_eq!(o.get(&b("k")), Some(Some(b("top"))));
    assert_eq!(o.get_child(&b("s"), &b("k")), Some(Some(b("child"))));
    assert_eq!(o.get_child(&b("t"), &b("k")), None);
}

#[test]
fn overlay_commit_merges_later_writes_shadow() {
    let mut o = Overlay::new();
    o.set(b("k1"), Some(b("old")));
    o.start_transaction();
    o.set(b("k1"), Some(b("new")));
    o.set(b("k2"), Some(b("two")));
    assert_eq!(o.commit_transaction(), Ok(()));
    assert_eq!(o.transaction_depth(), 1);
    assert_eq!(o.get(&b("k1")), Some(Some(b("new"))));
    assert_eq!(o.get(&b("k2")), Some(Some(b("two"))));
}

#[test]
fn overlay_rollback_discards_only_top_frame() {
    let mut o = Overlay::new();
    o.set(b("outer"), Some(b("1")));
    o.start_transaction();
    o.set(b("inner"), Some(b("2")));
    assert_eq!(o.rollback_transaction(), Ok(()));
    assert_eq!(o.get(&b("outer")), Some(Some(b("1"))));
    assert_eq!(o.get(&b("inner")), None);
}

#[test]
fn overlay_commit_on_sentinel_fails() {
    let mut o = Overlay::new();
    assert_eq!(o.commit_transaction(), Err(OverlayError::NoOpenTransaction));
    assert_eq!(o.rollback_transaction(), Err(OverlayError::NoOpenTransaction));
}

#[test]
fn runtime_scope_enforcement() {
    let mut o = Overlay::new();
    assert_eq!(o.enter_runtime(), Ok(()));
    assert_eq!(o.enter_runtime(), Err(OverlayError::AlreadyInRuntime));
    o.start_transaction();
    assert_eq!(o.exit_runtime(), Err(OverlayError::TransactionsRemainOpen));
    assert_eq!(o.commit_transaction(), Ok(()));
    assert_eq!(o.exit_runtime(), Ok(()));
    assert_eq!(o.exit_runtime(), Err(OverlayError::NotInRuntime));
}

#[test]
fn runtime_scope_protects_outer_frames() {
    let mut o = Overlay::new();
    o.start_transaction();
    assert_eq!(o.enter_runtime(), Ok(()));
    // the call-level frame cannot be closed from inside runtime scope
    assert_eq!(o.commit_transaction(), Err(OverlayError::NoOpenTransaction));
    assert_eq!(o.rollback_transaction(), Err(OverlayError::NoOpenTransaction));
    assert_eq!(o.exit_runtime(), Ok(()));
    assert_eq!(o.commit_transaction(), Ok(()));
}

#[test]
fn failed_call_leaves_state_untouched() {
    let mut backend = InMemoryBackend::new();
    backend.insert(b("a"), b("1"));
    let m = StateMachine::create(
        Overlay::new(),
        backend,
        WriteThenFail,
        Extensions::<u32>::new(),
        Vec::new(),
        b("run"),
        Vec::new(),
        1,
    );
    let (m, r) = m.call();
    assert_eq!(r, Err(ExecutorError { code: 7 }));
    let (overlay, backend, _, _, _) = m.into_parts();
    // no overlay entry is left: the read falls through to the snapshot
    assert_eq!(overlay.get(&b("a")), None);
    assert_eq!(backend.get(&b("a")), Some(b("1")));
    assert_eq!(overlay.transaction_depth(), 1);
}

#[test]
fn successful_call_commits_writes() {
    let m = StateMachine::create(
        Overlay::new(),
        InMemoryBackend::new(),
        WriteThenSucceed,
        Extensions::<u32>::new(),
        Vec::new(),
        b("run"),
        Vec::new(),
        2,
    );
    let (m, r) = m.call();
    assert_eq!(r, Ok(b("done")));
    let (overlay, _, _, _, _) = m.into_parts();
    assert_eq!(overlay.get(&b("x")), Some(Some(b("y"))));

    // a second, independent call over the updated state sees the write
    let mut updated = InMemoryBackend::new();
    updated.insert(b("x"), b("y"));
    let m2 = StateMachine::create(
        Overlay::new(),
        updated,
        EchoExecutor {},
        Extensions::<u32>::new(),
        Vec::new(),
        b("run"),
        b("ping"),
        3,
    );
    let (m2, r2) = m2.call();
    assert_eq!(r2, Ok(b("ping")));
    let (overlay2, updated, _, _, _) = m2.into_parts();
    assert_eq!(overlay2.get(&b("x")), None);
    assert_eq!(updated.get(&b("x")), Some(b("y")));
}

#[test]
fn nested_rollback_keeps_outer_frame_write() {
    let m = StateMachine::create(
        Overlay::new(),
        InMemoryBackend::new(),
        NestedRollbackThenWrite,
        Extensions::<u32>::new(),
        Vec::new(),
        b("run"),
        Vec::new(),
        4,
    );
    let (m, r) = m.call();
    assert!(r.is_ok());
    let (overlay, _, _, _, _) = m.into_parts();
    assert_eq!(overlay.get(&b("z")), Some(Some(b("2"))));
}

#[test]
fn deletion_reads_as_absent() {
    let mut backend = InMemoryBackend::new();
    backend.insert(b("gone"), b("old"));
    backend.insert(b("kept"), b("still"));
    let m = StateMachine::create(
        Overlay::new(),
        backend,
        ReadingExec { observed: Vec::new() },
        Extensions::<u32>::new(),
        Vec::new(),
        b("run"),
        Vec::new(),
        5,
    );
    let (m, r) = m.call();
    assert!(r.is_ok());
    let (overlay, backend, exec, _, _) = m.into_parts();
    // deleted key reads as absent although the snapshot still holds it
    assert_eq!(exec.observed[0], None);
    // a key never written reads as absent
    assert_eq!(exec.observed[1], None);
    // an untouched key reads from the snapshot
    assert_eq!(exec.observed[2], Some(b("still")));
    // after the commit the deletion marker is in the parent frame
    assert_eq!(overlay.get(&b("gone")), Some(None));
    assert_eq!(backend.get(&b("gone")), Some(b("old")));
}

#[test]
fn cache_returns_fresh_delta_and_never_a_stale_one() {
    let mut backend = InMemoryBackend::new();
    backend.insert(b("k"), b("v0"));
    let mut overlay = Overlay::new();
    overlay.set(b("k"), Some(b("v1")));
    let mut cache = TxCache::new();
    let d1 = cache.get_or_compute(&overlay, &backend, &None);
    assert_eq!(d1, vec![(b("k"), Some(b("v1")))]);
    // the cached answer equals a fresh recomputation
    let d2 = cache.get_or_compute(&overlay, &backend, &None);
    assert_eq!(d1, d2);
    // a later write invalidates; the next answer reflects it
    overlay.set(b("k"), Some(b("v2")));
    cache.invalidate(&None);
    let d3 = cache.get_or_compute(&overlay, &backend, &None);
    assert_eq!(d3, vec![(b("k"), Some(b("v2")))]);
}

#[test]
fn cache_delta_skips_writes_the_snapshot_already_holds() {
    let mut backend = InMemoryBackend::new();
    backend.insert(b("k"), b("v0"));
    let mut overlay = Overlay::new();
    // restating the snapshot value needs no trie mutation
    overlay.set(b("k"), Some(b("v0")));
    // deleting a key the snapshot never held needs none either
    overlay.set(b("absent"), None);
    let mut cache = TxCache::new();
    let d = cache.get_or_compute(&overlay, &backend, &None);
    assert_eq!(d, Vec::new());
    // a real deletion is a mutation
    overlay.set(b("k"), None);
    cache.invalidate(&None);
    let d2 = cache.get_or_compute(&overlay, &backend, &None);
    assert_eq!(d2, vec![(b("k"), None)]);
}

#[test]
fn cache_keeps_child_scopes_apart() {
    let backend = InMemoryBackend::new();
    let mut overlay = Overlay::new();
    overlay.set_child(b("s"), b("k"), Some(b("v")));
    let mut cache = TxCache::new();
    let top = cache.get_or_compute(&overlay, &backend, &None);
    assert_eq!(top, Vec::new());
    let child = cache.get_or_compute(&overlay, &backend, &Some(b("s")));
    assert_eq!(child, vec![(b("k"), Some(b("v")))]);
}

#[test]
fn extensions_register_once_and_look_up() {
    let mut exts: Extensions<u32> = Extensions::new();
    assert_eq!(exts.register(1, 100), Ok(()));
    assert_eq!(exts.register(2, 200), Ok(()));
    // a second registration under the same kind is refused
    assert_eq!(exts.register(1, 300), Err(300));
    assert_eq!(exts.lookup(1), Some(&100));
    assert_eq!(exts.lookup(2), Some(&200));
    assert_eq!(exts.lookup(3), None);
}

struct DeltaWatcher {
    seen: Vec<Vec<(Vec<u8>, Option<Vec<u8>>)>>,
}

impl Executor<InMemoryBackend, u32> for DeltaWatcher {
    fn call(
        &mut self,
        context: &mut Ext<u32>,
        backend: &InMemoryBackend,
        _runtime_code: &Vec<u8>,
        _method: &Vec<u8>,
        _call_data: &Vec<u8>,
    ) -> Result<(Vec<u8>, bool), ExecutorError> {
        context.write(backend, b("k"), b("v1"));
        self.seen.push(context.storage_delta(backend));
        // asking again without a write hits the cache
        self.seen.push(context.storage_delta(backend));
        // a write invalidates: the next delta reflects it, never the stale one
        context.write(backend, b("k"), b("v2"));
        self.seen.push(context.storage_delta(backend));
        Ok((Vec::new(), false))
    }
}

#[test]
fn context_deltas_follow_every_write() {
    let m = StateMachine::create(
        Overlay::new(),
        InMemoryBackend::new(),
        DeltaWatcher { seen: Vec::new() },
        Extensions::<u32>::new(),
        Vec::new(),
        b("run"),
        Vec::new(),
        7,
    );
    let (m, r) = m.call();
    assert!(r.is_ok());
    let (_, _, watcher, _, _) = m.into_parts();
    assert_eq!(watcher.seen[0], vec![(b("k"), Some(b("v1")))]);
    assert_eq!(watcher.seen[1], watcher.seen[0]);
    assert_eq!(watcher.seen[2], vec![(b("k"), Some(b("v2")))]);
}

#[test]
fn builder_methods_keep_the_machine_usable() {
    let mut cache = TxCache::new();
    let overlay = Overlay::new();
    let backend = InMemoryBackend::new();
    // pre-warm the cache for the empty overlay
    let warm = cache.get_or_compute(&overlay, &backend, &None);
    assert_eq!(warm, Vec::new());
    let m = StateMachine::create(
        overlay,
        backend,
        EchoExecutor {},
        Extensions::<u32>::new(),
        Vec::new(),
        b("run"),
        b("hello"),
        8,
    )
        .with_cache(cache)
        .with_parent_hash(b("parent"));
    let (_, r) = m.call();
    assert_eq!(r, Ok(b("hello")));
}

#[test]
fn echo_executor_returns_call_data() {
    let m = StateMachine::create(
        Overlay::new(),
        InMemoryBackend::new(),
        EchoExecutor {},
        Extensions::<u32>::new(),
        b("code"),
        b("method"),
        b("payload"),
        6,
    );
    let (_, r) = m.call();
    assert_eq!(r, Ok(b("payload")));
}
