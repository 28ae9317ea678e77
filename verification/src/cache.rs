//! The transaction cache: memoized storage-mutation deltas per scope.
//!
//! A delta for a scope is the set of key changes that would have to be
//! applied to the storage snapshot to materialize the overlay's current
//! writes for that scope: every effectively written key, except writes
//! that restate what the snapshot already holds and deletions of keys the
//! snapshot never held.  An entry is valid only while the overlay contents
//! it was derived from are unchanged; a write into the scope invalidates
//! it.

use vstd::prelude::*;
use crate::backend::{backend_get, Backend};
use crate::bytes::{
    bytes_eq, contains_bytes, copy_bytes, copy_opt_bytes, lemma_seq_has_bytes_push,
    lemma_seq_has_take_step, opt_bytes_eq, seq_has_bytes,
};
use crate::model::{
    frames_have_key, lemma_frames_have_key_step, lemma_frames_map_domain, lemma_log_take_step,
    log_has_key, opt_bytes_view, StateKey,
};
use crate::overlay::Overlay;

verus! {

/// The map described by a delta list: later entries would shadow earlier
/// ones, and `compute_delta` produces each key once.
pub open spec fn delta_map(d: Seq<(Vec<u8>, Option<Vec<u8>>)>) -> Map<Seq<u8>, Option<Seq<u8>>>
    decreases d.len(),
{
    if d.len() == 0 {
        Map::empty()
    } else {
        delta_map(d.drop_last()).insert(d.last().0@, opt_bytes_view(d.last().1))
    }
}

/// Every key occurs at most once in a delta list.
pub open spec fn delta_keys_unique(d: Seq<(Vec<u8>, Option<Vec<u8>>)>) -> bool {
    forall|u: int, w: int| 0 <= u < w < d.len() ==> d[u].0@ != d[w].0@
}

/// Whether an overlay value for a location differs from what the snapshot
/// holds there, so that a trie mutation is needed.
pub open spec fn change_needed(
    v: Option<Seq<u8>>,
    bview: Map<StateKey, Seq<u8>>,
    sk: StateKey,
) -> bool {
    match v {
        None => bview.contains_key(sk),
        Some(x) => !(bview.contains_key(sk) && bview[sk] == x),
    }
}

/// The delta a scope requires: the overlay's effective writes for the
/// scope, with writes that change nothing against the snapshot left out.
pub open spec fn delta_spec(
    contents: Map<StateKey, Option<Seq<u8>>>,
    bview: Map<StateKey, Seq<u8>>,
    scope: Option<Seq<u8>>,
) -> Map<Seq<u8>, Option<Seq<u8>>> {
    Map::new(
        |k: Seq<u8>|
            contents.contains_key((scope, k)) && change_needed(
                contents[(scope, k)],
                bview,
                (scope, k),
            ),
        |k: Seq<u8>| contents[(scope, k)],
    )
}

/// The delta list a prefix of the collected keys accounts for.
pub open spec fn restrict_delta(
    full: Map<Seq<u8>, Option<Seq<u8>>>,
    ks: Seq<Vec<u8>>,
) -> Map<Seq<u8>, Option<Seq<u8>>> {
    Map::new(|k: Seq<u8>| full.contains_key(k) && seq_has_bytes(ks, k), |k: Seq<u8>| full[k])
}

/// The distinct keys the overlay effectively writes in a scope.
fn collect_scope_keys(overlay: &Overlay, scope: &Option<Vec<u8>>) -> (keys: Vec<Vec<u8>>)
    requires
        overlay.wf(),
    ensures
        forall|t1: int, t2: int| 0 <= t1 < t2 < keys@.len() ==> keys@[t1]@ != keys@[t2]@,
        forall|k: Seq<u8>|
            seq_has_bytes(keys@, k) <==> overlay.contents().contains_key(
                (opt_bytes_view(*scope), k),
            ),
{
    let ghost fs = overlay.frames_seq();
    let ghost sv = opt_bytes_view(*scope);
    let mut keys: Vec<Vec<u8>> = Vec::new();
    let n = overlay.frame_count();
    let mut i: usize = 0;
    while i < n
        invariant
            i <= n,
            n == overlay.depth(),
            fs == overlay.frames_seq(),
            sv == opt_bytes_view(*scope),
            overlay.wf(),
            forall|t1: int, t2: int| 0 <= t1 < t2 < keys@.len() ==> keys@[t1]@ != keys@[t2]@,
            forall|k: Seq<u8>| seq_has_bytes(keys@, k) <==> frames_have_key(fs, i as int, (sv, k)),
        decreases n - i,
    {
        let m = overlay.frame_len(i);
        let mut j: usize = 0;
        proof {
            assert(fs[i as int].take(0) =~= Seq::<crate::model::WriteEntry>::empty());
        }
        while j < m
            invariant
                j <= m,
                i < n,
                n == overlay.depth(),
                m == fs[i as int].len(),
                fs == overlay.frames_seq(),
                sv == opt_bytes_view(*scope),
                overlay.wf(),
                forall|t1: int, t2: int| 0 <= t1 < t2 < keys@.len() ==> keys@[t1]@ != keys@[t2]@,
                forall|k: Seq<u8>|
                    seq_has_bytes(keys@, k) <==> (frames_have_key(fs, i as int, (sv, k))
                        || log_has_key(fs[i as int].take(j as int), (sv, k))),
            decreases m - j,
        {
            let ghost keys_before = keys@;
            let e = overlay.entry_at(i, j);
            let ghost ge = fs[i as int][j as int];
            let matched = opt_bytes_eq(&e.scope, scope);
            let mut pushed = false;
            if matched {
                if !contains_bytes(&keys, &e.key) {
                    keys.push(copy_bytes(&e.key));
                    pushed = true;
                }
            }
            proof {
                assert forall|k: Seq<u8>|
                    seq_has_bytes(keys@, k) <==> (frames_have_key(fs, i as int, (sv, k))
                        || log_has_key(fs[i as int].take(j + 1 as int), (sv, k))) by {
                    lemma_log_take_step(fs[i as int], j as int, (sv, k));
                    if pushed {
                        lemma_seq_has_bytes_push(keys_before, keys@.last(), k);
                    }
                    assert(ge.skey() == (opt_bytes_view(ge.scope), ge.key@));
                }
            }
            j = j + 1;
        }
        proof {
            assert(fs[i as int].take(m as int) =~= fs[i as int]);
            assert forall|k: Seq<u8>|
                seq_has_bytes(keys@, k) <==> frames_have_key(fs, i + 1 as int, (sv, k)) by {
                lemma_frames_have_key_step(fs, i as int, (sv, k));
            }
        }
        i = i + 1;
    }
    proof {
        assert forall|k: Seq<u8>|
            seq_has_bytes(keys@, k) <==> overlay.contents().contains_key((sv, k)) by {
            lemma_frames_map_domain(fs, n as int, (sv, k));
        }
    }
    keys
}

/// Computes a scope's delta from scratch by folding the overlay's current
/// writes for the scope against the storage snapshot.
pub fn compute_delta<B: Backend>(overlay: &Overlay, backend: &B, scope: &Option<Vec<u8>>) -> (d:
    Vec<(Vec<u8>, Option<Vec<u8>>)>)
    requires
        overlay.wf(),
    ensures
        delta_keys_unique(d@),
        delta_map(d@) == delta_spec(overlay.contents(), backend.view(), opt_bytes_view(*scope)),
{
    let ghost sv = opt_bytes_view(*scope);
    let ghost full = delta_spec(overlay.contents(), backend.view(), sv);
    let keys = collect_scope_keys(overlay, scope);
    let mut d: Vec<(Vec<u8>, Option<Vec<u8>>)> = Vec::new();
    let mut t: usize = 0;
    proof {
        assert(keys@.take(0) =~= Seq::<Vec<u8>>::empty());
        assert(delta_map(d@) =~= restrict_delta(full, keys@.take(0)));
    }
    while t < keys.len()
        invariant
            t <= keys@.len(),
            sv == opt_bytes_view(*scope),
            full == delta_spec(overlay.contents(), backend.view(), sv),
            overlay.wf(),
            forall|t1: int, t2: int| 0 <= t1 < t2 < keys@.len() ==> keys@[t1]@ != keys@[t2]@,
            forall|k: Seq<u8>|
                seq_has_bytes(keys@, k) <==> overlay.contents().contains_key((sv, k)),
            delta_keys_unique(d@),
            forall|u: int| 0 <= u < d@.len() ==> seq_has_bytes(keys@.take(t as int), d@[u].0@),
            delta_map(d@) == restrict_delta(full, keys@.take(t as int)),
        decreases keys@.len() - t,
    {
        let ghost d_before = d@;
        let key = &keys[t];
        proof {
            assert(seq_has_bytes(keys@, keys@[t as int]@));
        }
        let ov = overlay.get_entry(scope, key);
        let v: Option<Vec<u8>> = match ov {
            Some(vv) => vv,
            None => None,
        };
        proof {
            assert(overlay.contents().contains_key((sv, key@)));
            assert(opt_bytes_view(v) == overlay.contents()[(sv, key@)]);
        }
        let bv = backend_get(backend, scope, key);
        let needed: bool = match (&v, &bv) {
            (None, Some(_)) => true,
            (None, None) => false,
            (Some(x), Some(bx)) => !bytes_eq(bx, x),
            (Some(_), None) => true,
        };
        proof {
            assert(needed == change_needed(opt_bytes_view(v), backend.view(), (sv, key@)));
            assert forall|k: Seq<u8>|
                seq_has_bytes(keys@.take(t + 1 as int), k) <==> (seq_has_bytes(
                    keys@.take(t as int),
                    k,
                ) || keys@[t as int]@ == k) by {
                lemma_seq_has_take_step(keys@, t as int, k);
            }
            assert(!seq_has_bytes(keys@.take(t as int), keys@[t as int]@)) by {
                if seq_has_bytes(keys@.take(t as int), keys@[t as int]@) {
                    let u = choose|u: int|
                        0 <= u < t && keys@.take(t as int)[u]@ == keys@[t as int]@;
                    assert(keys@[u]@ == keys@[t as int]@);
                }
            }
        }
        if needed {
            d.push((copy_bytes(key), v));
            proof {
                assert(d@.drop_last() =~= d_before);
                assert(delta_map(d@) == delta_map(d_before).insert(
                    d@.last().0@,
                    opt_bytes_view(d@.last().1),
                ));
                assert(delta_map(d@) =~= restrict_delta(full, keys@.take(t + 1 as int)));
            }
        } else {
            proof {
                assert(delta_map(d@) =~= restrict_delta(full, keys@.take(t + 1 as int)));
            }
        }
        t = t + 1;
    }
    proof {
        assert(keys@.take(keys@.len() as int) =~= keys@);
        assert(delta_map(d@) =~= full);
    }
    d
}

/// An owned copy of a delta list.
fn copy_delta(d: &Vec<(Vec<u8>, Option<Vec<u8>>)>) -> (r: Vec<(Vec<u8>, Option<Vec<u8>>)>)
    ensures
        r@.len() == d@.len(),
        forall|u: int|
            0 <= u < d@.len() ==> r@[u].0@ == d@[u].0@ && opt_bytes_view(r@[u].1)
                == opt_bytes_view(d@[u].1),
{
    let mut r: Vec<(Vec<u8>, Option<Vec<u8>>)> = Vec::new();
    let mut i: usize = 0;
    while i < d.len()
        invariant
            i <= d@.len(),
            r@.len() == i,
            forall|u: int|
                0 <= u < i ==> r@[u].0@ == d@[u].0@ && opt_bytes_view(r@[u].1) == opt_bytes_view(
                    d@[u].1,
                ),
        decreases d@.len() - i,
    {
        r.push((copy_bytes(&d[i].0), copy_opt_bytes(&d[i].1)));
        i = i + 1;
    }
    r
}

/// Two delta lists with the same keys and values describe the same delta.
proof fn lemma_delta_map_congruent(a: Seq<(Vec<u8>, Option<Vec<u8>>)>, b: Seq<
    (Vec<u8>, Option<Vec<u8>>),
>)
    requires
        a.len() == b.len(),
        forall|u: int|
            0 <= u < a.len() ==> a[u].0@ == b[u].0@ && opt_bytes_view(a[u].1) == opt_bytes_view(
                b[u].1,
            ),
    ensures
        delta_map(a) == delta_map(b),
        delta_keys_unique(a) == delta_keys_unique(b),
    decreases a.len(),
{
    if a.len() > 0 {
        lemma_delta_map_congruent(a.drop_last(), b.drop_last());
    }
}

/// The memoization log: the most recent entry for a scope is current; a
/// `None` entry records an invalidation.
pub open spec fn cache_map(s: Seq<(Option<Vec<u8>>, Option<Vec<(Vec<u8>, Option<Vec<u8>>)>>)>)
    -> Map<Option<Seq<u8>>, Option<Vec<(Vec<u8>, Option<Vec<u8>>)>>>
    decreases s.len(),
{
    if s.len() == 0 {
        Map::empty()
    } else {
        cache_map(s.drop_last()).insert(opt_bytes_view(s.last().0), s.last().1)
    }
}

/// Memoized storage-mutation deltas keyed by scope.
pub struct TxCache {
    entries: Vec<(Option<Vec<u8>>, Option<Vec<(Vec<u8>, Option<Vec<u8>>)>>)>,
}

impl TxCache {
    /// The cached delta per scope; `None` stands for an invalidated entry.
    pub closed spec fn view_map(self) -> Map<
        Option<Seq<u8>>,
        Option<Vec<(Vec<u8>, Option<Vec<u8>>)>>,
    > {
        cache_map(self.entries@)
    }

    /// Whether one scope's cached delta, if any, matches the given overlay
    /// and snapshot.
    pub open spec fn entry_valid<B: Backend>(
        self,
        o: Overlay,
        b: B,
        s: Option<Seq<u8>>,
    ) -> bool {
        self.view_map().contains_key(s) ==> match self.view_map()[s] {
            Some(dv) => delta_keys_unique(dv@) && delta_map(dv@) == delta_spec(
                o.contents(),
                b.view(),
                s,
            ),
            None => true,
        }
    }

    /// Whether every cached delta matches the given overlay and snapshot.
    pub open spec fn valid_for<B: Backend>(self, o: Overlay, b: B) -> bool {
        forall|s: Option<Seq<u8>>| self.entry_valid(o, b, s)
    }

    /// A default-constructed cache: empty, always computes from scratch.
    pub fn new() -> (r: TxCache)
        ensures
            r.view_map() == Map::<Option<Seq<u8>>, Option<Vec<(Vec<u8>, Option<Vec<u8>>)>>>::empty(),
    {
        let r = TxCache { entries: Vec::new() };
        proof {
            assert(r.view_map() =~= Map::<
                Option<Seq<u8>>,
                Option<Vec<(Vec<u8>, Option<Vec<u8>>)>>,
            >::empty());
        }
        r
    }

    /// Drops whatever is cached for a scope, after a write landed in it.
    pub fn invalidate(&mut self, scope: &Option<Vec<u8>>)
        ensures
            final(self).view_map() == old(self).view_map().insert(
                opt_bytes_view(*scope),
                None::<Vec<(Vec<u8>, Option<Vec<u8>>)>>,
            ),
    {
        self.entries.push((copy_opt_bytes(scope), None));
        proof {
            assert(self.entries@.drop_last() =~= old(self).entries@);
        }
    }

    /// Drops everything cached.
    pub fn clear(&mut self)
        ensures
            final(self).view_map() == Map::<
                Option<Seq<u8>>,
                Option<Vec<(Vec<u8>, Option<Vec<u8>>)>>,
            >::empty(),
    {
        self.entries.clear();
        proof {
            assert(self.view_map() =~= Map::<
                Option<Seq<u8>>,
                Option<Vec<(Vec<u8>, Option<Vec<u8>>)>>,
            >::empty());
        }
    }

    /// Returns the cached delta for a scope while it is still valid, else
    /// computes it from the overlay's current writes and the snapshot,
    /// stores it, and returns it.  Either way the result is exactly the
    /// delta a fresh computation yields for the current overlay contents.
    pub fn get_or_compute<B: Backend>(
        &mut self,
        overlay: &Overlay,
        backend: &B,
        scope: &Option<Vec<u8>>,
    ) -> (d: Vec<(Vec<u8>, Option<Vec<u8>>)>)
        requires
            overlay.wf(),
            old(self).valid_for(*overlay, *backend),
        ensures
            delta_keys_unique(d@),
            delta_map(d@) == delta_spec(
                overlay.contents(),
                backend.view(),
                opt_bytes_view(*scope),
            ),
            final(self).valid_for(*overlay, *backend),
    {
        let ghost sv = opt_bytes_view(*scope);
        let mut j: usize = self.entries.len();
        proof {
            assert(self.entries@.take(self.entries@.len() as int) =~= self.entries@);
        }
        while j > 0
            invariant
                j <= self.entries@.len(),
                *self == *old(self),
                overlay.wf(),
                old(self).valid_for(*overlay, *backend),
                sv == opt_bytes_view(*scope),
                self.view_map().contains_key(sv) <==> cache_map(
                    self.entries@.take(j as int),
                ).contains_key(sv),
                self.view_map().contains_key(sv) ==> self.view_map()[sv] == cache_map(
                    self.entries@.take(j as int),
                )[sv],
            decreases j,
        {
            proof {
                assert(self.entries@.take(j as int).drop_last() =~= self.entries@.take(
                    j - 1 as int,
                ));
                assert(self.entries@.take(j as int).last() == self.entries@[j - 1 as int]);
            }
            if opt_bytes_eq(&self.entries[j - 1].0, scope) {
                match &self.entries[j - 1].1 {
                    Some(dv) => {
                        proof {
                            assert(old(self).entry_valid(*overlay, *backend, sv));
                        }
                        return copy_delta_checked(dv);
                    },
                    None => {
                        break ;
                    },
                }
            }
            j = j - 1;
        }
        let d = compute_delta(overlay, backend, scope);
        let stored = copy_delta(&d);
        proof {
            lemma_delta_map_congruent(stored@, d@);
        }
        self.entries.push((copy_opt_bytes(scope), Some(stored)));
        proof {
            assert(self.entries@.drop_last() =~= old(self).entries@);
            assert forall|s: Option<Seq<u8>>| self.entry_valid(*overlay, *backend, s) by {
                assert(old(self).entry_valid(*overlay, *backend, s));
            }
        }
        d
    }
}

/// Cache validity depends only on the overlay's observable contents: an
/// overlay change that keeps the contents (a commit, a fresh frame) keeps
/// every cached delta valid.
pub proof fn lemma_valid_for_same_contents<B: Backend>(c: TxCache, o1: Overlay, o2: Overlay, b: B)
    requires
        c.valid_for(o1, b),
        o1.contents() == o2.contents(),
    ensures
        c.valid_for(o2, b),
{
    assert forall|s: Option<Seq<u8>>| c.entry_valid(o2, b, s) by {
        assert(c.entry_valid(o1, b, s));
    }
}

/// An empty cache is valid for any overlay and snapshot.
pub proof fn lemma_empty_cache_valid<B: Backend>(c: TxCache, o: Overlay, b: B)
    requires
        c.view_map() == Map::<Option<Seq<u8>>, Option<Vec<(Vec<u8>, Option<Vec<u8>>)>>>::empty(),
    ensures
        c.valid_for(o, b),
{
    assert forall|s: Option<Seq<u8>>| c.entry_valid(o, b, s) by {
        assert(!c.view_map().contains_key(s));
    }
}

/// An owned copy of a cached delta list, carrying its properties over.
fn copy_delta_checked(d: &Vec<(Vec<u8>, Option<Vec<u8>>)>) -> (r: Vec<(Vec<u8>, Option<Vec<u8>>)>)
    ensures
        delta_keys_unique(r@) == delta_keys_unique(d@),
        delta_map(r@) == delta_map(d@),
{
    let r = copy_delta(d);
    proof {
        lemma_delta_map_congruent(r@, d@);
    }
    r
}

} // verus!
