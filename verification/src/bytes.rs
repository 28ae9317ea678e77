//! Small verified helpers on byte strings.

use vstd::prelude::*;
use crate::model::opt_bytes_view;

verus! {

/// Byte-string equality.
pub fn bytes_eq(a: &Vec<u8>, b: &Vec<u8>) -> (r: bool)
    ensures
        r <==> a@ == b@,
{
    if a.len() != b.len() {
        return false;
    }
    let mut i: usize = 0;
    while i < a.len()
        invariant
            i <= a.len(),
            a.len() == b.len(),
            forall|j: int| 0 <= j < i ==> a@[j] == b@[j],
        decreases a.len() - i,
    {
        if a[i] != b[i] {
            return false;
        }
        i = i + 1;
    }
    proof {
        assert(a@ =~= b@);
    }
    true
}

/// Equality of optional byte strings (a child-scope identifier, or a value
/// that may be a deletion marker).
pub fn opt_bytes_eq(a: &Option<Vec<u8>>, b: &Option<Vec<u8>>) -> (r: bool)
    ensures
        r <==> opt_bytes_view(*a) == opt_bytes_view(*b),
{
    match (a, b) {
        (None, None) => true,
        (Some(x), Some(y)) => bytes_eq(x, y),
        _ => false,
    }
}

/// An owned copy of a byte string.
pub fn copy_bytes(v: &Vec<u8>) -> (r: Vec<u8>)
    ensures
        r@ == v@,
{
    let mut r: Vec<u8> = Vec::new();
    let mut i: usize = 0;
    while i < v.len()
        invariant
            i <= v.len(),
            r@ == v@.take(i as int),
        decreases v.len() - i,
    {
        r.push(v[i]);
        proof {
            assert(r@ =~= v@.take(i + 1 as int));
        }
        i = i + 1;
    }
    proof {
        assert(v@.take(v@.len() as int) =~= v@);
    }
    r
}

/// Whether a sequence of byte strings holds the given one.
pub open spec fn seq_has_bytes(ks: Seq<Vec<u8>>, k: Seq<u8>) -> bool {
    exists|t: int| 0 <= t < ks.len() && ks[t]@ == k
}

/// Appending extends the held byte strings by exactly the appended one.
pub proof fn lemma_seq_has_bytes_push(ks: Seq<Vec<u8>>, x: Vec<u8>, k: Seq<u8>)
    ensures
        seq_has_bytes(ks.push(x), k) <==> (seq_has_bytes(ks, k) || x@ == k),
{
    if seq_has_bytes(ks.push(x), k) {
        let t = choose|t: int| 0 <= t < ks.push(x).len() && (#[trigger] ks.push(x)[t])@ == k;
        if t < ks.len() {
            assert(ks[t]@ == k);
        }
    }
    if seq_has_bytes(ks, k) {
        let t = choose|t: int| 0 <= t < ks.len() && ks[t]@ == k;
        assert(ks.push(x)[t]@ == k);
    }
    if x@ == k {
        assert(ks.push(x)[ks.len() as int]@ == k);
    }
}

/// Taking one more byte string extends the held ones by exactly it.
pub proof fn lemma_seq_has_take_step(ks: Seq<Vec<u8>>, t: int, k: Seq<u8>)
    requires
        0 <= t < ks.len(),
    ensures
        seq_has_bytes(ks.take(t + 1), k) <==> (seq_has_bytes(ks.take(t), k) || ks[t]@ == k),
{
    if seq_has_bytes(ks.take(t + 1), k) {
        let u = choose|u: int| 0 <= u < ks.take(t + 1).len() && (#[trigger] ks.take(t + 1)[u])@ == k;
        if u < t {
            assert(ks.take(t)[u]@ == k);
        }
    }
    if seq_has_bytes(ks.take(t), k) {
        let u = choose|u: int| 0 <= u < ks.take(t).len() && (#[trigger] ks.take(t)[u])@ == k;
        assert(ks.take(t + 1)[u]@ == k);
    }
    if ks[t]@ == k {
        assert(ks.take(t + 1)[t]@ == k);
    }
}

/// Whether a list of byte strings holds the given one.
pub fn contains_bytes(ks: &Vec<Vec<u8>>, x: &Vec<u8>) -> (r: bool)
    ensures
        r <==> seq_has_bytes(ks@, x@),
{
    let mut i: usize = 0;
    while i < ks.len()
        invariant
            i <= ks.len(),
            forall|t: int| 0 <= t < i ==> ks@[t]@ != x@,
        decreases ks.len() - i,
    {
        if bytes_eq(&ks[i], x) {
            return true;
        }
        i = i + 1;
    }
    false
}

/// An owned copy of an optional byte string.
pub fn copy_opt_bytes(v: &Option<Vec<u8>>) -> (r: Option<Vec<u8>>)
    ensures
        opt_bytes_view(r) == opt_bytes_view(*v),
{
    match v {
        Some(x) => Some(copy_bytes(x)),
        None => None,
    }
}

} // verus!
