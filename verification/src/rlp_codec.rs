//! The canonical binary encoding of the record types, stated exactly, and
//! the trusted boundary to the `rlp` crate that produces and reads it.
//!
//! An RLP byte string of length one below 0x80 is its own encoding; a
//! short string carries a one-byte header; a long one a header and its
//! length in minimal big-endian form.  A list carries the same headers
//! over its concatenated item encodings.

use vstd::prelude::*;
use crate::uint::{be_min_of, pow256};

verus! {

/// The RLP encoding of a byte string.
pub open spec fn rlp_str(p: Seq<u8>) -> Seq<u8> {
    if p.len() == 1 && p[0] < 0x80 {
        p
    } else if p.len() <= 55 {
        seq![(0x80 + p.len()) as u8] + p
    } else {
        seq![(0xb7 + be_min_of(p.len() as nat).len()) as u8] + be_min_of(p.len() as nat) + p
    }
}

/// The RLP list header put before a concatenated item payload.
pub open spec fn rlp_list(payload: Seq<u8>) -> Seq<u8> {
    if payload.len() <= 55 {
        seq![(0xc0 + payload.len()) as u8] + payload
    } else {
        seq![(0xf7 + be_min_of(payload.len() as nat).len()) as u8] + be_min_of(
            payload.len() as nat,
        ) + payload
    }
}

/// Already-encoded items laid end to end.
pub open spec fn flatten_encs(items: Seq<Seq<u8>>) -> Seq<u8>
    decreases items.len(),
{
    if items.len() == 0 {
        Seq::empty()
    } else {
        flatten_encs(items.drop_last()) + items.last()
    }
}

/// The RLP encoding of a list whose item encodings are given.
pub open spec fn rlp_item_list(encs: Seq<Seq<u8>>) -> Seq<u8> {
    rlp_list(flatten_encs(encs))
}

/// The concatenated encodings of a sequence of byte strings.
pub open spec fn strs_payload(items: Seq<Seq<u8>>) -> Seq<u8>
    decreases items.len(),
{
    if items.len() == 0 {
        Seq::empty()
    } else {
        strs_payload(items.drop_last()) + rlp_str(items.last())
    }
}

/// The RLP encoding of a list of byte strings.
pub open spec fn rlp_strings(items: Seq<Seq<u8>>) -> Seq<u8> {
    rlp_list(strs_payload(items))
}

/// The byte-string views of a list of byte vectors.
pub open spec fn vec_views(items: Seq<Vec<u8>>) -> Seq<Seq<u8>> {
    items.map_values(|v: Vec<u8>| v@)
}

/// An item encoding this module produces: a byte string, or a list of
/// byte strings.
pub open spec fn is_flat_item(e: Seq<u8>) -> bool {
    (exists|p: Seq<u8>| e == rlp_str(p)) || (exists|its: Seq<Seq<u8>>| e == rlp_strings(its))
}

pub open spec fn all_flat(encs: Seq<Seq<u8>>) -> bool {
    forall|j: int| 0 <= j < encs.len() ==> is_flat_item(encs[j])
}

#[verifier::external_type_specification]
#[verifier::external_body]
pub struct ExRlpStream(rlp::RlpStream);

#[verifier::external_type_specification]
#[verifier::external_body]
pub struct ExDecoderError(rlp::DecoderError);

/// How many items the stream was declared to take.
pub uninterp spec fn stream_declared(s: rlp::RlpStream) -> nat;

/// The encodings of the items appended so far.
pub uninterp spec fn stream_encoded(s: rlp::RlpStream) -> Seq<Seq<u8>>;

/// Relies on rlp's RlpStream::new_list: starts the encoding of a list of
/// exactly `n` items.
#[verifier::external_body]
pub(crate) fn rlp_new_list(n: usize) -> (s: rlp::RlpStream)
    requires
        n >= 1,
    ensures
        stream_declared(s) == n,
        stream_encoded(s) == Seq::<Seq<u8>>::empty(),
{
    rlp::RlpStream::new_list(n)
}

/// Relies on rlp's RlpStream::append for byte strings: appends one more
/// item, encoded as an RLP string.
#[verifier::external_body]
pub(crate) fn rlp_append_bytes(s: &mut rlp::RlpStream, item: &Vec<u8>)
    requires
        stream_encoded(*old(s)).len() < stream_declared(*old(s)),
        item@.len() < 0x100000000,
    ensures
        stream_declared(*final(s)) == stream_declared(*old(s)),
        stream_encoded(*final(s)) == stream_encoded(*old(s)).push(rlp_str(item@)),
{
    s.append(item);
}

/// Relies on rlp's RlpStream::append_list for byte strings: appends one
/// more item, encoded as an RLP list of strings.
#[verifier::external_body]
pub(crate) fn rlp_append_string_list(s: &mut rlp::RlpStream, items: &Vec<Vec<u8>>)
    requires
        stream_encoded(*old(s)).len() < stream_declared(*old(s)),
        strs_payload(vec_views(items@)).len() < 0x100000000,
    ensures
        stream_declared(*final(s)) == stream_declared(*old(s)),
        stream_encoded(*final(s)) == stream_encoded(*old(s)).push(
            rlp_strings(vec_views(items@)),
        ),
{
    s.append_list::<Vec<u8>, Vec<u8>>(items.as_slice());
}

/// Relies on rlp's RlpStream::out: finishes the declared list and hands
/// its encoding out.
#[verifier::external_body]
pub(crate) fn rlp_out(s: rlp::RlpStream) -> (r: Vec<u8>)
    requires
        stream_encoded(s).len() == stream_declared(s),
        flatten_encs(stream_encoded(s)).len() < 0x100000000,
    ensures
        r@ == rlp_item_list(stream_encoded(s)),
{
    s.out().to_vec()
}

/// Relies on rlp's Rlp::item_count: on the exact encoding of a list it
/// returns how many items the list holds.
#[verifier::external_body]
pub(crate) fn rlp_item_count(input: &Vec<u8>) -> (r: Result<usize, rlp::DecoderError>)
    ensures
        r matches Err(_) ==> forall|encs: Seq<Seq<u8>>|
            #![trigger rlp_item_list(encs)]
            !(input@ == rlp_item_list(encs) && all_flat(encs)),
        r matches Ok(n) ==> forall|encs: Seq<Seq<u8>>|
            #![trigger rlp_item_list(encs)]
            input@ == rlp_item_list(encs) && all_flat(encs) ==> n == encs.len(),
{
    rlp::Rlp::new(input.as_slice()).item_count()
}

/// Relies on rlp's Rlp::val_at: on the exact encoding of a list whose
/// item at the index is a byte string, it returns that string's payload,
/// which is never longer than the input.
#[verifier::external_body]
pub(crate) fn rlp_item_at(input: &Vec<u8>, i: usize) -> (r: Result<Vec<u8>, rlp::DecoderError>)
    ensures
        r matches Err(_) ==> forall|encs: Seq<Seq<u8>>, p: Seq<u8>|
            #![trigger rlp_item_list(encs), rlp_str(p)]
            !(input@ == rlp_item_list(encs) && all_flat(encs) && 0 <= i < encs.len() && encs[
                i as int
            ] == rlp_str(p)),
        r matches Ok(v) ==> (forall|encs: Seq<Seq<u8>>, p: Seq<u8>|
            #![trigger rlp_item_list(encs), rlp_str(p)]
            input@ == rlp_item_list(encs) && all_flat(encs) && 0 <= i < encs.len() && encs[
                i as int
            ] == rlp_str(p) ==> v@ == p) && v@.len() <= input@.len(),
{
    rlp::Rlp::new(input.as_slice()).val_at::<Vec<u8>>(i)
}

/// Relies on rlp's Rlp::list_at: on the exact encoding of a list whose
/// item at the index is itself a list of byte strings, it returns those
/// strings, never more of them than the input has bytes.
#[verifier::external_body]
pub(crate) fn rlp_string_list_at(input: &Vec<u8>, i: usize) -> (r: Result<
    Vec<Vec<u8>>,
    rlp::DecoderError,
>)
    ensures
        r matches Err(_) ==> forall|encs: Seq<Seq<u8>>, subs: Seq<Seq<u8>>|
            #![trigger rlp_item_list(encs), rlp_strings(subs)]
            !(input@ == rlp_item_list(encs) && all_flat(encs) && 0 <= i < encs.len() && encs[
                i as int
            ] == rlp_strings(subs)),
        r matches Ok(vs) ==> (forall|encs: Seq<Seq<u8>>, subs: Seq<Seq<u8>>|
            #![trigger rlp_item_list(encs), rlp_strings(subs)]
            input@ == rlp_item_list(encs) && all_flat(encs) && 0 <= i < encs.len() && encs[
                i as int
            ] == rlp_strings(subs) ==> vec_views(vs@) == subs) && vs@.len() <= input@.len()
            && (forall|k: int| 0 <= k < vs@.len() ==> vs@[k]@.len() <= input@.len()),
{
    rlp::Rlp::new(input.as_slice()).list_at::<Vec<u8>>(i)
}

/// Relies on rlp's DecoderError::RlpIncorrectListLen: the error a record
/// with the wrong shape is refused with.
#[verifier::external_body]
pub(crate) fn rlp_err_bad_shape() -> rlp::DecoderError {
    rlp::DecoderError::RlpIncorrectListLen
}

/// The encoding of a string is its payload plus a header of at most one
/// byte when the payload is short.
pub proof fn lemma_rlp_str_len(p: Seq<u8>)
    requires
        p.len() <= 55,
    ensures
        rlp_str(p).len() <= p.len() + 1,
{
}

/// The encoding of a string is its payload plus a header of at most five
/// bytes.
pub proof fn lemma_rlp_str_len_long(p: Seq<u8>)
    requires
        p.len() < 0x100000000,
    ensures
        rlp_str(p).len() <= p.len() + 5,
{
    if p.len() > 55 {
        assert(pow256(4) == 0x100000000) by {
            reveal_with_fuel(pow256, 5);
        }
        crate::uint::lemma_be_min_of_len(p.len(), 4);
    }
}

/// The encoding of a list is its payload plus a header of at most five
/// bytes.
pub proof fn lemma_rlp_list_len(payload: Seq<u8>)
    requires
        payload.len() < 0x100000000,
    ensures
        rlp_list(payload).len() <= payload.len() + 5,
{
    if payload.len() > 55 {
        assert(pow256(4) == 0x100000000) by {
            reveal_with_fuel(pow256, 5);
        }
        crate::uint::lemma_be_min_of_len(payload.len(), 4);
    }
}

} // verus!
