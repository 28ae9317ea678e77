//! The log record: an emitting address, an ordered sequence of topic
//! hashes and an opaque payload, with its canonical RLP form.

use vstd::prelude::*;
use crate::bytes::{bytes_eq, copy_bytes};
use crate::hash::{H160, H256};
use crate::rlp_codec::{
    all_flat, flatten_encs, is_flat_item, lemma_rlp_list_len, lemma_rlp_str_len,
    lemma_rlp_str_len_long, rlp_append_bytes, rlp_append_string_list, rlp_err_bad_shape,
    rlp_item_at, rlp_item_count, rlp_item_list, rlp_new_list, rlp_out, rlp_str,
    rlp_string_list_at, rlp_strings, strs_payload, vec_views,
};

verus! {

/// A state log entry.
#[derive(Debug)]
pub struct Log {
    pub address: H160,
    pub topics: Vec<H256>,
    pub data: Vec<u8>,
}

/// The topic hashes as byte strings.
pub open spec fn topic_views(topics: Seq<H256>) -> Seq<Seq<u8>> {
    topics.map_values(|t: H256| t.bytes_view())
}

/// The three item encodings of a log record, in order: address, topics,
/// payload.
pub open spec fn log_encs(addr: Seq<u8>, topics: Seq<Seq<u8>>, data: Seq<u8>) -> Seq<Seq<u8>> {
    seq![rlp_str(addr), rlp_strings(topics), rlp_str(data)]
}

/// The canonical RLP encoding of a log.
pub open spec fn log_rlp(l: Log) -> Seq<u8> {
    rlp_item_list(log_encs(l.address.bytes_view(), topic_views(l.topics@), l.data@))
}

impl Log {
    pub open spec fn wf(self) -> bool {
        &&& self.address.wf()
        &&& forall|j: int| 0 <= j < self.topics@.len() ==> self.topics@[j].wf()
    }

    /// Builds a log record from its parts.
    pub fn new(address: H160, topics: Vec<H256>, data: Vec<u8>) -> (r: Log)
        ensures
            r.address == address,
            r.topics == topics,
            r.data == data,
    {
        Log { address, topics, data }
    }

    /// The canonical RLP encoding of this log.  The record must be small
    /// enough for the encoder's 32-bit length arithmetic.
    pub fn to_rlp(&self) -> (r: Vec<u8>)
        requires
            self.wf(),
            self.topics@.len() < 0x1000000,
            self.data@.len() < 0x1000000,
        ensures
            r@ == log_rlp(*self),
    {
        let mut tb: Vec<Vec<u8>> = Vec::new();
        let mut k: usize = 0;
        while k < self.topics.len()
            invariant
                k <= self.topics@.len(),
                tb@.len() == k,
                forall|j: int| 0 <= j < k ==> tb@[j]@ == self.topics@[j].bytes_view(),
                self.wf(),
            decreases self.topics@.len() - k,
        {
            tb.push(copy_bytes(self.topics[k].as_bytes()));
            k = k + 1;
        }
        proof {
            assert(vec_views(tb@) =~= topic_views(self.topics@));
            lemma_strs_payload_len_32(topic_views(self.topics@));
        }
        let mut s = rlp_new_list(3);
        rlp_append_bytes(&mut s, self.address.as_bytes());
        rlp_append_string_list(&mut s, &tb);
        rlp_append_bytes(&mut s, &self.data);
        proof {
            let encs = crate::rlp_codec::stream_encoded(s);
            assert(encs =~= log_encs(
                self.address.bytes_view(),
                topic_views(self.topics@),
                self.data@,
            ));
            lemma_flatten_three(encs);
            lemma_rlp_str_len(self.address.bytes_view());
            lemma_rlp_str_len_long(self.data@);
            lemma_rlp_list_len(strs_payload(topic_views(self.topics@)));
            assert(flatten_encs(encs).len() < 0x100000000);
        }
        rlp_out(s)
    }

    /// Reads a log back from its canonical RLP encoding: exactly the
    /// encodings of well-formed, encoder-sized logs are accepted.  The
    /// input bound is the machine limit of the encoder's 32-bit length
    /// arithmetic.
    pub fn from_rlp(input: &Vec<u8>) -> (r: Result<Log, rlp::DecoderError>)
        requires
            input@.len() < 0x1000000,
        ensures
            r matches Ok(l) ==> l.wf() && input@ == log_rlp(l),
            r matches Err(_) ==> forall|l: Log| l.wf() ==> input@ != log_rlp(l),
    {
        let count = match rlp_item_count(input) {
            Ok(n) => n,
            Err(e) => {
                proof {
                    assert forall|l: Log| l.wf() implies input@ != log_rlp(l) by {
                        if input@ == log_rlp(l) {
                            lemma_log_encs_flat(
                                l.address.bytes_view(),
                                topic_views(l.topics@),
                                l.data@,
                            );
                        }
                    }
                }
                return Err(e);
            },
        };
        if count != 3 {
            proof {
                assert forall|l: Log| l.wf() implies input@ != log_rlp(l) by {
                    if input@ == log_rlp(l) {
                        lemma_log_encs_flat(
                            l.address.bytes_view(),
                            topic_views(l.topics@),
                            l.data@,
                        );
                    }
                }
            }
            return Err(rlp_err_bad_shape());
        }
        let f0 = match rlp_item_at(input, 0) {
            Ok(v) => v,
            Err(e) => {
                proof {
                    assert forall|l: Log| l.wf() implies input@ != log_rlp(l) by {
                        if input@ == log_rlp(l) {
                            lemma_log_encs_flat(
                                l.address.bytes_view(),
                                topic_views(l.topics@),
                                l.data@,
                            );
                        }
                    }
                }
                return Err(e);
            },
        };
        let topics_raw = match rlp_string_list_at(input, 1) {
            Ok(vs) => vs,
            Err(e) => {
                proof {
                    assert forall|l: Log| l.wf() implies input@ != log_rlp(l) by {
                        if input@ == log_rlp(l) {
                            lemma_log_encs_flat(
                                l.address.bytes_view(),
                                topic_views(l.topics@),
                                l.data@,
                            );
                        }
                    }
                }
                return Err(e);
            },
        };
        let data = match rlp_item_at(input, 2) {
            Ok(v) => v,
            Err(e) => {
                proof {
                    assert forall|l: Log| l.wf() implies input@ != log_rlp(l) by {
                        if input@ == log_rlp(l) {
                            lemma_log_encs_flat(
                                l.address.bytes_view(),
                                topic_views(l.topics@),
                                l.data@,
                            );
                        }
                    }
                }
                return Err(e);
            },
        };
        let address = match H160::from_bytes(f0) {
            Some(h) => h,
            None => {
                proof {
                    assert forall|l: Log| l.wf() implies input@ != log_rlp(l) by {
                        if input@ == log_rlp(l) {
                            lemma_log_encs_flat(
                                l.address.bytes_view(),
                                topic_views(l.topics@),
                                l.data@,
                            );
                        }
                    }
                }
                return Err(rlp_err_bad_shape());
            },
        };
        let mut topics: Vec<H256> = Vec::new();
        let mut k: usize = 0;
        while k < topics_raw.len()
            invariant
                k <= topics_raw@.len(),
                topics@.len() == k,
                forall|j: int|
                    0 <= j < k ==> topics@[j].wf() && topics@[j].bytes_view() == topics_raw@[j]@,
                forall|encs: Seq<Seq<u8>>, subs: Seq<Seq<u8>>|
                    #![trigger rlp_item_list(encs), rlp_strings(subs)]
                    input@ == rlp_item_list(encs) && all_flat(encs) && 0 <= 1 < encs.len()
                        && encs[1] == rlp_strings(subs) ==> vec_views(topics_raw@) == subs,
            decreases topics_raw@.len() - k,
        {
            match H256::from_bytes(copy_bytes(&topics_raw[k])) {
                Some(h) => {
                    topics.push(h);
                },
                None => {
                    proof {
                        assert forall|l: Log| l.wf() implies input@ != log_rlp(l) by {
                            if input@ == log_rlp(l) {
                                lemma_log_encs_flat(
                                    l.address.bytes_view(),
                                    topic_views(l.topics@),
                                    l.data@,
                                );
                                assert(vec_views(topics_raw@) == topic_views(l.topics@));
                                assert(vec_views(topics_raw@)[k as int] == topics_raw@[
                                    k as int
                                ]@);
                                assert(topic_views(l.topics@)[k as int] == l.topics@[
                                    k as int
                                ].bytes_view());
                            }
                        }
                    }
                    return Err(rlp_err_bad_shape());
                },
            }
            k = k + 1;
        }
        let parsed = Log { address, topics, data };
        let enc = parsed.to_rlp();
        if !bytes_eq(&enc, input) {
            proof {
                assert forall|l: Log| l.wf() implies input@ != log_rlp(l) by {
                    if input@ == log_rlp(l) {
                        lemma_log_encs_flat(
                            l.address.bytes_view(),
                            topic_views(l.topics@),
                            l.data@,
                        );
                        assert(vec_views(topics_raw@) == topic_views(l.topics@));
                        assert(topic_views(parsed.topics@) =~= topic_views(l.topics@));
                        assert(log_rlp(parsed) == log_rlp(l));
                    }
                }
            }
            return Err(rlp_err_bad_shape());
        }
        Ok(parsed)
    }
}

proof fn lemma_log_encs_flat(addr: Seq<u8>, topics: Seq<Seq<u8>>, data: Seq<u8>)
    ensures
        all_flat(log_encs(addr, topics, data)),
        log_encs(addr, topics, data).len() == 3,
{
    let encs = log_encs(addr, topics, data);
    assert(encs[0] == rlp_str(addr));
    assert(is_flat_item(encs[0]));
    assert(encs[1] == rlp_strings(topics));
    assert(is_flat_item(encs[1]));
    assert(encs[2] == rlp_str(data));
    assert(is_flat_item(encs[2]));
    assert forall|j: int| 0 <= j < encs.len() implies is_flat_item(encs[j]) by {
        if j == 0 {
        } else if j == 1 {
        } else {
            assert(j == 2);
        }
    }
}

/// The payload of a list of 32-byte strings is 33 bytes per string.
proof fn lemma_strs_payload_len_32(items: Seq<Seq<u8>>)
    requires
        forall|j: int| 0 <= j < items.len() ==> items[j].len() == 32,
    ensures
        strs_payload(items).len() == 33 * items.len(),
    decreases items.len(),
{
    if items.len() > 0 {
        assert(forall|j: int|
            0 <= j < items.drop_last().len() ==> items.drop_last()[j].len() == 32);
        lemma_strs_payload_len_32(items.drop_last());
        assert(rlp_str(items.last()).len() == 33);
    }
}

/// The payload of a three-item list laid out explicitly.
proof fn lemma_flatten_three(encs: Seq<Seq<u8>>)
    requires
        encs.len() == 3,
    ensures
        flatten_encs(encs) == encs[0] + encs[1] + encs[2],
{
    let d1 = encs.drop_last();
    let d2 = d1.drop_last();
    let d3 = d2.drop_last();
    assert(d3 =~= Seq::<Seq<u8>>::empty());
    assert(flatten_encs(d3) == Seq::<u8>::empty());
    assert(flatten_encs(d2) == flatten_encs(d3) + encs[0]);
    assert(flatten_encs(d1) == flatten_encs(d2) + encs[1]);
    assert(flatten_encs(encs) == flatten_encs(d1) + encs[2]);
    assert(flatten_encs(encs) =~= encs[0] + encs[1] + encs[2]);
}

} // verus!
