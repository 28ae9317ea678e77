//! The account record: a monotonic nonce, a balance, a state-subtree root
//! and a code-content hash, with its canonical RLP form.

use vstd::prelude::*;
use crate::bytes::bytes_eq;
use crate::hash::H256;
use crate::rlp_codec::{
    all_flat, flatten_encs, is_flat_item, lemma_rlp_str_len, rlp_append_bytes, rlp_err_bad_shape,
    rlp_item_at, rlp_item_count, rlp_item_list, rlp_new_list, rlp_out, rlp_str,
};
use crate::uint::{
    be_min_of, be_val, lemma_be_min_of_len, lemma_be_min_of_props, minimal_be, pow256,
    u256_max_value, U256,
};

verus! {

/// The four item encodings of an account record, in order: nonce,
/// balance, storage root, code hash.
pub open spec fn account_encs(nv: int, bv: int, root: Seq<u8>, code: Seq<u8>) -> Seq<Seq<u8>> {
    seq![
        rlp_str(be_min_of(nv as nat)),
        rlp_str(be_min_of(bv as nat)),
        rlp_str(root),
        rlp_str(code),
    ]
}

/// A fixed-shape state entry stored through the overlay and snapshot.
#[derive(Debug)]
pub struct Account {
    nonce: U256,
    balance: U256,
    root: H256,
    code_hash: H256,
}

/// The canonical RLP encoding of an account.
pub open spec fn account_rlp(a: Account) -> Seq<u8> {
    rlp_item_list(account_encs(a.nonce_val(), a.balance_val(), a.root_view(), a.code_view()))
}

proof fn lemma_account_encs_flat(nv: int, bv: int, root: Seq<u8>, code: Seq<u8>)
    ensures
        all_flat(account_encs(nv, bv, root, code)),
        account_encs(nv, bv, root, code).len() == 4,
{
    let encs = account_encs(nv, bv, root, code);
    assert(encs[0] == rlp_str(be_min_of(nv as nat)));
    assert(is_flat_item(encs[0]));
    assert(encs[1] == rlp_str(be_min_of(bv as nat)));
    assert(is_flat_item(encs[1]));
    assert(encs[2] == rlp_str(root));
    assert(is_flat_item(encs[2]));
    assert(encs[3] == rlp_str(code));
    assert(is_flat_item(encs[3]));
    assert forall|j: int| 0 <= j < encs.len() implies is_flat_item(encs[j]) by {
        if j == 0 {
        } else if j == 1 {
        } else if j == 2 {
        } else {
            assert(j == 3);
        }
    }
}

impl Account {
    pub closed spec fn nonce_val(self) -> int {
        self.nonce.value()
    }

    pub closed spec fn balance_val(self) -> int {
        self.balance.value()
    }

    pub closed spec fn root_view(self) -> Seq<u8> {
        self.root.bytes_view()
    }

    pub closed spec fn code_view(self) -> Seq<u8> {
        self.code_hash.bytes_view()
    }

    pub open spec fn wf(self) -> bool {
        self.root_view().len() == 32 && self.code_view().len() == 32
    }

    /// The empty account: zero nonce and balance, all-zero hashes.
    pub fn default() -> (r: Account)
        ensures
            r.wf(),
            r.nonce_val() == 0,
            r.balance_val() == 0,
    {
        Account {
            nonce: U256::zero(),
            balance: U256::zero(),
            root: H256::zero(),
            code_hash: H256::zero(),
        }
    }

    /// Builds an account from its parts.
    pub fn new(nonce: U256, balance: U256, root: H256, code_hash: H256) -> (r: Account)
        requires
            root.wf(),
            code_hash.wf(),
        ensures
            r.wf(),
            r.nonce_val() == nonce.value(),
            r.balance_val() == balance.value(),
            r.root_view() == root.bytes_view(),
            r.code_view() == code_hash.bytes_view(),
    {
        Account { nonce, balance, root, code_hash }
    }

    pub fn nonce(&self) -> (r: &U256)
        ensures
            r.value() == self.nonce_val(),
    {
        &self.nonce
    }

    pub fn balance(&self) -> (r: &U256)
        ensures
            r.value() == self.balance_val(),
    {
        &self.balance
    }

    pub fn code_hash(&self) -> (r: H256)
        ensures
            r.bytes_view() == self.code_view(),
    {
        self.code_hash.copied()
    }

    /// Steps the nonce up by one.
    pub fn inc_nonce(&mut self)
        requires
            old(self).nonce_val() < u256_max_value(),
        ensures
            final(self).nonce_val() == old(self).nonce_val() + 1,
            final(self).balance_val() == old(self).balance_val(),
            final(self).root_view() == old(self).root_view(),
            final(self).code_view() == old(self).code_view(),
            final(self).wf() == old(self).wf(),
    {
        let one = U256::from_u64(1);
        proof {
            self.nonce.lemma_value_bound();
        }
        self.nonce = self.nonce.checked_add(&one).unwrap();
    }

    /// Replaces the code-content hash.
    pub fn set_code(&mut self, code: H256)
        requires
            code.wf(),
        ensures
            final(self).code_view() == code.bytes_view(),
            final(self).nonce_val() == old(self).nonce_val(),
            final(self).balance_val() == old(self).balance_val(),
            final(self).root_view() == old(self).root_view(),
            old(self).wf() ==> final(self).wf(),
    {
        self.code_hash = code;
    }

    /// Takes an amount out of the balance; the balance must cover it.
    pub fn sub_balance(&mut self, v: &U256)
        requires
            old(self).balance_val() >= v.value(),
        ensures
            final(self).balance_val() == old(self).balance_val() - v.value(),
            final(self).nonce_val() == old(self).nonce_val(),
            final(self).root_view() == old(self).root_view(),
            final(self).code_view() == old(self).code_view(),
            final(self).wf() == old(self).wf(),
    {
        self.balance = self.balance.checked_sub(v).unwrap();
    }

    /// Adds an amount to the balance, capped at the largest value.
    pub fn add_balance(&mut self, v: &U256)
        ensures
            final(self).balance_val() == if old(self).balance_val() + v.value()
                > u256_max_value() {
                u256_max_value()
            } else {
                old(self).balance_val() + v.value()
            },
            final(self).nonce_val() == old(self).nonce_val(),
            final(self).root_view() == old(self).root_view(),
            final(self).code_view() == old(self).code_view(),
            final(self).wf() == old(self).wf(),
    {
        self.balance = self.balance.saturating_add(v);
    }

    /// The canonical RLP encoding of this account.
    pub fn to_rlp(&self) -> (r: Vec<u8>)
        requires
            self.wf(),
        ensures
            r@ == account_rlp(*self),
    {
        let nb = self.nonce.to_be_min_bytes();
        let bb = self.balance.to_be_min_bytes();
        let mut s = rlp_new_list(4);
        rlp_append_bytes(&mut s, &nb);
        rlp_append_bytes(&mut s, &bb);
        rlp_append_bytes(&mut s, self.root.as_bytes());
        rlp_append_bytes(&mut s, self.code_hash.as_bytes());
        proof {
            let encs = crate::rlp_codec::stream_encoded(s);
            assert(encs =~= account_encs(
                self.nonce_val(),
                self.balance_val(),
                self.root_view(),
                self.code_view(),
            ));
            lemma_flatten_four(encs);
            lemma_rlp_str_len(be_min_of(self.nonce_val() as nat));
            lemma_rlp_str_len(be_min_of(self.balance_val() as nat));
            lemma_rlp_str_len(self.root_view());
            lemma_rlp_str_len(self.code_view());
            assert(be_min_of(self.nonce_val() as nat).len() <= 32) by {
                self.nonce.lemma_value_bound();
                lemma_field_canonical(self.nonce_val(), be_min_of(self.nonce_val() as nat));
            }
            assert(be_min_of(self.balance_val() as nat).len() <= 32) by {
                self.balance.lemma_value_bound();
                lemma_field_canonical(self.balance_val(), be_min_of(self.balance_val() as nat));
            }
            assert(flatten_encs(encs).len() < 0x100000000);
        }
        rlp_out(s)
    }

    /// Reads an account back from its canonical RLP encoding: exactly the
    /// encodings of well-formed accounts are accepted.
    pub fn from_rlp(input: &Vec<u8>) -> (r: Result<Account, rlp::DecoderError>)
        ensures
            r matches Ok(a) ==> a.wf() && input@ == account_rlp(a),
            r matches Err(_) ==> forall|a: Account| a.wf() ==> input@ != account_rlp(a),
    {
        let count = match rlp_item_count(input) {
            Ok(n) => n,
            Err(e) => {
                proof {
                    assert forall|a: Account| a.wf() implies input@ != account_rlp(a) by {
                        if input@ == account_rlp(a) {
                            lemma_account_encs_flat(
                                a.nonce_val(),
                                a.balance_val(),
                                a.root_view(),
                                a.code_view(),
                            );
                        }
                    }
                }
                return Err(e);
            },
        };
        if count != 4 {
            proof {
                assert forall|a: Account| a.wf() implies input@ != account_rlp(a) by {
                    if input@ == account_rlp(a) {
                        lemma_account_encs_flat(
                            a.nonce_val(),
                            a.balance_val(),
                            a.root_view(),
                            a.code_view(),
                        );
                    }
                }
            }
            return Err(rlp_err_bad_shape());
        }
        let f0 = match rlp_item_at(input, 0) {
            Ok(v) => v,
            Err(e) => {
                proof {
                    assert forall|a: Account| a.wf() implies input@ != account_rlp(a) by {
                        if input@ == account_rlp(a) {
                            lemma_account_encs_flat(
                                a.nonce_val(),
                                a.balance_val(),
                                a.root_view(),
                                a.code_view(),
                            );
                        }
                    }
                }
                return Err(e);
            },
        };
        let f1 = match rlp_item_at(input, 1) {
            Ok(v) => v,
            Err(e) => {
                proof {
                    assert forall|a: Account| a.wf() implies input@ != account_rlp(a) by {
                        if input@ == account_rlp(a) {
                            lemma_account_encs_flat(
                                a.nonce_val(),
                                a.balance_val(),
                                a.root_view(),
                                a.code_view(),
                            );
                        }
                    }
                }
                return Err(e);
            },
        };
        let f2 = match rlp_item_at(input, 2) {
            Ok(v) => v,
            Err(e) => {
                proof {
                    assert forall|a: Account| a.wf() implies input@ != account_rlp(a) by {
                        if input@ == account_rlp(a) {
                            lemma_account_encs_flat(
                                a.nonce_val(),
                                a.balance_val(),
                                a.root_view(),
                                a.code_view(),
                            );
                        }
                    }
                }
                return Err(e);
            },
        };
        let f3 = match rlp_item_at(input, 3) {
            Ok(v) => v,
            Err(e) => {
                proof {
                    assert forall|a: Account| a.wf() implies input@ != account_rlp(a) by {
                        if input@ == account_rlp(a) {
                            lemma_account_encs_flat(
                                a.nonce_val(),
                                a.balance_val(),
                                a.root_view(),
                                a.code_view(),
                            );
                        }
                    }
                }
                return Err(e);
            },
        };
        let nonce = match U256::from_be_min_bytes(&f0) {
            Some(u) => u,
            None => {
                proof {
                    assert forall|a: Account| a.wf() implies input@ != account_rlp(a) by {
                        if input@ == account_rlp(a) {
                            lemma_account_encs_flat(
                                a.nonce_val(),
                                a.balance_val(),
                                a.root_view(),
                                a.code_view(),
                            );
                            a.nonce.lemma_value_bound();
                            lemma_field_canonical(a.nonce_val(), f0@);
                        }
                    }
                }
                return Err(rlp_err_bad_shape());
            },
        };
        let balance = match U256::from_be_min_bytes(&f1) {
            Some(u) => u,
            None => {
                proof {
                    assert forall|a: Account| a.wf() implies input@ != account_rlp(a) by {
                        if input@ == account_rlp(a) {
                            lemma_account_encs_flat(
                                a.nonce_val(),
                                a.balance_val(),
                                a.root_view(),
                                a.code_view(),
                            );
                            a.balance.lemma_value_bound();
                            lemma_field_canonical(a.balance_val(), f1@);
                        }
                    }
                }
                return Err(rlp_err_bad_shape());
            },
        };
        let root = match H256::from_bytes(f2) {
            Some(h) => h,
            None => {
                proof {
                    assert forall|a: Account| a.wf() implies input@ != account_rlp(a) by {
                        if input@ == account_rlp(a) {
                            lemma_account_encs_flat(
                                a.nonce_val(),
                                a.balance_val(),
                                a.root_view(),
                                a.code_view(),
                            );
                        }
                    }
                }
                return Err(rlp_err_bad_shape());
            },
        };
        let code_hash = match H256::from_bytes(f3) {
            Some(h) => h,
            None => {
                proof {
                    assert forall|a: Account| a.wf() implies input@ != account_rlp(a) by {
                        if input@ == account_rlp(a) {
                            lemma_account_encs_flat(
                                a.nonce_val(),
                                a.balance_val(),
                                a.root_view(),
                                a.code_view(),
                            );
                        }
                    }
                }
                return Err(rlp_err_bad_shape());
            },
        };
        let parsed = Account { nonce, balance, root, code_hash };
        let enc = parsed.to_rlp();
        if !bytes_eq(&enc, input) {
            proof {
                assert forall|a: Account| a.wf() implies input@ != account_rlp(a) by {
                    if input@ == account_rlp(a) {
                        lemma_account_encs_flat(
                            a.nonce_val(),
                            a.balance_val(),
                            a.root_view(),
                            a.code_view(),
                        );
                        a.nonce.lemma_value_bound();
                        a.balance.lemma_value_bound();
                        lemma_field_canonical(a.nonce_val(), f0@);
                        lemma_field_canonical(a.balance_val(), f1@);
                        assert(parsed.nonce_val() == a.nonce_val());
                        assert(parsed.balance_val() == a.balance_val());
                        assert(parsed.root_view() == a.root_view());
                        assert(parsed.code_view() == a.code_view());
                        assert(account_rlp(parsed) == account_rlp(a));
                    }
                }
            }
            return Err(rlp_err_bad_shape());
        }
        Ok(parsed)
    }
}

/// A record field's minimal big-endian bytes are canonical: they fit 32
/// bytes, carry no leading zero, and denote the field's value.
proof fn lemma_field_canonical(v: int, b: Seq<u8>)
    requires
        0 <= v <= u256_max_value(),
        b == be_min_of(v as nat),
    ensures
        b.len() <= 32,
        minimal_be(b),
        be_val(b) == v,
{
    lemma_be_min_of_props(v as nat);
    reveal_with_fuel(pow256, 34);
    lemma_be_min_of_len(v as nat, 32);
}

/// The payload of a four-item list laid out explicitly.
proof fn lemma_flatten_four(encs: Seq<Seq<u8>>)
    requires
        encs.len() == 4,
    ensures
        flatten_encs(encs) == encs[0] + encs[1] + encs[2] + encs[3],
{
    let d1 = encs.drop_last();
    let d2 = d1.drop_last();
    let d3 = d2.drop_last();
    let d4 = d3.drop_last();
    assert(d4 =~= Seq::<Seq<u8>>::empty());
    assert(flatten_encs(d4) == Seq::<u8>::empty());
    assert(flatten_encs(d3) == flatten_encs(d4) + encs[0]);
    assert(flatten_encs(d2) == flatten_encs(d3) + encs[1]);
    assert(flatten_encs(d1) == flatten_encs(d2) + encs[2]);
    assert(flatten_encs(encs) == flatten_encs(d1) + encs[3]);
    assert(flatten_encs(encs) =~= encs[0] + encs[1] + encs[2] + encs[3]);
}

} // verus!
