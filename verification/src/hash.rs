//! Fixed-width hash and address values held as plain bytes.

use vstd::prelude::*;
use crate::bytes::{bytes_eq, copy_bytes};

verus! {

/// A 256-bit content hash.
#[derive(Debug)]
pub struct H256 {
    bytes: Vec<u8>,
}

impl H256 {
    pub closed spec fn bytes_view(self) -> Seq<u8> {
        self.bytes@
    }

    pub open spec fn wf(self) -> bool {
        self.bytes_view().len() == 32
    }

    /// The all-zero hash.
    pub fn zero() -> (r: H256)
        ensures
            r.wf(),
            forall|i: int| 0 <= i < 32 ==> r.bytes_view()[i] == 0,
    {
        let mut b: Vec<u8> = Vec::new();
        let mut i: usize = 0;
        while i < 32
            invariant
                i <= 32,
                b@.len() == i,
                forall|k: int| 0 <= k < i ==> b@[k] == 0,
            decreases 32 - i,
        {
            b.push(0);
            i = i + 1;
        }
        H256 { bytes: b }
    }

    /// Takes exactly 32 bytes; anything else is refused.
    pub fn from_bytes(b: Vec<u8>) -> (r: Option<H256>)
        ensures
            b@.len() == 32 ==> (r matches Some(h) && h.bytes_view() == b@),
            b@.len() != 32 ==> r is None,
    {
        if b.len() == 32 {
            Some(H256 { bytes: b })
        } else {
            None
        }
    }

    pub fn as_bytes(&self) -> (r: &Vec<u8>)
        ensures
            r@ == self.bytes_view(),
    {
        &self.bytes
    }

    /// An owned copy.
    pub fn copied(&self) -> (r: H256)
        ensures
            r.bytes_view() == self.bytes_view(),
    {
        H256 { bytes: copy_bytes(&self.bytes) }
    }

    pub fn equals(&self, o: &H256) -> (r: bool)
        ensures
            r <==> self.bytes_view() == o.bytes_view(),
    {
        bytes_eq(&self.bytes, &o.bytes)
    }
}

/// A 160-bit address.
#[derive(Debug)]
pub struct H160 {
    bytes: Vec<u8>,
}

impl H160 {
    pub closed spec fn bytes_view(self) -> Seq<u8> {
        self.bytes@
    }

    pub open spec fn wf(self) -> bool {
        self.bytes_view().len() == 20
    }

    /// Takes exactly 20 bytes; anything else is refused.
    pub fn from_bytes(b: Vec<u8>) -> (r: Option<H160>)
        ensures
            b@.len() == 20 ==> (r matches Some(h) && h.bytes_view() == b@),
            b@.len() != 20 ==> r is None,
    {
        if b.len() == 20 {
            Some(H160 { bytes: b })
        } else {
            None
        }
    }

    pub fn as_bytes(&self) -> (r: &Vec<u8>)
        ensures
            r@ == self.bytes_view(),
    {
        &self.bytes
    }

    /// An owned copy.
    pub fn copied(&self) -> (r: H160)
        ensures
            r.bytes_view() == self.bytes_view(),
    {
        H160 { bytes: copy_bytes(&self.bytes) }
    }

    pub fn equals(&self, o: &H160) -> (r: bool)
        ensures
            r <==> self.bytes_view() == o.bytes_view(),
    {
        bytes_eq(&self.bytes, &o.bytes)
    }
}

} // verus!
