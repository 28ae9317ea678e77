//! A 256-bit unsigned integer held as four 64-bit limbs, with the
//! arithmetic the account record needs and the minimal big-endian byte
//! form its canonical encoding uses.

use vstd::prelude::*;
use vstd::arithmetic::div_mod::{lemma_fundamental_div_mod, lemma_fundamental_div_mod_converse};

verus! {

/// 256^n.
pub open spec fn pow256(n: nat) -> int
    decreases n,
{
    if n == 0 {
        1
    } else {
        256 * pow256((n - 1) as nat)
    }
}

/// The number a big-endian byte string denotes.
pub open spec fn be_val(s: Seq<u8>) -> int
    decreases s.len(),
{
    if s.len() == 0 {
        0
    } else {
        be_val(s.drop_last()) * 256 + s.last()
    }
}

/// The number a little-endian byte string denotes.
pub open spec fn le_val(s: Seq<u8>) -> int
    decreases s.len(),
{
    if s.len() == 0 {
        0
    } else {
        s[0] + 256 * le_val(s.drop_first())
    }
}

/// A big-endian byte string with no leading zero.
pub open spec fn minimal_be(s: Seq<u8>) -> bool {
    s.len() == 0 || s[0] != 0
}

/// The minimal big-endian byte string of a number.
pub open spec fn be_min_of(n: nat) -> Seq<u8>
    decreases n,
{
    if n == 0 {
        Seq::empty()
    } else {
        be_min_of(n / 256).push((n % 256) as u8)
    }
}

pub proof fn lemma_pow256_pos(n: nat)
    ensures
        pow256(n) >= 1,
    decreases n,
{
    if n > 0 {
        lemma_pow256_pos((n - 1) as nat);
    }
}

pub proof fn lemma_pow256_mono(a: nat, b: nat)
    requires
        a <= b,
    ensures
        pow256(a) <= pow256(b),
    decreases b,
{
    if a < b {
        lemma_pow256_mono(a, (b - 1) as nat);
        lemma_pow256_pos((b - 1) as nat);
    }
}

pub proof fn lemma_be_val_bound(s: Seq<u8>)
    ensures
        0 <= be_val(s) < pow256(s.len()),
    decreases s.len(),
{
    if s.len() > 0 {
        lemma_be_val_bound(s.drop_last());
    }
}

/// A non-empty byte string without a leading zero denotes a positive
/// number.
pub proof fn lemma_be_val_pos(s: Seq<u8>)
    requires
        s.len() > 0,
        s[0] != 0,
    ensures
        be_val(s) >= 1,
    decreases s.len(),
{
    if s.len() == 1 {
        assert(be_val(s.drop_last()) == 0);
    } else {
        assert(s.drop_last()[0] == s[0]);
        lemma_be_val_pos(s.drop_last());
    }
}

/// There is one minimal big-endian form per number.
pub proof fn lemma_minimal_be_unique(s: Seq<u8>)
    requires
        minimal_be(s),
    ensures
        be_min_of(be_val(s) as nat) == s,
    decreases s.len(),
{
    if s.len() == 0 {
    } else {
        let n = be_val(s);
        lemma_be_val_pos(s);
        lemma_be_val_bound(s.drop_last());
        lemma_fundamental_div_mod_converse(n, 256, be_val(s.drop_last()), s.last() as int);
        lemma_minimal_be_unique(s.drop_last());
        assert(be_min_of(n as nat) == be_min_of((n / 256) as nat).push((n % 256) as u8));
        assert(s.drop_last().push(s.last()) =~= s);
    }
}

/// The minimal form denotes its number back and has no leading zero.
pub proof fn lemma_be_min_of_props(n: nat)
    ensures
        minimal_be(be_min_of(n)),
        be_val(be_min_of(n)) == n,
    decreases n,
{
    if n > 0 {
        lemma_be_min_of_props(n / 256);
        lemma_fundamental_div_mod(n as int, 256);
        let s = be_min_of(n);
        assert(s.drop_last() =~= be_min_of(n / 256));
        if be_min_of(n / 256).len() == 0 {
            assert(s[0] == (n % 256) as u8);
            assert(be_val(be_min_of(n / 256)) == 0);
            assert(n % 256 != 0);
        }
    }
}

/// A number below 256^k has a minimal form of at most k bytes.
pub proof fn lemma_be_min_of_len(n: nat, k: nat)
    requires
        n < pow256(k),
    ensures
        be_min_of(n).len() <= k,
    decreases n,
{
    if n > 0 {
        lemma_fundamental_div_mod(n as int, 256);
        if k == 0 {
            lemma_pow256_pos(k);
            assert(false);
        } else {
            assert(pow256(k) == 256 * pow256((k - 1) as nat));
            lemma_be_min_of_len(n / 256, (k - 1) as nat);
        }
    }
}

pub proof fn lemma_le_val_push(s: Seq<u8>, b: u8)
    ensures
        le_val(s.push(b)) == le_val(s) + b * pow256(s.len()),
    decreases s.len(),
{
    if s.len() == 0 {
        assert(s.push(b).drop_first() =~= Seq::<u8>::empty());
        assert(le_val(Seq::<u8>::empty()) == 0);
        assert(s.push(b)[0] == b);
    } else {
        lemma_le_val_push(s.drop_first(), b);
        assert(s.push(b).drop_first() =~= s.drop_first().push(b));
        assert(s.push(b)[0] == s[0]);
        assert(le_val(s.push(b)) == s[0] + 256 * le_val(s.drop_first().push(b)));
        assert(256 * (b * pow256((s.len() - 1) as nat)) == b * (256 * pow256(
            (s.len() - 1) as nat,
        ))) by (nonlinear_arith);
    }
}

pub proof fn lemma_be_val_reverse(s: Seq<u8>)
    ensures
        be_val(s.reverse()) == le_val(s),
    decreases s.len(),
{
    if s.len() > 0 {
        lemma_be_val_reverse(s.drop_first());
        assert(s.reverse().drop_last() =~= s.drop_first().reverse());
        assert(s.reverse().last() == s[0]);
    }
}

/// A 256-bit unsigned integer; limb 0 is least significant.
#[derive(Clone, Copy, Debug, PartialEq, Eq, Structural)]
pub struct U256 {
    l0: u64,
    l1: u64,
    l2: u64,
    l3: u64,
}

/// The largest value a `U256` holds.
pub open spec fn u256_max_value() -> int {
    0xffffffffffffffffffffffffffffffffffffffffffffffffffffffffffffffffint
}

impl U256 {
    /// The number this value denotes.
    pub closed spec fn value(self) -> int {
        self.l0 + self.l1 * 0x10000000000000000int + self.l2
            * 0x100000000000000000000000000000000int + self.l3
            * 0x1000000000000000000000000000000000000000000000000int
    }

    pub fn zero() -> (r: U256)
        ensures
            r.value() == 0,
    {
        U256 { l0: 0, l1: 0, l2: 0, l3: 0 }
    }

    /// Every value fits between zero and the maximum.
    pub proof fn lemma_value_bound(self)
        ensures
            0 <= self.value() <= u256_max_value(),
    {
    }

    pub fn max_value() -> (r: U256)
        ensures
            r.value() == u256_max_value(),
    {
        U256 { l0: u64::MAX, l1: u64::MAX, l2: u64::MAX, l3: u64::MAX }
    }

    pub fn from_u64(x: u64) -> (r: U256)
        ensures
            r.value() == x,
    {
        U256 { l0: x, l1: 0, l2: 0, l3: 0 }
    }

    pub fn is_zero(&self) -> (r: bool)
        ensures
            r <==> self.value() == 0,
    {
        self.l0 == 0 && self.l1 == 0 && self.l2 == 0 && self.l3 == 0
    }

    /// The sum, or `None` on overflow.
    pub fn checked_add(&self, o: &U256) -> (r: Option<U256>)
        ensures
            match r {
                Some(s) => s.value() == self.value() + o.value() && self.value() + o.value()
                    <= u256_max_value(),
                None => self.value() + o.value() > u256_max_value(),
            },
    {
        let s0: u128 = self.l0 as u128 + o.l0 as u128;
        let r0: u64 = (s0 % 0x10000000000000000) as u64;
        let c0: u128 = s0 / 0x10000000000000000;
        let s1: u128 = self.l1 as u128 + o.l1 as u128 + c0;
        let r1: u64 = (s1 % 0x10000000000000000) as u64;
        let c1: u128 = s1 / 0x10000000000000000;
        let s2: u128 = self.l2 as u128 + o.l2 as u128 + c1;
        let r2: u64 = (s2 % 0x10000000000000000) as u64;
        let c2: u128 = s2 / 0x10000000000000000;
        let s3: u128 = self.l3 as u128 + o.l3 as u128 + c2;
        let r3: u64 = (s3 % 0x10000000000000000) as u64;
        let c3: u128 = s3 / 0x10000000000000000;
        proof {
            lemma_fundamental_div_mod(s0 as int, 0x10000000000000000);
            lemma_fundamental_div_mod(s1 as int, 0x10000000000000000);
            lemma_fundamental_div_mod(s2 as int, 0x10000000000000000);
            lemma_fundamental_div_mod(s3 as int, 0x10000000000000000);
        }
        if c3 > 0 {
            None
        } else {
            Some(U256 { l0: r0, l1: r1, l2: r2, l3: r3 })
        }
    }

    /// The sum, capped at the largest value.
    pub fn saturating_add(&self, o: &U256) -> (r: U256)
        ensures
            r.value() == if self.value() + o.value() > u256_max_value() {
                u256_max_value()
            } else {
                self.value() + o.value()
            },
    {
        match self.checked_add(o) {
            Some(s) => s,
            None => U256::max_value(),
        }
    }

    /// The difference, or `None` when the subtrahend is larger.
    pub fn checked_sub(&self, o: &U256) -> (r: Option<U256>)
        ensures
            match r {
                Some(d) => self.value() >= o.value() && d.value() == self.value() - o.value(),
                None => self.value() < o.value(),
            },
    {
        let m: u128 = 0x10000000000000000;
        let a0: u128 = self.l0 as u128;
        let b0: u128 = o.l0 as u128;
        let (d0, w0): (u64, u128) = if a0 >= b0 {
            ((a0 - b0) as u64, 0)
        } else {
            ((a0 + m - b0) as u64, 1)
        };
        let a1: u128 = self.l1 as u128;
        let b1: u128 = o.l1 as u128 + w0;
        let (d1, w1): (u64, u128) = if a1 >= b1 {
            ((a1 - b1) as u64, 0)
        } else {
            ((a1 + m - b1) as u64, 1)
        };
        let a2: u128 = self.l2 as u128;
        let b2: u128 = o.l2 as u128 + w1;
        let (d2, w2): (u64, u128) = if a2 >= b2 {
            ((a2 - b2) as u64, 0)
        } else {
            ((a2 + m - b2) as u64, 1)
        };
        let a3: u128 = self.l3 as u128;
        let b3: u128 = o.l3 as u128 + w2;
        let (d3, w3): (u64, u128) = if a3 >= b3 {
            ((a3 - b3) as u64, 0)
        } else {
            ((a3 + m - b3) as u64, 1)
        };
        let d = U256 { l0: d0, l1: d1, l2: d2, l3: d3 };
        proof {
            assert(d0 == a0 - b0 + w0 * m);
            assert(d1 == a1 - b1 + w1 * m);
            assert(d2 == a2 - b2 + w2 * m);
            assert(d3 == a3 - b3 + w3 * m);
            assert(d.value() == self.value() - o.value() + w3 * (u256_max_value() + 1));
        }
        if w3 > 0 {
            None
        } else {
            Some(d)
        }
    }

    /// Whether this value is at least the other.
    pub fn ge(&self, o: &U256) -> (r: bool)
        ensures
            r <==> self.value() >= o.value(),
    {
        self.checked_sub(o).is_some()
    }

    /// 256 times this value, plus a byte: the next step of reading a
    /// big-endian byte string.
    fn mul256_add(&self, b: u8) -> (r: U256)
        requires
            self.value() * 256 + b <= u256_max_value(),
        ensures
            r.value() == self.value() * 256 + b,
    {
        let m: u128 = 0x10000000000000000;
        let t0: u128 = (self.l0 as u128) * 256 + (b as u128);
        let r0: u64 = (t0 % m) as u64;
        let c0: u128 = t0 / m;
        let t1: u128 = (self.l1 as u128) * 256 + c0;
        let r1: u64 = (t1 % m) as u64;
        let c1: u128 = t1 / m;
        let t2: u128 = (self.l2 as u128) * 256 + c1;
        let r2: u64 = (t2 % m) as u64;
        let c2: u128 = t2 / m;
        let t3: u128 = (self.l3 as u128) * 256 + c2;
        let r3: u64 = (t3 % m) as u64;
        let c3: u128 = t3 / m;
        proof {
            lemma_fundamental_div_mod(t0 as int, m as int);
            lemma_fundamental_div_mod(t1 as int, m as int);
            lemma_fundamental_div_mod(t2 as int, m as int);
            lemma_fundamental_div_mod(t3 as int, m as int);
        }
        let r = U256 { l0: r0, l1: r1, l2: r2, l3: r3 };
        proof {
            assert(r.value() + c3 * (u256_max_value() + 1) == self.value() * 256 + b);
        }
        r
    }

    /// The quotient and remainder of dividing by 256: the next step of
    /// writing a big-endian byte string.
    fn div_rem256(&self) -> (r: (U256, u8))
        ensures
            r.0.value() == self.value() / 256,
            r.1 == self.value() % 256,
    {
        let m: u128 = 0x10000000000000000;
        let t3: u128 = self.l3 as u128;
        let q3: u64 = (t3 / 256) as u64;
        let c3: u128 = t3 % 256;
        let t2: u128 = c3 * m + self.l2 as u128;
        let q2: u64 = (t2 / 256) as u64;
        let c2: u128 = t2 % 256;
        let t1: u128 = c2 * m + self.l1 as u128;
        let q1: u64 = (t1 / 256) as u64;
        let c1: u128 = t1 % 256;
        let t0: u128 = c1 * m + self.l0 as u128;
        let q0: u64 = (t0 / 256) as u64;
        let c0: u128 = t0 % 256;
        proof {
            lemma_fundamental_div_mod(t3 as int, 256);
            lemma_fundamental_div_mod(t2 as int, 256);
            lemma_fundamental_div_mod(t1 as int, 256);
            lemma_fundamental_div_mod(t0 as int, 256);
        }
        let q = U256 { l0: q0, l1: q1, l2: q2, l3: q3 };
        proof {
            assert(self.value() == q.value() * 256 + c0);
            lemma_fundamental_div_mod_converse(self.value(), 256, q.value(), c0 as int);
        }
        (q, c0 as u8)
    }

    /// The minimal big-endian byte form of this value; empty for zero.
    pub fn to_be_min_bytes(&self) -> (r: Vec<u8>)
        ensures
            r@ == be_min_of(self.value() as nat),
            be_val(r@) == self.value(),
            minimal_be(r@),
            r@.len() <= 32,
    {
        let mut le: Vec<u8> = Vec::new();
        let mut u: U256 = *self;
        proof {
            assert(self.value() == u.value() * pow256(0) + le_val(le@));
            reveal_with_fuel(pow256, 34);
            assert(u.value() < pow256(32));
        }
        while !(u.l0 == 0 && u.l1 == 0 && u.l2 == 0 && u.l3 == 0)
            invariant
                self.value() == u.value() * pow256(le@.len()) + le_val(le@),
                u.value() >= 0,
                le@.len() > 0 && u.value() == 0 ==> le@.last() != 0,
                le@.len() <= 32,
                u.value() < pow256((32 - le@.len()) as nat),
            decreases u.value(),
        {
            let ghost len0 = le@.len();
            let ghost le0 = le@;
            let ghost uv0 = u.value();
            proof {
                assert(uv0 > 0);
            }
            let (q, rem) = u.div_rem256();
            le.push(rem);
            u = q;
            proof {
                lemma_fundamental_div_mod(uv0, 256);
                assert(le@.drop_last() =~= le0);
                lemma_le_val_push(le0, rem);
                assert((256 * u.value() + rem) * pow256(len0) == u.value() * (256 * pow256(len0))
                    + rem * pow256(len0)) by (nonlinear_arith);
                assert(pow256(len0 + 1) == 256 * pow256(len0));
                assert(self.value() == u.value() * pow256(le@.len()) + le_val(le@));
                assert(u.value() * 256 <= uv0);
                assert(u.value() < pow256((32 - le@.len()) as nat)) by {
                    assert(uv0 < pow256((32 - len0) as nat));
                    assert(pow256((32 - len0) as nat) == 256 * pow256((32 - len0 - 1) as nat));
                }
            }
        }
        let mut r: Vec<u8> = Vec::new();
        let n = le.len();
        let mut i: usize = 0;
        while i < n
            invariant
                i <= n,
                n == le@.len(),
                r@.len() == i,
                forall|k: int| 0 <= k < i ==> r@[k] == le@[n - 1 - k],
            decreases n - i,
        {
            r.push(le[n - 1 - i]);
            i = i + 1;
        }
        proof {
            assert(r@ =~= le@.reverse());
            lemma_be_val_reverse(le@);
            assert(be_val(r@) == self.value());
            lemma_minimal_be_unique(r@);
        }
        r
    }

    /// Reads a minimal big-endian byte form: at most 32 bytes, no leading
    /// zero; anything else is refused.
    pub fn from_be_min_bytes(b: &Vec<u8>) -> (r: Option<U256>)
        ensures
            match r {
                Some(u) => b@.len() <= 32 && minimal_be(b@) && u.value() == be_val(b@) && b@
                    == be_min_of(u.value() as nat),
                None => b@.len() > 32 || !minimal_be(b@),
            },
    {
        if b.len() > 32 {
            return None;
        }
        if b.len() > 0 && b[0] == 0 {
            return None;
        }
        let mut u = U256::zero();
        let mut i: usize = 0;
        proof {
            assert(b@.take(0) =~= Seq::<u8>::empty());
            reveal_with_fuel(pow256, 34);
        }
        while i < b.len()
            invariant
                i <= b@.len(),
                b@.len() <= 32,
                u.value() == be_val(b@.take(i as int)),
                u.value() >= 0,
            decreases b@.len() - i,
        {
            proof {
                assert(b@.take(i + 1 as int).drop_last() =~= b@.take(i as int));
                assert(b@.take(i + 1 as int).last() == b@[i as int]);
                lemma_be_val_bound(b@.take(i + 1 as int));
                lemma_pow256_mono((i + 1) as nat, 32);
                reveal_with_fuel(pow256, 34);
                assert(pow256(32) == u256_max_value() + 1);
            }
            u = u.mul256_add(b[i]);
            i = i + 1;
        }
        proof {
            assert(b@.take(b@.len() as int) =~= b@);
            lemma_minimal_be_unique(b@);
        }
        Some(u)
    }
}

} // verus!
