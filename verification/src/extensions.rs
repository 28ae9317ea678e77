//! The extensions registry: pluggable auxiliary capabilities, registered
//! once per state machine and looked up by kind during a call.

use vstd::prelude::*;

verus! {

/// The map described by a registration log: a later registration would
/// shadow an earlier one, which `register` rules out.
pub open spec fn reg_map<X>(log: Seq<(u32, X)>) -> Map<u32, X>
    decreases log.len(),
{
    if log.len() == 0 {
        Map::empty()
    } else {
        reg_map(log.drop_last()).insert(log.last().0, log.last().1)
    }
}

/// A capability registry keyed by capability kind.
pub struct Extensions<X> {
    entries: Vec<(u32, X)>,
}

impl<X> Extensions<X> {
    /// The registered capabilities by kind.
    pub closed spec fn view_map(self) -> Map<u32, X> {
        reg_map(self.entries@)
    }

    pub fn new() -> (r: Extensions<X>)
        ensures
            r.view_map() == Map::<u32, X>::empty(),
    {
        let r = Extensions { entries: Vec::new() };
        proof {
            assert(r.view_map() =~= Map::<u32, X>::empty());
        }
        r
    }

    /// Registers a capability under a kind.  A kind can be registered only
    /// once: a second registration is refused and the capability handed
    /// back.
    pub fn register(&mut self, kind: u32, capability: X) -> (r: Result<(), X>)
        ensures
            old(self).view_map().contains_key(kind) ==> r == Err::<(), X>(capability)
                && final(self).view_map() == old(self).view_map(),
            !old(self).view_map().contains_key(kind) ==> r == Ok::<(), X>(())
                && final(self).view_map() == old(self).view_map().insert(kind, capability),
    {
        let mut j: usize = self.entries.len();
        proof {
            assert(self.entries@.take(self.entries@.len() as int) =~= self.entries@);
        }
        while j > 0
            invariant
                j <= self.entries@.len(),
                self.view_map().contains_key(kind) <==> reg_map(
                    self.entries@.take(j as int),
                ).contains_key(kind),
            decreases j,
        {
            proof {
                assert(self.entries@.take(j as int).drop_last() =~= self.entries@.take(
                    j - 1 as int,
                ));
                assert(self.entries@.take(j as int).last() == self.entries@[j - 1 as int]);
            }
            if self.entries[j - 1].0 == kind {
                return Err(capability);
            }
            j = j - 1;
        }
        proof {
            assert(self.entries@.take(0) =~= Seq::<(u32, X)>::empty());
        }
        self.entries.push((kind, capability));
        proof {
            assert(self.entries@.drop_last() =~= old(self).entries@);
        }
        Ok(())
    }

    /// Looks a capability up by kind.
    pub fn lookup(&self, kind: u32) -> (r: Option<&X>)
        ensures
            r is None <==> !self.view_map().contains_key(kind),
            r matches Some(x) ==> self.view_map().contains_key(kind) && self.view_map()[kind]
                == *x,
    {
        let mut j: usize = self.entries.len();
        proof {
            assert(self.entries@.take(self.entries@.len() as int) =~= self.entries@);
        }
        while j > 0
            invariant
                j <= self.entries@.len(),
                self.view_map().contains_key(kind) <==> reg_map(
                    self.entries@.take(j as int),
                ).contains_key(kind),
                self.view_map().contains_key(kind) ==> self.view_map()[kind] == reg_map(
                    self.entries@.take(j as int),
                )[kind],
            decreases j,
        {
            proof {
                assert(self.entries@.take(j as int).drop_last() =~= self.entries@.take(
                    j - 1 as int,
                ));
                assert(self.entries@.take(j as int).last() == self.entries@[j - 1 as int]);
            }
            if self.entries[j - 1].0 == kind {
                return Some(&self.entries[j - 1].1);
            }
            j = j - 1;
        }
        proof {
            assert(self.entries@.take(0) =~= Seq::<(u32, X)>::empty());
        }
        None
    }
}

} // verus!
