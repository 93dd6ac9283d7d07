//! The admission gate of the request dispatcher: a bounded set of active
//! jobs, keyed by request identity, that never exceeds its limit and
//! rejects a second job whose identifier is already in flight.

use vstd::prelude::*;

use crate::text::str_eq;

verus! {

/// The admission outcome for one arriving job.
#[derive(Debug, Clone, Copy, PartialEq, Eq, Structural)]
pub enum AdmitDecision {
    /// The job holds a slot and may enter the heavy chain.
    Admitted,
    /// Every slot is taken; the job must wait and ask again.
    Full,
    /// A job with the same request identifier is already in flight.
    Conflict,
}

/// No two active jobs share a request identifier.
pub open spec fn distinct_ids(ids: Seq<String>) -> bool {
    forall|i: int, j: int| 0 <= i < j < ids.len() ==> ids[i]@ != ids[j]@
}

/// The dispatcher's admission state: the concurrency limit and the
/// identifiers of the jobs now inside the heavy chain.
#[derive(Debug, Clone, PartialEq)]
pub struct Dispatcher {
    pub limit: usize,
    pub active: Vec<String>,
}

impl Dispatcher {
    /// The admission invariant: never more active jobs than the limit,
    /// and never two with one identifier.
    pub open spec fn wf(self) -> bool {
        self.active@.len() <= self.limit && distinct_ids(self.active@)
    }

    /// A job with identifier `id` is in flight.
    pub open spec fn is_active(self, id: Seq<char>) -> bool {
        exists|i: int| 0 <= i < self.active@.len() && self.active@[i]@ == id
    }

    /// How many jobs are inside the heavy chain.
    pub open spec fn in_flight(self) -> nat {
        self.active@.len()
    }

    /// A fresh gate of capacity `limit` with no job in flight.
    pub fn new(limit: usize) -> (d: Dispatcher)
        ensures
            d.limit == limit,
            d.active@ == Seq::<String>::empty(),
            d.wf(),
    {
        let d = Dispatcher { limit, active: Vec::new() };
        assert(d.active@ =~= Seq::<String>::empty());
        d
    }

    /// Is a job with identifier `id` in flight?
    pub fn contains_active(&self, id: &str) -> (r: bool)
        ensures
            r == self.is_active(id@),
    {
        let n = self.active.len();
        for i in 0..n
            invariant
                n == self.active.len(),
                forall|k: int| 0 <= k < i ==> self.active@[k]@ != id@,
        {
            if str_eq(self.active[i].as_str(), id) {
                assert(self.is_active(id@));
                return true;
            }
        }
        false
    }

    /// Decide one arriving job: reject an in-flight identifier, turn a
    /// full gate away, and otherwise hand the job a slot. The limit is
    /// never exceeded and identifiers stay distinct.
    pub fn try_admit(&mut self, id: &str) -> (r: AdmitDecision)
        requires
            old(self).wf(),
        ensures
            final(self).wf(),
            final(self).limit == old(self).limit,
            match r {
                AdmitDecision::Conflict => old(self).is_active(id@) && *final(self) == *old(self),
                AdmitDecision::Full => {
                    &&& !old(self).is_active(id@)
                    &&& old(self).in_flight() == old(self).limit
                    &&& *final(self) == *old(self)
                },
                AdmitDecision::Admitted => {
                    &&& !old(self).is_active(id@)
                    &&& old(self).in_flight() < old(self).limit
                    &&& final(self).in_flight() == old(self).in_flight() + 1
                    &&& final(self).active@.last()@ == id@
                    &&& final(self).active@.drop_last() == old(self).active@
                    &&& final(self).is_active(id@)
                },
            },
    {
        if self.contains_active(id) {
            AdmitDecision::Conflict
        } else if self.active.len() >= self.limit {
            AdmitDecision::Full
        } else {
            self.active.push(id.to_owned());
            proof {
                assert(self.active@.drop_last() =~= old(self).active@);
                let n = self.active@.len() - 1;
                assert(self.active@[n]@ == id@);
                assert forall|i: int, j: int|
                    0 <= i < j < self.active@.len() implies self.active@[i]@ != self.active@[j]@ by {
                    if j < n {
                        assert(old(self).active@[i]@ != old(self).active@[j]@);
                    } else {
                        assert(!old(self).is_active(id@));
                        assert(old(self).active@[i]@ != id@);
                    }
                }
            }
            AdmitDecision::Admitted
        }
    }

    /// Release the slot of a finished or failed job. The identifier's
    /// one occurrence leaves; a gate that never admitted it is unchanged.
    pub fn finish(&mut self, id: &str)
        requires
            old(self).wf(),
        ensures
            final(self).wf(),
            final(self).limit == old(self).limit,
            !old(self).is_active(id@) ==> *final(self) == *old(self),
            old(self).is_active(id@) ==> {
                &&& final(self).in_flight() == old(self).in_flight() - 1
                &&& exists|i: int|
                    {
                        &&& 0 <= i < old(self).active@.len()
                        &&& old(self).active@[i]@ == id@
                        &&& final(self).active@ == old(self).active@.remove(i)
                    }
                &&& !final(self).is_active(id@)
            },
    {
        let n = self.active.len();
        let mut i: usize = 0;
        while i < n
            invariant
                *self == *old(self),
                old(self).wf(),
                n == self.active.len(),
                i <= n,
                forall|k: int| 0 <= k < i ==> self.active@[k]@ != id@,
            decreases n - i,
        {
            if str_eq(self.active[i].as_str(), id) {
                let ghost pre = self.active@;
                self.active.remove(i);
                proof {
                    assert(self.active@ == pre.remove(i as int));
                    assert(distinct_ids(self.active@)) by {
                        assert forall|a: int, b: int|
                            0 <= a < b < self.active@.len() implies self.active@[a]@
                            != self.active@[b]@ by {
                            let a0 = if a < i { a } else { a + 1 };
                            let b0 = if b < i { b } else { b + 1 };
                            assert(self.active@[a] == pre[a0]);
                            assert(self.active@[b] == pre[b0]);
                            assert(pre[a0]@ != pre[b0]@);
                        }
                    }
                    assert(!self.is_active(id@)) by {
                        assert forall|k: int|
                            0 <= k < self.active@.len() implies self.active@[k]@ != id@ by {
                            let k0 = if k < i { k } else { k + 1 };
                            assert(self.active@[k] == pre[k0]);
                            if k0 != i {
                                assert(pre[k0]@ != pre[i as int]@);
                            }
                        }
                    }
                }
                return ;
            }
            i = i + 1;
        }
        assert(!self.is_active(id@));
    }
}

} // verus!
