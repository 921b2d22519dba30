//! Accounting model of the session pool: a fixed number of counting permits
//! bounds simultaneous checkouts, and a queue of idle session identifiers
//! holds the connections that survived initialization.
//!
//! The pool may hold fewer live sessions than permits (initialization
//! failures only degrade capacity), so a granted permit can still find the
//! queue empty; that checkout returns empty-handed and gives its permit
//! straight back. A session returned to the pool goes to the back of the
//! queue, and its permit is released only once the session is requeued.

use vstd::prelude::*;

verus! {

/// Bound on connection attempts per session during pool initialization.
pub const MAX_CONNECT_ATTEMPTS: u64 = 3;

/// Seconds waited between two connection attempts for one session.
pub const CONNECT_RETRY_DELAY_SECS: u64 = 2;

/// Whether a failed connection attempt (counted from one) is tried again.
pub fn should_retry_connect(attempt: u64) -> (r: bool)
    ensures
        r <==> attempt < MAX_CONNECT_ATTEMPTS,
{
    attempt < MAX_CONNECT_ATTEMPTS
}

/// The outcome of one checkout attempt.
#[derive(Clone, Copy, Debug, PartialEq, Eq)]
pub enum Checkout {
    /// A permit was granted and this session popped from the queue.
    Acquired(u64),
    /// A permit was granted but no session survived initialization to back
    /// it; the permit was given straight back.
    Empty,
    /// Every permit is out; the caller must wait for a release.
    Busy,
}

/// The session pool's bookkeeping: `size` permits over a queue of idle
/// session identifiers, with `checked_out` permits currently held by guards.
pub struct SftpPool {
    size: usize,
    idle: Vec<u64>,
    checked_out: usize,
}

/// The identifiers of the sessions that connected, in order.
pub open spec fn spec_successes(rs: Seq<Option<u64>>) -> Seq<u64>
    decreases rs.len(),
{
    if rs.len() == 0 {
        Seq::empty()
    } else {
        let rest = spec_successes(rs.drop_last());
        match rs.last() {
            Some(id) => rest.push(id),
            None => rest,
        }
    }
}

impl SftpPool {
    /// The number of permits the pool was sized for.
    pub closed spec fn spec_size(&self) -> nat {
        self.size as nat
    }

    /// How many permits guards currently hold.
    pub closed spec fn spec_checked_out(&self) -> nat {
        self.checked_out as nat
    }

    /// The identifiers of the sessions sitting idle in the pool, front first.
    pub closed spec fn spec_idle(&self) -> Seq<u64> {
        self.idle@
    }

    /// Sessions alive in the pool's custody: idle ones plus checked-out ones.
    pub open spec fn live_sessions(&self) -> nat {
        self.spec_idle().len() + self.spec_checked_out()
    }

    /// The pool never has more live sessions than permits.
    pub open spec fn wf(&self) -> bool {
        self.live_sessions() <= self.spec_size()
    }

    /// A checkout attempt succeeds exactly here: a permit is free and a
    /// session is idle.
    pub open spec fn can_acquire(&self) -> bool {
        self.spec_checked_out() < self.spec_size() && self.spec_idle().len() > 0
    }

    /// Whether the accounting is sound; lets an unverified caller test `wf`
    /// before checkout and release.
    pub fn is_well_formed(&self) -> (r: bool)
        ensures
            r == self.wf(),
    {
        self.idle.len() <= self.size && self.checked_out <= self.size - self.idle.len()
    }

    /// How many permits guards currently hold; lets an unverified caller test
    /// that a release has something to release.
    pub fn checked_out_count(&self) -> (r: usize)
        ensures
            r == self.spec_checked_out(),
    {
        self.checked_out
    }

    /// Builds the pool from the per-slot connection results: each `Some` is a
    /// session that connected (after bounded retries), each `None` a slot
    /// whose attempts all failed. A pool with zero live sessions is valid; it
    /// simply cannot satisfy any checkout.
    pub fn from_results(size: usize, results: &Vec<Option<u64>>) -> (p: SftpPool)
        requires
            results@.len() <= size,
        ensures
            p.wf(),
            p.spec_size() == size,
            p.spec_checked_out() == 0,
            p.spec_idle() == spec_successes(results@),
    {
        let mut idle: Vec<u64> = Vec::new();
        let mut i: usize = 0;
        while i < results.len()
            invariant
                i <= results@.len(),
                idle@ == spec_successes(results@.take(i as int)),
                idle@.len() <= i,
            decreases results@.len() - i,
        {
            proof {
                assert(results@.take(i + 1 as int).drop_last() =~= results@.take(i as int));
                assert(results@.take(i + 1 as int).last() == results@[i as int]);
            }
            match results[i] {
                Some(id) => idle.push(id),
                None => (),
            }
            i = i + 1;
        }
        proof {
            assert(results@.take(results@.len() as int) =~= results@);
        }
        SftpPool { size, idle, checked_out: 0 }
    }

    /// One checkout attempt: takes a permit and pops the front idle session,
    /// reporting `Busy` where every permit is out and `Empty` where a permit
    /// was free but no session backs it (that permit is given straight back).
    pub fn try_get(&mut self) -> (r: Checkout)
        requires
            old(self).wf(),
        ensures
            final(self).wf(),
            final(self).spec_size() == old(self).spec_size(),
            r is Acquired <==> old(self).can_acquire(),
            (r matches Checkout::Acquired(id) ==> {
                &&& id == old(self).spec_idle()[0]
                &&& final(self).spec_idle() == old(self).spec_idle().drop_first()
                &&& final(self).spec_checked_out() == old(self).spec_checked_out() + 1
            }),
            r is Busy ==> *final(self) == *old(self) && old(self).spec_checked_out() >= old(
                self,
            ).spec_size(),
            r is Empty ==> *final(self) == *old(self) && old(self).spec_idle().len() == 0 && old(
                self,
            ).spec_checked_out() < old(self).spec_size(),
    {
        if self.checked_out >= self.size {
            Checkout::Busy
        } else if self.idle.len() == 0 {
            Checkout::Empty
        } else {
            let id = self.idle.remove(0);
            self.checked_out = self.checked_out + 1;
            proof {
                assert(self.spec_idle() =~= old(self).spec_idle().drop_first());
            }
            Checkout::Acquired(id)
        }
    }

    /// Returns a checked-out session to the back of the queue and releases
    /// its permit — in that order, so a free permit always has a session
    /// behind it.
    pub fn put_back(&mut self, id: u64)
        requires
            old(self).wf(),
            old(self).spec_checked_out() > 0,
        ensures
            final(self).wf(),
            final(self).spec_size() == old(self).spec_size(),
            final(self).spec_idle() == old(self).spec_idle().push(id),
            final(self).spec_checked_out() == old(self).spec_checked_out() - 1,
    {
        self.idle.push(id);
        self.checked_out = self.checked_out - 1;
    }
}

/// Law: guards never outnumber permits. In particular, with one permit no two
/// callers hold a session at the same time.
pub proof fn lemma_guards_bounded(p: SftpPool)
    requires
        p.wf(),
    ensures
        p.spec_checked_out() <= p.spec_size(),
{
}

/// Law: while every permit is out, no further session can be acquired; a
/// second caller on a single-permit pool waits.
pub proof fn lemma_exhausted_pool_grants_nothing(p: SftpPool)
    requires
        p.wf(),
        p.spec_checked_out() >= p.spec_size(),
    ensures
        !p.can_acquire(),
{
}

/// Law: returning a session re-enables acquisition: after any release on a
/// well-formed pool, a checkout succeeds.
pub proof fn lemma_release_enables_acquire(p: SftpPool, q: SftpPool, id: u64)
    requires
        p.wf(),
        p.spec_checked_out() > 0,
        q.spec_size() == p.spec_size(),
        q.spec_idle() == p.spec_idle().push(id),
        q.spec_checked_out() == p.spec_checked_out() - 1,
    ensures
        q.can_acquire(),
{
}

} // verus!
