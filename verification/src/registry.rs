//! The engine's table of submitted jobs: identifiers and cancel flags.
//!
//! Identifiers are handed out in increasing order starting at 1. Each job
//! gets a cancel flag that the worker running it checks between files;
//! canceling an unknown identifier does nothing.

use std::collections::HashMap;
use std::sync::atomic::AtomicBool;
use std::sync::Arc;

use vstd::prelude::*;

use crate::model::JobId;

verus! {

broadcast use vstd::std_specs::hash::group_hash_axioms;

/// Identifiers and cancel flags of the submitted jobs.
pub struct JobRegistry {
    next_id: u64,
    flags: HashMap<u64, Arc<AtomicBool>>,
}

/// `after` is `before` with one more job registered, under the identifier
/// `id`: the next identifier in turn.
pub open spec fn registers(before: JobRegistry, after: JobRegistry, id: JobId) -> bool {
    &&& id.0 == before.next()
    &&& after.next() == next_after(before.next())
    &&& after.known() == before.known().insert(id.0)
}

/// The identifier that follows `n` (wrapping, as the engine's counter does).
pub open spec fn next_after(n: u64) -> u64 {
    if n == u64::MAX {
        0
    } else {
        (n + 1) as u64
    }
}

impl JobRegistry {
    /// The identifier the next submitted job gets.
    pub closed spec fn next(&self) -> u64 {
        self.next_id
    }

    /// The identifiers of the jobs submitted so far.
    pub closed spec fn known(&self) -> Set<u64> {
        self.flags@.dom()
    }

    /// The cancel flag of job `id`.
    pub closed spec fn flag(&self, id: u64) -> Arc<AtomicBool> {
        self.flags@[id]
    }

    /// Every identifier handed out so far is below the next one.
    pub open spec fn fresh(&self) -> bool {
        forall|k: u64| #[trigger] self.known().contains(k) ==> k < self.next()
    }

    /// An empty table; the first job gets identifier 1.
    pub fn new() -> (r: JobRegistry)
        ensures
            r.next() == 1,
            r.known() == Set::<u64>::empty(),
            r.fresh(),
    {
        let r = JobRegistry { next_id: 1, flags: HashMap::new() };
        assert(r.flags@.dom() =~= Set::<u64>::empty());
        r
    }

    /// Registers a new job: hands out the next identifier and a fresh cancel
    /// flag for it.
    pub fn register(&mut self) -> (res: (JobId, Arc<AtomicBool>))
        ensures
            registers(*old(self), *final(self), res.0),
            final(self).flag(res.0.0) == res.1,
            forall|k: u64| k != res.0.0 && old(self).known().contains(k) ==> final(self).flag(k)
                == old(self).flag(k),
            old(self).fresh() && old(self).next() < u64::MAX ==> final(self).fresh()
                && !old(self).known().contains(res.0.0),
    {
        let id = self.next_id;
        self.next_id = self.next_id.wrapping_add(1);
        let flag = Arc::new(AtomicBool::new(false));
        self.flags.insert(id, flag.clone());
        (JobId(id), flag)
    }

    /// Sets the cancel flag of job `id`, if that job was submitted; tells
    /// whether it was.
    pub fn cancel(&self, id: JobId) -> (found: bool)
        ensures
            found == self.known().contains(id.0),
    {
        match self.flags.get(&id.0) {
            Some(flag) => {
                flag.store(true, std::sync::atomic::Ordering::Relaxed);
                true
            },
            None => false,
        }
    }
}

/// Identifiers are handed out in increasing order and never twice: while
/// fewer than 2^64 - 1 jobs have been registered, each new identifier is
/// larger than every earlier one.
pub proof fn law_ids_increase(before: JobRegistry, after: JobRegistry, id: JobId, earlier: u64)
    requires
        before.fresh(),
        before.next() < u64::MAX,
        registers(before, after, id),
        before.known().contains(earlier),
    ensures
        earlier < id.0,
        after.fresh(),
{
    assert forall|k: u64| #[trigger] after.known().contains(k) implies k < after.next() by {
        if k != id.0 {
            assert(before.known().contains(k));
        }
    }
}

/// Identifiers count from 1: starting from an empty table, the registration
/// numbered `i` (from 0) hands out the identifier `i + 1`, and afterwards the
/// identifiers known are exactly 1 to the number of registrations.
pub proof fn law_ids_count_from_one(regs: Seq<JobRegistry>, ids: Seq<JobId>)
    requires
        regs.len() == ids.len() + 1,
        regs[0].next() == 1,
        regs[0].known() == Set::<u64>::empty(),
        ids.len() < u64::MAX,
        forall|i: int| 0 <= i < ids.len() ==> registers(#[trigger] regs[i], regs[i + 1], ids[i]),
    ensures
        forall|i: int| 0 <= i < ids.len() ==> (#[trigger] ids[i]).0 == i + 1,
        regs.last().next() == ids.len() + 1,
        regs.last().known() == Set::new(|k: u64| 1 <= k <= ids.len()),
    decreases ids.len(),
{
    let n = ids.len();
    if n == 0 {
        assert(regs.last().known() =~= Set::new(|k: u64| 1 <= k <= ids.len()));
    } else {
        let rs = regs.drop_last();
        let is = ids.drop_last();
        assert forall|i: int| 0 <= i < is.len() implies registers(
            #[trigger] rs[i],
            rs[i + 1],
            is[i],
        ) by {
            assert(registers(regs[i], regs[i + 1], ids[i]));
        }
        law_ids_count_from_one(rs, is);
        assert(registers(regs[n - 1], regs[n as int], ids[n - 1]));
        assert(rs.last() == regs[n - 1]);
        assert forall|i: int| 0 <= i < ids.len() implies (#[trigger] ids[i]).0 == i + 1 by {
            if i < n - 1 {
                assert(is[i] == ids[i]);
            }
        }
        assert(regs.last().known() =~= Set::new(|k: u64| 1 <= k <= ids.len()));
    }
}

} // verus!
