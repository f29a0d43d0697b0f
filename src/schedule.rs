use vstd::prelude::*;

verus! {

broadcast use {vstd::seq_lib::to_multiset_insert, vstd::seq_lib::to_multiset_remove};

/// One pending run of one metric provider.
#[derive(Clone, Copy, Debug, PartialEq, Eq, Structural)]
pub struct Job {
    /// When the run is due, in milliseconds of the monotonic clock.
    pub timestamp: u64,
    /// Position of the provider in the module list.
    pub module_index: usize,
}

/// Jobs are held earliest first; jobs with the same due time keep the
/// order in which they were pushed.
pub open spec fn due_ordered(s: Seq<Job>) -> bool {
    forall|i: int, j: int| 0 <= i < j < s.len() ==> s[i].timestamp <= s[j].timestamp
}

/// Where `push_job` places a job due at `t`: after every job due at or
/// before `t`, before every job due later.
pub open spec fn is_insert_point(s: Seq<Job>, p: int, t: u64) -> bool {
    &&& 0 <= p <= s.len()
    &&& forall|k: int| 0 <= k < p ==> s[k].timestamp <= t
    &&& forall|k: int| p <= k < s.len() ==> s[k].timestamp > t
}

/// `after` is `before` with `job` placed at its insert point.
pub open spec fn pushed(before: Seq<Job>, after: Seq<Job>, job: Job) -> bool {
    exists|p: int| is_insert_point(before, p, job.timestamp) && after == before.insert(p, job)
}

/// Time-ordered queue of pending jobs.
///
/// Its view is the pending jobs in the order `pop` hands them out: by due
/// time, and first in, first out among jobs due at the same instant.
pub struct Schedule {
    queue: Vec<Job>,
}

impl View for Schedule {
    type V = Seq<Job>;

    closed spec fn view(&self) -> Seq<Job> {
        self.queue@
    }
}

impl Schedule {
    pub open spec fn wf(&self) -> bool {
        due_ordered(self@)
    }

    pub fn new() -> (r: Self)
        ensures
            r.wf(),
            r@ == Seq::<Job>::empty(),
    {
        Schedule { queue: Vec::new() }
    }

    /// Adds a job due at `timestamp` for the provider at `module_index`.
    pub fn push_job(&mut self, timestamp: u64, module_index: usize)
        requires
            old(self).wf(),
        ensures
            final(self).wf(),
            pushed(old(self)@, final(self)@, Job { timestamp, module_index }),
            final(self)@.to_multiset() == old(self)@.to_multiset().insert(
                Job { timestamp, module_index },
            ),
    {
        let job = Job { timestamp, module_index };
        let mut i: usize = 0;
        while i < self.queue.len() && self.queue[i].timestamp <= timestamp
            invariant
                0 <= i <= self.queue@.len(),
                due_ordered(self.queue@),
                forall|k: int| 0 <= k < i ==> self.queue@[k].timestamp <= timestamp,
            decreases self.queue@.len() - i,
        {
            i = i + 1;
        }
        let ghost before = self.queue@;
        self.queue.insert(i, job);
        assert(is_insert_point(before, i as int, timestamp));
        assert(self.queue@.to_multiset() == before.to_multiset().insert(job));
    }

    /// Removes and returns the earliest job, or `None` when nothing is queued.
    pub fn pop(&mut self) -> (r: Option<Job>)
        requires
            old(self).wf(),
        ensures
            final(self).wf(),
            match r {
                Option::None => old(self)@.len() == 0 && final(self)@ == old(self)@,
                Option::Some(j) => {
                    &&& old(self)@.len() > 0
                    &&& j == old(self)@[0]
                    &&& final(self)@ == old(self)@.drop_first()
                    &&& final(self)@.to_multiset() == old(self)@.to_multiset().remove(j)
                    &&& forall|k: int|
                        0 <= k < old(self)@.len() ==> j.timestamp <= #[trigger] old(self)@[k].timestamp
                },
            },
    {
        if self.queue.len() == 0 {
            return Option::None;
        }
        let ghost before = self.queue@;
        let j = self.queue.remove(0);
        assert(before.remove(0) == before.drop_first());
        Option::Some(j)
    }

    /// The due time of the earliest queued job, if any; nothing is removed.
    pub fn next_timestamp(&self) -> (r: Option<u64>)
        requires
            self.wf(),
        ensures
            r == (if self@.len() == 0 {
                Option::None
            } else {
                Option::Some(self@[0].timestamp)
            }),
    {
        if self.queue.len() == 0 {
            Option::None
        } else {
            Option::Some(self.queue[0].timestamp)
        }
    }
}

} // verus!
