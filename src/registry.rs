//! The job registry and the identifier allocator: the service's shared
//! mutable state. Callers guard a registry with a lock of their own, held only
//! for one of these calls and never while a job is being graded.

use vstd::prelude::*;
use crate::model::config::{Language, Problem};
use crate::model::request::{PostJobParams, QueryJobParams};
use crate::model::{same_jobs, Job, RunResult, State};

verus! {

/// Issues job identifiers 0, 1, 2, ... in increasing order.
pub struct IdAllocator {
    pub next: u32,
}

impl IdAllocator {
    /// The identifiers handed out so far.
    pub open spec fn issued(self) -> Set<u32> {
        Set::new(|k: u32| k < self.next)
    }

    pub fn new() -> (r: Self)
        ensures
            r.next == 0,
            r.issued() == Set::<u32>::empty(),
    {
        let r = IdAllocator { next: 0 };
        assert(r.issued() =~= Set::<u32>::empty());
        r
    }

    /// Hands out an identifier greater than every one handed out before.
    pub fn next(&mut self) -> (r: u32)
        requires
            old(self).next < u32::MAX,
        ensures
            r == old(self).next,
            final(self).next == r + 1,
            !old(self).issued().contains(r),
            forall|k: u32| old(self).issued().contains(k) ==> k < r,
            final(self).issued() == old(self).issued().insert(r),
    {
        let r = self.next;
        self.next = self.next + 1;
        assert(self.issued() =~= old(self).issued().insert(r));
        r
    }
}

/// The jobs created so far, in creation order.
pub struct JobList {
    pub jobs: Vec<Job>,
    pub ids: IdAllocator,
}

/// The jobs of `jobs` that `q` matches, in their order.
pub open spec fn matching(jobs: Seq<Job>, q: QueryJobParams) -> Seq<Job> {
    jobs.filter(|j: Job| q.spec_matches(j))
}

/// `i` is the position of the first job with identifier `id`.
pub open spec fn is_first_with_id(jobs: Seq<Job>, id: u32, i: int) -> bool {
    0 <= i < jobs.len() && jobs[i].id == id && forall|j: int| 0 <= j < i ==> jobs[j].id != id
}

/// `i` is the position of the last job with identifier `id`.
pub open spec fn is_last_with_id(jobs: Seq<Job>, id: u32, i: int) -> bool {
    0 <= i < jobs.len() && jobs[i].id == id && forall|j: int| i < j < jobs.len() ==> jobs[j].id != id
}

proof fn lemma_matching_push(jobs: Seq<Job>, q: QueryJobParams)
    requires
        jobs.len() > 0,
    ensures
        matching(jobs, q) == if q.spec_matches(jobs.last()) {
            matching(jobs.drop_last(), q).push(jobs.last())
        } else {
            matching(jobs.drop_last(), q)
        },
{
    reveal_with_fuel(Seq::filter, 1);
}

/// Some job has identifier `id`.
pub open spec fn has_id(jobs: Seq<Job>, id: u32) -> bool {
    exists|i: int| 0 <= i < jobs.len() && jobs[i].id == id
}

impl JobList {
    /// Every stored job is well formed and was issued its identifier by the
    /// allocator, and identifiers strictly increase in creation order.
    pub open spec fn wf(self) -> bool {
        &&& forall|i: int| 0 <= i < self.jobs@.len() ==> (#[trigger] self.jobs@[i]).wf()
        &&& forall|i: int| 0 <= i < self.jobs@.len() ==> self.ids.issued().contains(#[trigger] self.jobs@[i].id)
        &&& forall|i: int, j: int| 0 <= i < j < self.jobs@.len() ==> self.jobs@[i].id < self.jobs@[j].id
    }

    pub fn new() -> (r: Self)
        ensures
            r.wf(),
            r.jobs@.len() == 0,
            r.ids.next == 0,
    {
        JobList { jobs: Vec::new(), ids: IdAllocator::new() }
    }

    /// Creates a job in state `Queueing` with a fresh identifier, stores it
    /// and returns a copy of it.
    pub fn register(&mut self, params: PostJobParams, problem: Problem, language: Language, now: i64) -> (r: Job)
        requires
            old(self).wf(),
            old(self).ids.next < u32::MAX,
            problem.cases@.len() <= u32::MAX,
        ensures
            final(self).wf(),
            r.id == old(self).ids.next,
            forall|k: u32| old(self).ids.issued().contains(k) ==> k < r.id,
            final(self).ids.issued() == old(self).ids.issued().insert(r.id),
            r.params == params,
            r.problem == problem,
            r.language == language,
            r.updated_time == now,
            r.state == State::Queueing,
            r.result == RunResult::Waiting,
            r.created_time == now,
            r.cases@.len() == 0,
            final(self).jobs@.len() == old(self).jobs@.len() + 1,
            final(self).jobs@.drop_last() == old(self).jobs@,
            final(self).jobs@.last().same(r),
    {
        let id = self.ids.next();
        let job = Job::new(id, params, problem, language, now);
        self.jobs.push(job.clone());
        assert(self.jobs@.drop_last() =~= old(self).jobs@);
        assert forall|i: int| 0 <= i < self.jobs@.len() implies self.ids.issued().contains(
            #[trigger] self.jobs@[i].id,
        ) by {
            if i < old(self).jobs@.len() {
                assert(old(self).ids.issued().contains(old(self).jobs@[i].id));
            }
        }
        job
    }

    /// Copies of the jobs that `q` matches, in creation order.
    pub fn list(&self, q: &QueryJobParams) -> (r: Vec<Job>)
        ensures
            same_jobs(r@, matching(self.jobs@, *q)),
    {
        let mut r: Vec<Job> = Vec::new();
        let mut k: usize = 0;
        while k < self.jobs.len()
            invariant
                k <= self.jobs@.len(),
                same_jobs(r@, matching(self.jobs@.subrange(0, k as int), *q)),
            decreases self.jobs@.len() - k,
        {
            assert(self.jobs@.subrange(0, k + 1).drop_last() =~= self.jobs@.subrange(0, k as int));
            proof {
                lemma_matching_push(self.jobs@.subrange(0, k + 1), *q);
            }
            if q.matches(&self.jobs[k]) {
                r.push(self.jobs[k].clone());
            }
            k += 1;
        }
        assert(self.jobs@.subrange(0, self.jobs@.len() as int) =~= self.jobs@);
        r
    }

    /// A copy of the last job with identifier `id`, if there is one.
    pub fn get(&self, id: u32) -> (r: Option<Job>)
        ensures
            r.is_none() <==> !has_id(self.jobs@, id),
            r matches Some(j) ==> exists|i: int| is_last_with_id(self.jobs@, id, i) && j.same(self.jobs@[i]),
    {
        match self.position_last(id) {
            Some(i) => Some(self.jobs[i].clone()),
            None => None,
        }
    }

    fn position_last(&self, id: u32) -> (r: Option<usize>)
        ensures
            r.is_none() <==> !has_id(self.jobs@, id),
            r matches Some(i) ==> is_last_with_id(self.jobs@, id, i as int),
    {
        let mut k: usize = self.jobs.len();
        while k > 0
            invariant
                k <= self.jobs@.len(),
                forall|j: int| k <= j < self.jobs@.len() ==> self.jobs@[j].id != id,
            decreases k,
        {
            if self.jobs[k - 1].id == id {
                return Some(k - 1);
            }
            k -= 1;
        }
        None
    }

    fn position_first(&self, id: u32) -> (r: Option<usize>)
        ensures
            r.is_none() <==> !has_id(self.jobs@, id),
            r matches Some(i) ==> is_first_with_id(self.jobs@, id, i as int),
    {
        let mut k: usize = 0;
        while k < self.jobs.len()
            invariant
                k <= self.jobs@.len(),
                forall|j: int| 0 <= j < k ==> self.jobs@[j].id != id,
            decreases self.jobs@.len() - k,
        {
            if self.jobs[k].id == id {
                return Some(k);
            }
            k += 1;
        }
        None
    }

    /// Deletes the first job with identifier `id`; says whether one was found.
    /// When none is, the registry is left as it was.
    pub fn remove(&mut self, id: u32) -> (r: bool)
        requires
            old(self).wf(),
        ensures
            final(self).wf(),
            final(self).ids == old(self).ids,
            r == has_id(old(self).jobs@, id),
            !r ==> final(self).jobs@ == old(self).jobs@,
            r ==> exists|i: int| is_first_with_id(old(self).jobs@, id, i) && final(self).jobs@ == old(self).jobs@.remove(i),
    {
        match self.position_first(id) {
            Some(i) => {
                self.jobs.remove(i);
                assert(is_first_with_id(old(self).jobs@, id, i as int));
                assert forall|a: int, b: int| 0 <= a < b < self.jobs@.len() implies self.jobs@[a].id < self.jobs@[b].id by {
                    let oa = if a < i { a } else { a + 1 };
                    let ob = if b < i { b } else { b + 1 };
                    assert(self.jobs@[a] == old(self).jobs@[oa]);
                    assert(self.jobs@[b] == old(self).jobs@[ob]);
                }
                assert forall|a: int| 0 <= a < self.jobs@.len() implies (#[trigger] self.jobs@[a]).wf()
                    && self.ids.issued().contains(self.jobs@[a].id) by {
                    let oa = if a < i { a } else { a + 1 };
                    assert(self.jobs@[a] == old(self).jobs@[oa]);
                }
                true
            },
            None => false,
        }
    }

    /// Stores the outcome of a run in place of the last job with the same
    /// identifier; says whether there was one. When the job was deleted
    /// meanwhile, the registry is left as it was.
    pub fn write_back(&mut self, job: Job) -> (r: bool)
        requires
            old(self).wf(),
            job.wf(),
        ensures
            final(self).wf(),
            final(self).ids == old(self).ids,
            r == has_id(old(self).jobs@, job.id),
            !r ==> final(self).jobs@ == old(self).jobs@,
            r ==> exists|i: int| is_last_with_id(old(self).jobs@, job.id, i) && final(self).jobs@ == old(self).jobs@.update(i, job),
    {
        match self.position_last(job.id) {
            Some(i) => {
                let ghost gi = i as int;
                self.jobs.set(i, job);
                assert(self.jobs@ == old(self).jobs@.update(gi, self.jobs@[gi]));
                true
            },
            None => false,
        }
    }
}

/// Listing twice with the same filter and no change in between gives the
/// same jobs in the same order.
pub proof fn lemma_list_idempotent(jobs: Seq<Job>, q: QueryJobParams, first: Seq<Job>, second: Seq<Job>)
    requires
        same_jobs(first, matching(jobs, q)),
        same_jobs(second, matching(jobs, q)),
    ensures
        same_jobs(first, second),
{
    let m = matching(jobs, q);
    assert forall|i: int| 0 <= i < first.len() implies #[trigger] first[i].same(second[i]) by {
        assert(first[i].same(m[i]));
        assert(second[i].same(m[i]));
    }
}

/// A filter with no field set lists every job, in creation order.
pub proof fn lemma_list_unfiltered(jobs: Seq<Job>, q: QueryJobParams)
    requires
        q.problem_id.is_none(),
        q.language.is_none(),
        q.from.is_none(),
        q.to.is_none(),
        q.state.is_none(),
        q.result.is_none(),
    ensures
        matching(jobs, q) == jobs,
    decreases jobs.len(),
{
    reveal_with_fuel(Seq::filter, 1);
    if jobs.len() > 0 {
        lemma_list_unfiltered(jobs.drop_last(), q);
        assert(jobs.drop_last().push(jobs.last()) =~= jobs);
    }
}

/// Every job listed satisfies every field that the filter sets; in
/// particular a filter on state `Finished` and result `Accepted` lists only
/// finished, accepted jobs. An empty registry lists nothing.
pub proof fn lemma_filter_conjunction(jobs: Seq<Job>, q: QueryJobParams)
    ensures
        forall|i: int| 0 <= i < matching(jobs, q).len() ==> q.spec_matches(#[trigger] matching(jobs, q)[i]),
        q.state == Some(State::Finished) && q.result == Some(RunResult::Accepted) ==> forall|i: int|
            0 <= i < matching(jobs, q).len() ==> (#[trigger] matching(jobs, q)[i]).state == State::Finished
                && matching(jobs, q)[i].result == RunResult::Accepted,
        jobs.len() == 0 ==> matching(jobs, q).len() == 0,
{
    broadcast use vstd::seq_lib::group_filter_ensures;
    reveal_with_fuel(Seq::filter, 1);
}

/// No two jobs of a registry share an identifier, and each is below every
/// identifier the allocator will hand out.
pub proof fn lemma_ids_unique(jobs: JobList)
    requires
        jobs.wf(),
    ensures
        forall|i: int, j: int| 0 <= i < jobs.jobs@.len() && 0 <= j < jobs.jobs@.len() && i != j
            ==> jobs.jobs@[i].id != jobs.jobs@[j].id,
        forall|i: int| 0 <= i < jobs.jobs@.len() ==> #[trigger] jobs.jobs@[i].id < jobs.ids.next,
{
    assert forall|i: int| 0 <= i < jobs.jobs@.len() implies #[trigger] jobs.jobs@[i].id < jobs.ids.next by {
        assert(jobs.ids.issued().contains(jobs.jobs@[i].id));
    }
}

} // verus!
