//! The service's operations on jobs, apart from the transport: resolving a
//! submission against the catalog, registering it, listing, looking up,
//! preparing a re-run and deleting.

use vstd::prelude::*;
use vstd::string::*;
use crate::err::AppError;
use crate::model::config::Config;
use crate::model::request::{PostJobParams, QueryJobParams};
use crate::model::{same_jobs, Job, RunResult, State};
use crate::registry::{has_id, is_first_with_id, is_last_with_id, matching, JobList};

verus! {

/// Shared, read-only state of the service.
pub struct AppState {
    pub config: Config,
}

/// Message of the error for a submission whose problem or language is unknown.
pub open spec fn unknown_problem_message() -> Seq<char> {
    "the problem does not exist!"@
}

/// Message of the error for an unknown job identifier.
pub open spec fn unknown_job_message() -> Seq<char> {
    "can not found this job!"@
}

fn unknown_job() -> (r: Box<AppError>)
    ensures
        r.message@ == unknown_job_message(),
{
    AppError::new(String::from_str("can not found this job!"))
}

/// Resolves a submission's problem and language in the catalog and registers
/// a new job for it in state `Queueing`, created at `now` (milliseconds since
/// the Unix epoch), which is returned for grading. When
/// either is unknown, nothing is registered and a client error is returned.
pub fn post_job(data: &AppState, jobs: &mut JobList, params: PostJobParams, now: i64) -> (r: Result<Job, Box<AppError>>)
    requires
        data.config.wf(),
        old(jobs).wf(),
        old(jobs).ids.next < u32::MAX,
    ensures
        final(jobs).wf(),
        r.is_err() <==> (forall|i: int| 0 <= i < data.config.problems@.len() ==> data.config.problems@[i].id
            != params.problem_id) || (forall|i: int| 0 <= i < data.config.languages@.len()
            ==> data.config.languages@[i].name@ != params.language@),
        r matches Err(e) ==> e.message@ == unknown_problem_message() && *final(jobs) == *old(jobs),
        r matches Ok(job) ==> {
            &&& job.id == old(jobs).ids.next
            &&& forall|k: u32| old(jobs).ids.issued().contains(k) ==> k < job.id
            &&& final(jobs).ids.issued() == old(jobs).ids.issued().insert(job.id)
            &&& job.params == params
            &&& job.state == State::Queueing
            &&& job.result == RunResult::Waiting
            &&& job.cases@.len() == 0
            &&& job.created_time == now
            &&& job.updated_time == now
            &&& job.wf()
            &&& (exists|i: int| 0 <= i < data.config.problems@.len() && data.config.problems@[i].id == params.problem_id
                && job.problem.same(data.config.problems@[i]) && (forall|j: int| 0 <= j < i
                ==> data.config.problems@[j].id != params.problem_id))
            &&& (exists|i: int| 0 <= i < data.config.languages@.len() && data.config.languages@[i].name@ == params.language@
                && job.language.same(data.config.languages@[i]) && (forall|j: int| 0 <= j < i
                ==> data.config.languages@[j].name@ != params.language@))
            &&& final(jobs).jobs@.len() == old(jobs).jobs@.len() + 1
            &&& final(jobs).jobs@.drop_last() == old(jobs).jobs@
            &&& final(jobs).jobs@.last().same(job)
            &&& forall|i: int| 0 <= i < old(jobs).jobs@.len() ==> #[trigger] old(jobs).jobs@[i].id != job.id
        },
{
    let problem = data.config.find_problem(params.problem_id);
    let language = data.config.find_language(&params.language);
    match (problem, language) {
        (Some(problem), Some(language)) => {
            proof {
                crate::registry::lemma_ids_unique(*jobs);
            }
            let job = jobs.register(params, problem, language, now);
            Ok(job)
        },
        _ => Err(AppError::new(String::from_str("the problem does not exist!"))),
    }
}

/// Copies of the jobs that the filter matches, in creation order.
pub fn get_jobs(jobs: &JobList, query: &QueryJobParams) -> (r: Vec<Job>)
    ensures
        same_jobs(r@, matching(jobs.jobs@, *query)),
{
    jobs.list(query)
}

/// A copy of the job with the given identifier, if there is one.
pub fn get_job_by_id(jobs: &JobList, job_id: u32) -> (r: Option<Job>)
    ensures
        r.is_none() <==> !has_id(jobs.jobs@, job_id),
        r matches Some(j) ==> exists|i: int| is_last_with_id(jobs.jobs@, job_id, i) && j.same(jobs.jobs@[i]),
{
    jobs.get(job_id)
}

/// A copy of the job to grade again, or a client error for an unknown
/// identifier. The caller runs it and stores it back with
/// [`JobList::write_back`].
pub fn put_job_by_id(jobs: &JobList, job_id: u32) -> (r: Result<Job, Box<AppError>>)
    ensures
        r.is_err() <==> !has_id(jobs.jobs@, job_id),
        r matches Err(e) ==> e.message@ == unknown_job_message(),
        r matches Ok(j) ==> exists|i: int| is_last_with_id(jobs.jobs@, job_id, i) && j.same(jobs.jobs@[i]),
{
    match jobs.get(job_id) {
        Some(job) => Ok(job),
        None => Err(unknown_job()),
    }
}

/// Deletes the job with the given identifier, or returns a client error and
/// leaves the registry as it was.
pub fn delete_job_by_id(jobs: &mut JobList, job_id: u32) -> (r: Result<(), Box<AppError>>)
    requires
        old(jobs).wf(),
    ensures
        final(jobs).wf(),
        final(jobs).ids == old(jobs).ids,
        r.is_err() <==> !has_id(old(jobs).jobs@, job_id),
        r matches Err(e) ==> e.message@ == unknown_job_message() && final(jobs).jobs@ == old(jobs).jobs@,
        r.is_ok() ==> exists|i: int| is_first_with_id(old(jobs).jobs@, job_id, i) && final(jobs).jobs@ == old(jobs).jobs@.remove(i),
{
    if jobs.remove(job_id) {
        Ok(())
    } else {
        Err(unknown_job())
    }
}

} // verus!
