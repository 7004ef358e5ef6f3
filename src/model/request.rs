use vstd::prelude::*;
use crate::model::{Job, RunResult, State};

verus! {

/// A submission: source code, the name of its language and the problem it answers.
pub struct PostJobParams {
    pub source_code: String,
    pub language: String,
    pub problem_id: u32,
}

impl Clone for PostJobParams {
    fn clone(&self) -> (r: Self)
        ensures
            r == *self,
    {
        PostJobParams {
            source_code: self.source_code.clone(),
            language: self.language.clone(),
            problem_id: self.problem_id,
        }
    }
}

/// A filter on jobs. Every field left unset matches every job; the fields
/// that are set must all match. `from` and `to` bound the creation time, both
/// inclusive, in milliseconds since the Unix epoch.
pub struct QueryJobParams {
    pub problem_id: Option<u32>,
    pub language: Option<String>,
    pub from: Option<i64>,
    pub to: Option<i64>,
    pub state: Option<State>,
    pub result: Option<RunResult>,
}

impl QueryJobParams {
    pub open spec fn spec_matches(self, job: Job) -> bool {
        &&& (self.problem_id matches Some(p) ==> p == job.problem.id)
        &&& (self.language matches Some(l) ==> l@ == job.language.name@)
        &&& (self.from matches Some(f) ==> f <= job.created_time)
        &&& (self.to matches Some(t) ==> job.created_time <= t)
        &&& (self.state matches Some(s) ==> s == job.state)
        &&& (self.result matches Some(r) ==> r == job.result)
    }

    /// A filter with no field set.
    pub fn all() -> (r: Self)
        ensures
            forall|job: Job| r.spec_matches(job),
    {
        QueryJobParams { problem_id: None, language: None, from: None, to: None, state: None, result: None }
    }

    pub fn matches(&self, job: &Job) -> (r: bool)
        ensures
            r == self.spec_matches(*job),
    {
        let same_problem = match self.problem_id {
            Some(p) => p == job.problem.id,
            None => true,
        };
        let same_language = match &self.language {
            Some(l) => *l == job.language.name,
            None => true,
        };
        let same_state = match self.state {
            Some(s) => s == job.state,
            None => true,
        };
        let same_result = match self.result {
            Some(r) => r == job.result,
            None => true,
        };
        same_problem && same_language && same_state && same_result && self.matches_time(job)
    }

    fn matches_time(&self, job: &Job) -> (r: bool)
        ensures
            r == ((self.from matches Some(f) ==> f <= job.created_time) && (self.to matches Some(t)
                ==> job.created_time <= t)),
    {
        if let Some(from) = self.from {
            if from > job.created_time {
                return false;
            }
        }
        if let Some(to) = self.to {
            if to < job.created_time {
                return false;
            }
        }
        true
    }
}

} // verus!
