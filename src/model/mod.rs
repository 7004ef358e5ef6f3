use vstd::prelude::*;
use vstd::string::*;
use crate::model::config::{Language, Problem};
use crate::model::request::PostJobParams;

pub mod config;
pub mod paths;
pub mod request;
pub mod response;
pub mod run;

verus! {

/// Where a job stands in its life.
#[derive(Clone, Copy, Debug, PartialEq, Eq, Structural)]
pub enum State {
    Queueing,
    Running,
    Finished,
    Canceled,
}

/// Verdict of a job or of one of its cases.
#[derive(Clone, Copy, Debug, PartialEq, Eq, Structural)]
pub enum RunResult {
    Waiting,
    Running,
    Accepted,
    CompilationError,
    CompilationSuccess,
    WrongAnswer,
    RuntimeError,
    TimeLimitExceeded,
    MemoryLimitExceeded,
    SystemError,
    SpjError,
    Skipped,
}

/// Result of one graded case: its index, verdict, elapsed time in
/// microseconds, memory used and free text.
pub struct Case {
    pub id: u32,
    pub result: RunResult,
    pub time: u64,
    pub memory: u64,
    pub info: String,
}

/// A submission graded against a problem, with the catalog entries it was
/// resolved to at creation, its state, verdict and per-case results.
/// Times are milliseconds since the Unix epoch.
pub struct Job {
    pub id: u32,
    pub params: PostJobParams,
    pub language: Language,
    pub problem: Problem,
    pub state: State,
    pub created_time: i64,
    pub updated_time: i64,
    pub result: RunResult,
    pub cases: Vec<Case>,
}

impl Case {
    pub fn new(id: u32) -> (r: Self)
        ensures
            r.id == id,
            r.result == RunResult::Waiting,
            r.time == 0,
            r.memory == 0,
            r.info@ == Seq::<char>::empty(),
    {
        Case { id, result: RunResult::Waiting, time: 0, memory: 0, info: String::new() }
    }
}

impl Clone for Case {
    fn clone(&self) -> (r: Self)
        ensures
            r == *self,
    {
        Case { id: self.id, result: self.result, time: self.time, memory: self.memory, info: self.info.clone() }
    }
}

/// Every case result is `Accepted`.
pub open spec fn all_accepted(cases: Seq<Case>) -> bool {
    forall|i: int| 0 <= i < cases.len() ==> #[trigger] cases[i].result == RunResult::Accepted
}

/// The decimal digits of `n`, most significant first.
pub open spec fn decimal_of(n: nat) -> Seq<char>
    decreases n,
{
    if n < 10 {
        seq![digit_char(n)]
    } else {
        decimal_of(n / 10) + seq![digit_char(n % 10)]
    }
}

pub open spec fn digit_char(d: nat) -> char {
    if d == 0 { '0' } else if d == 1 { '1' } else if d == 2 { '2' } else if d == 3 { '3' }
    else if d == 4 { '4' } else if d == 5 { '5' } else if d == 6 { '6' } else if d == 7 { '7' }
    else if d == 8 { '8' } else { '9' }
}

/// The digit `d` as text.
fn digit_str(d: u32) -> (r: &'static str)
    requires
        d < 10,
    ensures
        r@ == seq![digit_char(d as nat)],
{
    proof {
        reveal_strlit("0");
        reveal_strlit("1");
        reveal_strlit("2");
        reveal_strlit("3");
        reveal_strlit("4");
        reveal_strlit("5");
        reveal_strlit("6");
        reveal_strlit("7");
        reveal_strlit("8");
        reveal_strlit("9");
    }
    if d == 0 { "0" } else if d == 1 { "1" } else if d == 2 { "2" } else if d == 3 { "3" }
    else if d == 4 { "4" } else if d == 5 { "5" } else if d == 6 { "6" } else if d == 7 { "7" }
    else if d == 8 { "8" } else { "9" }
}

/// The decimal digits of `n`, without sign or padding.
fn decimal(n: u32) -> (r: String)
    ensures
        r@ == decimal_of(n as nat),
    decreases n,
{
    if n < 10 {
        String::from_str(digit_str(n))
    } else {
        let mut s = decimal(n / 10);
        s.append(digit_str(n % 10));
        s
    }
}

/// Position of the last `.` in a name, or -1.
pub open spec fn last_dot(s: Seq<char>) -> int
    decreases s.len(),
{
    if s.len() == 0 {
        -1
    } else if s.last() == '.' {
        s.len() - 1
    } else {
        last_dot(s.drop_last())
    }
}

/// Name of a staged source file: the job id, then the extension of the
/// language's file name when it has one.
pub open spec fn source_file_name(id: u32, file_name: Seq<char>) -> Seq<char> {
    let d = last_dot(file_name);
    if d < 0 {
        decimal_of(id as nat)
    } else {
        decimal_of(id as nat) + file_name.subrange(d, file_name.len() as int)
    }
}

pub open spec fn problem_dir(problem_id: u32) -> Seq<char> {
    "./problem/"@ + decimal_of(problem_id as nat)
}

/// `./problem/<problem>/source/<id>.<ext>`
pub open spec fn source_path_of(problem_id: u32, id: u32, file_name: Seq<char>) -> Seq<char> {
    problem_dir(problem_id) + "/source/"@ + source_file_name(id, file_name)
}

/// `./problem/<problem>/output/<id>`: the compiled program.
pub open spec fn output_path_of(problem_id: u32, id: u32) -> Seq<char> {
    problem_dir(problem_id) + "/output/"@ + decimal_of(id as nat)
}

/// `./problem/<problem>/input/<id>.txt`: where a case's standard output is captured.
pub open spec fn input_path_of(problem_id: u32, id: u32) -> Seq<char> {
    problem_dir(problem_id) + "/input/"@ + decimal_of(id as nat) + ".txt"@
}

/// Position of the last `.` in `s`, or `None`.
fn find_last_dot(s: &str) -> (r: Option<usize>)
    ensures
        r matches Some(i) ==> last_dot(s@) == i && i < s@.len(),
        r.is_none() ==> last_dot(s@) == -1,
{
    let n = s.unicode_len();
    let mut k: usize = n;
    assert(s@.subrange(0, n as int) =~= s@);
    while k > 0
        invariant
            k <= n == s@.len(),
            last_dot(s@) == last_dot(s@.subrange(0, k as int)),
        decreases k,
    {
        assert(s@.subrange(0, k as int).drop_last() =~= s@.subrange(0, k - 1));
        if s.get_char(k - 1) == '.' {
            return Some(k - 1);
        }
        k -= 1;
    }
    assert(s@.subrange(0, 0).len() == 0);
    None
}

impl Job {
    /// Two jobs hold the same data.
    pub open spec fn same(self, o: Job) -> bool {
        &&& self.id == o.id
        &&& self.params == o.params
        &&& self.language.same(o.language)
        &&& self.problem.same(o.problem)
        &&& self.state == o.state
        &&& self.created_time == o.created_time
        &&& self.updated_time == o.updated_time
        &&& self.result == o.result
        &&& self.cases@ == o.cases@
    }
}

/// Element by element, the two sequences hold the same jobs.
pub open spec fn same_jobs(a: Seq<Job>, b: Seq<Job>) -> bool {
    a.len() == b.len() && forall|i: int| 0 <= i < a.len() ==> #[trigger] a[i].same(b[i])
}

impl Clone for Job {
    fn clone(&self) -> (r: Self)
        ensures
            r.same(*self),
    {
        let cases = self.cases.clone();
        assert(cases@ =~= self.cases@);
        Job {
            id: self.id,
            params: self.params.clone(),
            language: self.language.clone(),
            problem: self.problem.clone(),
            state: self.state,
            created_time: self.created_time,
            updated_time: self.updated_time,
            result: self.result,
            cases,
        }
    }
}

impl Job {
    pub fn new(id: u32, params: PostJobParams, problem: Problem, language: Language, now: i64) -> (r: Job)
        ensures
            r.id == id,
            r.params == params,
            r.problem == problem,
            r.language == language,
            r.state == State::Queueing,
            r.result == RunResult::Waiting,
            r.created_time == now,
            r.updated_time == now,
            r.cases@.len() == 0,
    {
        Job {
            id,
            params,
            language,
            problem,
            state: State::Queueing,
            created_time: now,
            updated_time: now,
            result: RunResult::Waiting,
            cases: Vec::new(),
        }
    }

    /// Records when the job last changed.
    pub fn set_updated_time(&mut self, now: i64)
        ensures
            final(self).updated_time == now,
            final(self).id == old(self).id,
            final(self).params == old(self).params,
            final(self).language == old(self).language,
            final(self).problem == old(self).problem,
            final(self).state == old(self).state,
            final(self).created_time == old(self).created_time,
            final(self).result == old(self).result,
            final(self).cases == old(self).cases,
    {
        self.updated_time = now;
    }

    fn problem_dir(&self) -> (r: String)
        ensures
            r@ == problem_dir(self.problem.id),
    {
        let mut s = String::from_str("./problem/");
        let d = decimal(self.problem.id);
        s.append(d.as_str());
        s
    }

    pub fn source_path(&self) -> (r: String)
        ensures
            r@ == source_path_of(self.problem.id, self.id, self.language.file_name@),
    {
        let mut s = self.problem_dir();
        s.append("/source/");
        let d = decimal(self.id);
        s.append(d.as_str());
        let name = self.language.file_name.as_str();
        match find_last_dot(name) {
            Some(i) => {
                let ext = name.substring_char(i, name.unicode_len());
                s.append(ext);
            },
            None => {},
        }
        s
    }

    pub fn output_path(&self) -> (r: String)
        ensures
            r@ == output_path_of(self.problem.id, self.id),
    {
        let mut s = self.problem_dir();
        s.append("/output/");
        let d = decimal(self.id);
        s.append(d.as_str());
        s
    }

    pub fn input_path(&self) -> (r: String)
        ensures
            r@ == input_path_of(self.problem.id, self.id),
    {
        let mut s = self.problem_dir();
        s.append("/input/");
        let d = decimal(self.id);
        s.append(d.as_str());
        s.append(".txt");
        s
    }
}

} // verus!
