//! The grading pipeline as a state machine. The caller performs each
//! returned [`Action`] (file staging, compiling, running a case under its time
//! limit, cleanup) and reports what happened as an [`Event`]; every decision
//! about states, verdicts and what comes next is taken here.

use vstd::prelude::*;
use vstd::string::*;
use crate::model::{
    all_accepted, input_path_of, output_path_of, source_path_of, Case, Job, RunResult, State,
};

verus! {

/// What the caller observed after performing the pending action.
pub enum Event {
    /// The source file and the scratch paths were prepared.
    Staged,
    /// The build command exited; `success` is whether its status was zero.
    Compiled { success: bool },
    /// The program did not exit within the case's time limit and was killed.
    CaseTimedOut { elapsed: u64 },
    /// The program exited in time: what it wrote and what was expected.
    CaseExited { output: Vec<u8>, expected: Vec<u8>, elapsed: u64 },
    /// A file or process operation failed.
    Fault,
}

/// What the caller is to do next.
pub enum Action {
    /// Create the parent directories of the three paths, write `code` to
    /// `source`, and create an empty `capture` file.
    Stage { source: String, output: String, capture: String, code: String },
    /// Spawn the build command (program, then arguments) and wait for it.
    Compile { command: Vec<String> },
    /// Run `program` with standard input from `input_file` and standard
    /// output into `capture`, for at most `time_limit` microseconds; then
    /// compare `capture` with `answer_file`.
    RunCase {
        index: usize,
        program: String,
        input_file: String,
        answer_file: String,
        capture: String,
        time_limit: u64,
    },
    /// Remove the three scratch files; a missing one is no error.
    Cleanup { source: String, output: String, capture: String },
    /// Nothing is left to do.
    Done,
}

/// `s` with every occurrence of `pat` replaced by `rep`, scanning left to
/// right and never overlapping two occurrences.
pub open spec fn replace_all(s: Seq<char>, pat: Seq<char>, rep: Seq<char>) -> Seq<char>
    decreases s.len(),
{
    if s.len() == 0 {
        s
    } else if 0 < pat.len() <= s.len() && s.subrange(0, pat.len() as int) == pat {
        rep + replace_all(s.subrange(pat.len() as int, s.len() as int), pat, rep)
    } else {
        seq![s[0]] + replace_all(s.subrange(1, s.len() as int), pat, rep)
    }
}

/// A build command token with every `%OUTPUT%` replaced, then every
/// `%INPUT%` in the result.
pub open spec fn substitute_token(t: Seq<char>, output: Seq<char>, input: Seq<char>) -> Seq<char> {
    replace_all(replace_all(t, "%OUTPUT%"@, output), "%INPUT%"@, input)
}

/// The build command with each token substituted.
pub open spec fn command_of(tokens: Seq<String>, output: Seq<char>, input: Seq<char>) -> Seq<Seq<char>> {
    Seq::new(tokens.len(), |i: int| substitute_token(tokens[i]@, output, input))
}

pub open spec fn string_views(v: Seq<String>) -> Seq<Seq<char>> {
    Seq::new(v.len(), |i: int| v[i]@)
}

/// The verdict of a case from what was observed.
pub open spec fn case_verdict(e: Event) -> RunResult {
    match e {
        Event::CaseExited { output, expected, .. } => if output@ == expected@ {
            RunResult::Accepted
        } else {
            RunResult::WrongAnswer
        },
        _ => RunResult::TimeLimitExceeded,
    }
}

pub open spec fn case_elapsed(e: Event) -> u64 {
    match e {
        Event::CaseExited { elapsed, .. } => elapsed,
        Event::CaseTimedOut { elapsed } => elapsed,
        _ => 0,
    }
}

/// The overall verdict of a job whose cases were all graded.
pub open spec fn aggregate(cases: Seq<Case>) -> RunResult {
    if all_accepted(cases) {
        RunResult::Accepted
    } else {
        RunResult::WrongAnswer
    }
}

impl Job {
    pub open spec fn case_count(self) -> nat {
        self.problem.cases@.len()
    }

    /// The job's state, verdict and case results agree with one another.
    pub open spec fn wf(self) -> bool {
        &&& self.case_count() <= u32::MAX
        &&& self.cases@.len() <= self.case_count()
        &&& forall|i: int| 0 <= i < self.cases@.len() ==> #[trigger] self.cases@[i].id == i
        &&& match self.state {
            State::Queueing => self.result == RunResult::Waiting && self.cases@.len() == 0,
            State::Running => (self.result == RunResult::Running && self.cases@.len() == 0) || (
            self.result == RunResult::CompilationSuccess && self.cases@.len() < self.case_count()),
            State::Finished => (self.result == RunResult::CompilationError && self.cases@.len() == 0)
                || (self.cases@.len() == self.case_count() && self.result == aggregate(self.cases@)),
            State::Canceled => self.result == RunResult::SystemError,
        }
    }

    /// Identity, submission, catalog snapshot and timestamps agree.
    pub open spec fn same_submission(self, o: Job) -> bool {
        &&& self.id == o.id
        &&& self.params == o.params
        &&& self.language == o.language
        &&& self.problem == o.problem
        &&& self.created_time == o.created_time
        &&& self.updated_time == o.updated_time
    }

    pub open spec fn is_stage(self, a: Action) -> bool {
        a matches Action::Stage { source, output, capture, code } && source@ == source_path_of(
            self.problem.id,
            self.id,
            self.language.file_name@,
        ) && output@ == output_path_of(self.problem.id, self.id) && capture@ == input_path_of(
            self.problem.id,
            self.id,
        ) && code@ == self.params.source_code@
    }

    pub open spec fn is_compile(self, a: Action) -> bool {
        a matches Action::Compile { command } && string_views(command@) == command_of(
            self.language.command@,
            output_path_of(self.problem.id, self.id),
            source_path_of(self.problem.id, self.id, self.language.file_name@),
        )
    }

    pub open spec fn is_run_case(self, a: Action, k: int) -> bool {
        a matches Action::RunCase { index, program, input_file, answer_file, capture, time_limit }
            && index == k && program@ == output_path_of(self.problem.id, self.id)
            && input_file@ == self.problem.cases@[k].input_file@
            && answer_file@ == self.problem.cases@[k].answer_file@
            && capture@ == input_path_of(self.problem.id, self.id)
            && time_limit == self.problem.cases@[k].time_limit
    }

    pub open spec fn is_cleanup(self, a: Action) -> bool {
        a matches Action::Cleanup { source, output, capture } && source@ == source_path_of(
            self.problem.id,
            self.id,
            self.language.file_name@,
        ) && output@ == output_path_of(self.problem.id, self.id) && capture@ == input_path_of(
            self.problem.id,
            self.id,
        )
    }

    /// The event is one that the action pending in this state can produce.
    pub open spec fn expects(self, e: Event) -> bool {
        match e {
            Event::Staged => self.state == State::Queueing,
            Event::Compiled { .. } => self.state == State::Running && self.result == RunResult::Running,
            Event::CaseTimedOut { .. } => self.state == State::Running && self.result
                == RunResult::CompilationSuccess,
            Event::CaseExited { .. } => self.state == State::Running && self.result
                == RunResult::CompilationSuccess,
            Event::Fault => false,
        }
    }

    /// One step of grading: how the job `next` and the action `a` follow from
    /// this job and the event `e`.
    pub open spec fn advances_to(self, e: Event, next: Job, a: Action) -> bool {
        &&& (self.is_terminal() ==> next == self && a == Action::Done)
        &&& (!self.is_terminal() && !self.expects(e) ==> next.state == State::Canceled
                && next.result == RunResult::SystemError && next.cases@ == self.cases@
                && next.is_cleanup(a))
        &&& (self.state == State::Queueing && e == Event::Staged ==> next.state == State::Running
                && next.result == RunResult::Running && next.cases@.len() == 0
                && next.is_compile(a))
        &&& (self.expects(e) && e == (Event::Compiled { success: false }) ==> next.state
                == State::Finished && next.result == RunResult::CompilationError
                && next.cases@.len() == 0 && next.is_cleanup(a))
        &&& (self.expects(e) && e == (Event::Compiled { success: true }) ==> next.cases@.len() == 0
                && if self.case_count() == 0 {
                next.state == State::Finished && next.result == RunResult::Accepted
                    && next.is_cleanup(a)
            } else {
                next.state == State::Running && next.result == RunResult::CompilationSuccess
                    && next.is_run_case(a, 0)
            })
        &&& (self.expects(e) && (e is CaseTimedOut || e is CaseExited) ==> {
                let k = self.cases@.len() as int;
                let c = next.cases@[k as int];
                &&& next.cases@.len() == k + 1
                &&& next.cases@.subrange(0, k as int) == self.cases@
                &&& c.id == k && c.result == case_verdict(e) && c.time == case_elapsed(e)
                &&& c.memory == 0 && c.info@.len() == 0
                &&& if k + 1 < self.case_count() {
                    next.state == State::Running && next.result == RunResult::CompilationSuccess
                        && next.is_run_case(a, k + 1 as int)
                } else {
                    next.state == State::Finished && next.result == aggregate(next.cases@)
                        && next.is_cleanup(a)
                }
            })
    }

    pub open spec fn is_terminal(self) -> bool {
        self.state == State::Finished || self.state == State::Canceled
    }

    /// Marks the job as stopped by an infrastructure fault.
    pub fn system_error(&mut self)
        ensures
            final(self).same_submission(*old(self)),
            final(self).state == State::Canceled,
            final(self).result == RunResult::SystemError,
            final(self).cases@ == old(self).cases@,
    {
        self.state = State::Canceled;
        self.result = RunResult::SystemError;
    }

    fn stage_action(&self) -> (a: Action)
        ensures
            self.is_stage(a),
    {
        Action::Stage {
            source: self.source_path(),
            output: self.output_path(),
            capture: self.input_path(),
            code: self.params.source_code.clone(),
        }
    }

    fn cleanup_action(&self) -> (a: Action)
        ensures
            self.is_cleanup(a),
    {
        Action::Cleanup { source: self.source_path(), output: self.output_path(), capture: self.input_path() }
    }

    fn case_action(&self, k: usize) -> (a: Action)
        requires
            k < self.case_count(),
        ensures
            self.is_run_case(a, k as int),
    {
        let case = &self.problem.cases[k];
        Action::RunCase {
            index: k,
            program: self.output_path(),
            input_file: case.input_file.clone(),
            answer_file: case.answer_file.clone(),
            capture: self.input_path(),
            time_limit: case.time_limit,
        }
    }

    /// The build command of the job's language with `%OUTPUT%` replaced by
    /// the program path and `%INPUT%` by the source path.
    pub fn build_command(&self) -> (r: Vec<String>)
        ensures
            string_views(r@) == command_of(
                self.language.command@,
                output_path_of(self.problem.id, self.id),
                source_path_of(self.problem.id, self.id, self.language.file_name@),
            ),
    {
        let output = self.output_path();
        let source = self.source_path();
        let tokens = &self.language.command;
        let mut r: Vec<String> = Vec::new();
        let mut k: usize = 0;
        while k < tokens.len()
            invariant
                k <= tokens@.len(),
                r@.len() == k,
                forall|i: int| 0 <= i < k ==> #[trigger] r@[i]@ == substitute_token(tokens@[i]@, output@, source@),
            decreases tokens@.len() - k,
        {
            let with_output = replace_str(tokens[k].as_str(), "%OUTPUT%", output.as_str());
            r.push(replace_str(with_output.as_str(), "%INPUT%", source.as_str()));
            k += 1;
        }
        assert(string_views(r@) =~= command_of(tokens@, output@, source@));
        r
    }
}

impl Job {
    /// Begins a run, or a fresh run of a job graded before: the job goes back
    /// to `Queueing` with verdict `Waiting` and no case results, and the
    /// caller is to stage its files.
    pub fn run(&mut self) -> (a: Action)
        requires
            old(self).case_count() <= u32::MAX,
        ensures
            final(self).same_submission(*old(self)),
            final(self).state == State::Queueing,
            final(self).result == RunResult::Waiting,
            final(self).cases@.len() == 0,
            final(self).wf(),
            final(self).is_stage(a),
    {
        self.state = State::Queueing;
        self.result = RunResult::Waiting;
        self.cases = Vec::new();
        self.stage_action()
    }

    /// Ends the job after an infrastructure fault; its files are to be removed.
    fn cancel(&mut self) -> (a: Action)
        requires
            old(self).wf(),
        ensures
            final(self).same_submission(*old(self)),
            final(self).state == State::Canceled,
            final(self).result == RunResult::SystemError,
            final(self).cases@ == old(self).cases@,
            final(self).wf(),
            final(self).is_cleanup(a),
    {
        self.system_error();
        self.cleanup_action()
    }

    /// Takes the outcome of the pending action and decides what comes next.
    ///
    /// A finished or canceled job is left as it is. An event that the pending
    /// action cannot produce, or a fault, cancels the job with `SystemError`.
    /// A failed build finishes the job with `CompilationError` and no case
    /// results. Each graded case, timed out or not, is appended in order, and
    /// once all are graded the job finishes with `Accepted` exactly when every
    /// case was accepted, else `WrongAnswer`.
    pub fn advance(&mut self, event: Event) -> (a: Action)
        requires
            old(self).wf(),
        ensures
            final(self).wf(),
            final(self).same_submission(*old(self)),
            old(self).advances_to(event, *final(self), a),
    {
        if self.state == State::Finished || self.state == State::Canceled {
            return Action::Done;
        }
        match event {
            Event::Staged => {
                if self.state != State::Queueing {
                    return self.cancel();
                }
                self.state = State::Running;
                self.result = RunResult::Running;
                Action::Compile { command: self.build_command() }
            },
            Event::Compiled { success } => {
                if self.result != RunResult::Running {
                    return self.cancel();
                }
                if !success {
                    self.state = State::Finished;
                    self.result = RunResult::CompilationError;
                    return self.cleanup_action();
                }
                if self.problem.cases.len() == 0 {
                    self.state = State::Finished;
                    self.result = RunResult::Accepted;
                    return self.cleanup_action();
                }
                self.result = RunResult::CompilationSuccess;
                self.case_action(0)
            },
            Event::CaseTimedOut { elapsed } => {
                if self.result != RunResult::CompilationSuccess {
                    return self.cancel();
                }
                self.record_case(RunResult::TimeLimitExceeded, elapsed)
            },
            Event::CaseExited { output, expected, elapsed } => {
                if self.result != RunResult::CompilationSuccess {
                    return self.cancel();
                }
                let verdict = if same_bytes(&output, &expected) {
                    RunResult::Accepted
                } else {
                    RunResult::WrongAnswer
                };
                self.record_case(verdict, elapsed)
            },
            Event::Fault => self.cancel(),
        }
    }

    /// Appends the result of the pending case and moves to the next case, or
    /// finishes the job with the aggregate verdict after the last one.
    fn record_case(&mut self, verdict: RunResult, elapsed: u64) -> (a: Action)
        requires
            old(self).wf(),
            old(self).state == State::Running,
            old(self).result == RunResult::CompilationSuccess,
        ensures
            final(self).wf(),
            final(self).same_submission(*old(self)),
            ({
                let k = old(self).cases@.len() as int;
                let c = final(self).cases@[k as int];
                &&& final(self).cases@.len() == k + 1
                &&& final(self).cases@.subrange(0, k as int) == old(self).cases@
                &&& c.id == k && c.result == verdict && c.time == elapsed
                &&& c.memory == 0 && c.info@.len() == 0
                &&& if k + 1 < old(self).case_count() {
                    final(self).state == State::Running && final(self).result == RunResult::CompilationSuccess
                        && final(self).is_run_case(a, k + 1 as int)
                } else {
                    final(self).state == State::Finished && final(self).result == aggregate(final(self).cases@)
                        && final(self).is_cleanup(a)
                }
            }),
    {
        let k = self.cases.len();
        let mut c = Case::new(k as u32);
        c.result = verdict;
        c.time = elapsed;
        self.cases.push(c);
        assert(self.cases@.subrange(0, k as int) =~= old(self).cases@);
        if k + 1 < self.problem.cases.len() {
            self.case_action(k + 1)
        } else {
            self.state = State::Finished;
            if cases_all_accepted(&self.cases) {
                self.result = RunResult::Accepted;
            } else {
                self.result = RunResult::WrongAnswer;
            }
            self.cleanup_action()
        }
    }
}

/// A job never holds more case results than its problem has cases, and a
/// job that finished without a compilation error holds exactly one result per
/// case.
pub proof fn lemma_case_count(job: Job)
    requires
        job.wf(),
    ensures
        job.cases@.len() <= job.problem.cases@.len(),
        job.state == State::Finished && job.result != RunResult::CompilationError ==> job.cases@.len()
            == job.problem.cases@.len(),
{
}

/// A case that runs past its time limit is recorded, at its own index, as
/// `TimeLimitExceeded`, and grading goes on: the next case is run, or, after
/// the last case, the job finishes with `WrongAnswer`.
pub proof fn lemma_timeout_continues(before: Job, after: Job, a: Action, elapsed: u64)
    requires
        before.wf(),
        before.state == State::Running,
        before.result == RunResult::CompilationSuccess,
        before.advances_to(Event::CaseTimedOut { elapsed }, after, a),
    ensures
        ({
            let k = before.cases@.len() as int;
            &&& after.cases@.len() == k + 1
            &&& after.cases@.subrange(0, k) == before.cases@
            &&& after.cases@[k].id == k
            &&& after.cases@[k].result == RunResult::TimeLimitExceeded
            &&& k + 1 < before.case_count() ==> after.state == State::Running && after.is_run_case(a, k + 1)
            &&& k + 1 == before.case_count() ==> after.state == State::Finished && after.result
                == RunResult::WrongAnswer
        }),
{
    let k = before.cases@.len() as int;
    assert(!all_accepted(after.cases@)) by {
        assert(after.cases@[k].result == RunResult::TimeLimitExceeded);
    }
}

/// A build that fails finishes the job with `CompilationError` and no case
/// results.
pub proof fn lemma_compile_failure_short_circuits(before: Job, after: Job, a: Action)
    requires
        before.wf(),
        before.state == State::Running,
        before.result == RunResult::Running,
        before.advances_to(Event::Compiled { success: false }, after, a),
    ensures
        after.state == State::Finished,
        after.result == RunResult::CompilationError,
        after.cases@.len() == 0,
        after.is_cleanup(a),
{
}

/// `s` with every occurrence of `pat` replaced by `rep`.
pub fn replace_str(s: &str, pat: &str, rep: &str) -> (r: String)
    ensures
        r@ == replace_all(s@, pat@, rep@),
{
    let n = s.unicode_len();
    let m = pat.unicode_len();
    let pattern = String::from_str(pat);
    let mut r = String::new();
    let mut i: usize = 0;
    assert(s@.subrange(0, n as int) =~= s@);
    while i < n
        invariant
            i <= n == s@.len(),
            m == pat@.len(),
            pattern@ == pat@,
            replace_all(s@, pat@, rep@) == r@ + replace_all(s@.subrange(i as int, n as int), pat@, rep@),
        decreases n - i,
    {
        let ghost rest = s@.subrange(i as int, n as int);
        let ghost before = r@;
        let found = if 0 < m && m <= n - i {
            let window = String::from_str(s.substring_char(i, i + m));
            assert(rest.subrange(0, m as int) =~= s@.subrange(i as int, i + m));
            window == pattern
        } else {
            false
        };
        if found {
            assert(rest.subrange(m as int, rest.len() as int) =~= s@.subrange(i + m, n as int));
            r.append(rep);
            assert(before + (rep@ + replace_all(s@.subrange(i + m, n as int), pat@, rep@)) =~= r@
                + replace_all(s@.subrange(i + m, n as int), pat@, rep@));
            i = i + m;
        } else {
            assert(rest.subrange(1, rest.len() as int) =~= s@.subrange(i + 1, n as int));
            assert(0 < m <= rest.len() ==> rest.subrange(0, m as int) =~= s@.subrange(i as int, i + m));
            r.append(s.substring_char(i, i + 1));
            assert(s@.subrange(i as int, i + 1) =~= seq![rest[0]]);
            assert(before + (seq![rest[0]] + replace_all(s@.subrange(i + 1, n as int), pat@, rep@)) =~= r@
                + replace_all(s@.subrange(i + 1, n as int), pat@, rep@));
            i = i + 1;
        }
    }
    assert(r@ + replace_all(s@.subrange(n as int, n as int), pat@, rep@) =~= r@);
    r
}

/// Whether two byte strings are equal.
pub fn same_bytes(a: &Vec<u8>, b: &Vec<u8>) -> (r: bool)
    ensures
        r == (a@ == b@),
{
    if a.len() != b.len() {
        return false;
    }
    let mut k: usize = 0;
    while k < a.len()
        invariant
            k <= a@.len() == b@.len(),
            forall|i: int| 0 <= i < k ==> a@[i] == b@[i],
        decreases a@.len() - k,
    {
        if a[k] != b[k] {
            return false;
        }
        k += 1;
    }
    assert(a@ =~= b@);
    true
}

/// Whether every case result is `Accepted`.
pub fn cases_all_accepted(cases: &Vec<Case>) -> (r: bool)
    ensures
        r == all_accepted(cases@),
{
    let mut k: usize = 0;
    while k < cases.len()
        invariant
            k <= cases@.len(),
            forall|i: int| 0 <= i < k ==> #[trigger] cases@[i].result == RunResult::Accepted,
        decreases cases@.len() - k,
    {
        if cases[k].result != RunResult::Accepted {
            return false;
        }
        k += 1;
    }
    true
}

} // verus!
