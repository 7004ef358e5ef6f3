use oj_judge::controller::jobs::{delete_job_by_id, get_job_by_id, get_jobs, post_job, put_job_by_id, AppState};
use oj_judge::err::AppError;
use oj_judge::model::config::{Case as CaseSpec, Config, Language, Problem, Server};
use oj_judge::model::request::{PostJobParams, QueryJobParams};
use oj_judge::model::response::BaseResponse;
use oj_judge::model::run::Event;
use oj_judge::model::{RunResult, State};
use oj_judge::registry::{IdAllocator, JobList};

fn state() -> AppState {
    let case = |i: &str, a: &str| CaseSpec {
        input_file: i.to_string(),
        answer_file: a.to_string(),
        time_limit: 1_000_000,
        memory_limit: 0,
    };
    AppState {
        config: Config {
            server: Server { bind_address: "127.0.0.1".to_string(), bind_port: 12345 },
            problems: vec![Problem {
                id: 0,
                name: "echo".to_string(),
                problem_type: "standard".to_string(),
                cases: vec![case("in1", "ans1"), case("in2", "ans2")],
            }],
            languages: vec![Language {
                name: "echo-style".to_string(),
                file_name: "main.sh".to_string(),
                command: vec!["cp".to_string(), "%INPUT%".to_string(), "%OUTPUT%".to_string()],
            }],
        },
    }
}

fn params(problem_id: u32, language: &str) -> PostJobParams {
    PostJobParams { source_code: "cat".to_string(), language: language.to_string(), problem_id }
}

fn run_to_end(jobs: &mut JobList, id: u32, accept: bool) {
    let mut job = put_job_by_id(jobs, id).ok().unwrap();
    job.run();
    job.advance(Event::Staged);
    job.advance(Event::Compiled { success: true });
    for answer in ["2\n", "3\n"] {
        let output = if accept { answer } else { "0" };
        job.advance(Event::CaseExited {
            output: output.as_bytes().to_vec(),
            expected: answer.as_bytes().to_vec(),
            elapsed: 1,
        });
    }
    assert!(jobs.write_back(job));
}

#[test]
fn allocator_counts_up_from_zero() {
    let mut ids = IdAllocator::new();
    assert_eq!(ids.next(), 0);
    assert_eq!(ids.next(), 1);
    assert_eq!(ids.next(), 2);
}

#[test]
fn submissions_get_increasing_ids() {
    let data = state();
    let mut jobs = JobList::new();
    let a = post_job(&data, &mut jobs, params(0, "echo-style"), 1000).ok().unwrap();
    let b = post_job(&data, &mut jobs, params(0, "echo-style"), 1000).ok().unwrap();
    assert_eq!(a.id, 0);
    assert_eq!(b.id, 1);
    assert!(delete_job_by_id(&mut jobs, 1).is_ok());
    let c = post_job(&data, &mut jobs, params(0, "echo-style"), 1000).ok().unwrap();
    assert_eq!(c.id, 2);
    assert_eq!(c.state, State::Queueing);
    assert_eq!(c.problem.cases.len(), 2);
    assert_eq!(jobs.jobs.len(), 2);
}

#[test]
fn unknown_problem_is_a_client_error() {
    let data = state();
    let mut jobs = JobList::new();
    let e = post_job(&data, &mut jobs, params(9, "echo-style"), 1000).err().unwrap();
    assert_eq!(e.message, "the problem does not exist!");
    let e = post_job(&data, &mut jobs, params(0, "cobol"), 1000).err().unwrap();
    assert_eq!(e.message, "the problem does not exist!");
    assert!(jobs.jobs.is_empty());
    assert_eq!(jobs.ids.next, 0);
}

#[test]
fn delete_of_unknown_id_leaves_registry() {
    let data = state();
    let mut jobs = JobList::new();
    post_job(&data, &mut jobs, params(0, "echo-style"), 1000).ok().unwrap();
    let e = delete_job_by_id(&mut jobs, 42).err().unwrap();
    assert_eq!(e.message, "can not found this job!");
    assert_eq!(jobs.jobs.len(), 1);
    assert_eq!(jobs.jobs[0].id, 0);
}

#[test]
fn delete_removes_the_job() {
    let data = state();
    let mut jobs = JobList::new();
    post_job(&data, &mut jobs, params(0, "echo-style"), 1000).ok().unwrap();
    post_job(&data, &mut jobs, params(0, "echo-style"), 1000).ok().unwrap();
    assert!(delete_job_by_id(&mut jobs, 0).is_ok());
    assert_eq!(jobs.jobs.len(), 1);
    assert_eq!(jobs.jobs[0].id, 1);
    assert!(get_job_by_id(&jobs, 0).is_none());
}

#[test]
fn get_and_rerun_unknown_id() {
    let jobs = JobList::new();
    assert!(get_job_by_id(&jobs, 3).is_none());
    let e = put_job_by_id(&jobs, 3).err().unwrap();
    assert_eq!(e.message, "can not found this job!");
}

#[test]
fn rerun_is_written_back() {
    let data = state();
    let mut jobs = JobList::new();
    post_job(&data, &mut jobs, params(0, "echo-style"), 1000).ok().unwrap();
    run_to_end(&mut jobs, 0, false);
    assert_eq!(get_job_by_id(&jobs, 0).unwrap().result, RunResult::WrongAnswer);
    run_to_end(&mut jobs, 0, true);
    let j = get_job_by_id(&jobs, 0).unwrap();
    assert_eq!(j.result, RunResult::Accepted);
    assert_eq!(j.cases.len(), 2);
    assert_eq!(j.state, State::Finished);
}

#[test]
fn write_back_after_delete_is_refused() {
    let data = state();
    let mut jobs = JobList::new();
    let job = post_job(&data, &mut jobs, params(0, "echo-style"), 1000).ok().unwrap();
    delete_job_by_id(&mut jobs, 0).unwrap();
    assert!(!jobs.write_back(job));
    assert!(jobs.jobs.is_empty());
}

#[test]
fn listing_twice_gives_the_same_jobs() {
    let data = state();
    let mut jobs = JobList::new();
    post_job(&data, &mut jobs, params(0, "echo-style"), 1000).ok().unwrap();
    post_job(&data, &mut jobs, params(0, "echo-style"), 1000).ok().unwrap();
    let first: Vec<u32> = get_jobs(&jobs, &QueryJobParams::all()).iter().map(|j| j.id).collect();
    let second: Vec<u32> = get_jobs(&jobs, &QueryJobParams::all()).iter().map(|j| j.id).collect();
    assert_eq!(first, vec![0, 1]);
    assert_eq!(first, second);
}

#[test]
fn filter_on_state_and_result() {
    let data = state();
    let mut jobs = JobList::new();
    let mut q = QueryJobParams::all();
    q.state = Some(State::Finished);
    q.result = Some(RunResult::Accepted);
    assert!(get_jobs(&jobs, &q).is_empty());
    for _ in 0..3 {
        post_job(&data, &mut jobs, params(0, "echo-style"), 1000).ok().unwrap();
    }
    run_to_end(&mut jobs, 0, true);
    run_to_end(&mut jobs, 1, false);
    let found = get_jobs(&jobs, &q);
    assert_eq!(found.len(), 1);
    assert_eq!(found[0].id, 0);
    q.problem_id = Some(5);
    assert!(get_jobs(&jobs, &q).is_empty());
}

#[test]
fn filter_on_language_and_time() {
    let data = state();
    let mut jobs = JobList::new();
    post_job(&data, &mut jobs, params(0, "echo-style"), 1000).ok().unwrap();
    let created = jobs.jobs[0].created_time;
    assert_eq!(created, 1000);
    assert_eq!(jobs.jobs[0].updated_time, 1000);
    let mut q = QueryJobParams::all();
    q.language = Some("echo-style".to_string());
    q.from = Some(created);
    q.to = Some(created);
    assert_eq!(get_jobs(&jobs, &q).len(), 1);
    q.to = Some(created - 1);
    assert!(get_jobs(&jobs, &q).is_empty());
    q.to = None;
    q.from = Some(created + 1);
    assert!(get_jobs(&jobs, &q).is_empty());
    q.from = None;
    q.language = Some("other".to_string());
    assert!(get_jobs(&jobs, &q).is_empty());
}

#[test]
fn catalog_lookup_takes_first_match() {
    let mut data = state();
    let mut second = data.config.problems[0].clone();
    second.name = "shadowed".to_string();
    data.config.problems.push(second);
    assert_eq!(data.config.find_problem(0).unwrap().name, "echo");
    assert!(data.config.find_problem(1).is_none());
    assert_eq!(data.config.find_language(&"echo-style".to_string()).unwrap().file_name, "main.sh");
    assert!(data.config.find_language(&"c".to_string()).is_none());
}

#[test]
fn responses() {
    let r = BaseResponse::ok(5);
    assert_eq!(r.error_code, 0);
    assert_eq!(r.message, "ok");
    assert_eq!(r.data, Some(5));
    let r = BaseResponse::<i32>::bad_request("no");
    assert_eq!(r.error_code, 400);
    assert_eq!(r.message, "no");
    assert!(r.data.is_none());
    let r = BaseResponse::create(3, "made", "x");
    assert_eq!(r.error_code, 3);
    assert_eq!(r.message, "made");
    assert_eq!(r.data, Some("x"));
    assert_eq!(AppError::new("bad".to_string()).message, "bad");
}
