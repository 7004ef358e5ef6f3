use oj_judge::model::config::{Case as CaseSpec, Language, Problem};
use oj_judge::model::request::PostJobParams;
use oj_judge::model::run::{replace_str, same_bytes, Action, Event};
use oj_judge::model::{Case, Job, RunResult, State};

fn problem() -> Problem {
    Problem {
        id: 7,
        name: "echo".to_string(),
        problem_type: "standard".to_string(),
        cases: vec![
            CaseSpec {
                input_file: "in1".to_string(),
                answer_file: "ans1".to_string(),
                time_limit: 1_000_000,
                memory_limit: 0,
            },
            CaseSpec {
                input_file: "in2".to_string(),
                answer_file: "ans2".to_string(),
                time_limit: 2_000_000,
                memory_limit: 0,
            },
        ],
    }
}

fn language() -> Language {
    Language {
        name: "echo-style".to_string(),
        file_name: "main.sh".to_string(),
        command: vec!["cp".to_string(), "%INPUT%".to_string(), "%OUTPUT%".to_string()],
    }
}

fn job() -> Job {
    let params = PostJobParams { source_code: "cat".to_string(), language: "echo-style".to_string(), problem_id: 7 };
    Job::new(12, params, problem(), language(), 1000)
}

fn exited(output: &str, expected: &str) -> Event {
    Event::CaseExited { output: output.as_bytes().to_vec(), expected: expected.as_bytes().to_vec(), elapsed: 5 }
}

fn compiled(j: &mut Job) -> Action {
    j.run();
    j.advance(Event::Staged);
    j.advance(Event::Compiled { success: true })
}

#[test]
fn new_job_is_queueing() {
    let j = job();
    assert_eq!(j.id, 12);
    assert_eq!(j.state, State::Queueing);
    assert_eq!(j.result, RunResult::Waiting);
    assert_eq!(j.created_time, 1000);
    assert!(j.cases.is_empty());
}

#[test]
fn case_new_is_waiting() {
    let c = Case::new(3);
    assert_eq!(c.id, 3);
    assert_eq!(c.result, RunResult::Waiting);
    assert_eq!(c.time, 0);
    assert_eq!(c.memory, 0);
    assert_eq!(c.info, "");
}

#[test]
fn scratch_paths() {
    let j = job();
    assert_eq!(j.source_path(), "./problem/7/source/12.sh");
    assert_eq!(j.output_path(), "./problem/7/output/12");
    assert_eq!(j.input_path(), "./problem/7/input/12.txt");
}

#[test]
fn source_path_without_extension() {
    let mut j = job();
    j.language.file_name = "Makefile".to_string();
    assert_eq!(j.source_path(), "./problem/7/source/12");
}

#[test]
fn run_stages_files() {
    let mut j = job();
    match j.run() {
        Action::Stage { source, output, capture, code } => {
            assert_eq!(source, "./problem/7/source/12.sh");
            assert_eq!(output, "./problem/7/output/12");
            assert_eq!(capture, "./problem/7/input/12.txt");
            assert_eq!(code, "cat");
        }
        _ => panic!("expected staging"),
    }
    assert_eq!(j.state, State::Queueing);
}

#[test]
fn staged_job_compiles_with_substituted_command() {
    let mut j = job();
    j.run();
    match j.advance(Event::Staged) {
        Action::Compile { command } => {
            assert_eq!(command, vec!["cp", "./problem/7/source/12.sh", "./problem/7/output/12"]);
        }
        _ => panic!("expected compilation"),
    }
    assert_eq!(j.state, State::Running);
    assert_eq!(j.result, RunResult::Running);
}

#[test]
fn echo_submission_is_accepted() {
    let mut j = job();
    match compiled(&mut j) {
        Action::RunCase { index, program, input_file, answer_file, capture, time_limit } => {
            assert_eq!(index, 0);
            assert_eq!(program, "./problem/7/output/12");
            assert_eq!(input_file, "in1");
            assert_eq!(answer_file, "ans1");
            assert_eq!(capture, "./problem/7/input/12.txt");
            assert_eq!(time_limit, 1_000_000);
        }
        _ => panic!("expected the first case"),
    }
    assert_eq!(j.result, RunResult::CompilationSuccess);
    match j.advance(exited("2\n", "2\n")) {
        Action::RunCase { index, input_file, .. } => {
            assert_eq!(index, 1);
            assert_eq!(input_file, "in2");
        }
        _ => panic!("expected the second case"),
    }
    assert!(matches!(j.advance(exited("3\n", "3\n")), Action::Cleanup { .. }));
    assert_eq!(j.cases.len(), 2);
    assert_eq!(j.cases[0].result, RunResult::Accepted);
    assert_eq!(j.cases[1].result, RunResult::Accepted);
    assert_eq!(j.cases[1].id, 1);
    assert_eq!(j.cases[1].time, 5);
    assert_eq!(j.result, RunResult::Accepted);
    assert_eq!(j.state, State::Finished);
}

#[test]
fn constant_output_is_wrong_answer() {
    let mut j = job();
    compiled(&mut j);
    j.advance(exited("0", "2\n"));
    j.advance(exited("0", "3\n"));
    assert_eq!(j.cases.len(), 2);
    assert_eq!(j.cases[0].result, RunResult::WrongAnswer);
    assert_eq!(j.cases[1].result, RunResult::WrongAnswer);
    assert_eq!(j.result, RunResult::WrongAnswer);
    assert_eq!(j.state, State::Finished);
}

#[test]
fn timeout_is_recorded_and_grading_goes_on() {
    let mut j = job();
    compiled(&mut j);
    match j.advance(Event::CaseTimedOut { elapsed: 1_000_000 }) {
        Action::RunCase { index, .. } => assert_eq!(index, 1),
        _ => panic!("expected the second case"),
    }
    assert_eq!(j.cases[0].result, RunResult::TimeLimitExceeded);
    assert_eq!(j.cases[0].time, 1_000_000);
    j.advance(exited("3\n", "3\n"));
    assert_eq!(j.cases.len(), 2);
    assert_eq!(j.cases[1].result, RunResult::Accepted);
    assert_eq!(j.result, RunResult::WrongAnswer);
    assert_eq!(j.state, State::Finished);
}

#[test]
fn failed_build_short_circuits() {
    let mut j = job();
    j.run();
    j.advance(Event::Staged);
    assert!(matches!(j.advance(Event::Compiled { success: false }), Action::Cleanup { .. }));
    assert_eq!(j.result, RunResult::CompilationError);
    assert_eq!(j.state, State::Finished);
    assert!(j.cases.is_empty());
}

#[test]
fn fault_cancels_with_system_error() {
    let mut j = job();
    compiled(&mut j);
    j.advance(exited("2\n", "2\n"));
    assert!(matches!(j.advance(Event::Fault), Action::Cleanup { .. }));
    assert_eq!(j.state, State::Canceled);
    assert_eq!(j.result, RunResult::SystemError);
    assert_eq!(j.cases.len(), 1);
}

#[test]
fn unexpected_event_cancels() {
    let mut j = job();
    j.run();
    j.advance(Event::Compiled { success: true });
    assert_eq!(j.state, State::Canceled);
    assert_eq!(j.result, RunResult::SystemError);
}

#[test]
fn finished_job_ignores_events() {
    let mut j = job();
    j.run();
    j.advance(Event::Staged);
    j.advance(Event::Compiled { success: false });
    assert!(matches!(j.advance(Event::Staged), Action::Done));
    assert_eq!(j.result, RunResult::CompilationError);
}

#[test]
fn problem_without_cases_is_accepted_after_build() {
    let mut j = job();
    j.problem.cases.clear();
    j.run();
    j.advance(Event::Staged);
    assert!(matches!(j.advance(Event::Compiled { success: true }), Action::Cleanup { .. }));
    assert_eq!(j.result, RunResult::Accepted);
    assert_eq!(j.state, State::Finished);
}

#[test]
fn rerun_discards_previous_results() {
    let mut j = job();
    compiled(&mut j);
    j.advance(exited("0", "2\n"));
    j.advance(exited("0", "3\n"));
    j.run();
    assert_eq!(j.state, State::Queueing);
    assert_eq!(j.result, RunResult::Waiting);
    assert!(j.cases.is_empty());
    compiled(&mut j);
    j.advance(exited("2\n", "2\n"));
    j.advance(exited("3\n", "3\n"));
    assert_eq!(j.cases.len(), 2);
    assert_eq!(j.result, RunResult::Accepted);
}

#[test]
fn system_error_cancels() {
    let mut j = job();
    j.system_error();
    assert_eq!(j.state, State::Canceled);
    assert_eq!(j.result, RunResult::SystemError);
}

#[test]
fn byte_comparison_is_exact() {
    assert!(same_bytes(&b"2\n".to_vec(), &b"2\n".to_vec()));
    assert!(!same_bytes(&b"2".to_vec(), &b"2\n".to_vec()));
    assert!(!same_bytes(&b"3\n".to_vec(), &b"2\n".to_vec()));
    assert!(same_bytes(&Vec::new(), &Vec::new()));
}

#[test]
fn build_command_keeps_other_tokens() {
    let mut j = job();
    j.language.command = vec!["rustc".to_string(), "-o".to_string(), "%OUTPUT%".to_string(), "%INPUT%".to_string()];
    assert_eq!(j.build_command(), vec!["rustc", "-o", "./problem/7/output/12", "./problem/7/source/12.sh"]);
}

#[test]
fn placeholders_inside_tokens_are_replaced() {
    let mut j = job();
    j.language.command = vec![
        "cc".to_string(),
        "-o%OUTPUT%".to_string(),
        "--in=%INPUT%,%INPUT%".to_string(),
        "%OUTPUT".to_string(),
    ];
    assert_eq!(
        j.build_command(),
        vec![
            "cc",
            "-o./problem/7/output/12",
            "--in=./problem/7/source/12.sh,./problem/7/source/12.sh",
            "%OUTPUT",
        ]
    );
}

#[test]
fn replace_all_occurrences() {
    assert_eq!(replace_str("a%X%b%X%", "%X%", "yy"), "ayybyy");
    assert_eq!(replace_str("aaa", "aa", "b"), "ba");
    assert_eq!(replace_str("abc", "zz", "q"), "abc");
    assert_eq!(replace_str("", "a", "b"), "");
    assert_eq!(replace_str("%INPUT%", "%INPUT%", ""), "");
}

#[test]
fn updated_time_is_set() {
    let mut j = job();
    j.set_updated_time(5000);
    assert_eq!(j.updated_time, 5000);
    assert_eq!(j.created_time, 1000);
    assert_eq!(j.state, State::Queueing);
}

#[test]
fn scratch_paths_with_extreme_ids() {
    let mut j = job();
    j.id = 0;
    j.problem.id = u32::MAX;
    assert_eq!(j.output_path(), "./problem/4294967295/output/0");
    assert_eq!(j.input_path(), "./problem/4294967295/input/0.txt");
}

#[test]
fn scratch_paths_differ_between_jobs() {
    let mut a = job();
    let mut b = job();
    a.problem.id = 1;
    a.id = 12;
    b.problem.id = 11;
    b.id = 2;
    assert_ne!(a.output_path(), b.output_path());
    assert_ne!(a.input_path(), b.input_path());
    b.problem.id = 1;
    b.id = 12;
    assert_eq!(a.output_path(), b.output_path());
}
