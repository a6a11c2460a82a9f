use tributary::launch::{job_of, Args, ArgsError, Job, Mode};

fn args(mode: Mode) -> Args {
    Args {
        mode,
        prompt: None,
        max_tokens: 200,
        mlx_server: "http://a".to_string(),
        mlx_server_b: None,
        worker: None,
        listen: None,
        timing_csv: None,
        spec_k: 0,
        draft_model: None,
    }
}

fn refusal(args: Args) -> (ArgsError, &'static str) {
    match job_of(args) {
        Err(error) => (error, error.message()),
        Ok(_) => panic!("nothing was lacking"),
    }
}

fn prompt() -> Option<String> {
    Some("hi".to_string())
}

#[test]
fn one_machine_generates_on_its_servers() {
    let mut a = args(Mode::Single);
    a.prompt = prompt();
    match job_of(a) {
        Ok(Job::Generate { prompt, servers, max_tokens }) => {
            assert_eq!(prompt, "hi");
            assert_eq!(servers, vec!["http://a".to_string()]);
            assert_eq!(max_tokens, 200);
        }
        _ => panic!("another job"),
    }
    let mut a = args(Mode::Single);
    a.prompt = prompt();
    a.mlx_server_b = Some("http://b".to_string());
    match job_of(a) {
        Ok(Job::Generate { servers, .. }) => {
            assert_eq!(servers, vec!["http://a".to_string(), "http://b".to_string()]);
        }
        _ => panic!("another job"),
    }
}

#[test]
fn drafting_is_asked_for_by_its_length() {
    let mut a = args(Mode::Single);
    a.prompt = prompt();
    a.spec_k = 4;
    a.draft_model = Some("http://d".to_string());
    match job_of(a) {
        Ok(Job::Speculate { prompt, target, draft, k, max_tokens }) => {
            assert_eq!((prompt.as_str(), target.as_str(), draft.as_str()), ("hi", "http://a", "http://d"));
            assert_eq!((k, max_tokens), (4, 200));
        }
        _ => panic!("another job"),
    }
}

#[test]
fn coordinators_and_workers() {
    let mut a = args(Mode::Coordinator);
    a.prompt = prompt();
    a.worker = Some("10.0.0.2:9000".to_string());
    a.timing_csv = Some("t.csv".to_string());
    a.spec_k = 4;
    match job_of(a) {
        Ok(Job::Coordinate { prompt, server, worker, max_tokens, timing_csv }) => {
            assert_eq!((prompt.as_str(), server.as_str(), worker.as_str()), ("hi", "http://a", "10.0.0.2:9000"));
            assert_eq!(max_tokens, 200);
            assert_eq!(timing_csv, Some("t.csv".to_string()));
        }
        _ => panic!("another job"),
    }
    let mut a = args(Mode::Worker);
    a.listen = Some(9000);
    match job_of(a) {
        Ok(Job::Work { server, port }) => assert_eq!((server.as_str(), port), ("http://a", 9000)),
        _ => panic!("another job"),
    }
}

#[test]
fn what_is_lacking_is_named() {
    assert_eq!(refusal(args(Mode::Single)), (ArgsError::GeneratePrompt, "single mode requires --prompt"));
    let mut a = args(Mode::Single);
    a.spec_k = 1;
    assert_eq!(refusal(a), (ArgsError::SpeculatePrompt, "spec mode requires --prompt"));
    let mut a = args(Mode::Single);
    a.spec_k = 1;
    a.prompt = prompt();
    assert_eq!(refusal(a), (ArgsError::SpeculateDraft, "--spec-k requires --draft-model"));
    assert_eq!(refusal(args(Mode::Coordinator)), (ArgsError::CoordinatePrompt, "coordinator requires --prompt"));
    let mut a = args(Mode::Coordinator);
    a.prompt = prompt();
    assert_eq!(refusal(a), (ArgsError::CoordinateWorker, "coordinator requires --worker"));
    assert_eq!(refusal(args(Mode::Worker)), (ArgsError::WorkListen, "worker requires --listen"));
}
