use stui::dev::{
    prune_report, start_step, stop_outcome, wait_decision, StartAction, StartEvent, StartState,
    WaitDecision, WaitGoal,
    build_args, build_failure_message, classify_status, control_request_args, create_session_id,
    dev_namespace_prefix, dev_runtime_root, events_request_args, inspect_request_args, log_dir,
    log_file_name, log_path, matching_state, parse_state_source, playground_binary_path,
    request_failure_message, require_state, sanitize, serve_args, sorted_records, state_dir,
    state_file_name,
    state_path, state_source, status_all_report, status_line, stopped_line, tail_lines,
    target_debug_dir, BehaviorArg, DevError, DevPath, PlaygroundName, RuntimeStatus, StateRecord,
    StatusFact,
};

fn record(instance: &str, prefix: Option<&str>) -> StateRecord {
    StateRecord {
        playground: PlaygroundName::BlackBox,
        instance: instance.to_string(),
        namespace_prefix: prefix.map(|p| p.to_string()),
        log_path: format!(".tmp/stui-dev/logs/black-box--{}--1700.log", instance),
        session_id: "1700".to_string(),
        pid: 4242,
        started_at_ms: 1_700_000_000_123,
        binary_path: "target/debug/stui-playground-black-box".to_string(),
    }
}

fn segments(p: &DevPath) -> Vec<&str> {
    p.segments.iter().map(|s| s.as_str()).collect()
}

fn strings(v: &[String]) -> Vec<&str> {
    v.iter().map(|s| s.as_str()).collect()
}

#[test]
fn playground_names() {
    assert_eq!(PlaygroundName::all(), vec![PlaygroundName::BlackBox]);
    assert_eq!(PlaygroundName::BlackBox.as_str(), "black-box");
    assert_eq!(PlaygroundName::BlackBox.package_name(), "stui-playground-black-box");
    assert_eq!(PlaygroundName::BlackBox.binary_name(), "stui-playground-black-box");
    assert_eq!(PlaygroundName::from_str("black-box"), Ok(PlaygroundName::BlackBox));
    assert_eq!(
        PlaygroundName::from_str("white-box"),
        Err(DevError::UnsupportedPlayground("white-box".to_string()))
    );
    assert_eq!(BehaviorArg::Booting.as_str(), "booting");
    assert_eq!(BehaviorArg::Idle.as_str(), "idle");
    assert_eq!(BehaviorArg::Closing.as_str(), "closing");
    assert_eq!(RuntimeStatus::Running.as_str(), "running");
    assert_eq!(RuntimeStatus::Stopped.as_str(), "stopped");
    assert_eq!(RuntimeStatus::Stale.as_str(), "stale");
}

#[test]
fn dev_error_messages() {
    assert_eq!(
        DevError::UnsupportedPlayground("x".to_string()).message(),
        "unsupported playground in state: x"
    );
    assert_eq!(
        DevError::MissingState { playground: PlaygroundName::BlackBox, instance: "alpha".to_string() }
            .message(),
        "no recorded black-box instance named alpha; start it first"
    );
}

#[test]
fn state_file_text() {
    assert_eq!(
        state_source(&record("alpha", Some("stim.dev"))),
        "playground=black-box\ninstance=alpha\nnamespace_prefix=stim.dev\nlog_path=.tmp/stui-dev/logs/black-box--alpha--1700.log\nsession_id=1700\npid=4242\nstarted_at_ms=1700000000123\nbinary_path=target/debug/stui-playground-black-box\n"
    );
    assert!(state_source(&record("beta", None)).contains("\nnamespace_prefix=\n"));
}

#[test]
fn state_files_read_back_as_written() {
    for rec in [record("alpha", Some("stim.dev")), record("b=c d", None), record("", None)] {
        let source = state_source(&rec);
        assert_eq!(parse_state_source(&source, "fallback"), Ok(Some(rec)));
    }
    let mut big = record("gamma", None);
    big.pid = u32::MAX;
    big.started_at_ms = u128::MAX;
    assert_eq!(parse_state_source(&state_source(&big), "fallback"), Ok(Some(big)));
}

#[test]
fn state_parsing_rules() {
    assert_eq!(parse_state_source("", "bin"), Ok(None));
    assert_eq!(parse_state_source("playground=black-box\n", "bin"), Ok(None));
    assert_eq!(parse_state_source("instance=a\n", "bin"), Ok(None));
    assert_eq!(
        parse_state_source("instance=a\nplayground=white-box\nplayground=grey-box\n", "bin"),
        Err(DevError::UnsupportedPlayground("white-box".to_string()))
    );

    let parsed = parse_state_source(
        "noise\r\nplayground=black-box\r\ninstance=first\ninstance=second=2\npid=12x\nstarted_at_ms=+77\nnamespace_prefix=\nbinary_path=\nextra=1",
        "target/debug/bin",
    )
    .unwrap()
    .unwrap();
    assert_eq!(parsed.playground, PlaygroundName::BlackBox);
    assert_eq!(parsed.instance, "second=2");
    assert_eq!(parsed.pid, 0);
    assert_eq!(parsed.started_at_ms, 77);
    assert_eq!(parsed.namespace_prefix, None);
    assert_eq!(parsed.binary_path, "target/debug/bin");
    assert_eq!(parsed.log_path, "");
    assert_eq!(parsed.session_id, "");

    let overflow = parse_state_source("playground=black-box\ninstance=a\npid=4294967296\n", "b").unwrap().unwrap();
    assert_eq!(overflow.pid, 0);
}

#[test]
fn matching_and_required_states() {
    let rec = record("alpha", None);
    assert_eq!(matching_state(Some(rec.clone()), PlaygroundName::BlackBox, "alpha"), Some(rec.clone()));
    assert_eq!(matching_state(Some(rec.clone()), PlaygroundName::BlackBox, "beta"), None);
    assert_eq!(matching_state(None, PlaygroundName::BlackBox, "alpha"), None);
    assert_eq!(require_state(PlaygroundName::BlackBox, "alpha", Some(rec.clone())), Ok(rec));
    assert_eq!(
        require_state(PlaygroundName::BlackBox, "beta", None),
        Err(DevError::MissingState { playground: PlaygroundName::BlackBox, instance: "beta".to_string() })
    );
}

#[test]
fn status_classification() {
    let rec = record("alpha", None);
    assert_eq!(
        classify_status(None, true, true),
        StatusFact { status: RuntimeStatus::Stopped, stale_reason: None }
    );
    assert_eq!(
        classify_status(Some(&rec), true, false),
        StatusFact { status: RuntimeStatus::Running, stale_reason: None }
    );
    assert_eq!(
        classify_status(Some(&rec), false, true),
        StatusFact { status: RuntimeStatus::Stale, stale_reason: Some("inspect-unreachable") }
    );
    assert_eq!(
        classify_status(Some(&rec), false, false),
        StatusFact { status: RuntimeStatus::Stale, stale_reason: Some("pid-not-running") }
    );
}

#[test]
fn log_tails() {
    assert_eq!(tail_lines("a\nb\nc\n", 2), "b\nc\n");
    assert_eq!(tail_lines("a\nb\nc", 2), "b\nc");
    assert_eq!(tail_lines("a\nb\nc\n", 0), "");
    assert_eq!(tail_lines("a\nb\n", 40), "a\nb\n");
    assert_eq!(tail_lines("", 3), "");
    assert_eq!(tail_lines("\n", 3), "");
    assert_eq!(tail_lines("x\r\ny\r\n", 1), "y\n");
}

#[test]
fn names_and_paths() {
    assert_eq!(sanitize("a b/c.d-e_f"), "a_b_c.d-e_f");
    assert_eq!(sanitize(""), "");
    assert_eq!(state_file_name(PlaygroundName::BlackBox, "alpha beta"), "black-box--alpha_beta.state");
    assert_eq!(
        log_file_name(PlaygroundName::BlackBox, "alpha beta", "123"),
        "black-box--alpha_beta--123.log"
    );
    assert_eq!(segments(&target_debug_dir()), vec!["target", "debug"]);
    assert_eq!(segments(&dev_runtime_root()), vec![".tmp", "stui-dev"]);
    assert_eq!(segments(&state_dir()), vec![".tmp", "stui-dev", "state"]);
    assert_eq!(segments(&log_dir()), vec![".tmp", "stui-dev", "logs"]);
    assert_eq!(
        segments(&state_path(PlaygroundName::BlackBox, "a")),
        vec![".tmp", "stui-dev", "state", "black-box--a.state"]
    );
    assert_eq!(
        segments(&log_path(PlaygroundName::BlackBox, "a", "9")),
        vec![".tmp", "stui-dev", "logs", "black-box--a--9.log"]
    );
    assert_eq!(
        segments(&playground_binary_path(PlaygroundName::BlackBox, ".exe")),
        vec!["target", "debug", "stui-playground-black-box.exe"]
    );
    assert_eq!(create_session_id(1_700_000_000_000), "1700000000000");
    assert_eq!(create_session_id(0), "0");
}

#[test]
fn supervisor_namespace_prefix() {
    assert_eq!(dev_namespace_prefix(Some(" stim.dev ")), Some("stim.dev".to_string()));
    assert_eq!(dev_namespace_prefix(Some("  ")), None);
    assert_eq!(dev_namespace_prefix(None), None);
}

#[test]
fn command_lines() {
    assert_eq!(
        strings(&build_args(PlaygroundName::BlackBox)),
        vec!["build", "-p", "stui-playground-black-box", "--bin", "stui-playground-black-box"]
    );
    assert_eq!(strings(&serve_args("alpha", None, None)), vec!["serve", "--instance", "alpha"]);
    assert_eq!(
        strings(&serve_args("alpha", Some(BehaviorArg::Closing), None)),
        vec!["serve", "--instance", "alpha", "--behavior", "closing"]
    );
    assert_eq!(
        strings(&serve_args("alpha", Some(BehaviorArg::Idle), Some("stim.dev"))),
        vec!["serve", "--instance", "alpha", "--namespace-prefix", "stim.dev", "--behavior", "idle"]
    );
    assert_eq!(strings(&inspect_request_args("a", None)), vec!["request", "--instance", "a", "inspect"]);
    assert_eq!(
        strings(&inspect_request_args("a", Some("p"))),
        vec!["request", "--instance", "a", "--namespace-prefix", "p", "inspect"]
    );
    assert_eq!(
        strings(&control_request_args("a", None, "shutdown")),
        vec!["request", "--instance", "a", "shutdown"]
    );
    assert_eq!(
        strings(&events_request_args("a", None, "poll")),
        vec!["request", "--instance", "a", "--surface", "events", "poll"]
    );
    assert_eq!(
        strings(&events_request_args("a", Some("p"), "poll")),
        vec!["request", "--instance", "a", "--namespace-prefix", "p", "--surface", "events", "poll"]
    );
}

#[test]
fn failure_messages() {
    assert_eq!(build_failure_message(" out \n", "err"), "build failed: out | err");
    assert_eq!(build_failure_message("", "err"), "build failed: err");
    assert_eq!(build_failure_message("out", ""), "build failed: out");
    assert_eq!(build_failure_message(" ", "err"), "build failed:  | err");
    assert_eq!(request_failure_message(" ", "err"), "playground command failed: err");
    assert_eq!(request_failure_message("o", " e "), "playground command failed: o | e");
}

#[test]
fn status_lines() {
    let rec = record("alpha", Some("stim.dev"));
    assert_eq!(
        status_line(StatusFact { status: RuntimeStatus::Running, stale_reason: None }, &rec),
        "status=running playground=black-box instance=alpha session=1700 namespace=stim.dev pid=4242 started_at_ms=1700000000123 log=.tmp/stui-dev/logs/black-box--alpha--1700.log"
    );
    assert_eq!(
        status_line(
            StatusFact { status: RuntimeStatus::Stale, stale_reason: Some("pid-not-running") },
            &record("beta", None)
        ),
        "status=stale playground=black-box instance=beta session=1700 namespace=<default> pid=4242 started_at_ms=1700000000123 log=.tmp/stui-dev/logs/black-box--beta--1700.log stale_reason=pid-not-running"
    );
    assert_eq!(
        stopped_line(PlaygroundName::BlackBox, "gamma"),
        "status=stopped playground=black-box instance=gamma"
    );
}

#[test]
fn status_all_reports() {
    assert_eq!(status_all_report(&vec![], &vec![]), vec!["status=empty".to_string()]);
    let records = vec![record("alpha", None), record("beta", None), record("gamma", None)];
    let facts = vec![
        StatusFact { status: RuntimeStatus::Running, stale_reason: None },
        StatusFact { status: RuntimeStatus::Stale, stale_reason: Some("inspect-unreachable") },
        StatusFact { status: RuntimeStatus::Stale, stale_reason: Some("pid-not-running") },
    ];
    let lines = status_all_report(&records, &facts);
    assert_eq!(lines.len(), 4);
    assert_eq!(lines[0], status_line(facts[0], &records[0]));
    assert_eq!(lines[2], status_line(facts[2], &records[2]));
    assert_eq!(lines[3], "summary running=1 stale=2 total=3");
}

#[test]
fn records_are_listed_by_instance() {
    let mut first_beta = record("beta", None);
    first_beta.pid = 1;
    let mut second_beta = record("beta", None);
    second_beta.pid = 2;
    let input = vec![
        record("gamma", None),
        first_beta.clone(),
        record("Zeta", None),
        record("alpha", None),
        record("", None),
        second_beta.clone(),
        record("al", None),
    ];
    let sorted = sorted_records(input.clone());
    let names: Vec<&str> = sorted.iter().map(|r| r.instance.as_str()).collect();
    assert_eq!(names, vec!["", "Zeta", "al", "alpha", "beta", "beta", "gamma"]);
    assert_eq!(sorted[4], first_beta);
    assert_eq!(sorted[5], second_beta);

    let mut expected = input;
    expected.sort_by(|a, b| a.instance.cmp(&b.instance));
    assert_eq!(sorted, expected);
    assert!(sorted_records(vec![]).is_empty());
}

#[test]
fn prune_removes_exactly_the_stale_sessions() {
    let (remove, lines) = prune_report(&vec![], &vec![]);
    assert!(remove.is_empty());
    assert_eq!(lines, vec!["status=empty removed=0".to_string()]);

    let records = vec![record("alpha", None), record("beta", None), record("gamma", None)];
    let facts = vec![
        StatusFact { status: RuntimeStatus::Stale, stale_reason: Some("pid-not-running") },
        StatusFact { status: RuntimeStatus::Running, stale_reason: None },
        StatusFact { status: RuntimeStatus::Stale, stale_reason: None },
    ];
    let (remove, lines) = prune_report(&records, &facts);
    assert_eq!(remove, vec![true, false, true]);
    assert_eq!(
        lines,
        vec![
            "status=pruned playground=black-box instance=alpha session=1700 stale_reason=pid-not-running".to_string(),
            "status=pruned playground=black-box instance=gamma session=1700 stale_reason=unknown".to_string(),
            "status=complete removed=2 kept=1".to_string(),
        ]
    );
}

#[test]
fn stop_outcomes() {
    assert_eq!(stop_outcome(Ok("{\"ok\":true}".to_string()), true), (false, "{\"ok\":true}".to_string()));
    assert_eq!(
        stop_outcome(Err("request timed out".to_string()), true),
        (false, "status=stopped detail=request timed out".to_string())
    );
    assert_eq!(
        stop_outcome(Err("gone".to_string()), false),
        (true, "status=stopped fallback=force-kill detail=gone".to_string())
    );
    assert_eq!(stop_outcome(Ok("bye".to_string()), false), (true, "bye".to_string()));
}

#[test]
fn waits_sleep_until_their_deadline() {
    assert_eq!(wait_decision(WaitGoal::Answering, true, 0), WaitDecision::Reached);
    assert_eq!(wait_decision(WaitGoal::Answering, false, 14_999), WaitDecision::Sleep { ms: 100 });
    assert_eq!(wait_decision(WaitGoal::Answering, false, 15_000), WaitDecision::GiveUp);
    assert_eq!(wait_decision(WaitGoal::Silent, false, 99_999), WaitDecision::Reached);
    assert_eq!(wait_decision(WaitGoal::Silent, true, 4_999), WaitDecision::Sleep { ms: 100 });
    assert_eq!(wait_decision(WaitGoal::Silent, true, 5_000), WaitDecision::GiveUp);
}

fn launched(pid: u32) -> StartEvent {
    StartEvent::Launched {
        pid,
        session_id: format!("s{pid}"),
        log_path: format!("log{pid}"),
        started_at_ms: 1000 + pid as u128,
        binary_path: "bin".to_string(),
    }
}

#[test]
fn start_reports_stages_and_runs() {
    let start = StartState::new(PlaygroundName::BlackBox, "alpha", Some("stim.dev".to_string()), None);
    let (start, action, lines) = start_step(&start, StartEvent::Begun { existing: None, existing_answers: false });
    assert_eq!(lines, vec!["stage=build playground=black-box instance=alpha".to_string()]);
    assert!(matches!(action, StartAction::Build));
    let (start, action, lines) = start_step(&start, StartEvent::Built);
    assert!(lines.is_empty());
    match action {
        StartAction::Launch { attempt, args } => {
            assert_eq!(attempt, 1);
            assert_eq!(strings(&args), vec!["serve", "--instance", "alpha", "--namespace-prefix", "stim.dev"]);
        }
        other => panic!("unexpected {:?}", other),
    }
    let (start, action, lines) = start_step(&start, launched(42));
    assert_eq!(lines, vec!["stage=launch playground=black-box instance=alpha pid=42 attempt=1/2".to_string()]);
    match &action {
        StartAction::WaitReady(rec) => {
            assert_eq!(rec.pid, 42);
            assert_eq!(rec.instance, "alpha");
            assert_eq!(rec.namespace_prefix.as_deref(), Some("stim.dev"));
            assert_eq!(rec.session_id, "s42");
        }
        other => panic!("unexpected {:?}", other),
    }
    let (start, action, lines) = start_step(&start, StartEvent::Ready);
    assert!(matches!(action, StartAction::Done));
    assert_eq!(
        lines,
        vec![
            "stage=ready playground=black-box instance=alpha session=s42".to_string(),
            "status=running playground=black-box instance=alpha pid=42 session=s42 namespace=stim.dev log=log42".to_string(),
        ]
    );
    let (_, action, _) = start_step(&start, StartEvent::Ready);
    assert!(matches!(action, StartAction::Fail(m) if m == "start steps out of order"));
}

#[test]
fn start_retries_once_then_gives_up() {
    let start = StartState::new(PlaygroundName::BlackBox, "beta", None, Some(BehaviorArg::Closing));
    let stale = record("beta", None);
    let (start, action, _) = start_step(&start, StartEvent::Begun { existing: Some(stale.clone()), existing_answers: false });
    assert!(matches!(action, StartAction::CleanStale(r) if r == stale));
    let (start, action, _) = start_step(&start, StartEvent::Cleaned);
    assert!(matches!(action, StartAction::Build));
    let (start, _, _) = start_step(&start, StartEvent::Built);
    let (start, _, _) = start_step(&start, launched(7));
    let (start, action, lines) = start_step(&start, StartEvent::NotReady { detail: "no answer".to_string() });
    assert!(matches!(action, StartAction::KillAndForget { pid: 7 }));
    assert_eq!(lines, vec!["stage=retry playground=black-box instance=beta attempt=1/2 detail=no answer".to_string()]);
    let (start, action, _) = start_step(&start, StartEvent::Forgotten);
    match action {
        StartAction::Launch { attempt, args } => {
            assert_eq!(attempt, 2);
            assert_eq!(strings(&args), vec!["serve", "--instance", "beta", "--behavior", "closing"]);
        }
        other => panic!("unexpected {:?}", other),
    }
    let (start, _, lines) = start_step(&start, launched(8));
    assert_eq!(lines, vec!["stage=launch playground=black-box instance=beta pid=8 attempt=2/2".to_string()]);
    let (start, action, _) = start_step(&start, StartEvent::NotReady { detail: "still nothing".to_string() });
    assert!(matches!(action, StartAction::KillAndForget { pid: 8 }));
    let (_, action, lines) = start_step(&start, StartEvent::Forgotten);
    assert!(lines.is_empty());
    assert!(matches!(action, StartAction::Fail(m) if m == "still nothing"));
}

#[test]
fn start_refuses_a_running_instance() {
    let start = StartState::new(PlaygroundName::BlackBox, "alpha", None, None);
    let (_, action, lines) =
        start_step(&start, StartEvent::Begun { existing: Some(record("alpha", None)), existing_answers: true });
    assert_eq!(lines.len(), 1);
    assert!(matches!(action, StartAction::Fail(m) if m == "black-box alpha is already running"));
}
