use subsurface_engine::candidate::{
    check_unchanged, confined_path, require_head, CandidateError, GitFingerprint,
};
use subsurface_engine::command::{
    acquire_slot, check_command, classify_outcome, escape_sandbox_path, finish_run, keeps_env_var,
    locate_program, sandbox_profile, watch_step, WatchAction,
    looks_secret, AllowedCommand, CommandAllowlist, CommandOutcome, IsolatedCommand,
    IsolationError, ProgramLocation, ResourceBounds,
};
use subsurface_engine::receipt::{
    build_receipt, check_detail, check_record, ImprovementQueue, QueueStatus, ReceiptError,
    ReceiptVerdict,
};
use subsurface_engine::runtime::{
    isolation_to_candidate, runtime_plan, runtime_result, OpenCodeRuntime, UnavailableState,
};

fn fingerprint(head: &str, porcelain: &str) -> GitFingerprint {
    GitFingerprint {
        head: head.into(),
        porcelain: porcelain.into(),
    }
}

fn allowlist() -> CommandAllowlist {
    CommandAllowlist::new(vec![
        AllowedCommand::new("cargo").with_arg_prefix(vec!["test".into()]),
        AllowedCommand::new("/usr/bin/true"),
    ])
}

#[test]
fn disallowed_command_is_rejected() {
    let command = IsolatedCommand::new("curl", vec!["https://example.com".into()]);
    match check_command(&allowlist(), &command) {
        Err(IsolationError::NotAllowlisted { program, args }) => {
            assert_eq!(program, "curl");
            assert_eq!(args, vec!["https://example.com".to_string()]);
        }
        other => panic!("unexpected {other:?}"),
    }
    let wrong_args = IsolatedCommand::new("cargo", vec!["publish".into()]);
    assert!(matches!(
        check_command(&allowlist(), &wrong_args),
        Err(IsolationError::NotAllowlisted { .. })
    ));
    let allowed = check_command(
        &allowlist(),
        &IsolatedCommand::new("/home/u/.cargo/bin/cargo", vec!["test".into(), "--workspace".into()]),
    )
    .unwrap();
    assert_eq!(allowed.program, "cargo");
}

#[test]
fn path_escape_is_rejected() {
    let list = CommandAllowlist::new(vec![AllowedCommand::new("run.sh")]);
    assert_eq!(
        check_command(&list, &IsolatedCommand::new("../../run.sh", vec![])),
        Err(IsolationError::PathEscape("../../run.sh".into()))
    );
    assert_eq!(
        confined_path("/tmp/clone", "../outside.rs"),
        Err(CandidateError::PathEscape("../outside.rs".into()))
    );
    assert_eq!(
        confined_path("/tmp/clone", "/etc/passwd"),
        Err(CandidateError::PathEscape("/etc/passwd".into()))
    );
    assert_eq!(
        confined_path("/tmp/clone", ""),
        Err(CandidateError::PathEscape("".into()))
    );
    assert_eq!(
        confined_path("/tmp/clone", "src/lib.rs"),
        Ok("/tmp/clone/src/lib.rs".to_string())
    );
    assert_eq!(
        locate_program("scripts/lint.sh", "/tmp/clone"),
        Ok(ProgramLocation::InClone("/tmp/clone/scripts/lint.sh".into()))
    );
    assert_eq!(
        locate_program("/usr/bin/true", "/tmp/clone"),
        Ok(ProgramLocation::Absolute("/usr/bin/true".into()))
    );
    assert_eq!(locate_program("cargo", "/tmp/clone"), Ok(ProgramLocation::SearchPath));
    assert!(matches!(
        locate_program("a/../b", "/tmp/clone"),
        Err(IsolationError::PathEscape(_))
    ));
}

#[test]
fn inherited_secrets_are_scrubbed() {
    for key in ["GITHUB_TOKEN", "OPENAI_API_KEY", "my_secret", "AWS_REGION", "db_password"] {
        assert!(looks_secret(key), "{key}");
    }
    assert!(keeps_env_var("PATH"));
    assert!(keeps_env_var("home"));
    assert!(!keeps_env_var("GITHUB_TOKEN"));
    assert!(!keeps_env_var("EDITOR"));
}

#[test]
fn concurrency_limit_is_enforced() {
    assert_eq!(acquire_slot(0, 2), Ok(1));
    assert_eq!(acquire_slot(1, 2), Ok(2));
    assert_eq!(acquire_slot(2, 2), Err(IsolationError::ConcurrencyLimit));
    assert_eq!(acquire_slot(0, 0), Ok(1));
    assert_eq!(acquire_slot(1, 0), Err(IsolationError::ConcurrencyLimit));
    let bounds = ResourceBounds::default();
    assert_eq!(bounds.max_concurrency, 2);
    assert_eq!(bounds.timeout_millis, 30_000);
}

#[test]
fn outcomes_are_classified_in_order() {
    assert_eq!(classify_outcome(true, true, true, true), CommandOutcome::TimedOut);
    assert_eq!(classify_outcome(false, true, true, true), CommandOutcome::OutputLimited);
    assert_eq!(classify_outcome(false, false, true, true), CommandOutcome::CpuLimited);
    assert_eq!(classify_outcome(false, false, false, true), CommandOutcome::Succeeded);
    assert_eq!(classify_outcome(false, false, false, false), CommandOutcome::Failed);
}

#[test]
fn active_project_hash_unchanged_after_isolated_commands() {
    let command = IsolatedCommand::new("cargo", vec!["test".into()]);
    let receipt = finish_run(
        &command,
        CommandOutcome::Succeeded,
        "ok".into(),
        String::new(),
        Some(0),
        fingerprint("abc", ""),
        fingerprint("abc", ""),
    )
    .unwrap();
    assert_eq!(receipt.fingerprint_before, receipt.fingerprint_after);
    assert_eq!(
        finish_run(
            &command,
            CommandOutcome::Succeeded,
            "ok".into(),
            String::new(),
            Some(0),
            fingerprint("abc", ""),
            fingerprint("abc", " M src/lib.rs"),
        ),
        Err(IsolationError::ProjectMutated)
    );
    assert_eq!(
        check_unchanged(&fingerprint("a", ""), &fingerprint("b", "")),
        Err(CandidateError::ProjectMutated)
    );
    assert_eq!(require_head(&fingerprint("", "")), Err(CandidateError::MissingHead));
}

#[test]
fn baseline_then_candidate_emits_improvement_receipt() {
    let baseline = vec![check_record(
        "locked-tests",
        "cargo".into(),
        vec!["test".into()],
        CommandOutcome::Failed,
        "1 failed",
        "",
    )];
    let candidate = vec![check_record(
        "locked-tests",
        "cargo".into(),
        vec!["test".into()],
        CommandOutcome::Succeeded,
        " all passed \n",
        "",
    )];
    assert_eq!(candidate[0].detail, "all passed");
    let receipt = build_receipt(fingerprint("abc123", ""), baseline, candidate);
    assert_eq!(receipt.verdict, ReceiptVerdict::Improved);
    assert_eq!(
        receipt.improved,
        vec!["locked-tests now proves the prepared change; the baseline did not".to_string()]
    );
    assert_eq!(receipt.proving_checks, vec!["locked-tests".to_string()]);
    assert!(receipt.remaining.is_empty());
    assert_eq!(receipt.base_commit, "abc123");
    assert_eq!(receipt.comparisons.len(), 1);
}

#[test]
fn failed_candidate_stays_queued() {
    let baseline = vec![check_record("lint", "cargo".into(), vec![], CommandOutcome::Succeeded, "", "")];
    let candidate = vec![check_record("lint", "cargo".into(), vec![], CommandOutcome::TimedOut, "", "late")];
    let receipt = build_receipt(fingerprint("abc", ""), baseline, candidate);
    assert_eq!(receipt.verdict, ReceiptVerdict::Failed);
    assert_eq!(
        receipt.remaining,
        vec!["lint did not prove the prepared change (TimedOut)".to_string()]
    );

    let mut queue = ImprovementQueue::new();
    queue.enqueue("candidate-1");
    queue.record_receipt("candidate-1", receipt).unwrap();
    assert!(queue.is_queued("candidate-1"));
    assert!(!queue.is_resolved("candidate-1"));
    assert_eq!(queue.get("candidate-1").unwrap().status, QueueStatus::Failed);
    assert_eq!(
        queue.record_receipt("missing", build_receipt(fingerprint("a", ""), vec![], vec![])),
        Err(ReceiptError::UnknownCandidate("missing".into()))
    );
}

#[test]
fn check_details_join_output_and_errors() {
    assert_eq!(check_detail(" out ", ""), "out");
    assert_eq!(check_detail("", " err "), "err");
    assert_eq!(check_detail("out", "err"), "out\nerr");
}

#[test]
fn no_runtime_yields_actionable_unavailable_state() {
    match runtime_plan(&OpenCodeRuntime::none(), "improve") {
        Err(state) => {
            assert_eq!(state, UnavailableState::no_runtime());
            assert_eq!(
                state.message(),
                "OpenCode runtime is unavailable. Install OpenCode or connect a runtime in Connections to prepare a candidate."
            );
        }
        Ok(_) => panic!("no runtime must not plan a command"),
    }
    let runtime = OpenCodeRuntime::from_executable("/opt/tools/opencode").unwrap();
    assert!(runtime.is_available());
    let plan = runtime_plan(&runtime, "improve the parser").ok().unwrap();
    assert_eq!(plan.command.program, "/opt/tools/opencode");
    assert_eq!(plan.command.args, vec!["run".to_string(), "improve the parser".to_string()]);
    assert_eq!(plan.allowlist.preview()[0].program, "opencode");
    assert!(plan.allowlist.preview()[0].network);
    assert_eq!(plan.bounds.max_concurrency, 1);
    assert_eq!(
        runtime_result(CommandOutcome::Failed, " boom \n"),
        Err(CandidateError::PreparationFailed("OpenCode runtime Failed: boom".into()))
    );
    assert_eq!(
        isolation_to_candidate(IsolationError::ConcurrencyLimit),
        CandidateError::PreparationFailed("too many candidate commands already running".into())
    );
}

fn curl_probe() -> IsolatedCommand {
    IsolatedCommand::new(
        "curl",
        vec![
            "-sS".into(),
            "--max-time".into(),
            "2".into(),
            "--noproxy".into(),
            "*".into(),
            "http://127.0.0.1:8789/probe".into(),
        ],
    )
}

#[test]
fn network_is_denied_by_default() {
    let list = CommandAllowlist::new(vec![AllowedCommand::new("echo"), AllowedCommand::new("curl")]);
    let entry = check_command(&list, &curl_probe()).expect("curl is allowlisted");
    assert!(!entry.network, "an entry grants no network unless it says so");
}

#[test]
fn network_can_be_granted_per_command() {
    let list = CommandAllowlist::new(vec![AllowedCommand::new("curl").with_network(true)]);
    let entry = check_command(&list, &curl_probe()).expect("granted curl");
    assert!(entry.network);
    let other = CommandAllowlist::new(vec![
        AllowedCommand::new("echo"),
        AllowedCommand::new("curl").with_network(true),
    ]);
    assert!(!check_command(&other, &IsolatedCommand::new("echo", vec!["hi".into()])).unwrap().network);
}

#[test]
fn timeout_terminates_with_receipt() {
    let command = IsolatedCommand::new("sleep", vec!["10".into()]);
    let list = CommandAllowlist::new(vec![AllowedCommand::new("sleep")]);
    assert!(check_command(&list, &command).is_ok());
    // The runner killed the process group when the two-second bound passed.
    let outcome = classify_outcome(true, false, false, false);
    let receipt = finish_run(
        &command,
        outcome,
        String::new(),
        String::new(),
        None,
        fingerprint("abc", ""),
        fingerprint("abc", ""),
    )
    .expect("timeout receipt");
    assert_eq!(receipt.outcome, CommandOutcome::TimedOut);
}

#[test]
fn sandbox_profile_denies_writes_outside_and_network_unless_granted() {
    assert_eq!(escape_sandbox_path(r#"/tmp/a "b"\c"#), r#"/tmp/a \"b\"\\c"#);
    assert_eq!(
        sandbox_profile(true, "/work/p", Some("/work/p")),
        "(version 1)\n(allow default)\n(deny file-write* (subpath \"/work/p\"))\n"
    );
    assert_eq!(
        sandbox_profile(false, "/tmp/p", Some("/private/tmp/p")),
        "(version 1)\n(allow default)\n(deny file-write* (subpath \"/tmp/p\") (subpath \"/private/tmp/p\"))\n(deny network*)\n(deny network-outbound)\n(deny network-inbound)\n(deny network-bind)\n"
    );
    assert_eq!(
        sandbox_profile(true, "/w", None),
        "(version 1)\n(allow default)\n(deny file-write* (subpath \"/w\"))\n"
    );
}

#[test]
fn watch_checks_output_then_time_then_exit() {
    assert_eq!(watch_step(true, 5_000, 2_000, true), WatchAction::StopForOutput);
    assert_eq!(watch_step(false, 2_000, 2_000, true), WatchAction::StopForTimeout);
    assert_eq!(watch_step(false, 1_999, 2_000, true), WatchAction::Collect);
    assert_eq!(watch_step(false, 10, 2_000, false), WatchAction::Wait);
}
