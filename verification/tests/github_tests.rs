use subsurface_engine::github::{
    after_create, after_recovery_search, browser_callback_url, destination_from_remotes,
    find_marked_issue, fingerprint_marker, infer_destination_from_listing, parse_github_owner_repo,
    parse_remote_listing, render_work_item, work_item_fingerprint, AuthFallback, AuthStep,
    CreateFollowUp, GhCli, GhPermission, GitHubAuthMethod, GitHubAuthProbes, GitHubClient,
    GitHubDestination, GitHubError, IssueSummary, PublishOutcome, WorkItemDestination,
    WorkItemDraft,
};
use subsurface_engine::candidate::GitFingerprint;
use subsurface_engine::receipt::{ImprovementReceipt, ReceiptVerdict};

fn listing(remotes: &[(&str, &str)]) -> String {
    let mut out = String::new();
    for (name, url) in remotes {
        out.push_str(&format!("{name}\t{url} (fetch)\n{name}\t{url} (push)\n"));
    }
    out
}

/// Runs the fallback with the outcome each method gives, as the app does.
fn resolve(
    permission: GhPermission,
    outcome: impl Fn(GitHubAuthMethod) -> Result<String, GitHubError>,
) -> Result<subsurface_engine::github::GitHubAuth, GitHubError> {
    let mut fallback = AuthFallback::new(permission);
    loop {
        match fallback.next_step() {
            AuthStep::Try(method) => {
                if let Some(auth) = fallback.record(outcome(method)) {
                    return Ok(auth);
                }
            }
            AuthStep::Failed(error) => return Err(error),
        }
    }
}

fn destination() -> GitHubDestination {
    GitHubDestination {
        owner: "acme".into(),
        repo: "widgets".into(),
        remote_name: "origin".into(),
        remote_url: "https://github.com/acme/widgets.git".into(),
    }
}

fn approved_draft(id: &str) -> WorkItemDraft {
    WorkItemDraft {
        id: id.into(),
        title: "Restore rationale for auth".into(),
        category: "missing-rationale".into(),
        file_path: "src/auth.rs".into(),
        summary: "history and docs contain no rationale".into(),
        evidence_ids: vec!["src/auth.rs:1-20@abc123".into()],
        base_commit: None,
        receipt: None,
    }
    .with_improvement_receipt(&ImprovementReceipt {
        base_commit: "abc123".into(),
        improved: vec!["locked tests now prove the prepared change".into()],
        proving_checks: vec!["locked-tests".into()],
        remaining: vec![],
        comparisons: vec![],
        verdict: ReceiptVerdict::Improved,
        project_fingerprint: GitFingerprint {
            head: "abc123".into(),
            porcelain: String::new(),
        },
    })
}

#[test]
fn github_auth_and_destination_fallback_order() {
    assert_eq!(WorkItemDestination::only(), WorkItemDestination::GitHub);
    assert_eq!(
        GitHubAuthMethod::fallback_order(),
        vec![
            GitHubAuthMethod::GhCli,
            GitHubAuthMethod::Browser,
            GitHubAuthMethod::Device,
            GitHubAuthMethod::Token,
        ]
    );

    let github_listing = listing(&[
        ("gitlab", "https://gitlab.com/acme/widgets.git"),
        ("origin", "git@github.com:acme/widgets.git"),
        ("upstream", "https://github.com/acme/widgets-upstream.git"),
    ]);
    let destination = infer_destination_from_listing(&github_listing).expect("infer GitHub destination");
    assert_eq!(destination.kind(), WorkItemDestination::GitHub);
    assert_eq!(destination.owner, "acme");
    assert_eq!(destination.repo, "widgets");
    assert_eq!(destination.remote_name, "origin");
    assert_eq!(destination.remote_url, "git@github.com:acme/widgets.git");

    let gitlab_only = listing(&[("origin", "https://gitlab.com/acme/widgets.git")]);
    assert!(matches!(
        infer_destination_from_listing(&gitlab_only),
        Err(GitHubError::NotGitHub)
    ));
    assert!(matches!(
        infer_destination_from_listing(""),
        Err(GitHubError::NoRemote)
    ));

    let probes = GitHubAuthProbes::new()
        .with_gh(GhCli::from_executable("/opt/fake/gh").expect("gh cli"))
        .with_browser_code("browser-code")
        .with_token("pasted-token");
    assert_eq!(probes.try_token().unwrap(), "pasted-token");

    // gh would succeed, but without permission it is never tried.
    let without_permission = resolve(GhPermission::denied(), |method| match method {
        GitHubAuthMethod::GhCli => panic!("gh must not run before permission is granted"),
        GitHubAuthMethod::Browser => Ok("browser-token".into()),
        _ => Err(GitHubError::Unavailable("not reached".into())),
    })
    .expect("browser fallback");
    assert_eq!(without_permission.method, GitHubAuthMethod::Browser);
    assert_eq!(without_permission.attempted, vec![GitHubAuthMethod::Browser]);
    assert_eq!(without_permission.token, "browser-token");

    let with_permission = resolve(GhPermission::granted(), |method| match method {
        GitHubAuthMethod::GhCli => Ok("gho_fake_token".into()),
        _ => panic!("successful gh auth must not continue into OAuth"),
    })
    .expect("gh auth");
    assert_eq!(with_permission.method, GitHubAuthMethod::GhCli);
    assert_eq!(with_permission.attempted, vec![GitHubAuthMethod::GhCli]);
    assert_eq!(with_permission.token, "gho_fake_token");

    let device_auth = resolve(GhPermission::granted(), |method| match method {
        GitHubAuthMethod::GhCli => Err(GitHubError::Unavailable("gh not authenticated".into())),
        GitHubAuthMethod::Browser => Err(GitHubError::AuthFailed("access_denied".into())),
        GitHubAuthMethod::Device => Ok("device-token".into()),
        GitHubAuthMethod::Token => panic!("device success must stop the fallback"),
    })
    .expect("device fallback");
    assert_eq!(device_auth.method, GitHubAuthMethod::Device);
    assert_eq!(
        device_auth.attempted,
        vec![
            GitHubAuthMethod::GhCli,
            GitHubAuthMethod::Browser,
            GitHubAuthMethod::Device,
        ]
    );
    assert_eq!(device_auth.token, "device-token");

    let token_auth = resolve(GhPermission::granted(), |method| match method {
        GitHubAuthMethod::Token => probes.try_token(),
        _ => Err(GitHubError::Unavailable("failed".into())),
    })
    .expect("token fallback");
    assert_eq!(token_auth.method, GitHubAuthMethod::Token);
    assert_eq!(
        token_auth.attempted,
        vec![
            GitHubAuthMethod::GhCli,
            GitHubAuthMethod::Browser,
            GitHubAuthMethod::Device,
            GitHubAuthMethod::Token,
        ]
    );
    assert_eq!(token_auth.token, "pasted-token");
}

#[test]
fn every_method_failing_reports_the_last_error() {
    let result = resolve(GhPermission::denied(), |_| {
        Err(GitHubError::Unavailable("no pasted GitHub token".into()))
    });
    match result {
        Err(GitHubError::AuthFailed(message)) => assert_eq!(
            message,
            "GitHub authentication method is unavailable: no pasted GitHub token"
        ),
        Err(other) => panic!("unexpected {other:?}"),
        Ok(_) => panic!("every method failed, yet a credential came back"),
    }
}

#[test]
fn parses_github_remote_forms() {
    for url in [
        "git@github.com:acme/widgets.git",
        "https://github.com/acme/widgets.git",
        "https://github.com/acme/widgets/",
        "ssh://git@github.com/acme/widgets",
        "  https://WWW.GitHub.com./acme/widgets  ",
    ] {
        assert_eq!(
            parse_github_owner_repo(url),
            Some(("acme".to_string(), "widgets".to_string())),
            "{url}"
        );
    }
    for url in [
        "",
        "https://gitlab.com/acme/widgets.git",
        "git@github.com:acme",
        "https://github.com/acme/widgets/extra",
        "https://github.com/../widgets",
        "not a url",
    ] {
        assert_eq!(parse_github_owner_repo(url), None, "{url}");
    }
}

#[test]
fn remote_listing_keeps_each_fetch_remote_once() {
    let remotes = parse_remote_listing(
        "origin\thttps://github.com/a/b.git (fetch)\norigin\thttps://github.com/a/b.git (push)\norigin\thttps://github.com/x/y.git (fetch)\nbroken (fetch)\n",
    );
    assert_eq!(remotes.len(), 1);
    assert_eq!(remotes[0].name, "origin");
    assert_eq!(remotes[0].url, "https://github.com/a/b.git");
    let destination = destination_from_remotes(&remotes).unwrap();
    assert_eq!(destination.owner, "a");
    assert_eq!(destination.repo, "b");
}

#[test]
fn fingerprint_is_stable_and_marks_the_body() {
    let draft = approved_draft("opportunity-1");
    let first = work_item_fingerprint(&destination(), &draft);
    let second = work_item_fingerprint(&destination(), &draft);
    assert_eq!(first, second);
    assert_eq!(first.len(), 64);
    assert!(first.chars().all(|c| c.is_ascii_hexdigit() && !c.is_ascii_uppercase()));
    let other = work_item_fingerprint(&destination(), &approved_draft("opportunity-2"));
    assert_ne!(first, other);

    let rendered = render_work_item(&destination(), &draft);
    assert_eq!(rendered.fingerprint, first);
    assert_eq!(rendered.title, "Restore rationale for auth");
    let marker = fingerprint_marker(&first);
    assert_eq!(marker, format!("subsurface-work-item:sha256:{first}"));
    assert!(rendered.body.starts_with("# Restore rationale for auth\n\n"));
    assert!(rendered.body.contains("## Evidence\n- `src/auth.rs:1-20@abc123`\n"));
    assert!(rendered.body.contains("## Base commit\n`abc123`\n"));
    assert!(rendered.body.contains("Result: improved\n"));
    assert!(rendered.body.contains("\nRemaining:\n- none\n"));
    assert!(rendered.body.contains(&format!("<!-- {marker} -->")));
    assert!(rendered.body.ends_with(&format!("`{marker}`\n<!-- {marker} -->\n")));
}

#[test]
fn recovery_finds_the_marked_issue_after_a_timeout() {
    let fingerprint = work_item_fingerprint(&destination(), &approved_draft("o"));
    let marker = fingerprint_marker(&fingerprint);
    let items = vec![
        IssueSummary {
            number: 7,
            html_url: "http://127.0.0.1/issues/7".into(),
            body: Some("unrelated".into()),
        },
        IssueSummary {
            number: 8,
            html_url: "http://127.0.0.1/issues/8".into(),
            body: Some(format!("text\n<!-- {marker} -->")),
        },
    ];
    let found = find_marked_issue(&items, &destination(), &fingerprint).unwrap();
    assert_eq!(found.number, 8);
    assert_eq!(found.outcome, PublishOutcome::Existing);

    match after_create(Err(GitHubError::Timeout("slow".into()))) {
        CreateFollowUp::SearchAgain(message) => {
            assert_eq!(message, "slow");
            assert_eq!(after_recovery_search(Some(found.clone()), message).unwrap(), found);
        }
        other => panic!("unexpected {other:?}"),
    }
    assert!(matches!(
        after_recovery_search(None, "slow".into()),
        Err(GitHubError::Timeout(m)) if m == "slow"
    ));
    assert!(matches!(
        after_create(Err(GitHubError::Api("HTTP 500".into()))),
        CreateFollowUp::Done(Err(GitHubError::Api(_)))
    ));
}

#[test]
fn client_base_url_drops_trailing_slashes() {
    let client = GitHubClient::new().with_base_url("http://127.0.0.1:9/");
    assert_eq!(client.base_url(), "http://127.0.0.1:9");
    assert_eq!(GitHubClient::new().base_url(), "https://api.github.com");
    assert_eq!(
        browser_callback_url("http://127.0.0.1/cb", "c", "s"),
        "http://127.0.0.1/cb?code=c&state=s"
    );
    assert_eq!(
        browser_callback_url("http://127.0.0.1/cb?x=1", "c", "s"),
        "http://127.0.0.1/cb?x=1&code=c&state=s"
    );
}
