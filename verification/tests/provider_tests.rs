use subsurface_engine::provider::{read_reply, reply_from_lookups, reply_text, ProviderError, ProviderProtocol};
use subsurface_engine::provider::{
    all_presets, preset_ollama, preset_openai, preset_opencode_go, preset_opencode_zen,
    ConsentDecision, NativeProvider, OpenAICompatibleProvider, OutboundPolicy,
    ProviderConnectionPreferences, ProviderKind,
};
use subsurface_engine::site::RecentSitesStore;

#[test]
fn test_presets_exist() {
    assert_eq!(all_presets().len(), 8);
    assert_eq!(preset_openai().default_base_url, "https://api.openai.com/v1");
    assert_eq!(
        preset_opencode_zen().default_base_url,
        "https://opencode.ai/zen/v1"
    );
    assert_eq!(
        preset_opencode_go().default_base_url,
        "https://opencode.ai/zen/go/v1"
    );
    assert_eq!(preset_ollama().default_base_url, "http://localhost:11434/v1");
}

#[test]
fn test_recent_sites_store() {
    let mut store = RecentSitesStore::new();
    let p1 = "/repo1".to_string();
    let p2 = "/repo2".to_string();

    store.add(p1.clone());
    store.add(p2.clone());
    assert_eq!(store.sites, vec![p2.clone(), p1.clone()]);

    // Re-adding p1 moves it to front
    store.add(p1.clone());
    assert_eq!(store.sites, vec![p1, p2]);
}

#[test]
fn legacy_provider_preview_matches_the_body_it_sends() {
    let provider =
        OpenAICompatibleProvider::new("https://provider.example/v1", "secret", "selected-model");
    let policy = OutboundPolicy::new(false);

    let preview = policy.preview(&provider, "/tmp/example-project", "private source");
    assert_eq!(preview.payload.model, "selected-model");
    let messages = preview.payload.messages.as_ref().unwrap();
    assert_eq!(messages[0].role, "user");
    assert_eq!(messages[0].content, "private source");
}

#[test]
fn recent_sites_keep_at_most_twenty() {
    let mut store = RecentSitesStore::new();
    for i in 0..25 {
        store.add(format!("/repo{i}"));
    }
    assert_eq!(store.sites.len(), 20);
    assert_eq!(store.sites[0], "/repo24");
    assert_eq!(store.sites[19], "/repo5");
}

#[test]
fn reply_text_reads_each_protocol() {
    let chat = r#"{"choices":[{"message":{"role":"assistant","content":"Because of #12."}}]}"#;
    assert_eq!(reply_text(ProviderProtocol::ChatCompletions, chat), Ok("Because of #12.".to_string()));
    let responses = r#"{"output_text":"direct"}"#;
    assert_eq!(reply_text(ProviderProtocol::Responses, responses), Ok("direct".to_string()));
    let nested = r#"{"output":[{"content":[{"text":"nested"}]}]}"#;
    assert_eq!(reply_text(ProviderProtocol::Responses, nested), Ok("nested".to_string()));
    let messages = r#"{"content":[{"type":"text","text":"msg"}]}"#;
    assert_eq!(reply_text(ProviderProtocol::Messages, messages), Ok("msg".to_string()));
    assert_eq!(
        reply_text(ProviderProtocol::ChatCompletions, nested),
        Err(ProviderError::MalformedResponse("response did not contain text output".to_string()))
    );
    match reply_text(ProviderProtocol::Messages, "not json") {
        Err(ProviderError::MalformedResponse(m)) => assert!(!m.is_empty() && m != "not json"),
        other => panic!("unexpected {:?}", other),
    }
    assert_eq!(
        read_reply(ProviderProtocol::ChatCompletions, 401, "401 Unauthorized", chat),
        Err(ProviderError::Auth("HTTP 401 Unauthorized".to_string()))
    );
    assert_eq!(
        read_reply(ProviderProtocol::ChatCompletions, 200, "200 OK", chat),
        Ok("Because of #12.".to_string())
    );
}

#[test]
fn reply_from_lookups_prefers_the_protocol_field() {
    assert_eq!(
        reply_from_lookups(ProviderProtocol::Responses, Ok(None), Ok(Some("fb".to_string()))),
        Ok("fb".to_string())
    );
    assert_eq!(
        reply_from_lookups(ProviderProtocol::Messages, Ok(None), Ok(Some("fb".to_string()))),
        Err(ProviderError::MalformedResponse("response did not contain text output".to_string()))
    );
    assert_eq!(
        reply_from_lookups(ProviderProtocol::Messages, Err("bad".to_string()), Ok(None)),
        Err(ProviderError::MalformedResponse("bad".to_string()))
    );
    assert_eq!(
        reply_from_lookups(ProviderProtocol::ChatCompletions, Ok(Some("t".to_string())), Err("x".to_string())),
        Ok("t".to_string())
    );
}

fn consent_test_provider() -> NativeProvider {
    NativeProvider::new(
        ProviderConnectionPreferences {
            id: "consent-test".into(),
            name: "Consent Test".into(),
            provider: ProviderKind::Custom,
            base_url: "http://127.0.0.1:9".into(),
            model: "test-model".into(),
            protocol: ProviderProtocol::ChatCompletions,
            is_local: false,
        },
        "test-key",
    )
    .with_timeout(1)
}

fn chat_response(text: &str) -> String {
    format!(r#"{{"choices":[{{"message":{{"content":"{text}"}}}}]}}"#)
}

/// What a call answers once the policy let it out: the reply the provider sent.
fn answered(reply: &str) -> Result<String, ProviderError> {
    read_reply(ProviderProtocol::ChatCompletions, 200, "200 OK", &chat_response(reply))
}

#[test]
fn offline_mode_blocks_external_call() {
    let provider = consent_test_provider();
    let mut policy = OutboundPolicy::new(true);
    let project = "/tmp/example-project";

    let preview = policy.preview(&provider, project, "private source");
    assert_eq!(preview.project_path, project);
    let messages = preview.payload.messages.as_ref().unwrap();
    assert_eq!(messages[0].content, "private source");
    assert!(matches!(
        policy.authorize(project, Some(ConsentDecision::AllowOnce)),
        Err(ProviderError::Offline)
    ));
}

#[test]
fn consent_defaults_to_each_request_and_always_allow_is_project_scoped() {
    let mut policy = OutboundPolicy::new(false);
    let project = "/tmp/project-one";
    let mut sent = 0;

    assert!(matches!(policy.authorize(project, None), Err(ProviderError::ConsentRequired)));
    assert_eq!(policy.authorize(project, Some(ConsentDecision::AllowOnce)), Ok(()));
    sent += 1;
    assert_eq!(answered("once").unwrap(), "once");
    assert!(matches!(policy.authorize(project, None), Err(ProviderError::ConsentRequired)));
    assert_eq!(policy.authorize(project, Some(ConsentDecision::AlwaysAllowProject)), Ok(()));
    sent += 1;
    assert_eq!(answered("always").unwrap(), "always");
    assert_eq!(policy.authorize(project, None), Ok(()));
    sent += 1;
    assert_eq!(answered("remembered").unwrap(), "remembered");
    assert!(matches!(
        policy.authorize("/tmp/project-two", None),
        Err(ProviderError::ConsentRequired)
    ));
    assert_eq!(sent, 3);
}
