use oxllm::config::{
    Config, ProviderConfig, ServerConfig, VirtualModelConfig, VirtualModelTarget,
};
use oxllm::reload::{
    after_build, after_load, after_publish, after_validation, reload_reply, startup_failure,
    ReloadOutcome, ReloadStep,
};
use oxllm::reply::{error_reply, message_reply, Reply};
use oxllm::state::{
    admit_provider, admit_providers, assemble_app_state, build_app_state, build_providers,
    invalid_url, select_enabled, CircuitState,
};
use serde_json::Value;

fn provider(name: &str, base_url: &str, enabled: bool) -> ProviderConfig {
    ProviderConfig {
        name: name.to_string(),
        base_url: base_url.to_string(),
        api_key: format!("key-{}", name),
        models: vec!["model".to_string()],
        enabled,
    }
}

fn config(providers: Vec<ProviderConfig>) -> Config {
    Config {
        server: ServerConfig {
            host: "127.0.0.1".to_string(),
            port: 8080,
            bind_family: "ipv4".to_string(),
            upstream_timeout_secs: 5,
            otel_endpoint: "http://localhost:4317".to_string(),
        },
        providers,
        virtual_models: vec![VirtualModelConfig {
            name: "test".to_string(),
            targets: vec![VirtualModelTarget {
                provider: "p1".to_string(),
                model: "model".to_string(),
            }],
        }],
    }
}

fn body(reply: &Reply) -> Value {
    assert_eq!(reply.headers.len(), 1);
    assert_eq!(reply.headers.get("content-type").unwrap(), "application/json");
    serde_json::from_slice(&reply.body).unwrap()
}

fn assert_error(outcome: ReloadOutcome, status: u16, kind: &str, message: &str) {
    let reply = reload_reply(&outcome);
    assert_eq!(reply.status, status);
    let body = body(&reply);
    let error = body.get("error").unwrap();
    assert_eq!(error.get("message").unwrap().as_str().unwrap(), message);
    assert_eq!(error.get("type").unwrap().as_str().unwrap(), kind);
    assert_eq!(error.get("code").unwrap().as_u64().unwrap(), status as u64);
}

#[test]
fn a_gateway_starts_with_its_enabled_providers() {
    let built = build_app_state(config(vec![
        provider("p1", "https://api.one.example.com/v1/", true),
        provider("p2", "not a url", false),
        provider("p3", "HTTPS://API.three.example.com:443", true),
    ]));
    let state = match built {
        Ok(state) => state,
        Err(said) => panic!("{}", said),
    };
    assert_eq!(state.upstream_timeout_secs, 5);
    assert_eq!(state.virtual_models.len(), 1);
    assert_eq!(state.virtual_models[0].name, "test");
    assert_eq!(state.virtual_models[0].targets[0].provider, "p1");
    assert_eq!(state.providers.len(), 2);
    assert_eq!(state.providers[0].name, "p1");
    assert_eq!(state.providers[0].base_url, "https://api.one.example.com/v1/");
    assert_eq!(state.providers[1].name, "p3");
    assert_eq!(state.providers[1].base_url, "https://api.three.example.com/");
    assert_eq!(state.providers[1].api_key, "key-p3");
    assert_eq!(state.providers[1].models, vec!["model".to_string()]);
    for state in &state.providers {
        assert!(matches!(state.circuit, CircuitState::Closed));
        assert_eq!(state.consecutive_failures, 0);
        assert!(state.rate_limited_until.is_none());
        assert!(state.last_attempt_time.is_none());
        assert!(!state.probe_in_flight);
        assert!(!state.manual_disabled);
        assert_eq!(state.requests, 0);
        assert_eq!(state.successes, 0);
        assert_eq!(state.tokens_input, 0);
        assert_eq!(state.tokens_output, 0);
    }
}

#[test]
fn the_first_bad_base_url_is_reported() {
    let built = build_app_state(config(vec![
        provider("off", "also bad", false),
        provider("good", "http://localhost/", true),
        provider("bad", "not a url", true),
        provider("worse", "http://", true),
    ]));
    assert_eq!(
        built.err().unwrap(),
        "Invalid base URL 'not a url' for provider 'bad': relative URL without a base"
    );
    assert_eq!(
        build_providers(vec![provider("worse", "http://", true)]).err().unwrap(),
        "Invalid base URL 'http://' for provider 'worse': empty host"
    );
}

#[test]
fn disabled_providers_do_not_matter() {
    assert_eq!(build_providers(vec![]).ok().unwrap().len(), 0);
    assert_eq!(build_providers(vec![provider("p", "bad", false)]).ok().unwrap().len(), 0);
}

#[test]
fn a_provider_is_admitted_by_its_base_url() {
    let admitted = admit_provider(provider("p", "given", true), Ok("http://made/".to_string()));
    assert_eq!(admitted.ok().unwrap().base_url, "http://made/");
    let refused = admit_provider(provider("p", "given", true), Err("no host".to_string()));
    assert_eq!(refused.err().unwrap(), "Invalid base URL 'given' for provider 'p': no host");
}

#[test]
fn providers_are_admitted_up_to_the_first_bad_base_url() {
    let good = || (provider("good", "g", true), Ok("http://good/".to_string()));
    let bad = |name: &str| (provider(name, "b", true), Err("why".to_string()));
    let made = admit_providers(vec![good(), good()]).ok().unwrap();
    assert_eq!(made.len(), 2);
    assert_eq!(made[1].base_url, "http://good/");
    let said = admit_providers(vec![good(), bad("first"), good(), bad("second")]).err().unwrap();
    assert_eq!(said, "Invalid base URL 'b' for provider 'first': why");
    assert_eq!(admit_providers(vec![]).ok().unwrap().len(), 0);
}

#[test]
fn enabled_providers_keep_their_order() {
    let chosen = select_enabled(vec![
        provider("a", "1", true),
        provider("b", "2", false),
        provider("c", "3", true),
    ]);
    let names: Vec<&str> = chosen.iter().map(|provider| provider.name.as_str()).collect();
    assert_eq!(names, vec!["a", "c"]);
}

#[test]
fn without_a_client_there_is_no_state() {
    let built = assemble_app_state(vec![], vec![], 5, Err("no TLS".to_string()));
    assert_eq!(built.err().unwrap(), "Failed to build HTTP client: no TLS");
}

#[test]
fn a_configuration_goes_through_all_steps() {
    let step = after_load(Ok(config(vec![provider("p1", "http://localhost/v1", true)])));
    let loaded = match step {
        ReloadStep::Validate(config) => config,
        _ => panic!("expected to validate"),
    };
    let state = match after_validation(loaded, Ok(())) {
        ReloadStep::Publish(state) => state,
        _ => panic!("expected to publish"),
    };
    assert_eq!(state.providers[0].base_url, "http://localhost/v1");
    assert!(matches!(after_publish(true), ReloadOutcome::Reloaded));
}

#[test]
fn a_failed_step_ends_the_reload() {
    assert!(matches!(
        after_load(Err("gone".to_string())),
        ReloadStep::Finish(ReloadOutcome::LoadFailed(error)) if error == "gone"
    ));
    assert!(matches!(
        after_validation(config(vec![]), Err("no providers".to_string())),
        ReloadStep::Finish(ReloadOutcome::Invalid(error)) if error == "no providers"
    ));
    assert!(matches!(
        after_validation(config(vec![provider("p", "x", true)]), Ok(())),
        ReloadStep::Finish(ReloadOutcome::BuildFailed(error))
            if error == "Invalid base URL 'x' for provider 'p': relative URL without a base"
    ));
    assert!(matches!(
        after_build(Err("no client".to_string())),
        ReloadStep::Finish(ReloadOutcome::BuildFailed(error)) if error == "no client"
    ));
    assert!(matches!(after_publish(false), ReloadOutcome::SendFailed));
}

#[test]
fn a_start_fails_with_the_bare_error() {
    let failure = |outcome| startup_failure(outcome);
    assert_eq!(failure(ReloadOutcome::LoadFailed("a".to_string())), Some("a".to_string()));
    assert_eq!(failure(ReloadOutcome::Invalid("b".to_string())), Some("b".to_string()));
    assert_eq!(failure(ReloadOutcome::BuildFailed("c".to_string())), Some("c".to_string()));
    assert_eq!(failure(ReloadOutcome::SendFailed), None);
    assert_eq!(failure(ReloadOutcome::Reloaded), None);
}

#[test]
fn replies_tell_why_a_reload_failed() {
    let bad = "invalid_request_error";
    assert_error(
        ReloadOutcome::LoadFailed("No such file \"x\"\n".to_string()),
        400,
        bad,
        "Failed to load config: No such file \"x\"\n",
    );
    assert_error(
        ReloadOutcome::Invalid("unknown provider".to_string()),
        400,
        bad,
        "Config validation failed: unknown provider",
    );
    assert_error(
        ReloadOutcome::BuildFailed("bad URL".to_string()),
        400,
        bad,
        "Failed to build state: bad URL",
    );
    assert_error(
        ReloadOutcome::SendFailed,
        500,
        "internal_error",
        "Failed to send config update",
    );
}

#[test]
fn a_reply_tells_that_a_reload_worked() {
    let reply = reload_reply(&ReloadOutcome::Reloaded);
    assert_eq!(reply.status, 200);
    assert_eq!(
        body(&reply).get("message").unwrap().as_str().unwrap(),
        "Configuration reloaded successfully"
    );
    assert_eq!(reply.body, b"{\"message\":\"Configuration reloaded successfully\"}".to_vec());
}

#[test]
fn messages_are_escaped_and_read_back() {
    let message = "a \"quoted\" \\ line\n\u{1}\té✓";
    let reply = message_reply(message);
    assert_eq!(body(&reply).get("message").unwrap().as_str().unwrap(), message);
    let reply = error_reply(418, "kind \"k\"", message);
    assert_eq!(reply.status, 418);
    let body = body(&reply);
    assert_eq!(body.get("error").unwrap().get("message").unwrap().as_str().unwrap(), message);
    assert_eq!(body.get("error").unwrap().get("type").unwrap().as_str().unwrap(), "kind \"k\"");
    assert_eq!(body.get("error").unwrap().get("code").unwrap().as_u64().unwrap(), 418);
}

#[test]
fn a_gateway_runs_on_the_last_good_configuration() {
    let good = |name: &str| Ok(config(vec![provider(name, "http://localhost/", true)]));
    let bad = || Ok(config(vec![provider("bad", "x", true)]));
    let attempts: Vec<(Result<Config, String>, Result<(), String>, bool)> = vec![
        (bad(), Ok(()), true),
        (good("first"), Ok(()), true),
        (good("second"), Ok(()), true),
        (Err("gone".to_string()), Ok(()), true),
        (good("third"), Err("no targets".to_string()), true),
        (bad(), Ok(()), true),
        (good("fourth"), Ok(()), false),
    ];
    let mut running = build_app_state(good("start").unwrap()).ok().unwrap();
    let mut seen: Vec<String> = vec![];
    for (loaded, validated, delivered) in attempts {
        if let ReloadStep::Validate(config) = after_load(loaded) {
            if let ReloadStep::Publish(state) = after_validation(config, validated) {
                if let ReloadOutcome::Reloaded = after_publish(delivered) {
                    running = state;
                }
            }
        }
        seen.push(running.providers[0].name.clone());
    }
    assert_eq!(seen, vec!["start", "first", "second", "second", "second", "second", "second"]);
}

#[test]
fn a_gateway_offers_the_configured_models() {
    let mut with_two = config(vec![provider("p1", "http://localhost/", true)]);
    with_two.virtual_models.push(VirtualModelConfig { name: "other".to_string(), targets: vec![] });
    let state = build_app_state(with_two).ok().unwrap();
    let names: Vec<&str> = state.virtual_models.iter().map(|model| model.name.as_str()).collect();
    assert_eq!(names, vec!["test", "other"]);
}

#[test]
fn a_bad_base_url_is_named_with_its_provider() {
    assert_eq!(
        invalid_url("x", "p", "relative URL without a base"),
        "Invalid base URL 'x' for provider 'p': relative URL without a base"
    );
}

#[test]
fn circuits_start_closed() {
    let state = build_app_state(config(vec![provider("p1", "http://localhost/", true)])).ok().unwrap();
    assert!(!matches!(state.providers[0].circuit, CircuitState::Open { .. }));
    assert!(matches!(state.providers[0].circuit, CircuitState::Closed));
}
