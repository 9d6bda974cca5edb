use oxllm::cli::{log_filter, valid_config};
use oxllm::client::{
    after_failure, after_request, after_status_request, bad_status, provider_url, status_url, Attempt, ClientStep,
    ProviderAction,
};
use oxllm::config::ServerConfig;
use oxllm::listen::{
    dual_stack_address, dual_stack_steps, listen_plan, step_failure, ListenPlan, SocketStep,
};
use oxllm::paths::{join, resolve_config_path, user_config_file, ConfigLocation};
use oxllm::pid::{
    find_pid, kill_arguments, lookup_notice, pid_file_content, signal_report, stop_report,
    PidLookup, Signal, PID_FILE,
};
use oxllm::routing::{cross_origin_methods, health_check, route_to, routes, Endpoint, Method};
use std::path::{Path, PathBuf};

fn some(text: &str) -> Option<String> {
    Some(text.to_string())
}

#[test]
fn paths_are_joined_as_the_standard_library_joins_them() {
    for base in ["", "/", "a", "a/", "/a/b", "/a//", "."] {
        for component in ["", "b", "b/c", "/b", ".config"] {
            let expected: PathBuf = Path::new(base).join(component);
            assert_eq!(join(base, component), expected.to_str().unwrap());
        }
    }
}

#[test]
fn the_user_file_follows_the_environment() {
    assert_eq!(user_config_file(some("/xdg"), some("/home/u")), "/xdg/oxllm/config.toml");
    assert_eq!(user_config_file(some("/xdg/"), None), "/xdg/oxllm/config.toml");
    assert_eq!(user_config_file(some(""), None), "oxllm/config.toml");
    assert_eq!(user_config_file(None, some("/home/u")), "/home/u/.config/oxllm/config.toml");
    assert_eq!(user_config_file(None, None), "./.config/oxllm/config.toml");
}

#[test]
fn the_file_that_exists_is_taken() {
    assert!(matches!(resolve_config_path(true, true), ConfigLocation::Given));
    assert!(matches!(resolve_config_path(true, false), ConfigLocation::Given));
    assert!(matches!(resolve_config_path(false, true), ConfigLocation::UserDirectory));
    assert!(matches!(resolve_config_path(false, false), ConfigLocation::Given));
}

#[test]
fn a_running_gateway_is_found_by_its_file() {
    assert_eq!(PID_FILE, "/tmp/oxllm.pid");
    assert_eq!(pid_file_content(4711), "4711");
    for pid in [0u32, 1, 4711, u32::MAX] {
        let content = pid_file_content(pid);
        assert!(matches!(find_pid(None, Some(content)), PidLookup::Found(found) if found == pid));
    }
    assert!(matches!(find_pid(None, some(" 4711\n")), PidLookup::Found(4711)));
    assert!(matches!(find_pid(Some(5), some("4711")), PidLookup::Found(5)));
    assert!(matches!(find_pid(Some(5), None), PidLookup::Found(5)));
}

#[test]
fn without_a_process_there_is_a_notice() {
    assert!(lookup_notice(&find_pid(Some(5), None)).is_none());
    for content in ["", "x", "47 11", "-1", "4294967296"] {
        let lookup = find_pid(None, some(content));
        assert!(matches!(lookup, PidLookup::Invalid));
        assert_eq!(lookup_notice(&lookup), some("Invalid PID in /tmp/oxllm.pid\n"));
    }
    let lookup = find_pid(None, None);
    assert!(matches!(lookup, PidLookup::NotRunning));
    assert_eq!(
        lookup_notice(&lookup),
        some("oxllm is not running (no PID file at /tmp/oxllm.pid)\nStart it with: oxllm serve\n")
    );
}

#[test]
fn signals_are_sent_by_the_kill_command() {
    assert_eq!(kill_arguments(&Signal::Hangup, 12), vec!["-HUP".to_string(), "12".to_string()]);
    assert_eq!(kill_arguments(&Signal::Terminate, 0), vec!["-TERM".to_string(), "0".to_string()]);
}

#[test]
fn signals_are_reported() {
    assert_eq!(
        signal_report(&Signal::Hangup, 12, true, Some(0)).unwrap(),
        "Successfully sent hot-reload signal (SIGHUP) to process 12"
    );
    assert_eq!(
        signal_report(&Signal::Terminate, 12, true, Some(0)).unwrap(),
        "Successfully sent graceful shutdown signal (SIGTERM) to process 12"
    );
    for code in [Some(1), Some(-1), Some(i32::MIN), None] {
        let expected = format!("kill command failed with exit code: {:?}", code);
        assert_eq!(signal_report(&Signal::Hangup, 12, false, code).unwrap_err(), expected);
        assert_eq!(signal_report(&Signal::Terminate, 12, false, code).unwrap_err(), expected);
    }
}

#[test]
fn the_end_of_a_stop_command_is_told() {
    for code in [Some(0), None] {
        assert_eq!(
            stop_report(12, Ok((true, code))),
            "Successfully sent graceful shutdown signal (SIGTERM) to process 12"
        );
    }
    for code in [Some(1), Some(-1), None] {
        assert_eq!(
            stop_report(12, Ok((false, code))),
            format!("kill command failed with exit code: {:?}", code)
        );
    }
    assert_eq!(
        stop_report(12, Err("not found".to_string())),
        "Failed to send SIGTERM: not found"
    );
}

fn server(bind_family: &str) -> ServerConfig {
    ServerConfig {
        host: "0.0.0.0".to_string(),
        port: 8080,
        bind_family: bind_family.to_string(),
        upstream_timeout_secs: 5,
        otel_endpoint: String::new(),
    }
}

#[test]
fn the_family_decides_where_to_listen() {
    assert!(matches!(listen_plan(&server("ipv6")), ListenPlan::Ipv6(a) if a == "[::]:8080"));
    assert!(matches!(listen_plan(&server("dual")), ListenPlan::Dual(8080)));
    for family in ["ipv4", "", "IPv6", "dual "] {
        assert!(matches!(listen_plan(&server(family)), ListenPlan::Ipv4(a) if a == "0.0.0.0:8080"));
    }
}

#[test]
fn a_socket_for_both_families_is_bound_to_all_addresses() {
    assert_eq!(dual_stack_address(8080), "[::]:8080");
    assert_eq!(dual_stack_address(0), "[::]:0");
    assert_eq!(dual_stack_address(65535), "[::]:65535");
}

#[test]
fn a_socket_for_both_families_is_made_in_order() {
    let said: Vec<String> =
        dual_stack_steps().iter().map(|step| step_failure(step, "denied")).collect();
    assert_eq!(
        said,
        vec![
            "Failed to create socket: denied",
            "Failed to set dual-stack: denied",
            "Failed to set reuse address: denied",
            "Failed to bind: denied",
            "Failed to listen: denied",
            "Failed to set non-blocking: denied",
            "Failed to create tokio listener: denied",
        ]
    );
    let steps = dual_stack_steps();
    assert!(matches!(steps[1], SocketStep::OnlyV6(false)));
    assert!(matches!(steps[2], SocketStep::ReuseAddress(true)));
    assert!(matches!(steps[4], SocketStep::Listen(1024)));
    assert!(matches!(steps[5], SocketStep::NonBlocking(true)));
}

#[test]
fn administrative_routes_are_for_this_machine() {
    let table: Vec<(&str, bool, bool)> = routes()
        .iter()
        .map(|route| (route.path, route.method == Method::Post, route.local_only))
        .collect();
    assert_eq!(
        table,
        vec![
            ("/v1/models", false, false),
            ("/v1/embeddings", true, false),
            ("/v1/chat/completions", true, false),
            ("/status", false, true),
            ("/health", false, true),
            ("/reload", true, true),
            ("/admin/providers/{name}/offline", true, true),
            ("/admin/providers/{name}/online", true, true),
            ("/admin/providers/{name}/reset", true, true),
        ]
    );
    for route in routes() {
        assert_eq!(route.local_only, !route.path.starts_with("/v1/"));
        assert!(route_to(route.endpoint).path == route.path);
        assert!(cross_origin_methods().contains(&route.method));
    }
    assert!(cross_origin_methods().contains(&Method::Options));
    assert!(routes()[5].endpoint == Endpoint::Reload);
    assert_eq!(health_check(), (200, "OK"));
}

#[test]
fn commands_use_the_routes_of_the_gateway() {
    assert_eq!(status_url(8080), "http://127.0.0.1:8080/status");
    let actions = [
        (ProviderAction::Offline, Endpoint::AdminOffline, "offline"),
        (ProviderAction::Online, Endpoint::AdminOnline, "online"),
        (ProviderAction::Reset, Endpoint::AdminReset, "reset"),
    ];
    for (action, endpoint, word) in actions {
        let url = provider_url(9, "resetme", &action);
        assert_eq!(url, format!("http://127.0.0.1:9/admin/providers/resetme/{}", word));
        let path = route_to(endpoint).path.replace("{name}", "resetme");
        assert_eq!(url, format!("http://127.0.0.1:9{}", path));
    }
}

fn failed(connect: bool) -> Attempt {
    Attempt::Failed { connect, error: "no answer".to_string() }
}

#[test]
fn an_absent_gateway_is_reported() {
    let expected = "oxllm is not running on http://127.0.0.1:8080\nStart it with: oxllm serve\n";
    assert!(matches!(
        after_failure(8080, true, "connection refused".to_string()),
        ClientStep::Report(said) if said == expected
    ));
    assert!(matches!(
        after_request(8080, failed(true)),
        ClientStep::Report(said) if said == expected
    ));
    assert!(matches!(
        after_status_request(8080, failed(true)),
        ClientStep::Report(said) if said == expected
    ));
}

#[test]
fn other_errors_of_a_request_end_the_command() {
    assert!(matches!(
        after_failure(8080, false, "timed out".to_string()),
        ClientStep::Fail(said) if said == "timed out"
    ));
    assert!(matches!(
        after_request(8080, failed(false)),
        ClientStep::Fail(said) if said == "no answer"
    ));
    assert!(matches!(
        after_status_request(8080, failed(false)),
        ClientStep::Fail(said) if said == "no answer"
    ));
}

#[test]
fn the_status_of_an_answer_counts_for_the_status_command_only() {
    for code in [200u16, 204, 299] {
        assert!(matches!(
            after_status_request(1, Attempt::Answered(code)),
            ClientStep::Proceed
        ));
    }
    for (code, shown) in [
        (403u16, "403 Forbidden"),
        (500, "500 Internal Server Error"),
        (199, "199 <unknown status code>"),
        (300, "300 Multiple Choices"),
        (999, "999 <unknown status code>"),
        (100, "100 Continue"),
    ] {
        let expected = format!("Server returned error status: {}", shown);
        assert_eq!(bad_status(shown), expected);
        assert!(matches!(
            after_status_request(1, Attempt::Answered(code)),
            ClientStep::Fail(said) if said == expected
        ));
        assert!(matches!(after_request(1, Attempt::Answered(code)), ClientStep::Proceed));
    }
}

#[test]
fn verbosity_decides_what_is_logged() {
    assert_eq!(log_filter(Some(0)), "info,oxllm=info,oxllm_core=info");
    assert_eq!(log_filter(Some(1)), "info,oxllm=debug,oxllm_core=debug");
    assert_eq!(log_filter(Some(2)), "trace");
    assert_eq!(log_filter(Some(255)), "trace");
    assert_eq!(log_filter(None), "info,oxllm=debug,oxllm_core=debug");
}

#[test]
fn a_valid_configuration_is_reported() {
    let path = PathBuf::from("config.toml");
    assert_eq!(
        valid_config(&format!("{:?}", path)),
        format!("Configuration file at '{:?}' is VALID!", path)
    );
}
