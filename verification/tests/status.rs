use oxllm::status::{
    distinct_providers, render_circuit_icon, render_model_table, render_provider_list,
    render_provider_row, render_status, unrouted_providers, ProviderStatus, RouteEntry, StatusResponse, VirtualModel,
};

fn entry(provider: &str, model: &str, circuit: &str, requests: u64, successes: u64) -> RouteEntry {
    RouteEntry {
        provider: provider.to_string(),
        model: model.to_string(),
        circuit: circuit.to_string(),
        requests,
        successes,
    }
}

fn model(name: &str, routes: Vec<RouteEntry>) -> VirtualModel {
    VirtualModel { name: name.to_string(), routes }
}

fn row(provider: &str, model: &str, circuit: &str, requests: &str, successes: &str) -> String {
    format!(
        "| {:<20} | {:<45} | {:<30} | {:>8} | {:>8} |\n",
        provider, model, circuit, requests, successes
    )
}

fn provider(name: &str, rate_limited: bool) -> ProviderStatus {
    ProviderStatus {
        name: name.to_string(),
        models: "model".to_string(),
        circuit: "Closed".to_string(),
        failures: 3,
        rate_limited,
        requests: 12,
        successes: 9,
        tokens_input: 42,
        tokens_output: 7,
        last_request: "5s ago".to_string(),
    }
}

fn gateway(providers: Vec<ProviderStatus>, virtual_models: Vec<VirtualModel>) -> StatusResponse {
    StatusResponse { uptime_secs: 1, total_requests: 0, providers, virtual_models }
}

#[test]
fn a_routing_table_has_a_row_for_each_target() {
    let shown = render_model_table(&model(
        "gpt-4",
        vec![entry("prov1", "gpt-4-upstream", "Closed", 10, 9), entry("prov2", "m", "Open", 0, 0)],
    ));
    let line = "-".repeat(127);
    let expected = format!(
        "\nVirtual Model: gpt-4\n{}\n{}{}\n{}{}",
        line,
        row("Provider", "Model", "Circuit", "Requests", "Success"),
        line,
        row("prov1", "gpt-4-upstream", "Closed", "10", "9"),
        row("prov2", "m", "Open", "0", "0"),
    );
    assert_eq!(shown, expected);
}

#[test]
fn rows_are_as_long_as_the_lines_between_them() {
    let shown = render_model_table(&model("m", vec![entry("p", "m", "Closed", 99999999, 1)]));
    for line in shown.lines().skip(2) {
        assert_eq!(line.chars().count(), 127);
    }
}

#[test]
fn long_texts_are_kept_whole() {
    let long = "a-provider-with-a-very-long-name-indeed";
    let shown = render_model_table(&model("m", vec![entry(long, "m", "Closed", 1234567890, 1)]));
    assert!(shown.ends_with(&row(long, "m", "Closed", "1234567890", "1")));
}

#[test]
fn a_provider_row_says_whether_it_is_rate_limited() {
    assert_eq!(
        render_provider_row(&provider("prov1", true)),
        format!(
            "| {:<18} | {:<45} | {:<30} | {:<8} | {:<13} | {:<8} | {:<9} | {:<12} | {:<13} | {:<12} |\n",
            "prov1", "model", "Closed", 3, "Yes", 12, 9, 42, 7, "5s ago"
        )
    );
    assert!(render_provider_row(&provider("prov1", false)).contains("| No            |"));
}

#[test]
fn the_status_shows_the_gateway_the_models_and_the_providers() {
    let status = StatusResponse {
        uptime_secs: 3725,
        total_requests: 17,
        providers: vec![provider("prov1", false), provider("prov2", true)],
        virtual_models: vec![
            model("a", vec![entry("prov1", "x", "Closed", 1, 1)]),
            model("b", vec![]),
        ],
    };
    let shown = render_status(&status);
    let border = "+--------------------+-----------------------------------------------+--------------------------------+----------+---------------+----------+-----------+--------------+---------------+--------------+";
    let expected = format!(
        "\nUptime: 62m 5s  |  Total Requests: 17\n{}{}\n{}\n{}\n{}\n{}{}{}\n\n",
        render_model_table(&status.virtual_models[0]),
        render_model_table(&status.virtual_models[1]),
        border,
        "| Provider Name      | Models                                                | Circuit Breaker State          | Failures | Rate Limited? | Requests | Successes | Tokens Input | Tokens Output | Last Request|",
        border,
        render_provider_row(&status.providers[0]),
        render_provider_row(&status.providers[1]),
        border,
    );
    assert_eq!(shown, expected);
}

#[test]
fn an_idle_gateway_has_a_status_too() {
    let shown = render_status(&StatusResponse {
        uptime_secs: 59,
        total_requests: 0,
        providers: vec![],
        virtual_models: vec![],
    });
    assert!(shown.starts_with("\nUptime: 0m 59s  |  Total Requests: 0\n\n+---"));
    assert!(shown.ends_with("-+\n\n"));
    assert_eq!(shown.lines().count(), 8);
}

#[test]
fn each_provider_is_listed_once_with_its_first_target() {
    let models = vec![
        model("a", vec![entry("p", "first", "Closed", 1, 1), entry("q", "second", "Open", 2, 0)]),
        model("b", vec![entry("q", "third", "Closed", 3, 3), entry("p", "fourth", "Open", 4, 4)]),
        model("c", vec![entry("r", "fifth", "Half-Open", 5, 5), entry("r", "sixth", "Open", 6, 6)]),
    ];
    let listed: Vec<(&str, &str)> = distinct_providers(&models)
        .iter()
        .map(|entry| (entry.provider.as_str(), entry.model.as_str()))
        .collect();
    assert_eq!(listed, vec![("p", "first"), ("q", "second"), ("r", "fifth")]);
}

#[test]
fn listing_what_is_listed_changes_nothing() {
    let models = vec![
        model("a", vec![entry("p", "1", "Closed", 1, 1), entry("p", "2", "Closed", 1, 1)]),
        model("b", vec![entry("q", "3", "Closed", 1, 1), entry("p", "4", "Closed", 1, 1)]),
    ];
    let once: Vec<RouteEntry> = distinct_providers(&models)
        .iter()
        .map(|e| entry(&e.provider, &e.model, &e.circuit, e.requests, e.successes))
        .collect();
    let names: Vec<String> = once.iter().map(|e| e.model.clone()).collect();
    let again = vec![model("again", once)];
    let twice: Vec<String> =
        distinct_providers(&again).iter().map(|e| e.model.clone()).collect();
    assert_eq!(names, twice);
    assert_eq!(twice, vec!["1".to_string(), "3".to_string()]);
}

#[test]
fn signs_tell_the_state_of_the_circuit() {
    assert_eq!(render_circuit_icon("Closed"), "✓");
    assert_eq!(render_circuit_icon("Closed (3 failures)"), "✓");
    assert_eq!(render_circuit_icon("Half-Open"), "⧖");
    assert_eq!(render_circuit_icon("Open (until 30s)"), "✗");
    assert_eq!(render_circuit_icon("closed"), "✗");
    assert_eq!(render_circuit_icon(""), "✗");
}

#[test]
fn the_provider_list_is_a_table_with_hints() {
    let status = gateway(vec![provider("prov1", false), provider("prov2", false)], vec![model(
        "a",
        vec![
            entry("prov1", "m", "Closed", 3, 2),
            entry("prov2", "n", "Open", 1, 0),
            entry("prov1", "o", "Closed", 9, 9),
        ],
    )]);
    let border = "+----------------------+-----------------------------------------------+--------------------------------+----------+----------+";
    let expected = format!(
        "\n{}\n{}\n{}\n{}{}{}\n\n{}\n{}\n\n",
        border,
        "| Provider             | Model                                         | Circuit                        | Requests | Success  |",
        border,
        row("✓ prov1", "m", "Closed", "3", "2"),
        row("✗ prov2", "n", "Open", "1", "0"),
        border,
        "Use 'oxllm provider offline <name>' to take a provider out of rotation.",
        "Use 'oxllm provider reset <name>' to clear circuit breaker state.",
    );
    assert_eq!(render_provider_list(&status), expected);
}

#[test]
fn providers_without_a_route_are_listed_too() {
    let mut open = provider("idle2", false);
    open.circuit = "Open (until 30s)".to_string();
    let status = gateway(
        vec![provider("idle1", false), provider("prov1", true), open],
        vec![model("a", vec![entry("prov1", "m", "Half-Open", 3, 2)])],
    );
    let shown = render_provider_list(&status);
    let rows: Vec<&str> = shown.lines().skip(4).take(3).collect();
    assert_eq!(
        format!("{}\n", rows.join("\n")),
        format!(
            "{}{}{}",
            row("⧖ prov1", "m", "Half-Open", "3", "2"),
            row("✓ idle1", "model", "Closed", "12", "9"),
            row("✗ idle2", "model", "Open (until 30s)", "12", "9"),
        )
    );
    let listed = distinct_providers(&status.virtual_models);
    let names: Vec<&str> = unrouted_providers(&status.providers, &listed)
        .iter()
        .map(|provider| provider.name.as_str())
        .collect();
    assert_eq!(names, vec!["idle1", "idle2"]);
}

#[test]
fn every_provider_has_one_row() {
    let status = gateway(
        vec![provider("p", false), provider("q", false), provider("r", false)],
        vec![
            model("a", vec![entry("q", "1", "Closed", 0, 0), entry("q", "2", "Open", 0, 0)]),
            model("b", vec![entry("q", "3", "Closed", 0, 0)]),
        ],
    );
    let shown = render_provider_list(&status);
    for name in ["p", "q", "r"] {
        let label = format!("| ✓ {:<18} |", name);
        assert_eq!(shown.matches(label.as_str()).count(), 1);
    }
    let shown = render_provider_list(&gateway(vec![provider("only", false)], vec![]));
    assert_eq!(shown.matches("| ✓ only").count(), 1);
}

#[test]
fn of_providers_with_one_name_the_first_is_listed() {
    let mut again = provider("idle", true);
    again.circuit = "Open".to_string();
    let status = gateway(
        vec![provider("idle", false), again, provider("prov1", false), provider("prov1", true)],
        vec![model("a", vec![entry("prov1", "m", "Closed", 3, 2)])],
    );
    let shown = render_provider_list(&status);
    let rows: Vec<&str> = shown.lines().skip(4).collect();
    assert_eq!(
        format!("{}\n{}\n", rows[0], rows[1]),
        format!(
            "{}{}",
            row("✓ prov1", "m", "Closed", "3", "2"),
            row("✓ idle", "model", "Closed", "12", "9"),
        )
    );
    assert!(rows[2].starts_with("+---"));
}

#[test]
fn routing_tables_are_headed_by_their_models() {
    let shown = render_status(&gateway(vec![], vec![model("a", vec![]), model("ab", vec![])]));
    assert_eq!(shown.matches("\nVirtual Model: a\n").count(), 1);
    assert_eq!(shown.matches("\nVirtual Model: ab\n").count(), 1);
}
