//! The tables that the `status` and `provider list` commands print.

use vstd::prelude::*;

use crate::places;
use crate::text;
use crate::text::{append_left_aligned, append_right_aligned, decimal_text, has_prefix, repeat_text};

verus! {

/// One target of a virtual model, as the gateway reports it.
pub struct RouteEntry {
    pub provider: String,
    pub model: String,
    pub circuit: String,
    pub requests: u64,
    pub successes: u64,
}

/// One provider, as the gateway reports it.
pub struct ProviderStatus {
    pub name: String,
    pub models: String,
    pub circuit: String,
    pub failures: u32,
    pub rate_limited: bool,
    pub requests: u64,
    pub successes: u64,
    pub tokens_input: u64,
    pub tokens_output: u64,
    pub last_request: String,
}

/// A virtual model with its targets, in the order of their priority.
pub struct VirtualModel {
    pub name: String,
    pub routes: Vec<RouteEntry>,
}

/// The answer of a running gateway to a status request.
pub struct StatusResponse {
    pub uptime_secs: u64,
    pub total_requests: u64,
    pub providers: Vec<ProviderStatus>,
    pub virtual_models: Vec<VirtualModel>,
}

impl StatusResponse {
    /// Whether no two virtual models have the same name.
    pub open spec fn has_distinct_models(self) -> bool {
        forall|i: int, j: int|
            0 <= i < j < self.virtual_models@.len() ==> #[trigger] self.virtual_models@[i].name@
                != #[trigger] self.virtual_models@[j].name@
    }
}

/// The line above and below the rows of the provider table.
pub const PROVIDER_BORDER: &'static str =
    "+--------------------+-----------------------------------------------+--------------------------------+----------+---------------+----------+-----------+--------------+---------------+--------------+";

/// The headings of the provider table.
pub const PROVIDER_HEADINGS: &'static str =
    "| Provider Name      | Models                                                | Circuit Breaker State          | Failures | Rate Limited? | Requests | Successes | Tokens Input | Tokens Output | Last Request|";

/// The line above and below the rows of the provider list.
pub const LIST_BORDER: &'static str =
    "+----------------------+-----------------------------------------------+--------------------------------+----------+----------+";

/// The headings of the provider list.
pub const LIST_HEADINGS: &'static str =
    "| Provider             | Model                                         | Circuit                        | Requests | Success  |";

/// What the provider list says about taking a provider out of rotation.
pub const OFFLINE_HINT: &'static str =
    "Use 'oxllm provider offline <name>' to take a provider out of rotation.";

/// What the provider list says about clearing the state of a provider.
pub const RESET_HINT: &'static str = "Use 'oxllm provider reset <name>' to clear circuit breaker state.";

/// A row of five columns: three texts and two figures.
pub open spec fn table_row(
    provider: Seq<char>,
    model: Seq<char>,
    circuit: Seq<char>,
    requests: Seq<char>,
    successes: Seq<char>,
) -> Seq<char> {
    "| "@ + text::left_aligned(provider, 20) + " | "@ + text::left_aligned(model, 45) + " | "@ + text::left_aligned(
        circuit,
        30,
    ) + " | "@ + text::right_aligned(requests, 8) + " | "@ + text::right_aligned(successes, 8) + " |\n"@
}

/// The row of one target, under a given label.
pub open spec fn route_row(label: Seq<char>, entry: RouteEntry) -> Seq<char> {
    table_row(
        label,
        entry.model@,
        entry.circuit@,
        text::decimal(entry.requests as nat),
        text::decimal(entry.successes as nat),
    )
}

/// The rows of the targets of a virtual model, each under the name of its provider.
pub open spec fn route_rows(entries: Seq<RouteEntry>) -> Seq<char>
    decreases entries.len(),
{
    if entries.len() == 0 {
        Seq::empty()
    } else {
        route_rows(entries.drop_last()) + route_row(entries.last().provider@, entries.last())
    }
}

/// The line that frames the headings of a routing table.
pub open spec fn dashes() -> Seq<char> {
    text::repeated('-', 127)
}

/// The line above the routing table of a virtual model.
pub open spec fn model_heading(name: Seq<char>) -> Seq<char> {
    "\nVirtual Model: "@ + name + "\n"@
}

/// The routing table of one virtual model.
pub open spec fn model_table(model: VirtualModel) -> Seq<char> {
    model_heading(model.name@) + dashes() + "\n"@ + table_row(
        "Provider"@,
        "Model"@,
        "Circuit"@,
        "Requests"@,
        "Success"@,
    ) + dashes() + "\n"@ + route_rows(model.routes@)
}

/// The routing tables of several virtual models.
pub open spec fn model_tables(models: Seq<VirtualModel>) -> Seq<char>
    decreases models.len(),
{
    if models.len() == 0 {
        Seq::empty()
    } else {
        model_tables(models.drop_last()) + model_table(models.last())
    }
}

/// The row of one provider.
pub open spec fn provider_row(provider: ProviderStatus) -> Seq<char> {
    "| "@ + text::left_aligned(provider.name@, 18) + " | "@ + text::left_aligned(provider.models@, 45) + " | "@
        + text::left_aligned(provider.circuit@, 30) + " | "@ + text::left_aligned(
        text::decimal(provider.failures as nat),
        8,
    ) + " | "@ + text::left_aligned(
        if provider.rate_limited {
            "Yes"@
        } else {
            "No"@
        },
        13,
    ) + " | "@ + text::left_aligned(text::decimal(provider.requests as nat), 8) + " | "@ + text::left_aligned(
        text::decimal(provider.successes as nat),
        9,
    ) + " | "@ + text::left_aligned(text::decimal(provider.tokens_input as nat), 12) + " | "@ + text::left_aligned(
        text::decimal(provider.tokens_output as nat),
        13,
    ) + " | "@ + text::left_aligned(provider.last_request@, 12) + " |\n"@
}

/// The rows of several providers.
pub open spec fn provider_rows(providers: Seq<ProviderStatus>) -> Seq<char>
    decreases providers.len(),
{
    if providers.len() == 0 {
        Seq::empty()
    } else {
        provider_rows(providers.drop_last()) + provider_row(providers.last())
    }
}

/// The line on the gateway as a whole: for how long it has been up, in minutes and seconds, and
/// how many requests it has seen.
pub open spec fn uptime_line(uptime_secs: nat, total_requests: nat) -> Seq<char> {
    "\nUptime: "@ + text::decimal(uptime_secs / 60) + "m "@ + text::decimal(uptime_secs % 60)
        + "s  |  Total Requests: "@ + text::decimal(total_requests) + "\n"@
}

/// What the `status` command prints.
pub open spec fn status_text(status: StatusResponse) -> Seq<char> {
    uptime_line(status.uptime_secs as nat, status.total_requests as nat) + model_tables(
        status.virtual_models@,
    ) + "\n"@ + PROVIDER_BORDER@ + "\n"@ + PROVIDER_HEADINGS@ + "\n"@ + PROVIDER_BORDER@ + "\n"@
        + provider_rows(status.providers@) + PROVIDER_BORDER@ + "\n\n"@
}

/// Renders a row of five columns.
fn render_table_row(
    provider: &str,
    model: &str,
    circuit: &str,
    requests: &str,
    successes: &str,
) -> (row: String)
    ensures
        row@ == table_row(provider@, model@, circuit@, requests@, successes@),
{
    let mut row: String = "| ".to_string();
    append_left_aligned(&mut row, provider, 20);
    row.append(" | ");
    append_left_aligned(&mut row, model, 45);
    row.append(" | ");
    append_left_aligned(&mut row, circuit, 30);
    row.append(" | ");
    append_right_aligned(&mut row, requests, 8);
    row.append(" | ");
    append_right_aligned(&mut row, successes, 8);
    row.append(" |\n");
    row
}

/// Renders the row of one target, under a given label.
fn render_route_row(label: &str, entry: &RouteEntry) -> (row: String)
    ensures
        row@ == route_row(label@, *entry),
{
    let requests: String = decimal_text(entry.requests);
    let successes: String = decimal_text(entry.successes);
    render_table_row(
        label,
        entry.model.as_str(),
        entry.circuit.as_str(),
        requests.as_str(),
        successes.as_str(),
    )
}

/// Renders the routing table of one virtual model.
pub fn render_model_table(model: &VirtualModel) -> (table: String)
    ensures
        table@ == model_table(*model),
{
    proof {
        reveal_strlit("-");
    }
    let line: String = repeat_text("-", 127);
    let headings: String = render_table_row("Provider", "Model", "Circuit", "Requests", "Success");
    let mut table: String = "\nVirtual Model: ".to_string();
    table.append(model.name.as_str());
    table.append("\n");
    table.append(line.as_str());
    table.append("\n");
    table.append(headings.as_str());
    table.append(line.as_str());
    table.append("\n");
    let ghost start = table@;
    for i in 0..model.routes.len()
        invariant
            table@ == start + route_rows(model.routes@.take(i as int)),
    {
        let entry: &RouteEntry = &model.routes[i];
        let row: String = render_route_row(entry.provider.as_str(), entry);
        table.append(row.as_str());
        assert(model.routes@.take(i + 1).drop_last() == model.routes@.take(i as int));
        assert(table@ == start + route_rows(model.routes@.take(i + 1)));
    }
    assert(model.routes@.take(model.routes@.len() as int) == model.routes@);
    table
}

/// Renders the row of one provider.
pub fn render_provider_row(provider: &ProviderStatus) -> (row: String)
    ensures
        row@ == provider_row(*provider),
{
    let failures: String = decimal_text(provider.failures as u64);
    let requests: String = decimal_text(provider.requests);
    let successes: String = decimal_text(provider.successes);
    let tokens_input: String = decimal_text(provider.tokens_input);
    let tokens_output: String = decimal_text(provider.tokens_output);
    let rate_limited: &str = if provider.rate_limited {
        "Yes"
    } else {
        "No"
    };
    let mut row: String = "| ".to_string();
    append_left_aligned(&mut row, provider.name.as_str(), 18);
    row.append(" | ");
    append_left_aligned(&mut row, provider.models.as_str(), 45);
    row.append(" | ");
    append_left_aligned(&mut row, provider.circuit.as_str(), 30);
    row.append(" | ");
    append_left_aligned(&mut row, failures.as_str(), 8);
    row.append(" | ");
    append_left_aligned(&mut row, rate_limited, 13);
    row.append(" | ");
    append_left_aligned(&mut row, requests.as_str(), 8);
    row.append(" | ");
    append_left_aligned(&mut row, successes.as_str(), 9);
    row.append(" | ");
    append_left_aligned(&mut row, tokens_input.as_str(), 12);
    row.append(" | ");
    append_left_aligned(&mut row, tokens_output.as_str(), 13);
    row.append(" | ");
    append_left_aligned(&mut row, provider.last_request.as_str(), 12);
    row.append(" |\n");
    row
}

/// Renders what the `status` command prints about a running gateway.
pub fn render_status(status: &StatusResponse) -> (out: String)
    ensures
        out@ == status_text(*status),
{
    let minutes: String = decimal_text(status.uptime_secs / 60);
    let seconds: String = decimal_text(status.uptime_secs % 60);
    let total: String = decimal_text(status.total_requests);
    let mut out: String = "\nUptime: ".to_string();
    out.append(minutes.as_str());
    out.append("m ");
    out.append(seconds.as_str());
    out.append("s  |  Total Requests: ");
    out.append(total.as_str());
    out.append("\n");
    let ghost start = out@;
    for i in 0..status.virtual_models.len()
        invariant
            out@ == start + model_tables(status.virtual_models@.take(i as int)),
    {
        let table: String = render_model_table(&status.virtual_models[i]);
        out.append(table.as_str());
        assert(status.virtual_models@.take(i + 1).drop_last() == status.virtual_models@.take(
            i as int,
        ));
        assert(out@ == start + model_tables(status.virtual_models@.take(i + 1)));
    }
    assert(status.virtual_models@.take(status.virtual_models@.len() as int)
        == status.virtual_models@);
    out.append("\n");
    out.append(PROVIDER_BORDER);
    out.append("\n");
    out.append(PROVIDER_HEADINGS);
    out.append("\n");
    out.append(PROVIDER_BORDER);
    out.append("\n");
    let ghost start = out@;
    for i in 0..status.providers.len()
        invariant
            out@ == start + provider_rows(status.providers@.take(i as int)),
    {
        let row: String = render_provider_row(&status.providers[i]);
        out.append(row.as_str());
        assert(status.providers@.take(i + 1).drop_last() == status.providers@.take(i as int));
        assert(out@ == start + provider_rows(status.providers@.take(i + 1)));
    }
    assert(status.providers@.take(status.providers@.len() as int) == status.providers@);
    out.append(PROVIDER_BORDER);
    out.append("\n\n");
    out
}

/// All targets of several virtual models, one after the other.
pub open spec fn all_routes(models: Seq<VirtualModel>) -> Seq<RouteEntry>
    decreases models.len(),
{
    if models.len() == 0 {
        Seq::empty()
    } else {
        all_routes(models.drop_last()) + models.last().routes@
    }
}

/// Whether one of the targets belongs to a given provider.
pub open spec fn names_provider(entries: Seq<RouteEntry>, provider: Seq<char>) -> bool {
    exists|i: int| 0 <= i < entries.len() && #[trigger] entries[i].provider@ == provider
}

/// The targets whose provider has not come up before.
pub open spec fn first_per_provider(entries: Seq<RouteEntry>) -> Seq<RouteEntry>
    decreases entries.len(),
{
    if entries.len() == 0 {
        Seq::empty()
    } else if names_provider(entries.drop_last(), entries.last().provider@) {
        first_per_provider(entries.drop_last())
    } else {
        first_per_provider(entries.drop_last()).push(entries.last())
    }
}

/// The sign for the state of a circuit breaker.
pub open spec fn circuit_icon(circuit: Seq<char>) -> Seq<char> {
    if text::starts_with(circuit, "Closed"@) {
        "✓"@
    } else if text::starts_with(circuit, "Half"@) {
        "⧖"@
    } else {
        "✗"@
    }
}

/// The label of a provider in the provider list.
pub open spec fn provider_label(circuit: Seq<char>, name: Seq<char>) -> Seq<char> {
    circuit_icon(circuit) + " "@ + name
}

/// Whether one of the providers has a given name.
pub open spec fn reports_provider(providers: Seq<ProviderStatus>, name: Seq<char>) -> bool {
    exists|i: int| 0 <= i < providers.len() && #[trigger] providers[i].name@ == name
}

/// The providers that none of the targets belongs to and whose name has not come up before.
pub open spec fn providers_without_target(
    providers: Seq<ProviderStatus>,
    entries: Seq<RouteEntry>,
) -> Seq<ProviderStatus>
    decreases providers.len(),
{
    if providers.len() == 0 {
        Seq::empty()
    } else {
        let earlier = providers.drop_last();
        let picked = providers_without_target(earlier, entries);
        let name = providers.last().name@;
        if names_provider(entries, name) || reports_provider(earlier, name) {
            picked
        } else {
            picked.push(providers.last())
        }
    }
}

/// One row of the provider list: the name of a provider, and the row itself.
pub type ListLine = (Seq<char>, Seq<char>);

/// The row of a provider that is listed by one of its targets.
pub open spec fn target_line(entry: RouteEntry) -> ListLine {
    (entry.provider@, route_row(provider_label(entry.circuit@, entry.provider@), entry))
}

/// The row of a provider that has no target.
pub open spec fn provider_line(provider: ProviderStatus) -> ListLine {
    (
        provider.name@,
        table_row(
            provider_label(provider.circuit@, provider.name@),
            provider.models@,
            provider.circuit@,
            text::decimal(provider.requests as nat),
            text::decimal(provider.successes as nat),
        ),
    )
}

/// The rows of the provider list: first the providers that have targets, each with the first of
/// them, then the others.
pub open spec fn list_lines(status: StatusResponse) -> Seq<ListLine> {
    let entries = all_routes(status.virtual_models@);
    first_per_provider(entries).map_values(|entry: RouteEntry| target_line(entry))
        + providers_without_target(status.providers@, entries).map_values(
        |provider: ProviderStatus| provider_line(provider),
    )
}

/// Several rows of the provider list, one after the other.
pub open spec fn list_rows(lines: Seq<ListLine>) -> Seq<char>
    decreases lines.len(),
{
    if lines.len() == 0 {
        Seq::empty()
    } else {
        list_rows(lines.drop_last()) + lines.last().1
    }
}

/// What the `provider list` command prints.
pub open spec fn provider_list_text(status: StatusResponse) -> Seq<char> {
    "\n"@ + LIST_BORDER@ + "\n"@ + LIST_HEADINGS@ + "\n"@ + LIST_BORDER@ + "\n"@ + list_rows(
        list_lines(status),
    ) + LIST_BORDER@ + "\n\n"@ + OFFLINE_HINT@ + "\n"@ + RESET_HINT@ + "\n\n"@
}

/// Whether one of the targets belongs to a given provider.
fn lists_provider(entries: &Vec<&RouteEntry>, provider: &String) -> (found: bool)
    ensures
        found == names_provider(entries@.unref(), provider@),
{
    for i in 0..entries.len()
        invariant
            forall|j: int| 0 <= j < i ==> #[trigger] entries@.unref()[j].provider@ != provider@,
    {
        if entries[i].provider == *provider {
            assert(entries@.unref()[i as int].provider@ == provider@);
            return true;
        }
    }
    false
}

/// Picks the targets to list: of each provider the first one, in the order in which they come.
pub fn distinct_providers(models: &Vec<VirtualModel>) -> (listed: Vec<&RouteEntry>)
    ensures
        listed@.unref() == first_per_provider(all_routes(models@)),
{
    let mut listed: Vec<&RouteEntry> = Vec::new();
    assert(listed@.unref() == Seq::<RouteEntry>::empty());
    for i in 0..models.len()
        invariant
            listed@.unref() == first_per_provider(all_routes(models@.take(i as int))),
    {
        let ghost before = all_routes(models@.take(i as int));
        let routes: &Vec<RouteEntry> = &models[i].routes;
        assert(before + routes@.take(0) == before);
        for j in 0..routes.len()
            invariant
                listed@.unref() == first_per_provider(before + routes@.take(j as int)),
        {
            let ghost seen = before + routes@.take(j as int);
            let ghost now = before + routes@.take(j + 1);
            let ghost shown = listed@;
            assert(now.drop_last() == seen);
            assert(now.last() == routes@[j as int]);
            proof {
                same_providers(seen, routes@[j as int].provider@);
            }
            if !lists_provider(&listed, &routes[j].provider) {
                listed.push(&routes[j]);
                assert(listed@.unref() == shown.unref().push(routes@[j as int]));
            }
        }
        assert(routes@.take(routes@.len() as int) == routes@);
        assert(models@.take(i + 1).drop_last() == models@.take(i as int));
        assert(models@.take(i + 1).last() == models@[i as int]);
    }
    assert(models@.take(models@.len() as int) == models@);
    listed
}

/// Renders the sign for the state of a circuit breaker.
pub fn render_circuit_icon(circuit: &str) -> (icon: &'static str)
    ensures
        icon@ == circuit_icon(circuit@),
{
    if has_prefix(circuit, "Closed") {
        "✓"
    } else if has_prefix(circuit, "Half") {
        "⧖"
    } else {
        "✗"
    }
}

/// Whether one of the first providers has the same name as the one behind them.
fn is_reported_before(providers: &Vec<ProviderStatus>, count: usize) -> (found: bool)
    requires
        count < providers@.len(),
    ensures
        found == reports_provider(providers@.take(count as int), providers@[count as int].name@),
{
    let ghost earlier = providers@.take(count as int);
    for i in 0..count
        invariant
            count < providers@.len(),
            earlier == providers@.take(count as int),
            forall|k: int|
                0 <= k < i ==> #[trigger] earlier[k].name@ != providers@[count as int].name@,
    {
        if providers[i].name == providers[count].name {
            assert(earlier[i as int].name@ == providers@[count as int].name@);
            return true;
        }
        assert(earlier[i as int].name@ != providers@[count as int].name@);
    }
    false
}

/// Picks the providers that none of the targets belongs to, in their order, and of several with
/// the same name the first one.
pub fn unrouted_providers<'a>(
    providers: &'a Vec<ProviderStatus>,
    listed: &Vec<&RouteEntry>,
) -> (unrouted: Vec<&'a ProviderStatus>)
    ensures
        unrouted@.unref() == providers_without_target(providers@, listed@.unref()),
{
    let ghost entries = listed@.unref();
    let mut unrouted: Vec<&'a ProviderStatus> = Vec::new();
    assert(unrouted@.unref() == providers_without_target(providers@.take(0), entries));
    for i in 0..providers.len()
        invariant
            entries == listed@.unref(),
            unrouted@.unref() == providers_without_target(providers@.take(i as int), entries),
    {
        let ghost before = unrouted@;
        assert(providers@.take(i + 1).drop_last() == providers@.take(i as int));
        if !lists_provider(listed, &providers[i].name) && !is_reported_before(providers, i) {
            unrouted.push(&providers[i]);
            assert(unrouted@.unref() == before.unref().push(providers@[i as int]));
        }
    }
    assert(providers@.take(providers@.len() as int) == providers@);
    unrouted
}

/// Renders the label of a provider in the provider list.
fn render_provider_label(circuit: &str, name: &str) -> (label: String)
    ensures
        label@ == provider_label(circuit@, name@),
{
    let mut label: String = render_circuit_icon(circuit).to_string();
    label.append(" ");
    label.append(name);
    label
}

/// Renders what the `provider list` command prints about a running gateway.
pub fn render_provider_list(status: &StatusResponse) -> (out: String)
    ensures
        out@ == provider_list_text(*status),
{
    let listed: Vec<&RouteEntry> = distinct_providers(&status.virtual_models);
    let unrouted: Vec<&ProviderStatus> = unrouted_providers(&status.providers, &listed);
    let ghost lines = list_lines(*status);
    let ghost routed = listed@.len() as int;
    proof {
        listed_targets_decide(status.providers@, all_routes(status.virtual_models@));
        assert forall|k: int| 0 <= k < routed implies lines[k] == target_line(
            *#[trigger] listed@[k],
        ) by {
            assert(listed@.unref()[k] == *listed@[k]);
        }
        assert forall|k: int| 0 <= k < unrouted@.len() implies lines[routed + k] == provider_line(
            *#[trigger] unrouted@[k],
        ) by {
            assert(unrouted@.unref()[k] == *unrouted@[k]);
        }
    }
    let mut out: String = "\n".to_string();
    out.append(LIST_BORDER);
    out.append("\n");
    out.append(LIST_HEADINGS);
    out.append("\n");
    out.append(LIST_BORDER);
    out.append("\n");
    let ghost start = out@;
    for i in 0..listed.len()
        invariant
            routed == listed@.len() <= lines.len(),
            forall|k: int| 0 <= k < routed ==> lines[k] == target_line(*#[trigger] listed@[k]),
            out@ == start + list_rows(lines.take(i as int)),
    {
        let entry: &RouteEntry = listed[i];
        let label: String = render_provider_label(entry.circuit.as_str(), entry.provider.as_str());
        let row: String = render_route_row(label.as_str(), entry);
        out.append(row.as_str());
        assert(lines.take(i + 1).drop_last() == lines.take(i as int));
        assert(lines.take(i + 1).last() == target_line(*listed@[i as int]));
        assert(out@ == start + list_rows(lines.take(i + 1)));
    }
    for i in 0..unrouted.len()
        invariant
            lines.len() == routed + unrouted@.len(),
            0 <= routed,
            forall|k: int|
                0 <= k < unrouted@.len() ==> lines[routed + k] == provider_line(
                    *#[trigger] unrouted@[k],
                ),
            out@ == start + list_rows(lines.take(routed + i)),
    {
        let provider: &ProviderStatus = unrouted[i];
        let label: String = render_provider_label(
            provider.circuit.as_str(),
            provider.name.as_str(),
        );
        let requests: String = decimal_text(provider.requests);
        let successes: String = decimal_text(provider.successes);
        let row: String = render_table_row(
            label.as_str(),
            provider.models.as_str(),
            provider.circuit.as_str(),
            requests.as_str(),
            successes.as_str(),
        );
        out.append(row.as_str());
        assert(lines.take(routed + i + 1).drop_last() == lines.take(routed + i));
        assert(lines.take(routed + i + 1).last() == provider_line(*unrouted@[i as int]));
        assert(out@ == start + list_rows(lines.take(routed + i + 1)));
    }
    assert(lines.take(lines.len() as int) == lines);
    out.append(LIST_BORDER);
    out.append("\n\n");
    out.append(OFFLINE_HINT);
    out.append("\n");
    out.append(RESET_HINT);
    out.append("\n\n");
    out
}

/// Whether a provider has a target can be told from the listed targets.
proof fn listed_targets_decide(providers: Seq<ProviderStatus>, entries: Seq<RouteEntry>)
    ensures
        providers_without_target(providers, first_per_provider(entries))
            == providers_without_target(providers, entries),
    decreases providers.len(),
{
    if providers.len() > 0 {
        listed_targets_decide(providers.drop_last(), entries);
        same_providers(entries, providers.last().name@);
    }
}

/// The listed targets belong to the same providers as all targets.
pub proof fn same_providers(entries: Seq<RouteEntry>, provider: Seq<char>)
    ensures
        names_provider(first_per_provider(entries), provider) == names_provider(entries, provider),
    decreases entries.len(),
{
    if entries.len() > 0 {
        let earlier = entries.drop_last();
        let listed = first_per_provider(entries);
        same_providers(earlier, provider);
        same_providers(earlier, entries.last().provider@);
        if names_provider(entries, provider) {
            let i = choose|i: int|
                0 <= i < entries.len() && #[trigger] entries[i].provider@ == provider;
            if i < earlier.len() {
                assert(earlier[i].provider@ == provider);
                let old_listed = first_per_provider(earlier);
                let k = choose|k: int|
                    0 <= k < old_listed.len() && #[trigger] old_listed[k].provider@ == provider;
                assert(listed[k].provider@ == provider);
            } else if !names_provider(earlier, provider) {
                assert(listed[listed.len() - 1].provider@ == provider);
            } else {
                assert(listed == first_per_provider(earlier));
            }
        }
        if names_provider(listed, provider) {
            let k = choose|k: int|
                0 <= k < listed.len() && #[trigger] listed[k].provider@ == provider;
            let old_listed = first_per_provider(earlier);
            if k < old_listed.len() {
                assert(old_listed[k].provider@ == provider);
                let i = choose|i: int|
                    0 <= i < earlier.len() && #[trigger] earlier[i].provider@ == provider;
                assert(entries[i].provider@ == provider);
            } else {
                assert(entries[entries.len() - 1].provider@ == provider);
            }
        }
    }
}

/// No provider is listed twice.
pub proof fn providers_are_listed_once(entries: Seq<RouteEntry>, i: int, j: int)
    requires
        0 <= i < j < first_per_provider(entries).len(),
    ensures
        first_per_provider(entries)[i].provider@ != first_per_provider(entries)[j].provider@,
    decreases entries.len(),
{
    let earlier = first_per_provider(entries.drop_last());
    if j < earlier.len() {
        providers_are_listed_once(entries.drop_last(), i, j);
    } else {
        same_providers(entries.drop_last(), entries.last().provider@);
        assert(earlier[i] == first_per_provider(entries)[i]);
    }
}

/// What is listed of a provider is the first of its targets.
pub proof fn first_target_is_listed(entries: Seq<RouteEntry>, i: int)
    requires
        0 <= i < entries.len(),
        !names_provider(entries.take(i), entries[i].provider@),
    ensures
        first_per_provider(entries).contains(entries[i]),
    decreases entries.len(),
{
    let earlier = entries.drop_last();
    let listed = first_per_provider(entries);
    if i == earlier.len() {
        assert(entries.take(i) == earlier);
        assert(listed[listed.len() - 1] == entries[i]);
    } else {
        assert(entries.take(i) == earlier.take(i));
        first_target_is_listed(earlier, i);
        let k = choose|k: int|
            0 <= k < first_per_provider(earlier).len() && first_per_provider(earlier)[k]
                == earlier[i];
        assert(listed[k] == entries[i]);
    }
}

/// Listing what is listed already changes nothing.
pub proof fn listing_is_idempotent(entries: Seq<RouteEntry>)
    ensures
        first_per_provider(first_per_provider(entries)) == first_per_provider(entries),
    decreases entries.len(),
{
    if entries.len() > 0 {
        let earlier = entries.drop_last();
        let listed = first_per_provider(entries);
        listing_is_idempotent(earlier);
        if !names_provider(earlier, entries.last().provider@) {
            same_providers(earlier, entries.last().provider@);
            assert(listed.drop_last() == first_per_provider(earlier));
            assert(listed.last() == entries.last());
        }
    }
}

/// Every listed target is one of the targets.
pub proof fn listed_targets_are_targets(entries: Seq<RouteEntry>, k: int)
    requires
        0 <= k < first_per_provider(entries).len(),
    ensures
        entries.contains(first_per_provider(entries)[k]),
    decreases entries.len(),
{
    let earlier = entries.drop_last();
    let listed = first_per_provider(entries);
    if k < first_per_provider(earlier).len() {
        listed_targets_are_targets(earlier, k);
        let i = choose|i: int| 0 <= i < earlier.len() && earlier[i] == listed[k];
        assert(entries[i] == listed[k]);
    } else {
        assert(entries[entries.len() - 1] == listed[k]);
    }
}

/// A provider that is picked for want of a target has none, and is one of the providers.
proof fn lemma_unrouted_is_reported(
    providers: Seq<ProviderStatus>,
    entries: Seq<RouteEntry>,
    k: int,
)
    requires
        0 <= k < providers_without_target(providers, entries).len(),
    ensures
        !names_provider(entries, providers_without_target(providers, entries)[k].name@),
        reports_provider(providers, providers_without_target(providers, entries)[k].name@),
    decreases providers.len(),
{
    let earlier = providers.drop_last();
    let before = providers_without_target(earlier, entries);
    let picked = providers_without_target(providers, entries);
    if k < before.len() {
        lemma_unrouted_is_reported(earlier, entries, k);
        let m = choose|m: int|
            0 <= m < earlier.len() && #[trigger] earlier[m].name@ == before[k].name@;
        assert(providers[m].name@ == picked[k].name@);
    } else {
        assert(providers[providers.len() - 1].name@ == picked[k].name@);
    }
}

/// No two providers that are picked for want of a target have the same name.
proof fn lemma_unrouted_differ(
    providers: Seq<ProviderStatus>,
    entries: Seq<RouteEntry>,
    i: int,
    j: int,
)
    requires
        0 <= i < j < providers_without_target(providers, entries).len(),
    ensures
        providers_without_target(providers, entries)[i].name@ != providers_without_target(
            providers,
            entries,
        )[j].name@,
    decreases providers.len(),
{
    let earlier = providers.drop_last();
    if j < providers_without_target(earlier, entries).len() {
        lemma_unrouted_differ(earlier, entries, i, j);
    } else {
        lemma_unrouted_is_reported(earlier, entries, i);
    }
}

/// The first provider of a name is picked, where it has no target.
proof fn lemma_first_unrouted_is_picked(
    providers: Seq<ProviderStatus>,
    entries: Seq<RouteEntry>,
    i: int,
)
    requires
        0 <= i < providers.len(),
        !names_provider(entries, providers[i].name@),
        !reports_provider(providers.take(i), providers[i].name@),
    ensures
        providers_without_target(providers, entries).contains(providers[i]),
    decreases providers.len(),
{
    let earlier = providers.drop_last();
    let before = providers_without_target(earlier, entries);
    let picked = providers_without_target(providers, entries);
    if i == earlier.len() {
        assert(providers.take(i) == earlier);
        assert(picked[picked.len() - 1] == providers[i]);
    } else {
        assert(providers.take(i) == earlier.take(i));
        lemma_first_unrouted_is_picked(earlier, entries, i);
        let k = choose|k: int| 0 <= k < before.len() && before[k] == earlier[i];
        assert(picked[k] == providers[i]);
    }
}

/// Where a name is reported, there is a provider that is the first to have it.
proof fn lemma_first_of_name(providers: Seq<ProviderStatus>, i: int) -> (first: int)
    requires
        0 <= i < providers.len(),
    ensures
        0 <= first <= i,
        providers[first].name@ == providers[i].name@,
        !reports_provider(providers.take(first), providers[first].name@),
    decreases i,
{
    let before = providers.take(i);
    if reports_provider(before, providers[i].name@) {
        let k = choose|k: int|
            0 <= k < before.len() && #[trigger] before[k].name@ == providers[i].name@;
        lemma_first_of_name(providers, k)
    } else {
        i
    }
}

/// Every provider that the gateway reports is listed, whether a virtual model uses it or not.
pub proof fn every_provider_is_listed(status: StatusResponse, i: int)
    requires
        0 <= i < status.providers@.len(),
    ensures
        exists|k: int|
            0 <= k < list_lines(status).len() && #[trigger] list_lines(status)[k].0
                == status.providers@[i].name@,
{
    let entries = all_routes(status.virtual_models@);
    let listed = first_per_provider(entries);
    let name = status.providers@[i].name@;
    if names_provider(entries, name) {
        same_providers(entries, name);
        let k = choose|k: int| 0 <= k < listed.len() && #[trigger] listed[k].provider@ == name;
        assert(list_lines(status)[k].0 == name);
    } else {
        let first = lemma_first_of_name(status.providers@, i);
        unused_providers_are_listed_as_reported(status, first);
        let k = choose|k: int|
            0 <= k < list_lines(status).len() && list_lines(status)[k] == provider_line(
                status.providers@[first],
            );
        assert(list_lines(status)[k].0 == name);
    }
}

/// No provider has two rows in the provider list.
pub proof fn no_provider_is_listed_twice(status: StatusResponse, i: int, j: int)
    requires
        0 <= i < j < list_lines(status).len(),
    ensures
        list_lines(status)[i].0 != list_lines(status)[j].0,
{
    let entries = all_routes(status.virtual_models@);
    let listed = first_per_provider(entries);
    let unrouted = providers_without_target(status.providers@, entries);
    if j < listed.len() {
        providers_are_listed_once(entries, i, j);
    } else if i < listed.len() {
        let name = unrouted[j - listed.len()].name@;
        lemma_unrouted_is_reported(status.providers@, entries, j - listed.len());
        same_providers(entries, name);
        assert(listed[i].provider@ != name);
    } else {
        lemma_unrouted_differ(status.providers@, entries, i - listed.len(), j - listed.len());
    }
}

/// A provider that no virtual model uses is listed as the gateway first reports it: with all its
/// models, its circuit, its requests and its successes.
pub proof fn unused_providers_are_listed_as_reported(status: StatusResponse, i: int)
    requires
        0 <= i < status.providers@.len(),
        !names_provider(all_routes(status.virtual_models@), status.providers@[i].name@),
        !reports_provider(status.providers@.take(i), status.providers@[i].name@),
    ensures
        list_lines(status).contains(provider_line(status.providers@[i])),
{
    let entries = all_routes(status.virtual_models@);
    let listed = first_per_provider(entries);
    let unrouted = providers_without_target(status.providers@, entries);
    lemma_first_unrouted_is_picked(status.providers@, entries, i);
    let k = choose|k: int| 0 <= k < unrouted.len() && unrouted[k] == status.providers@[i];
    assert(list_lines(status)[listed.len() + k] == provider_line(status.providers@[i]));
}

/// A name that is listed is that of a provider which a virtual model uses or the gateway reports.
pub proof fn only_known_providers_are_listed(status: StatusResponse, k: int)
    requires
        0 <= k < list_lines(status).len(),
    ensures
        names_provider(all_routes(status.virtual_models@), list_lines(status)[k].0)
            || reports_provider(status.providers@, list_lines(status)[k].0),
{
    let entries = all_routes(status.virtual_models@);
    let listed = first_per_provider(entries);
    if k < listed.len() {
        assert(names_provider(listed, listed[k].provider@));
        same_providers(entries, listed[k].provider@);
    } else {
        lemma_unrouted_is_reported(status.providers@, entries, k - listed.len());
    }
}

/// No two routing tables have the same heading.
pub proof fn routing_tables_have_different_headings(status: StatusResponse, i: int, j: int)
    requires
        status.has_distinct_models(),
        0 <= i < j < status.virtual_models@.len(),
    ensures
        model_heading(status.virtual_models@[i].name@) != model_heading(
            status.virtual_models@[j].name@,
        ),
{
    let before = "\nVirtual Model: "@;
    let first = status.virtual_models@[i].name@;
    let second = status.virtual_models@[j].name@;
    reveal_strlit("\n");
    if model_heading(first) == model_heading(second) {
        let heading = model_heading(first);
        assert(heading.subrange(before.len() as int, heading.len() - 1) == first);
        assert(heading.subrange(before.len() as int, heading.len() - 1) == second);
    }
}

/// Minutes and seconds tell the uptime exactly, and the seconds are less than a minute.
pub proof fn uptime_is_told_to_the_second(uptime_secs: nat)
    ensures
        (uptime_secs / 60) * 60 + uptime_secs % 60 == uptime_secs,
        uptime_secs % 60 < 60,
{
}

/// A row whose texts fit into their columns is, up to its line break, as long as the line that
/// frames the headings.
pub proof fn rows_line_up(
    provider: Seq<char>,
    model: Seq<char>,
    circuit: Seq<char>,
    requests: Seq<char>,
    successes: Seq<char>,
)
    requires
        provider.len() <= 20,
        model.len() <= 45,
        circuit.len() <= 30,
        requests.len() <= 8,
        successes.len() <= 8,
    ensures
        table_row(provider, model, circuit, requests, successes).len() == dashes().len() + 1,
{
    reveal_strlit("| ");
    reveal_strlit(" | ");
    reveal_strlit(" |\n");
}

/// Whether a row shows a text, a model and the state of a circuit at the left of their columns,
/// and two numbers at the right of theirs.
pub open spec fn shows_figures(
    row: Seq<char>,
    label: Seq<char>,
    model: Seq<char>,
    circuit: Seq<char>,
    requests: nat,
    successes: nat,
) -> bool {
    exists|columns: Seq<Seq<char>>|
        {
            &&& #[trigger] text::is_row_of(row, columns)
            &&& columns.len() == 5
            &&& text::shows_left(columns[0], label, 20)
            &&& text::shows_left(columns[1], model, 45)
            &&& text::shows_left(columns[2], circuit, 30)
            &&& text::shows_number_right(columns[3], requests, 8)
            &&& text::shows_number_right(columns[4], successes, 8)
        }
}

/// Whether a row shows the headings of a routing table, each in its column.
pub open spec fn shows_headings(row: Seq<char>) -> bool {
    exists|columns: Seq<Seq<char>>|
        {
            &&& #[trigger] text::is_row_of(row, columns)
            &&& columns.len() == 5
            &&& text::shows_left(columns[0], "Provider"@, 20)
            &&& text::shows_left(columns[1], "Model"@, 45)
            &&& text::shows_left(columns[2], "Circuit"@, 30)
            &&& text::shows_right(columns[3], "Requests"@, 8)
            &&& text::shows_right(columns[4], "Success"@, 8)
        }
}

/// Whether a row shows all that is reported of a provider, each thing in its column.
pub open spec fn shows_provider(row: Seq<char>, provider: ProviderStatus) -> bool {
    exists|columns: Seq<Seq<char>>|
        {
            &&& #[trigger] text::is_row_of(row, columns)
            &&& columns.len() == 10
            &&& text::shows_left(columns[0], provider.name@, 18)
            &&& text::shows_left(columns[1], provider.models@, 45)
            &&& text::shows_left(columns[2], provider.circuit@, 30)
            &&& text::shows_number_left(columns[3], provider.failures as nat, 8)
            &&& provider.rate_limited ==> text::shows_left(columns[4], "Yes"@, 13)
            &&& !provider.rate_limited ==> text::shows_left(columns[4], "No"@, 13)
            &&& text::shows_number_left(columns[5], provider.requests as nat, 8)
            &&& text::shows_number_left(columns[6], provider.successes as nat, 9)
            &&& text::shows_number_left(columns[7], provider.tokens_input as nat, 12)
            &&& text::shows_number_left(columns[8], provider.tokens_output as nat, 13)
            &&& text::shows_left(columns[9], provider.last_request@, 12)
        }
}

/// A row of five columns holds them.
proof fn lemma_table_row(
    provider: Seq<char>,
    model: Seq<char>,
    circuit: Seq<char>,
    requests: Seq<char>,
    successes: Seq<char>,
) -> (columns: Seq<Seq<char>>)
    ensures
        text::is_row_of(table_row(provider, model, circuit, requests, successes), columns),
        columns == seq![
            text::left_aligned(provider, 20),
            text::left_aligned(model, 45),
            text::left_aligned(circuit, 30),
            text::right_aligned(requests, 8),
            text::right_aligned(successes, 8),
        ],
{
    reveal_strlit("| ");
    reveal_strlit(" | ");
    reveal_strlit(" |\n");
    reveal_with_fuel(text::barred, 6);
    let columns = seq![
        text::left_aligned(provider, 20),
        text::left_aligned(model, 45),
        text::left_aligned(circuit, 30),
        text::right_aligned(requests, 8),
        text::right_aligned(successes, 8),
    ];
    let c4 = columns.drop_last();
    let c3 = c4.drop_last();
    let c2 = c3.drop_last();
    let c1 = c2.drop_last();
    assert(c1.drop_last() == Seq::<Seq<char>>::empty());
    assert(columns.last() == columns[4] && c4.last() == columns[3] && c3.last() == columns[2]
        && c2.last() == columns[1] && c1.last() == columns[0]);
    assert(text::barred(c1) == "| "@ + columns[0] + seq![' ', '|']);
    assert(text::barred(c2) == "| "@ + columns[0] + " | "@ + columns[1] + seq![' ', '|']);
    assert(text::barred(c3) == "| "@ + columns[0] + " | "@ + columns[1] + " | "@ + columns[2]
        + seq![' ', '|']);
    assert(text::barred(c4) == "| "@ + columns[0] + " | "@ + columns[1] + " | "@ + columns[2]
        + " | "@ + columns[3] + seq![' ', '|']);
    assert(text::barred(columns).push('\n') == table_row(
        provider,
        model,
        circuit,
        requests,
        successes,
    ));
    columns
}

/// A row of five columns shows its figures.
proof fn lemma_shows_figures(
    label: Seq<char>,
    model: Seq<char>,
    circuit: Seq<char>,
    requests: nat,
    successes: nat,
)
    ensures
        shows_figures(
            table_row(label, model, circuit, text::decimal(requests), text::decimal(successes)),
            label,
            model,
            circuit,
            requests,
            successes,
        ),
{
    let columns = lemma_table_row(
        label,
        model,
        circuit,
        text::decimal(requests),
        text::decimal(successes),
    );
    text::lemma_left_aligned_shows(label, 20);
    text::lemma_left_aligned_shows(model, 45);
    text::lemma_left_aligned_shows(circuit, 30);
    text::lemma_number_right(requests, 8);
    text::lemma_number_right(successes, 8);
}

/// The row of a provider shows it.
proof fn lemma_shows_provider(provider: ProviderStatus)
    ensures
        shows_provider(provider_row(provider), provider),
{
    reveal_strlit("| ");
    reveal_strlit(" | ");
    reveal_strlit(" |\n");
    reveal_with_fuel(text::barred, 11);
    let rated = if provider.rate_limited {
        "Yes"@
    } else {
        "No"@
    };
    let columns = seq![
        text::left_aligned(provider.name@, 18),
        text::left_aligned(provider.models@, 45),
        text::left_aligned(provider.circuit@, 30),
        text::left_aligned(text::decimal(provider.failures as nat), 8),
        text::left_aligned(rated, 13),
        text::left_aligned(text::decimal(provider.requests as nat), 8),
        text::left_aligned(text::decimal(provider.successes as nat), 9),
        text::left_aligned(text::decimal(provider.tokens_input as nat), 12),
        text::left_aligned(text::decimal(provider.tokens_output as nat), 13),
        text::left_aligned(provider.last_request@, 12),
    ];
    lemma_barred_step(columns, 1, "| "@ + columns[0]);
    lemma_barred_step(columns, 2, "| "@ + columns[0] + " | "@ + columns[1]);
    let three = "| "@ + columns[0] + " | "@ + columns[1] + " | "@ + columns[2];
    lemma_barred_step(columns, 3, three);
    let four = three + " | "@ + columns[3];
    lemma_barred_step(columns, 4, four);
    let five = four + " | "@ + columns[4];
    lemma_barred_step(columns, 5, five);
    let six = five + " | "@ + columns[5];
    lemma_barred_step(columns, 6, six);
    let seven = six + " | "@ + columns[6];
    lemma_barred_step(columns, 7, seven);
    let eight = seven + " | "@ + columns[7];
    lemma_barred_step(columns, 8, eight);
    let nine = eight + " | "@ + columns[8];
    lemma_barred_step(columns, 9, nine);
    let ten = nine + " | "@ + columns[9];
    lemma_barred_step(columns, 10, ten);
    assert(columns.take(10) == columns);
    assert(provider_row(provider) == ten + " |\n"@);
    assert((ten + seq![' ', '|']).push('\n') == ten + " |\n"@);
    text::lemma_left_aligned_shows(provider.name@, 18);
    text::lemma_left_aligned_shows(provider.models@, 45);
    text::lemma_left_aligned_shows(provider.circuit@, 30);
    text::lemma_left_aligned_shows(rated, 13);
    text::lemma_left_aligned_shows(provider.last_request@, 12);
    text::lemma_number_left(provider.failures as nat, 8);
    text::lemma_number_left(provider.requests as nat, 8);
    text::lemma_number_left(provider.successes as nat, 9);
    text::lemma_number_left(provider.tokens_input as nat, 12);
    text::lemma_number_left(provider.tokens_output as nat, 13);
    assert(text::is_row_of(provider_row(provider), columns));
}

/// One more column stands behind those before it, with a bar between.
proof fn lemma_barred_step(columns: Seq<Seq<char>>, n: int, shown: Seq<char>)
    requires
        1 <= n <= columns.len(),
        n == 1 ==> shown == "| "@ + columns[0],
        n > 1 ==> exists|before: Seq<char>|
            text::barred(columns.take(n - 1)) == before + seq![' ', '|'] && shown
                == #[trigger] (before + " | "@) + columns[n - 1],
    ensures
        text::barred(columns.take(n)) == shown + seq![' ', '|'],
{
    reveal_strlit("| ");
    reveal_strlit(" | ");
    let now = columns.take(n);
    assert(now.drop_last() == columns.take(n - 1));
    assert(now.last() == columns[n - 1]);
    if n == 1 {
        assert(columns.take(0) == Seq::<Seq<char>>::empty());
        assert(text::barred(columns.take(0)) == seq!['|']);
        assert(text::barred(now) == shown + seq![' ', '|']);
    } else {
        let before = choose|before: Seq<char>|
            text::barred(columns.take(n - 1)) == before + seq![' ', '|'] && shown
                == #[trigger] (before + " | "@) + columns[n - 1];
        assert(text::barred(now) == before + seq![' ', '|'] + seq![' '] + columns[n - 1]
            + seq![' ', '|']);
        assert(text::barred(now) == shown + seq![' ', '|']);
    }
}

/// The rows of several targets are those of each, one after the other.
pub proof fn target_rows_follow_each_other(entries: Seq<RouteEntry>)
    ensures
        route_rows(entries) == entries.map_values(
            |entry: RouteEntry| route_row(entry.provider@, entry),
        ).flatten(),
    decreases entries.len(),
{
    let rows = entries.map_values(|entry: RouteEntry| route_row(entry.provider@, entry));
    if entries.len() > 0 {
        let earlier = entries.drop_last();
        let before = earlier.map_values(|entry: RouteEntry| route_row(entry.provider@, entry));
        target_rows_follow_each_other(earlier);
        assert(rows == before.push(route_row(entries.last().provider@, entries.last())));
        before.lemma_flatten_push(route_row(entries.last().provider@, entries.last()));
    }
}

/// The routing tables of several virtual models are those of each, one after the other.
pub proof fn routing_tables_follow_each_other(models: Seq<VirtualModel>)
    ensures
        model_tables(models) == models.map_values(|model: VirtualModel| model_table(model)).flatten(),
    decreases models.len(),
{
    let tables = models.map_values(|model: VirtualModel| model_table(model));
    if models.len() > 0 {
        let earlier = models.drop_last();
        let before = earlier.map_values(|model: VirtualModel| model_table(model));
        routing_tables_follow_each_other(earlier);
        assert(tables == before.push(model_table(models.last())));
        before.lemma_flatten_push(model_table(models.last()));
    }
}

/// The rows of several providers are those of each, one after the other.
pub proof fn provider_rows_follow_each_other(providers: Seq<ProviderStatus>)
    ensures
        provider_rows(providers) == providers.map_values(
            |provider: ProviderStatus| provider_row(provider),
        ).flatten(),
    decreases providers.len(),
{
    let rows = providers.map_values(|provider: ProviderStatus| provider_row(provider));
    if providers.len() > 0 {
        let earlier = providers.drop_last();
        let before = earlier.map_values(|provider: ProviderStatus| provider_row(provider));
        provider_rows_follow_each_other(earlier);
        assert(rows == before.push(provider_row(providers.last())));
        before.lemma_flatten_push(provider_row(providers.last()));
    }
}

/// The rows of the provider list follow each other.
proof fn lemma_list_rows_follow(lines: Seq<ListLine>)
    ensures
        list_rows(lines) == lines.map_values(|line: ListLine| line.1).flatten(),
    decreases lines.len(),
{
    let rows = lines.map_values(|line: ListLine| line.1);
    if lines.len() > 0 {
        let earlier = lines.drop_last();
        let before = earlier.map_values(|line: ListLine| line.1);
        lemma_list_rows_follow(earlier);
        assert(rows == before.push(lines.last().1));
        before.lemma_flatten_push(lines.last().1);
    }
}

/// Whether a text consists of as many dashes as a row is wide.
pub open spec fn is_rule(line: Seq<char>) -> bool {
    &&& line.len() == 127
    &&& forall|i: int| 0 <= i < line.len() ==> #[trigger] line[i] == '-'
}

/// Whether a routing table consists of its parts: the name of the virtual model, the headings
/// between two rules, and a row for each target, in their order, which shows the target.
pub open spec fn consists_of(
    table: Seq<char>,
    model: VirtualModel,
    rule: Seq<char>,
    headings: Seq<char>,
    rows: Seq<Seq<char>>,
) -> bool {
    &&& table == "\nVirtual Model: "@ + model.name@ + "\n"@ + rule + "\n"@ + headings + rule
        + "\n"@ + rows.flatten()
    &&& is_rule(rule)
    &&& shows_headings(headings)
    &&& rows.len() == model.routes@.len()
    &&& forall|i: int|
        0 <= i < rows.len() ==> shows_figures(
            #[trigger] rows[i],
            model.routes@[i].provider@,
            model.routes@[i].model@,
            model.routes@[i].circuit@,
            model.routes@[i].requests as nat,
            model.routes@[i].successes as nat,
        )
}

/// Whether a text is the routing table of a virtual model.
pub open spec fn shows_model(table: Seq<char>, model: VirtualModel) -> bool {
    exists|rule: Seq<char>, headings: Seq<char>, rows: Seq<Seq<char>>| #[trigger]
        consists_of(table, model, rule, headings, rows)
}

/// The routing table of a virtual model shows it.
proof fn lemma_shows_model(model: VirtualModel)
    ensures
        shows_model(model_table(model), model),
{
    let headings = table_row("Provider"@, "Model"@, "Circuit"@, "Requests"@, "Success"@);
    let columns = lemma_table_row("Provider"@, "Model"@, "Circuit"@, "Requests"@, "Success"@);
    text::lemma_left_aligned_shows("Provider"@, 20);
    text::lemma_left_aligned_shows("Model"@, 45);
    text::lemma_left_aligned_shows("Circuit"@, 30);
    text::lemma_right_aligned_shows("Requests"@, 8);
    text::lemma_right_aligned_shows("Success"@, 8);
    assert(shows_headings(headings));
    let rows = model.routes@.map_values(|entry: RouteEntry| route_row(entry.provider@, entry));
    target_rows_follow_each_other(model.routes@);
    assert forall|i: int| 0 <= i < rows.len() implies shows_figures(
        #[trigger] rows[i],
        model.routes@[i].provider@,
        model.routes@[i].model@,
        model.routes@[i].circuit@,
        model.routes@[i].requests as nat,
        model.routes@[i].successes as nat,
    ) by {
        let entry = model.routes@[i];
        lemma_shows_figures(
            entry.provider@,
            entry.model@,
            entry.circuit@,
            entry.requests as nat,
            entry.successes as nat,
        );
    }
    assert(consists_of(model_table(model), model, dashes(), headings, rows));
}

/// A routing table tells the name of its virtual model, and has a row for each of its targets, in
/// their order, that shows the provider, the model, the circuit and both figures of the target.
pub proof fn routing_tables_show_their_targets(model: &VirtualModel, table: String)
    requires
        call_ensures(render_model_table, (model,), table),
    ensures
        shows_model(table@, *model),
{
    lemma_shows_model(*model);
}

/// The row of a provider shows all that is reported of it.
pub proof fn provider_rows_show_their_providers(provider: &ProviderStatus, row: String)
    requires
        call_ensures(render_provider_row, (provider,), row),
    ensures
        shows_provider(row@, *provider),
{
    lemma_shows_provider(*provider);
}

/// Whether what the `status` command prints consists of its parts: the uptime in minutes and
/// seconds, the number of requests, a routing table for each virtual model, in their order, and a
/// row for each provider, in their order.
pub open spec fn status_consists_of(
    out: Seq<char>,
    status: StatusResponse,
    minutes: Seq<char>,
    seconds: Seq<char>,
    total: Seq<char>,
    tables: Seq<Seq<char>>,
    rows: Seq<Seq<char>>,
) -> bool {
    &&& out == "\nUptime: "@ + minutes + "m "@ + seconds + "s  |  Total Requests: "@ + total
        + "\n"@ + tables.flatten() + "\n"@ + PROVIDER_BORDER@ + "\n"@ + PROVIDER_HEADINGS@ + "\n"@
        + PROVIDER_BORDER@ + "\n"@ + rows.flatten() + PROVIDER_BORDER@ + "\n\n"@
    &&& text::denotes(minutes, text::digits_value(minutes))
    &&& text::denotes(seconds, text::digits_value(seconds))
    &&& 60 * text::digits_value(minutes) + text::digits_value(seconds) == status.uptime_secs
    &&& text::digits_value(seconds) < 60
    &&& text::denotes(total, status.total_requests as nat)
    &&& tables.len() == status.virtual_models@.len()
    &&& forall|i: int|
        0 <= i < tables.len() ==> shows_model(#[trigger] tables[i], status.virtual_models@[i])
    &&& rows.len() == status.providers@.len()
    &&& forall|i: int|
        0 <= i < rows.len() ==> shows_provider(#[trigger] rows[i], status.providers@[i])
}

/// What the `status` command prints shows the uptime to the second, the number of requests, every
/// virtual model and every provider, whatever their figures are.
pub proof fn status_shows_everything(status: &StatusResponse, out: String)
    requires
        call_ensures(render_status, (status,), out),
    ensures
        exists|
            minutes: Seq<char>,
            seconds: Seq<char>,
            total: Seq<char>,
            tables: Seq<Seq<char>>,
            rows: Seq<Seq<char>>,
        | #[trigger]
            status_consists_of(out@, *status, minutes, seconds, total, tables, rows),
{
    let secs = status.uptime_secs as nat;
    text::lemma_decimal_denotes(secs / 60);
    text::lemma_decimal_denotes(secs % 60);
    text::lemma_decimal_denotes(status.total_requests as nat);
    let tables = status.virtual_models@.map_values(|model: VirtualModel| model_table(model));
    let rows = status.providers@.map_values(|provider: ProviderStatus| provider_row(provider));
    routing_tables_follow_each_other(status.virtual_models@);
    provider_rows_follow_each_other(status.providers@);
    assert forall|i: int| 0 <= i < tables.len() implies shows_model(
        #[trigger] tables[i],
        status.virtual_models@[i],
    ) by {
        lemma_shows_model(status.virtual_models@[i]);
    }
    assert forall|i: int| 0 <= i < rows.len() implies shows_provider(
        #[trigger] rows[i],
        status.providers@[i],
    ) by {
        lemma_shows_provider(status.providers@[i]);
    }
    assert(status_consists_of(
        out@,
        *status,
        text::decimal(secs / 60),
        text::decimal(secs % 60),
        text::decimal(status.total_requests as nat),
        tables,
        rows,
    ));
}

/// The targets of several virtual models, one model after the other.
pub open spec fn targets_in_order(models: Seq<VirtualModel>) -> Seq<RouteEntry> {
    models.map_values(|model: VirtualModel| model.routes@).flatten()
}

/// All targets are those of each virtual model, one after the other.
pub proof fn targets_follow_each_other(models: Seq<VirtualModel>)
    ensures
        all_routes(models) == targets_in_order(models),
    decreases models.len(),
{
    let routes = models.map_values(|model: VirtualModel| model.routes@);
    if models.len() > 0 {
        let earlier = models.drop_last();
        let before = earlier.map_values(|model: VirtualModel| model.routes@);
        targets_follow_each_other(earlier);
        assert(routes == before.push(models.last().routes@));
        before.lemma_flatten_push(models.last().routes@);
    }
}

/// Whether a target is the first of its provider.
pub open spec fn is_first_target(entries: Seq<RouteEntry>, i: int) -> bool {
    &&& 0 <= i < entries.len()
    &&& forall|j: int| 0 <= j < i ==> #[trigger] entries[j].provider@ != entries[i].provider@
}

/// Whether a provider is the first report of its name, and none of the targets belongs to it.
pub open spec fn is_first_report(
    providers: Seq<ProviderStatus>,
    entries: Seq<RouteEntry>,
    i: int,
) -> bool {
    &&& 0 <= i < providers.len()
    &&& forall|j: int| 0 <= j < i ==> #[trigger] providers[j].name@ != providers[i].name@
    &&& forall|j: int|
        0 <= j < entries.len() ==> #[trigger] entries[j].provider@ != providers[i].name@
}

/// The first target of each provider is the one that no other of it precedes.
proof fn lemma_first_targets(entries: Seq<RouteEntry>) -> (places: Seq<int>)
    ensures
        places::are_places_of(places, entries.len(), |i: int| is_first_target(entries, i)),
        first_per_provider(entries).len() == places.len(),
        forall|k: int|
            0 <= k < places.len() ==> #[trigger] first_per_provider(entries)[k]
                == entries[places[k]],
    decreases entries.len(),
{
    if entries.len() == 0 {
        Seq::empty()
    } else {
        let earlier = entries.drop_last();
        let before = lemma_first_targets(earlier);
        let chosen = |i: int| is_first_target(earlier, i);
        let longer = |i: int| is_first_target(entries, i);
        let last = entries.len() - 1;
        assert forall|i: int| 0 <= i < earlier.len() implies #[trigger] longer(i) == chosen(i) by {
            if chosen(i) {
                assert forall|j: int| 0 <= j < i implies #[trigger] entries[j].provider@
                    != entries[i].provider@ by {
                    assert(earlier[j].provider@ != earlier[i].provider@);
                }
            }
            if longer(i) {
                assert forall|j: int| 0 <= j < i implies #[trigger] earlier[j].provider@
                    != earlier[i].provider@ by {
                    assert(entries[j].provider@ != entries[i].provider@);
                }
            }
        }
        if names_provider(earlier, entries.last().provider@) {
            let j = choose|j: int|
                0 <= j < earlier.len() && #[trigger] earlier[j].provider@
                    == entries.last().provider@;
            assert(entries[j].provider@ == entries[last].provider@);
            assert(!longer(last));
        } else {
            assert forall|j: int| 0 <= j < last implies #[trigger] entries[j].provider@
                != entries[last].provider@ by {
                assert(earlier[j].provider@ != entries.last().provider@);
            }
            assert(longer(last));
        }
        places::lemma_one_more_place(before, earlier.len(), chosen, longer);
        assert forall|k: int| 0 <= k < before.len() implies #[trigger] first_per_provider(
            entries,
        )[k] == entries[before[k]] by {
            assert(first_per_provider(earlier)[k] == earlier[before[k]]);
        }
        if longer(last) {
            before.push(last)
        } else {
            before
        }
    }
}

/// The providers without a target are those that no other of their name precedes.
proof fn lemma_first_reports(
    providers: Seq<ProviderStatus>,
    entries: Seq<RouteEntry>,
) -> (places: Seq<int>)
    ensures
        places::are_places_of(
            places,
            providers.len(),
            |i: int| is_first_report(providers, entries, i),
        ),
        providers_without_target(providers, entries).len() == places.len(),
        forall|k: int|
            0 <= k < places.len() ==> #[trigger] providers_without_target(providers, entries)[k]
                == providers[places[k]],
    decreases providers.len(),
{
    if providers.len() == 0 {
        Seq::empty()
    } else {
        let earlier = providers.drop_last();
        let before = lemma_first_reports(earlier, entries);
        let chosen = |i: int| is_first_report(earlier, entries, i);
        let longer = |i: int| is_first_report(providers, entries, i);
        let last = providers.len() - 1;
        let name = providers.last().name@;
        assert forall|i: int| 0 <= i < earlier.len() implies #[trigger] longer(i) == chosen(i) by {
            if chosen(i) {
                assert forall|j: int| 0 <= j < i implies #[trigger] providers[j].name@
                    != providers[i].name@ by {
                    assert(earlier[j].name@ != earlier[i].name@);
                }
            }
            if longer(i) {
                assert forall|j: int| 0 <= j < i implies #[trigger] earlier[j].name@
                    != earlier[i].name@ by {
                    assert(providers[j].name@ != providers[i].name@);
                }
            }
        }
        if names_provider(entries, name) {
            let j = choose|j: int|
                0 <= j < entries.len() && #[trigger] entries[j].provider@ == name;
            assert(!longer(last));
        } else if reports_provider(earlier, name) {
            let j = choose|j: int| 0 <= j < earlier.len() && #[trigger] earlier[j].name@ == name;
            assert(providers[j].name@ == providers[last].name@);
            assert(!longer(last));
        } else {
            assert forall|j: int| 0 <= j < last implies #[trigger] providers[j].name@
                != providers[last].name@ by {
                assert(earlier[j].name@ != name);
            }
            assert(longer(last));
        }
        places::lemma_one_more_place(before, earlier.len(), chosen, longer);
        assert forall|k: int| 0 <= k < before.len() implies #[trigger] providers_without_target(
            providers,
            entries,
        )[k] == providers[before[k]] by {
            assert(providers_without_target(earlier, entries)[k] == earlier[before[k]]);
        }
        if longer(last) {
            before.push(last)
        } else {
            before
        }
    }
}

/// Exactly the first targets of their providers are picked, in their order.
pub proof fn first_targets_are_picked(
    models: &Vec<VirtualModel>,
    listed: Vec<&RouteEntry>,
) -> (places: Seq<int>)
    requires
        call_ensures(distinct_providers, (models,), listed),
    ensures
        places::are_places_of(
            places,
            targets_in_order(models@).len(),
            |i: int| is_first_target(targets_in_order(models@), i),
        ),
        listed@.len() == places.len(),
        forall|k: int|
            0 <= k < places.len() ==> *(#[trigger] listed@[k]) == targets_in_order(
                models@,
            )[places[k]],
{
    targets_follow_each_other(models@);
    let places = lemma_first_targets(all_routes(models@));
    assert forall|k: int| 0 <= k < places.len() implies *(#[trigger] listed@[k])
        == targets_in_order(models@)[places[k]] by {
        assert(listed@.unref()[k] == first_per_provider(all_routes(models@))[k]);
    }
    places
}

/// Exactly the first reports of providers that none of the listed targets belongs to are picked,
/// in their order.
pub proof fn first_reports_are_picked<'a>(
    providers: &'a Vec<ProviderStatus>,
    listed: &Vec<&RouteEntry>,
    unrouted: Vec<&'a ProviderStatus>,
) -> (places: Seq<int>)
    requires
        call_ensures(unrouted_providers, (providers, listed), unrouted),
    ensures
        places::are_places_of(
            places,
            providers@.len(),
            |i: int| is_first_report(providers@, listed@.unref(), i),
        ),
        unrouted@.len() == places.len(),
        forall|k: int|
            0 <= k < places.len() ==> *(#[trigger] unrouted@[k]) == providers@[places[k]],
{
    let places = lemma_first_reports(providers@, listed@.unref());
    assert forall|k: int| 0 <= k < places.len() implies *(#[trigger] unrouted@[k])
        == providers@[places[k]] by {
        assert(unrouted@.unref()[k] == providers_without_target(providers@, listed@.unref())[k]);
    }
    places
}

/// Whether a text labels a provider: the sign for its circuit, a space and its name.
pub open spec fn is_label(label: Seq<char>, circuit: Seq<char>, name: Seq<char>) -> bool {
    &&& label.len() == name.len() + 2
    &&& label[0] == if text::starts_with(circuit, "Closed"@) {
        '✓'
    } else if text::starts_with(circuit, "Half"@) {
        '⧖'
    } else {
        '✗'
    }
    &&& label[1] == ' '
    &&& label.skip(2) == name
}

/// Whether a row of the provider list shows a provider: under its label, with a model or models,
/// its circuit and both its figures.
pub open spec fn lists(
    row: Seq<char>,
    name: Seq<char>,
    model: Seq<char>,
    circuit: Seq<char>,
    requests: nat,
    successes: nat,
) -> bool {
    exists|label: Seq<char>| #[trigger]
        is_label(label, circuit, name) && shows_figures(
            row,
            label,
            model,
            circuit,
            requests,
            successes,
        )
}

/// The label of a provider labels it.
proof fn lemma_label(circuit: Seq<char>, name: Seq<char>)
    ensures
        is_label(provider_label(circuit, name), circuit, name),
{
    reveal_strlit("✓");
    reveal_strlit("⧖");
    reveal_strlit("✗");
    reveal_strlit(" ");
    assert(circuit_icon(circuit).len() == 1);
    assert(provider_label(circuit, name).skip(2) == name);
}

/// Whether what the `provider list` command prints consists of its parts: a row for the first
/// target of each provider, in their order, and then one for the first report of each provider
/// without targets, in their order.
pub open spec fn list_consists_of(
    out: Seq<char>,
    status: StatusResponse,
    targets: Seq<int>,
    others: Seq<int>,
    rows: Seq<Seq<char>>,
) -> bool {
    let entries = targets_in_order(status.virtual_models@);
    let providers = status.providers@;
    &&& out == "\n"@ + LIST_BORDER@ + "\n"@ + LIST_HEADINGS@ + "\n"@ + LIST_BORDER@ + "\n"@
        + rows.flatten() + LIST_BORDER@ + "\n\n"@ + OFFLINE_HINT@ + "\n"@ + RESET_HINT@ + "\n\n"@
    &&& places::are_places_of(targets, entries.len(), |i: int| is_first_target(entries, i))
    &&& places::are_places_of(
        others,
        providers.len(),
        |i: int| is_first_report(providers, entries, i),
    )
    &&& rows.len() == targets.len() + others.len()
    &&& forall|k: int|
        0 <= k < targets.len() ==> lists(
            rows[k],
            entries[#[trigger] targets[k]].provider@,
            entries[targets[k]].model@,
            entries[targets[k]].circuit@,
            entries[targets[k]].requests as nat,
            entries[targets[k]].successes as nat,
        )
    &&& forall|k: int|
        0 <= k < others.len() ==> lists(
            rows[targets.len() + k],
            providers[#[trigger] others[k]].name@,
            providers[others[k]].models@,
            providers[others[k]].circuit@,
            providers[others[k]].requests as nat,
            providers[others[k]].successes as nat,
        )
}

/// The provider list shows each provider that has targets by the first of them, and each other
/// one by its first report: with its circuit, its requests and its successes as they are there.
pub proof fn lists_show_every_provider_once(status: &StatusResponse, out: String)
    requires
        call_ensures(render_provider_list, (status,), out),
    ensures
        exists|targets: Seq<int>, others: Seq<int>, rows: Seq<Seq<char>>| #[trigger]
            list_consists_of(out@, *status, targets, others, rows),
{
    targets_follow_each_other(status.virtual_models@);
    let entries = all_routes(status.virtual_models@);
    let providers = status.providers@;
    let targets = lemma_first_targets(entries);
    let others = lemma_first_reports(providers, entries);
    let lines = list_lines(*status);
    let rows = lines.map_values(|line: ListLine| line.1);
    lemma_list_rows_follow(lines);
    assert forall|k: int| 0 <= k < targets.len() implies lists(
        rows[k],
        entries[#[trigger] targets[k]].provider@,
        entries[targets[k]].model@,
        entries[targets[k]].circuit@,
        entries[targets[k]].requests as nat,
        entries[targets[k]].successes as nat,
    ) by {
        let entry = entries[targets[k]];
        assert(first_per_provider(entries)[k] == entry);
        assert(lines[k] == target_line(entry));
        lemma_label(entry.circuit@, entry.provider@);
        lemma_shows_figures(
            provider_label(entry.circuit@, entry.provider@),
            entry.model@,
            entry.circuit@,
            entry.requests as nat,
            entry.successes as nat,
        );
    }
    assert forall|k: int| 0 <= k < others.len() implies lists(
        rows[targets.len() + k],
        providers[#[trigger] others[k]].name@,
        providers[others[k]].models@,
        providers[others[k]].circuit@,
        providers[others[k]].requests as nat,
        providers[others[k]].successes as nat,
    ) by {
        let provider = providers[others[k]];
        assert(providers_without_target(providers, entries)[k] == provider);
        assert(lines[targets.len() + k] == provider_line(provider));
        lemma_label(provider.circuit@, provider.name@);
        lemma_shows_figures(
            provider_label(provider.circuit@, provider.name@),
            provider.models@,
            provider.circuit@,
            provider.requests as nat,
            provider.successes as nat,
        );
    }
    assert(list_consists_of(out@, *status, targets, others, rows));
}

/// The sign for a circuit depends on how its state begins, and on nothing else.
pub proof fn signs_tell_the_circuit(circuit: &str, icon: &'static str)
    requires
        call_ensures(render_circuit_icon, (circuit,), icon),
    ensures
        icon@.len() == 1,
        icon@[0] == '✓' <==> text::starts_with(circuit@, "Closed"@),
        icon@[0] == '⧖' <==> text::starts_with(circuit@, "Half"@),
        icon@[0] == '✗' || icon@[0] == '✓' || icon@[0] == '⧖',
{
    reveal_strlit("✓");
    reveal_strlit("⧖");
    reveal_strlit("✗");
    reveal_strlit("Closed");
    reveal_strlit("Half");
    if text::starts_with(circuit@, "Closed"@) && text::starts_with(circuit@, "Half"@) {
        assert(circuit@.take(6)[0] == "Closed"@[0]);
        assert(circuit@.take(4)[0] == "Half"@[0]);
        assert(circuit@.take(6)[0] == circuit@[0]);
        assert(circuit@.take(4)[0] == circuit@[0]);
    }
}

} // verus!
