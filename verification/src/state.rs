//! The state that the gateway runs on, built from its configuration.

use vstd::prelude::*;

use crate::config;
use crate::config::{Config, ProviderConfig, VirtualModelConfig};
use crate::places;
use crate::text;

verus! {

/// Whether requests go to a provider.
pub enum CircuitState {
    /// They do. Every provider starts like that.
    Closed,
    /// They do not, until this time, in milliseconds from when the state was made.
    Open { until: u64 },
}

/// What the gateway knows about a provider.
pub struct ProviderState {
    pub name: String,
    /// The base URL, in the form that the `url` crate gives it.
    pub base_url: String,
    pub api_key: String,
    pub models: Vec<String>,
    pub circuit: CircuitState,
    pub consecutive_failures: u32,
    /// Until when the provider is not asked, in milliseconds from when the state was made.
    pub rate_limited_until: Option<u64>,
    /// When the provider was last asked, in milliseconds from when the state was made.
    pub last_attempt_time: Option<u64>,
    pub probe_in_flight: bool,
    pub manual_disabled: bool,
    pub requests: u64,
    pub successes: u64,
    pub tokens_input: u64,
    pub tokens_output: u64,
}

impl ProviderState {
    /// Whether this is the state of a provider that nothing has been asked of yet.
    pub open spec fn is_fresh(self, provider: ProviderConfig, base_url: Seq<char>) -> bool {
        &&& self.name == provider.name
        &&& self.base_url@ == base_url
        &&& self.api_key == provider.api_key
        &&& self.models == provider.models
        &&& self.circuit == CircuitState::Closed
        &&& self.consecutive_failures == 0
        &&& self.rate_limited_until == None::<u64>
        &&& self.last_attempt_time == None::<u64>
        &&& !self.probe_in_flight
        &&& !self.manual_disabled
        &&& self.requests == 0
        &&& self.successes == 0
        &&& self.tokens_input == 0
        &&& self.tokens_output == 0
    }
}

/// The state that the gateway runs on.
pub struct AppState {
    pub providers: Vec<ProviderState>,
    pub virtual_models: Vec<VirtualModelConfig>,
    pub http_client: reqwest::Client,
    pub upstream_timeout_secs: u64,
}

/// The client of `reqwest`.
#[verifier::external_type_specification]
#[verifier::external_body]
pub struct ExHttpClient(reqwest::Client);

/// For how many seconds a client keeps an idle connection.
pub uninterp spec fn pool_idle_secs(client: reqwest::Client) -> u64;

/// What `Url::parse` makes of a text: the URL in its standard form, or why it is none.
pub uninterp spec fn parsed_url(text: Seq<char>) -> Result<Seq<char>, Seq<char>>;

/// For how many seconds the gateway keeps an idle connection to a provider.
pub const POOL_IDLE_SECS: u64 = 90;

/// Calls `Url::parse` of the `url` crate, by the name under which `reqwest` exports it, and gives
/// the serialization of the URL or the text of the error. Either depends on the argument alone.
#[verifier::external_body]
fn parse_url(text: &str) -> (parsed: Result<String, String>)
    ensures
        text::result_text(parsed) == parsed_url(text@),
{
    match reqwest::Url::parse(text) {
        Ok(url) => Ok(String::from(url)),
        Err(error) => Err(error.to_string()),
    }
}

/// Calls `ClientBuilder::build` of `reqwest` with the given `pool_idle_timeout`, and gives the
/// client or the text of the error. Whether a client can be made depends on the machine, and
/// nothing is said about it; one that is made keeps idle connections for the given time.
#[verifier::external_body]
pub(crate) fn build_http_client(idle_secs: u64) -> (client: Result<reqwest::Client, String>)
    ensures
        client matches Ok(made) ==> pool_idle_secs(made) == idle_secs,
{
    reqwest::Client::builder().pool_idle_timeout(std::time::Duration::from_secs(idle_secs)).build()
        .map_err(|error| error.to_string())
}

/// Whether the builder of clients has given this client, asked for the idle time of the gateway.
pub closed spec fn client_made(client: reqwest::Client) -> bool {
    call_ensures(
        build_http_client,
        (POOL_IDLE_SECS,),
        Ok::<reqwest::Client, String>(client),
    )
}

/// Whether the builder of clients has given this error, asked for the idle time of the gateway.
pub closed spec fn client_refused(error: Seq<char>) -> bool {
    exists|said: String|
        #[trigger] call_ensures(
            build_http_client,
            (POOL_IDLE_SECS,),
            Err::<reqwest::Client, String>(said),
        ) && said@ == error
}

/// What is said about a provider whose base URL is none.
pub open spec fn invalid_url_text(
    base_url: Seq<char>,
    name: Seq<char>,
    error: Seq<char>,
) -> Seq<char> {
    "Invalid base URL '"@ + base_url + "' for provider '"@ + name + "': "@ + error
}

/// What is said where no client can be made.
pub open spec fn no_client_text(error: Seq<char>) -> Seq<char> {
    "Failed to build HTTP client: "@ + error
}

/// The providers that the gateway uses.
pub open spec fn enabled_providers(providers: Seq<ProviderConfig>) -> Seq<ProviderConfig> {
    providers.filter(|provider: ProviderConfig| provider.enabled)
}

/// A provider, and what has come of parsing its base URL.
pub type Candidate = (ProviderConfig, Result<Seq<char>, Seq<char>>);

/// Several providers, each with what comes of parsing its base URL.
pub open spec fn candidates(providers: Seq<ProviderConfig>) -> Seq<Candidate> {
    Seq::new(providers.len(), |i: int| (providers[i], parsed_url(providers[i].base_url@)))
}

/// The providers that the gateway uses, each with what comes of parsing its base URL.
pub open spec fn enabled_candidates(config: Config) -> Seq<Candidate> {
    candidates(enabled_providers(config.providers@))
}

/// Several providers, each with what has come of parsing its base URL, by the characters of the
/// latter.
pub open spec fn candidate_texts(
    entries: Seq<(ProviderConfig, Result<String, String>)>,
) -> Seq<Candidate> {
    Seq::new(entries.len(), |i: int| (entries[i].0, text::result_text(entries[i].1)))
}

/// What is said about the first of several providers whose base URL is none, if there is one.
pub open spec fn first_invalid(entries: Seq<Candidate>) -> Option<Seq<char>>
    decreases entries.len(),
{
    if entries.len() == 0 {
        None
    } else {
        match first_invalid(entries.drop_last()) {
            Some(said) => Some(said),
            None => match entries.last().1 {
                Ok(_) => None,
                Err(error) => Some(
                    invalid_url_text(entries.last().0.base_url@, entries.last().0.name@, error),
                ),
            },
        }
    }
}

/// Whether these are the fresh states of the given providers, one by one, each with its base URL
/// in standard form.
pub open spec fn are_fresh(states: Seq<ProviderState>, entries: Seq<Candidate>) -> bool {
    &&& states.len() == entries.len()
    &&& forall|i: int|
        #![trigger states[i]]
        #![trigger entries[i]]
        0 <= i < states.len() ==> {
            &&& entries[i].1 is Ok
            &&& states[i].is_fresh(entries[i].0, entries[i].1->Ok_0)
        }
}

/// Says that the base URL of a provider is none, and why.
pub fn invalid_url(base_url: &str, name: &str, error: &str) -> (said: String)
    ensures
        said@ == invalid_url_text(base_url@, name@, error@),
{
    let mut said: String = "Invalid base URL '".to_string();
    said.append(base_url);
    said.append("' for provider '");
    said.append(name);
    said.append("': ");
    said.append(error);
    said
}

/// Makes the state of a provider, given what has come of parsing its base URL.
pub fn admit_provider(provider: ProviderConfig, parsed: Result<String, String>) -> (state: Result<
    ProviderState,
    String,
>)
    ensures
        state is Ok <==> parsed is Ok,
        state matches Ok(made) ==> made.is_fresh(provider, parsed->Ok_0@),
        state matches Err(said) ==> said@ == invalid_url_text(
            provider.base_url@,
            provider.name@,
            parsed->Err_0@,
        ),
{
    match parsed {
        Ok(base_url) => Ok(
            ProviderState {
                name: provider.name,
                base_url,
                api_key: provider.api_key,
                models: provider.models,
                circuit: CircuitState::Closed,
                consecutive_failures: 0,
                rate_limited_until: None,
                last_attempt_time: None,
                probe_in_flight: false,
                manual_disabled: false,
                requests: 0,
                successes: 0,
                tokens_input: 0,
                tokens_output: 0,
            },
        ),
        Err(error) => Err(
            invalid_url(provider.base_url.as_str(), provider.name.as_str(), error.as_str()),
        ),
    }
}

/// Picks the providers that the gateway uses, in their order.
pub fn select_enabled(providers: Vec<ProviderConfig>) -> (enabled: Vec<ProviderConfig>)
    ensures
        enabled@ == enabled_providers(providers@),
{
    let ghost all = providers@;
    let mut enabled: Vec<ProviderConfig> = Vec::new();
    proof {
        reveal(Seq::filter);
    }
    for provider in it: providers
        invariant
            it.seq() == all,
            enabled@ == enabled_providers(all.take(it.index())),
    {
        proof {
            reveal(Seq::filter);
        }
        assert(all.take(it.index() + 1).drop_last() == all.take(it.index()));
        if provider.enabled {
            enabled.push(provider);
        }
    }
    assert(all.take(all.len() as int) == all);
    enabled
}

/// Makes the states of several providers, in their order, or says which of them is the first
/// whose base URL is none, given what has come of parsing each base URL.
pub fn admit_providers(entries: Vec<(ProviderConfig, Result<String, String>)>) -> (states: Result<
    Vec<ProviderState>,
    String,
>)
    ensures
        states is Ok <==> first_invalid(candidate_texts(entries@)) is None,
        states matches Ok(made) ==> are_fresh(made@, candidate_texts(entries@)),
        states matches Err(said) ==> first_invalid(candidate_texts(entries@)) == Some(said@),
{
    let ghost all = candidate_texts(entries@);
    let ghost given = entries@;
    let mut states: Vec<ProviderState> = Vec::new();
    for entry in it: entries
        invariant
            it.seq() == given,
            all == candidate_texts(given),
            first_invalid(all.take(it.index())) is None,
            are_fresh(states@, all.take(it.index())),
    {
        let ghost done = all.take(it.index());
        let ghost now = all.take(it.index() + 1);
        assert(now.drop_last() == done);
        assert(now.last() == (entry.0, text::result_text(entry.1)));
        match admit_provider(entry.0, entry.1) {
            Ok(state) => {
                states.push(state);
            },
            Err(said) => {
                proof {
                    lemma_first_stays(all, it.index() + 1);
                }
                return Err(said);
            },
        }
    }
    assert(all.take(all.len() as int) == all);
    Ok(states)
}

/// Makes the states of the enabled providers, in their order, or says which of them is the first
/// whose base URL is none.
pub fn build_providers(providers: Vec<ProviderConfig>) -> (states: Result<
    Vec<ProviderState>,
    String,
>)
    ensures
        states is Ok <==> first_invalid(candidates(enabled_providers(providers@))) is None,
        states matches Ok(made) ==> are_fresh(made@, candidates(enabled_providers(providers@))),
        states matches Err(said) ==> first_invalid(candidates(enabled_providers(providers@)))
            == Some(said@),
{
    let enabled: Vec<ProviderConfig> = select_enabled(providers);
    let ghost chosen = enabled@;
    let mut entries: Vec<(ProviderConfig, Result<String, String>)> = Vec::new();
    for provider in it: enabled
        invariant
            it.seq() == chosen,
            candidate_texts(entries@) == candidates(chosen.take(it.index())),
    {
        let ghost before = entries@;
        let parsed: Result<String, String> = parse_url(provider.base_url.as_str());
        entries.push((provider, parsed));
        assert(candidate_texts(entries@) == candidate_texts(before).push(
            (provider, text::result_text(parsed)),
        ));
        assert(candidates(chosen.take(it.index() + 1)) == candidates(
            chosen.take(it.index()),
        ).push((provider, parsed_url(provider.base_url@))));
    }
    assert(chosen.take(chosen.len() as int) == chosen);
    admit_providers(entries)
}

/// Puts the state of the gateway together, given what has come of making a client.
pub fn assemble_app_state(
    providers: Vec<ProviderState>,
    virtual_models: Vec<VirtualModelConfig>,
    upstream_timeout_secs: u64,
    client: Result<reqwest::Client, String>,
) -> (state: Result<AppState, String>)
    ensures
        state is Ok <==> client is Ok,
        state matches Ok(made) ==> made == (AppState {
            providers,
            virtual_models,
            http_client: client->Ok_0,
            upstream_timeout_secs,
        }),
        state matches Err(said) ==> said@ == no_client_text(client->Err_0@),
{
    match client {
        Ok(http_client) => Ok(
            AppState { providers, virtual_models, http_client, upstream_timeout_secs },
        ),
        Err(error) => {
            let mut said: String = "Failed to build HTTP client: ".to_string();
            said.append(error.as_str());
            Err(said)
        },
    }
}

impl AppState {
    /// Whether the name of a virtual model leads to one list of targets only.
    pub open spec fn is_well_formed(self) -> bool {
        config::are_distinct(self.virtual_models@)
    }

    /// Whether this is a state to start with under the given configuration.
    pub open spec fn is_start_of(self, config: Config) -> bool {
        &&& are_fresh(self.providers@, enabled_candidates(config))
        &&& self.virtual_models == config.virtual_models
        &&& self.upstream_timeout_secs == config.server.upstream_timeout_secs
        &&& pool_idle_secs(self.http_client) == POOL_IDLE_SECS
        &&& client_made(self.http_client)
    }
}

/// Whether this can come of building the state of the gateway: an enabled provider with a bad
/// base URL is reported before anything else, and with none there is a state to start with,
/// unless the builder of clients has given an error, which is then reported.
pub open spec fn is_build_of(built: Result<AppState, String>, config: Config) -> bool {
    match first_invalid(enabled_candidates(config)) {
        Some(text) => built matches Err(said) && said@ == text,
        None => match built {
            Ok(state) => state.is_start_of(config),
            Err(said) => exists|error: Seq<char>|
                client_refused(error) && said@ == #[trigger] no_client_text(error),
        },
    }
}

/// Builds the state of the gateway from its configuration.
pub fn build_app_state(config: Config) -> (built: Result<AppState, String>)
    ensures
        is_build_of(built, config),
        config.is_well_formed() ==> (built matches Ok(state) ==> state.is_well_formed()),
{
    match build_providers(config.providers) {
        Ok(providers) => assemble_app_state(
            providers,
            config.virtual_models,
            config.server.upstream_timeout_secs,
            build_http_client(POOL_IDLE_SECS),
        ),
        Err(said) => Err(said),
    }
}

/// What is said about the first provider whose base URL is none does not depend on the providers
/// behind it.
proof fn lemma_first_stays(entries: Seq<Candidate>, k: int)
    requires
        0 <= k <= entries.len(),
        first_invalid(entries.take(k)) is Some,
    ensures
        first_invalid(entries) == first_invalid(entries.take(k)),
    decreases entries.len() - k,
{
    if k == entries.len() {
        assert(entries.take(k) == entries);
    } else {
        assert(entries.take(k + 1).drop_last() == entries.take(k));
        lemma_first_stays(entries, k + 1);
    }
}

/// Providers with good base URLs are all taken.
pub proof fn good_base_urls_pass(entries: Seq<Candidate>)
    requires
        forall|i: int| 0 <= i < entries.len() ==> (#[trigger] entries[i]).1 is Ok,
    ensures
        first_invalid(entries) is None,
    decreases entries.len(),
{
    if entries.len() > 0 {
        assert forall|i: int| 0 <= i < entries.drop_last().len() implies (
        #[trigger] entries.drop_last()[i]).1 is Ok by {
            assert(entries.drop_last()[i] == entries[i]);
        }
        good_base_urls_pass(entries.drop_last());
    }
}

/// Of several bad base URLs the first one is reported.
pub proof fn first_bad_base_url_is_reported(entries: Seq<Candidate>, k: int)
    requires
        0 <= k < entries.len(),
        entries[k].1 is Err,
        forall|i: int| 0 <= i < k ==> (#[trigger] entries[i]).1 is Ok,
    ensures
        first_invalid(entries) == Some(
            invalid_url_text(
                entries[k].0.base_url@,
                entries[k].0.name@,
                entries[k].1->Err_0,
            ),
        ),
{
    let before = entries.take(k);
    let now = entries.take(k + 1);
    good_base_urls_pass(before);
    assert(now.drop_last() == before);
    assert(now.last() == entries[k]);
    lemma_first_stays(entries, k + 1);
}

/// A disabled provider makes no difference, wherever it stands and whatever its base URL is.
pub proof fn disabled_providers_do_not_matter(
    before: Seq<ProviderConfig>,
    provider: ProviderConfig,
    after: Seq<ProviderConfig>,
)
    requires
        !provider.enabled,
    ensures
        enabled_providers(before.push(provider) + after) == enabled_providers(before + after),
    decreases after.len(),
{
    reveal(Seq::filter);
    let with = before.push(provider) + after;
    let without = before + after;
    if after.len() == 0 {
        assert(with == before.push(provider));
        assert(with.drop_last() == before);
        assert(without == before);
    } else {
        disabled_providers_do_not_matter(before, provider, after.drop_last());
        assert(with.drop_last() == before.push(provider) + after.drop_last());
        assert(without.drop_last() == before + after.drop_last());
        assert(with.last() == after.last());
        assert(without.last() == after.last());
    }
}

/// A gateway offers the virtual models of its configuration, and so none of them twice where the
/// configuration holds none twice.
pub proof fn gateways_offer_the_configured_models(state: AppState, config: Config)
    requires
        state.is_start_of(config),
    ensures
        state.virtual_models == config.virtual_models,
        state.is_well_formed() == config.is_well_formed(),
{
}

/// A gateway starts with exactly its enabled providers, in their order: none of them is blocked,
/// limited or counted against, and a provider that is disabled is not there.
pub proof fn gateways_start_clean(state: AppState, config: Config, i: int)
    requires
        state.is_start_of(config),
        0 <= i < state.providers@.len(),
    ensures
        state.providers@.len() == enabled_providers(config.providers@).len(),
        enabled_providers(config.providers@)[i].enabled,
        config.providers@.contains(enabled_providers(config.providers@)[i]),
        state.providers@[i].name == enabled_providers(config.providers@)[i].name,
        state.providers@[i].circuit == CircuitState::Closed,
        state.providers@[i].rate_limited_until is None,
        state.providers@[i].last_attempt_time is None,
        state.providers@[i].consecutive_failures == 0,
        !state.providers@[i].manual_disabled,
        state.providers@[i].requests == 0,
{
    let is_enabled = |provider: ProviderConfig| provider.enabled;
    let enabled = enabled_providers(config.providers@);
    assert(enabled_candidates(config)[i].0 == enabled[i]);
    config.providers@.lemma_filter_contains_rev(is_enabled, enabled[i]);
    config.providers@.lemma_filter_pred(is_enabled, i);
    assert(is_enabled(enabled[i]));
}

/// Whether a gateway knows a provider as it is configured: by its name, with its key, with all its
/// models in their order, and at its base URL in standard form.
pub open spec fn has_settings_of(state: ProviderState, provider: ProviderConfig) -> bool {
    &&& state.name@ == provider.name@
    &&& state.api_key@ == provider.api_key@
    &&& state.models@ == provider.models@
    &&& parsed_url(provider.base_url@) == Ok::<Seq<char>, Seq<char>>(state.base_url@)
}

/// Whether nothing has been asked of a provider, and nothing keeps the gateway from asking.
pub open spec fn is_unused(state: ProviderState) -> bool {
    &&& state.circuit is Closed
    &&& state.rate_limited_until is None && state.last_attempt_time is None
    &&& !state.probe_in_flight && !state.manual_disabled
    &&& state.consecutive_failures == 0 && state.requests == 0 && state.successes == 0
    &&& state.tokens_input == 0 && state.tokens_output == 0
}

/// Whether a gateway knows exactly the enabled ones of the providers, in their order, each as it
/// is configured and none of them used: the places are those of the enabled ones.
pub open spec fn knows_enabled(
    states: Seq<ProviderState>,
    providers: Seq<ProviderConfig>,
    places: Seq<int>,
) -> bool {
    &&& places::are_places_of(places, providers.len(), |i: int| providers[i].enabled)
    &&& states.len() == places.len()
    &&& forall|k: int|
        0 <= k < states.len() ==> {
            &&& has_settings_of(#[trigger] states[k], providers[places[k]])
            &&& is_unused(states[k])
        }
}

/// Whether a provider is the first enabled one whose base URL is none.
pub open spec fn is_first_bad(providers: Seq<ProviderConfig>, k: int) -> bool {
    &&& 0 <= k < providers.len()
    &&& providers[k].enabled
    &&& parsed_url(providers[k].base_url@) is Err
    &&& forall|i: int|
        0 <= i < k && (#[trigger] providers[i]).enabled ==> parsed_url(providers[i].base_url@) is Ok
}

/// Whether the base URLs of all enabled providers are good.
pub open spec fn has_good_urls(providers: Seq<ProviderConfig>) -> bool {
    forall|i: int|
        0 <= i < providers.len() && (#[trigger] providers[i]).enabled ==> parsed_url(
            providers[i].base_url@,
        ) is Ok
}

/// The enabled providers stand at the places of the enabled ones.
proof fn lemma_enabled_places(providers: Seq<ProviderConfig>) -> (places: Seq<int>)
    ensures
        places::are_places_of(places, providers.len(), |i: int| providers[i].enabled),
        enabled_providers(providers).len() == places.len(),
        forall|k: int|
            0 <= k < places.len() ==> #[trigger] enabled_providers(providers)[k]
                == providers[places[k]],
    decreases providers.len(),
{
    reveal(Seq::filter);
    if providers.len() == 0 {
        Seq::empty()
    } else {
        let earlier = providers.drop_last();
        let before = lemma_enabled_places(earlier);
        let chosen = |i: int| earlier[i].enabled;
        let longer = |i: int| providers[i].enabled;
        places::lemma_one_more_place(before, earlier.len(), chosen, longer);
        assert forall|k: int| 0 <= k < before.len() implies #[trigger] enabled_providers(
            providers,
        )[k] == providers[before[k]] by {
            assert(enabled_providers(earlier)[k] == earlier[before[k]]);
        }
        if providers.last().enabled {
            before.push(earlier.len() as int)
        } else {
            before
        }
    }
}

/// Fresh states of the enabled providers are what a gateway knows of them.
proof fn lemma_fresh_is_known(
    states: Seq<ProviderState>,
    providers: Seq<ProviderConfig>,
) -> (places: Seq<int>)
    requires
        are_fresh(states, candidates(enabled_providers(providers))),
    ensures
        knows_enabled(states, providers, places),
{
    let places = lemma_enabled_places(providers);
    let enabled = enabled_providers(providers);
    assert forall|k: int| 0 <= k < states.len() implies has_settings_of(
        #[trigger] states[k],
        providers[places[k]],
    ) && is_unused(states[k]) by {
        assert(candidates(enabled)[k] == (enabled[k], parsed_url(enabled[k].base_url@)));
        assert(enabled[k] == providers[places[k]]);
    }
    places
}

/// What is reported of the enabled providers is the first whose base URL is none.
proof fn lemma_first_bad(providers: Seq<ProviderConfig>)
    ensures
        first_invalid(candidates(enabled_providers(providers))) is None <==> has_good_urls(
            providers,
        ),
        forall|k: int|
            is_first_bad(providers, k) ==> #[trigger] first_invalid(
                candidates(enabled_providers(providers)),
            ) == Some(
                invalid_url_text(
                    providers[k].base_url@,
                    providers[k].name@,
                    parsed_url(providers[k].base_url@)->Err_0,
                ),
            ),
        first_invalid(candidates(enabled_providers(providers))) is Some ==> exists|k: int|
            is_first_bad(providers, k),
    decreases providers.len(),
{
    reveal(Seq::filter);
    let all = candidates(enabled_providers(providers));
    if providers.len() > 0 {
        let earlier = providers.drop_last();
        let before = candidates(enabled_providers(earlier));
        let last = providers.last();
        lemma_first_bad(earlier);
        if last.enabled {
            assert(all == before.push((last, parsed_url(last.base_url@))));
            assert(all.drop_last() == before);
            assert(all.last() == (last, parsed_url(last.base_url@)));
        } else {
            assert(all == before);
        }
        assert forall|i: int| 0 <= i < earlier.len() implies earlier[i] == #[trigger] providers[i] by {}
        assert(providers[providers.len() - 1] == last);
        assert(has_good_urls(providers) ==> has_good_urls(earlier)) by {
            if has_good_urls(providers) {
                assert forall|i: int|
                    0 <= i < earlier.len() && (#[trigger] earlier[i]).enabled implies parsed_url(
                    earlier[i].base_url@,
                ) is Ok by {
                    assert(providers[i].enabled);
                }
            }
        }
        assert forall|k: int| 0 <= k < earlier.len() implies #[trigger] is_first_bad(providers, k)
            == is_first_bad(earlier, k) by {
            if is_first_bad(earlier, k) {
                assert forall|i: int|
                    0 <= i < k && (#[trigger] providers[i]).enabled implies parsed_url(
                    providers[i].base_url@,
                ) is Ok by {
                    assert(earlier[i].enabled);
                }
            }
            if is_first_bad(providers, k) {
                assert forall|i: int|
                    0 <= i < k && (#[trigger] earlier[i]).enabled implies parsed_url(
                    earlier[i].base_url@,
                ) is Ok by {
                    assert(providers[i].enabled);
                }
            }
        }
        assert forall|k: int| is_first_bad(providers, k) implies #[trigger] first_invalid(all)
            == Some(
            invalid_url_text(
                providers[k].base_url@,
                providers[k].name@,
                parsed_url(providers[k].base_url@)->Err_0,
            ),
        ) by {
            if k < earlier.len() {
                assert(is_first_bad(earlier, k));
            } else {
                assert forall|i: int|
                    0 <= i < earlier.len() && (#[trigger] earlier[i]).enabled implies parsed_url(
                    earlier[i].base_url@,
                ) is Ok by {
                    assert(providers[i].enabled);
                }
                assert(has_good_urls(earlier));
            }
        }
        if first_invalid(all) is Some {
            if first_invalid(before) is Some {
                let k = choose|k: int| is_first_bad(earlier, k);
                assert(is_first_bad(providers, k));
            } else {
                assert(has_good_urls(earlier));
                assert forall|i: int|
                    0 <= i < earlier.len() && (#[trigger] providers[i]).enabled implies parsed_url(
                    providers[i].base_url@,
                ) is Ok by {
                    assert(earlier[i].enabled);
                }
                assert(is_first_bad(providers, earlier.len() as int));
            }
            assert(!has_good_urls(providers)) by {
                let k = choose|k: int| is_first_bad(providers, k);
                assert(providers[k].enabled);
            }
        } else {
            assert(has_good_urls(earlier));
            assert forall|i: int|
                0 <= i < providers.len() && (#[trigger] providers[i]).enabled implies parsed_url(
                providers[i].base_url@,
            ) is Ok by {
                if i < earlier.len() {
                    assert(earlier[i].enabled);
                }
            }
        }
    }
}

/// Whether a text tells about the first enabled provider whose base URL is none: it names the
/// base URL and the provider, and says why.
pub open spec fn tells_first_bad(said: Seq<char>, providers: Seq<ProviderConfig>) -> bool {
    exists|k: int|
        #[trigger] is_first_bad(providers, k) && said == "Invalid base URL '"@
            + providers[k].base_url@ + "' for provider '"@ + providers[k].name@ + "': "@
            + parsed_url(providers[k].base_url@)->Err_0
}

/// Whether a text tells an error that the builder of clients has given.
pub open spec fn tells_client_error(said: Seq<char>) -> bool {
    exists|error: Seq<char>|
        #[trigger] client_refused(error) && said == "Failed to build HTTP client: "@ + error
}

/// Whether a gateway that runs on a state does what its configuration says: it knows exactly the
/// enabled providers, as they are configured, offers the configured models, waits as long as
/// configured, and keeps idle connections for a minute and a half, with a client that the builder
/// of clients has given.
pub open spec fn runs_as_configured(state: AppState, config: Config) -> bool {
    &&& exists|places: Seq<int>| #[trigger]
        knows_enabled(state.providers@, config.providers@, places)
    &&& state.virtual_models@ == config.virtual_models@
    &&& state.upstream_timeout_secs == config.server.upstream_timeout_secs
    &&& pool_idle_secs(state.http_client) == 90
    &&& client_made(state.http_client)
}

/// What can come of building a state, in terms of the configuration.
pub proof fn lemma_builds(config: Config, built: Result<AppState, String>)
    requires
        is_build_of(built, config),
    ensures
        built matches Ok(state) ==> has_good_urls(config.providers@) && runs_as_configured(
            state,
            config,
        ),
        built matches Err(said) ==> if has_good_urls(config.providers@) {
            tells_client_error(said@)
        } else {
            tells_first_bad(said@, config.providers@)
        },
{
    lemma_first_bad(config.providers@);
    match built {
        Ok(state) => {
            let places = lemma_fresh_is_known(state.providers@, config.providers@);
        },
        Err(said) => {
            if has_good_urls(config.providers@) {
                let error = choose|error: Seq<char>|
                    client_refused(error) && said@ == #[trigger] no_client_text(error);
                assert(client_refused(error));
            } else {
                let k = choose|k: int| is_first_bad(config.providers@, k);
                assert(is_first_bad(config.providers@, k));
            }
        },
    }
}

/// A state that is built does what the configuration says, and the base URLs of all enabled
/// providers are good. Where none is built, that is for the first of them that is bad, or else for
/// an error that the builder of clients has given.
pub proof fn builds_follow_the_configuration(config: Config, built: Result<AppState, String>)
    requires
        call_ensures(build_app_state, (config,), built),
    ensures
        built matches Ok(state) ==> has_good_urls(config.providers@) && runs_as_configured(
            state,
            config,
        ),
        built matches Err(said) ==> if has_good_urls(config.providers@) {
            tells_client_error(said@)
        } else {
            tells_first_bad(said@, config.providers@)
        },
{
    lemma_builds(config, built);
}

/// Two states that are built from one configuration know the same of the same providers, in the
/// same order.
pub proof fn builds_agree(
    config: Config,
    left: Result<AppState, String>,
    right: Result<AppState, String>,
    i: int,
)
    requires
        call_ensures(build_app_state, (config,), left),
        call_ensures(build_app_state, (config,), right),
        left is Ok,
        right is Ok,
        0 <= i < left->Ok_0.providers@.len(),
    ensures
        left->Ok_0.providers@.len() == right->Ok_0.providers@.len(),
        left->Ok_0.providers@[i].name@ == right->Ok_0.providers@[i].name@,
        left->Ok_0.providers@[i].base_url@ == right->Ok_0.providers@[i].base_url@,
        left->Ok_0.providers@[i].api_key@ == right->Ok_0.providers@[i].api_key@,
        left->Ok_0.providers@[i].models@ == right->Ok_0.providers@[i].models@,
{
    let providers = config.providers@;
    builds_follow_the_configuration(config, left);
    builds_follow_the_configuration(config, right);
    let a = choose|a: Seq<int>| #[trigger] knows_enabled(left->Ok_0.providers@, providers, a);
    let b = choose|b: Seq<int>| #[trigger] knows_enabled(right->Ok_0.providers@, providers, b);
    places::places_are_unique(a, b, providers.len(), |i: int| providers[i].enabled);
    assert(has_settings_of(left->Ok_0.providers@[i], providers[a[i]]));
    assert(has_settings_of(right->Ok_0.providers@[i], providers[b[i]]));
}

/// The i-th provider that a gateway starts with has the name, the key, the models and the parsed
/// base URL of the i-th enabled provider of its configuration.
pub proof fn gateways_start_as_configured(state: AppState, config: Config, i: int)
    requires
        state.is_start_of(config),
        0 <= i < state.providers@.len(),
    ensures
        state.providers@[i].name@ == enabled_providers(config.providers@)[i].name@,
        state.providers@[i].api_key@ == enabled_providers(config.providers@)[i].api_key@,
        state.providers@[i].models@ == enabled_providers(config.providers@)[i].models@,
        parsed_url(enabled_providers(config.providers@)[i].base_url@) == Ok::<
            Seq<char>,
            Seq<char>,
        >(state.providers@[i].base_url@),
{
    let enabled = enabled_providers(config.providers@);
    assert(enabled_candidates(config)[i] == (enabled[i], parsed_url(enabled[i].base_url@)));
}

/// A provider is admitted exactly where its base URL is good, with its name, its key, all its
/// models and that base URL, and unused. Else the text names the base URL and the provider, and
/// says why.
pub proof fn admitted_providers_keep_their_settings(
    provider: ProviderConfig,
    parsed: Result<String, String>,
    state: Result<ProviderState, String>,
)
    requires
        call_ensures(admit_provider, (provider, parsed), state),
    ensures
        match parsed {
            Ok(base_url) => {
                &&& state is Ok
                &&& state->Ok_0.name@ == provider.name@
                &&& state->Ok_0.api_key@ == provider.api_key@
                &&& state->Ok_0.models@ == provider.models@
                &&& state->Ok_0.base_url@ == base_url@
                &&& is_unused(state->Ok_0)
            },
            Err(error) => {
                &&& state is Err
                &&& state->Err_0@ == "Invalid base URL '"@ + provider.base_url@
                    + "' for provider '"@ + provider.name@ + "': "@ + error@
            },
        },
{
}

/// Exactly the enabled providers are selected, in their order and unchanged.
pub proof fn enabled_providers_are_selected(
    providers: Vec<ProviderConfig>,
    enabled: Vec<ProviderConfig>,
) -> (places: Seq<int>)
    requires
        call_ensures(select_enabled, (providers,), enabled),
    ensures
        places::are_places_of(places, providers@.len(), |i: int| providers@[i].enabled),
        enabled@.len() == places.len(),
        forall|k: int| 0 <= k < places.len() ==> #[trigger] enabled@[k] == providers@[places[k]],
{
    lemma_enabled_places(providers@)
}

/// Several providers are admitted where all their base URLs are good, one by one and in their
/// order, and else the first that is bad is told about.
pub proof fn providers_are_admitted_together(
    entries: Vec<(ProviderConfig, Result<String, String>)>,
    states: Result<Vec<ProviderState>, String>,
    k: int,
)
    requires
        call_ensures(admit_providers, (entries,), states),
        0 <= k < entries@.len(),
        forall|i: int| 0 <= i < k ==> (#[trigger] entries@[i]).1 is Ok,
    ensures
        entries@[k].1 matches Err(error) ==> states is Err && states->Err_0@
            == "Invalid base URL '"@ + entries@[k].0.base_url@ + "' for provider '"@
            + entries@[k].0.name@ + "': "@ + error@,
        states matches Ok(made) ==> {
            &&& made@.len() == entries@.len()
            &&& entries@[k].1 is Ok
            &&& made@[k].name@ == entries@[k].0.name@
            &&& made@[k].api_key@ == entries@[k].0.api_key@
            &&& made@[k].models@ == entries@[k].0.models@
            &&& made@[k].base_url@ == entries@[k].1->Ok_0@
            &&& is_unused(made@[k])
        },
        entries@[k].1 is Ok && k == entries@.len() - 1 ==> states is Ok,
{
    let all = candidate_texts(entries@);
    assert forall|i: int| 0 <= i < k implies (#[trigger] all[i]).1 is Ok by {
        assert(entries@[i].1 is Ok);
    }
    assert(all[k] == (entries@[k].0, text::result_text(entries@[k].1)));
    if entries@[k].1 is Err {
        first_bad_base_url_is_reported(all, k);
    } else if k == entries@.len() - 1 {
        assert forall|i: int| 0 <= i < all.len() implies (#[trigger] all[i]).1 is Ok by {}
        good_base_urls_pass(all);
    }
}

/// The states that are built of several providers are those of the enabled ones, in their order
/// and as they are configured. Where none are built, the first bad base URL is told about.
pub proof fn enabled_providers_are_built(
    providers: Vec<ProviderConfig>,
    states: Result<Vec<ProviderState>, String>,
)
    requires
        call_ensures(build_providers, (providers,), states),
    ensures
        states is Ok <==> has_good_urls(providers@),
        states matches Ok(made) ==> exists|places: Seq<int>| #[trigger]
            knows_enabled(made@, providers@, places),
        states matches Err(said) ==> tells_first_bad(said@, providers@),
{
    lemma_first_bad(providers@);
    match states {
        Ok(made) => {
            let places = lemma_fresh_is_known(made@, providers@);
        },
        Err(said) => {
            let k = choose|k: int| is_first_bad(providers@, k);
            assert(is_first_bad(providers@, k));
        },
    }
}

/// A state is put together of exactly what is given, where there is a client, and else the error
/// of the client is told.
pub proof fn states_are_put_together_whole(
    providers: Vec<ProviderState>,
    virtual_models: Vec<VirtualModelConfig>,
    upstream_timeout_secs: u64,
    client: Result<reqwest::Client, String>,
    state: Result<AppState, String>,
)
    requires
        call_ensures(
            assemble_app_state,
            (providers, virtual_models, upstream_timeout_secs, client),
            state,
        ),
    ensures
        match client {
            Ok(http_client) => {
                &&& state is Ok
                &&& state->Ok_0.providers@ == providers@
                &&& state->Ok_0.virtual_models@ == virtual_models@
                &&& state->Ok_0.upstream_timeout_secs == upstream_timeout_secs
                &&& state->Ok_0.http_client == http_client
            },
            Err(error) => state is Err && state->Err_0@ == "Failed to build HTTP client: "@
                + error@,
        },
{
}

/// What counts as an answer of the builder of clients is one that a call of it has given, with an
/// idle time of a minute and a half.
pub(crate) proof fn client_answers_come_from_the_builder(
    client: reqwest::Client,
    error: Seq<char>,
)
    ensures
        client_made(client) ==> call_ensures(
            build_http_client,
            (90u64,),
            Ok::<reqwest::Client, String>(client),
        ),
        client_refused(error) ==> exists|said: String|
            #[trigger] call_ensures(
                build_http_client,
                (90u64,),
                Err::<reqwest::Client, String>(said),
            ) && said@ == error,
{
}

} // verus!
