//! Replacing the configuration of a running gateway.
//!
//! A reload loads the configuration, validates it, builds a state from it and publishes that
//! state. Loading, validating and publishing are done by the caller, who reports what has come
//! of each; what to do next is decided here.

use vstd::prelude::*;

use crate::config::Config;
use crate::json;
use crate::reply;
use crate::reply::{error_reply, message_reply, Reply};
use crate::state;
use crate::state::{build_app_state, AppState};

verus! {

/// How a reload ended.
pub enum ReloadOutcome {
    /// The configuration could not be loaded.
    LoadFailed(String),
    /// The configuration is not valid.
    Invalid(String),
    /// No state could be built from the configuration.
    BuildFailed(String),
    /// There was nobody to publish the new state to.
    SendFailed,
    /// The gateway runs on the new state.
    Reloaded,
}

/// What is to be done next in a reload.
pub enum ReloadStep {
    /// Validate this configuration.
    Validate(Config),
    /// Publish this state.
    Publish(AppState),
    /// Nothing: the reload has ended.
    Finish(ReloadOutcome),
}

/// What follows the loading of a configuration.
pub open spec fn step_after_load(loaded: Result<Config, String>) -> ReloadStep {
    match loaded {
        Ok(config) => ReloadStep::Validate(config),
        Err(error) => ReloadStep::Finish(ReloadOutcome::LoadFailed(error)),
    }
}

/// What follows the building of a state.
pub open spec fn step_after_build(built: Result<AppState, String>) -> ReloadStep {
    match built {
        Ok(state) => ReloadStep::Publish(state),
        Err(error) => ReloadStep::Finish(ReloadOutcome::BuildFailed(error)),
    }
}

/// Whether this can follow the validation of a configuration.
pub open spec fn can_follow_validation(
    step: ReloadStep,
    config: Config,
    validated: Result<(), String>,
) -> bool {
    match validated {
        Ok(_) => exists|built: Result<AppState, String>| #[trigger]
            state::is_build_of(built, config) && step == step_after_build(built),
        Err(error) => step == ReloadStep::Finish(ReloadOutcome::Invalid(error)),
    }
}

/// How a reload ends that has published its state.
pub open spec fn outcome_after_publish(delivered: bool) -> ReloadOutcome {
    if delivered {
        ReloadOutcome::Reloaded
    } else {
        ReloadOutcome::SendFailed
    }
}

/// Decides what follows the loading of a configuration.
pub fn after_load(loaded: Result<Config, String>) -> (step: ReloadStep)
    ensures
        step == step_after_load(loaded),
{
    match loaded {
        Ok(config) => ReloadStep::Validate(config),
        Err(error) => ReloadStep::Finish(ReloadOutcome::LoadFailed(error)),
    }
}

/// Decides what follows the building of a state.
pub fn after_build(built: Result<AppState, String>) -> (step: ReloadStep)
    ensures
        step == step_after_build(built),
{
    match built {
        Ok(state) => ReloadStep::Publish(state),
        Err(error) => ReloadStep::Finish(ReloadOutcome::BuildFailed(error)),
    }
}

/// Decides what follows the validation of a configuration. Of a valid one it builds a state.
pub fn after_validation(config: Config, validated: Result<(), String>) -> (step: ReloadStep)
    ensures
        can_follow_validation(step, config, validated),
{
    match validated {
        Ok(_) => after_build(build_app_state(config)),
        Err(error) => ReloadStep::Finish(ReloadOutcome::Invalid(error)),
    }
}

/// Decides how a reload ends that has published its state, by whether anybody received it.
pub fn after_publish(delivered: bool) -> (outcome: ReloadOutcome)
    ensures
        outcome == outcome_after_publish(delivered),
{
    if delivered {
        ReloadOutcome::Reloaded
    } else {
        ReloadOutcome::SendFailed
    }
}

/// The error with which a gateway gives up starting. A start takes the same steps as a reload up
/// to where a state would be published, and what is wrong is reported as it stands.
pub fn startup_failure(outcome: ReloadOutcome) -> (failure: Option<String>)
    ensures
        failure == match outcome {
            ReloadOutcome::LoadFailed(error) => Some(error),
            ReloadOutcome::Invalid(error) => Some(error),
            ReloadOutcome::BuildFailed(error) => Some(error),
            _ => None,
        },
{
    match outcome {
        ReloadOutcome::LoadFailed(error) => Some(error),
        ReloadOutcome::Invalid(error) => Some(error),
        ReloadOutcome::BuildFailed(error) => Some(error),
        _ => None,
    }
}

/// The status of the reply to a reload request.
pub open spec fn reload_status(outcome: ReloadOutcome) -> u16 {
    match outcome {
        ReloadOutcome::Reloaded => reply::OK,
        ReloadOutcome::SendFailed => reply::INTERNAL_SERVER_ERROR,
        _ => reply::BAD_REQUEST,
    }
}

/// The type that the reply to a reload request gives, where the reload failed.
pub open spec fn reload_error_kind(outcome: ReloadOutcome) -> Seq<char> {
    match outcome {
        ReloadOutcome::SendFailed => "internal_error"@,
        _ => "invalid_request_error"@,
    }
}

/// The message that the reply to a reload request gives.
pub open spec fn reload_message(outcome: ReloadOutcome) -> Seq<char> {
    match outcome {
        ReloadOutcome::LoadFailed(error) => "Failed to load config: "@ + error@,
        ReloadOutcome::Invalid(error) => "Config validation failed: "@ + error@,
        ReloadOutcome::BuildFailed(error) => "Failed to build state: "@ + error@,
        ReloadOutcome::SendFailed => "Failed to send config update"@,
        ReloadOutcome::Reloaded => "Configuration reloaded successfully"@,
    }
}

/// The document in the reply to a reload request.
pub open spec fn reload_document(outcome: ReloadOutcome) -> json::JsonDoc {
    if outcome is Reloaded {
        json::message_document(reload_message(outcome))
    } else {
        json::error_document(
            reload_message(outcome),
            reload_error_kind(outcome),
            reload_status(outcome) as nat,
        )
    }
}

/// Reports a rejected configuration: what is wrong, and the error that says so.
fn rejection(what: &str, error: &String) -> (reply: Reply)
    ensures
        reply.is_error(reply::BAD_REQUEST, "invalid_request_error"@, what@ + error@),
{
    let mut message: String = what.to_string();
    message.append(error.as_str());
    error_reply(reply::BAD_REQUEST, "invalid_request_error", message.as_str())
}

/// Makes the reply to a reload request.
pub fn reload_reply(outcome: &ReloadOutcome) -> (reply: Reply)
    ensures
        reply.is_json(reload_status(*outcome), reload_document(*outcome)),
{
    match outcome {
        ReloadOutcome::LoadFailed(error) => rejection("Failed to load config: ", error),
        ReloadOutcome::Invalid(error) => rejection("Config validation failed: ", error),
        ReloadOutcome::BuildFailed(error) => rejection("Failed to build state: ", error),
        ReloadOutcome::SendFailed => error_reply(
            reply::INTERNAL_SERVER_ERROR,
            "internal_error",
            "Failed to send config update",
        ),
        ReloadOutcome::Reloaded => message_reply("Configuration reloaded successfully"),
    }
}

/// A whole reload: how it ends, and the state that the gateway runs on afterwards, given what
/// comes of loading, of validating, of building and of publishing, and the state that it runs on
/// before. Of the results, those behind a failed step play no part.
pub open spec fn reload_run(
    loaded: Result<Config, String>,
    validated: Result<(), String>,
    built: Result<AppState, String>,
    delivered: bool,
    current: AppState,
) -> (ReloadOutcome, AppState) {
    match step_after_load(loaded) {
        ReloadStep::Finish(outcome) => (outcome, current),
        _ => match validated {
            Err(error) => (ReloadOutcome::Invalid(error), current),
            Ok(_) => match step_after_build(built) {
                ReloadStep::Publish(state) => (
                    outcome_after_publish(delivered),
                    if delivered {
                        state
                    } else {
                        current
                    },
                ),
                step => (step->Finish_0, current),
            },
        },
    }
}

/// A reload that fails, at whatever point, leaves the gateway on the state that it runs on.
pub proof fn failed_reloads_change_nothing(
    loaded: Result<Config, String>,
    validated: Result<(), String>,
    built: Result<AppState, String>,
    delivered: bool,
    current: AppState,
)
    ensures
        !(reload_run(loaded, validated, built, delivered, current).0 is Reloaded)
            ==> reload_run(loaded, validated, built, delivered, current).1 == current,
{
}

/// A reload works exactly where every step of it does, and then the gateway runs on a state to
/// start with under the configuration that was loaded.
pub proof fn reloads_work_step_by_step(
    loaded: Result<Config, String>,
    validated: Result<(), String>,
    built: Result<AppState, String>,
    delivered: bool,
    current: AppState,
)
    requires
        loaded matches Ok(config) ==> state::is_build_of(built, config),
    ensures
        reload_run(loaded, validated, built, delivered, current).0 is Reloaded <==> loaded is Ok
            && validated is Ok && built is Ok && delivered,
        reload_run(loaded, validated, built, delivered, current).0 is Reloaded ==> reload_run(
            loaded,
            validated,
            built,
            delivered,
            current,
        ).1.is_start_of(loaded->Ok_0),
{
}

/// One reload, by what comes of its steps.
pub struct ReloadAttempt {
    pub loaded: Result<Config, String>,
    pub validated: Result<(), String>,
    pub built: Result<AppState, String>,
    pub delivered: bool,
}

impl ReloadAttempt {
    /// Whether the state was built from the configuration that was loaded.
    pub open spec fn is_consistent(self) -> bool {
        self.loaded matches Ok(config) ==> state::is_build_of(self.built, config)
    }

    /// Whether every step worked.
    pub open spec fn works(self) -> bool {
        self.loaded is Ok && self.validated is Ok && self.built is Ok && self.delivered
    }

    /// The state that the gateway runs on afterwards, given the one that it runs on before.
    pub open spec fn state_after(self, current: AppState) -> AppState {
        reload_run(self.loaded, self.validated, self.built, self.delivered, current).1
    }
}

/// The state that a gateway runs on after several reloads, given the one that it starts with.
pub open spec fn state_after_reloads(attempts: Seq<ReloadAttempt>, start: AppState) -> AppState
    decreases attempts.len(),
{
    if attempts.len() == 0 {
        start
    } else {
        attempts.last().state_after(state_after_reloads(attempts.drop_last(), start))
    }
}

/// However many reloads fail, a gateway stays on the state that it starts with.
pub proof fn failed_reloads_keep_the_start(attempts: Seq<ReloadAttempt>, start: AppState)
    requires
        forall|i: int| 0 <= i < attempts.len() ==> !(#[trigger] attempts[i]).works(),
    ensures
        state_after_reloads(attempts, start) == start,
    decreases attempts.len(),
{
    if attempts.len() > 0 {
        let earlier = attempts.drop_last();
        assert forall|i: int| 0 <= i < earlier.len() implies !(#[trigger] earlier[i]).works() by {
            assert(earlier[i] == attempts[i]);
        }
        failed_reloads_keep_the_start(earlier, start);
        assert(!attempts[attempts.len() - 1].works());
    }
}

/// After any number of reloads a gateway runs on what the last one published that worked: a state
/// to start with under the configuration that was then loaded. Those that failed since then, and
/// whatever came before, make no difference.
pub proof fn gateways_run_on_the_last_good_configuration(
    attempts: Seq<ReloadAttempt>,
    start: AppState,
    k: int,
)
    requires
        0 <= k < attempts.len(),
        attempts[k].is_consistent(),
        attempts[k].works(),
        forall|i: int| k < i < attempts.len() ==> !(#[trigger] attempts[i]).works(),
    ensures
        state_after_reloads(attempts, start) == attempts[k].built->Ok_0,
        state_after_reloads(attempts, start).is_start_of(attempts[k].loaded->Ok_0),
    decreases attempts.len(),
{
    let earlier = attempts.drop_last();
    if k < earlier.len() {
        assert(earlier[k] == attempts[k]);
        assert forall|i: int| k < i < earlier.len() implies !(#[trigger] earlier[i]).works() by {
            assert(earlier[i] == attempts[i]);
        }
        gateways_run_on_the_last_good_configuration(earlier, start, k);
        assert(!attempts[attempts.len() - 1].works());
    }
}

/// Reloads never make the name of a virtual model ambiguous.
pub proof fn reloads_keep_states_well_formed(attempts: Seq<ReloadAttempt>, start: AppState)
    requires
        start.is_well_formed(),
        forall|i: int|
            0 <= i < attempts.len() ==> (#[trigger] attempts[i]).is_consistent() && (
            attempts[i].loaded matches Ok(config) ==> config.is_well_formed()),
    ensures
        state_after_reloads(attempts, start).is_well_formed(),
    decreases attempts.len(),
{
    if attempts.len() > 0 {
        let earlier = attempts.drop_last();
        assert forall|i: int| 0 <= i < earlier.len() implies (
        #[trigger] earlier[i]).is_consistent() && (earlier[i].loaded matches Ok(config)
            ==> config.is_well_formed()) by {
            assert(earlier[i] == attempts[i]);
        }
        reloads_keep_states_well_formed(earlier, start);
        assert(attempts[attempts.len() - 1].is_consistent());
    }
}

/// A bad base URL at an enabled provider stops a reload: it ends with what is said about the
/// first such provider.
pub proof fn bad_base_urls_stop_reloads(step: ReloadStep, config: Config)
    requires
        can_follow_validation(step, config, Ok(())),
        state::first_invalid(state::enabled_candidates(config)) is Some,
    ensures
        step matches ReloadStep::Finish(ReloadOutcome::BuildFailed(said)) && Some(said@)
            == state::first_invalid(state::enabled_candidates(config)),
{
}

/// What a reload publishes is a state to start with under the configuration that was loaded and
/// found valid.
pub proof fn reloads_publish_what_was_validated(
    step: ReloadStep,
    config: Config,
    validated: Result<(), String>,
)
    requires
        can_follow_validation(step, config, validated),
        step is Publish,
    ensures
        validated is Ok,
        step->Publish_0.is_start_of(config),
{
}

/// The reply to a reload request says that it was granted exactly where the gateway runs on the
/// new state.
pub proof fn replies_tell_whether_the_reload_worked(outcome: ReloadOutcome)
    ensures
        reload_status(outcome) == reply::OK <==> outcome is Reloaded,
        reload_status(outcome_after_publish(true)) == reply::OK,
        reload_status(outcome_after_publish(false)) == reply::INTERNAL_SERVER_ERROR,
{
}

/// A loaded configuration is validated as it is, and an error in loading ends the reload with it.
pub proof fn loaded_configurations_are_validated(loaded: Result<Config, String>, step: ReloadStep)
    requires
        call_ensures(after_load, (loaded,), step),
    ensures
        match loaded {
            Ok(config) => step is Validate && step->Validate_0 == config,
            Err(error) => {
                &&& step is Finish
                &&& step->Finish_0 is LoadFailed
                &&& step->Finish_0->LoadFailed_0@ == error@
            },
        },
{
}

/// A state that is built is published as it is, and an error in building ends the reload with it.
pub proof fn built_states_are_published(built: Result<AppState, String>, step: ReloadStep)
    requires
        call_ensures(after_build, (built,), step),
    ensures
        match built {
            Ok(state) => step is Publish && step->Publish_0 == state,
            Err(error) => {
                &&& step is Finish
                &&& step->Finish_0 is BuildFailed
                &&& step->Finish_0->BuildFailed_0@ == error@
            },
        },
{
}

/// Of a configuration that is valid, whose enabled providers all have good base URLs, a state is
/// published that does what the configuration says, unless the builder of clients has given an
/// error, and then the reload ends with that error. A bad base URL ends it with the first that is
/// bad.
pub proof fn valid_configurations_are_published(config: Config, step: ReloadStep)
    requires
        call_ensures(after_validation, (config, Ok::<(), String>(())), step),
    ensures
        match step {
            ReloadStep::Publish(published) => state::has_good_urls(config.providers@)
                && state::runs_as_configured(published, config),
            ReloadStep::Finish(ReloadOutcome::BuildFailed(said)) => if state::has_good_urls(
                config.providers@,
            ) {
                state::tells_client_error(said@)
            } else {
                state::tells_first_bad(said@, config.providers@)
            },
            _ => false,
        },
{
    let built = choose|built: Result<AppState, String>| #[trigger]
        state::is_build_of(built, config) && step == step_after_build(built);
    state::lemma_builds(config, built);
}

/// A configuration that is not valid ends the reload with what is wrong.
pub proof fn invalid_configurations_end_the_reload(config: Config, error: String, step: ReloadStep)
    requires
        call_ensures(after_validation, (config, Err::<(), String>(error)), step),
    ensures
        step is Finish,
        step->Finish_0 is Invalid,
        step->Finish_0->Invalid_0@ == error@,
{
}

/// A reload works exactly where somebody received what it published.
pub proof fn received_states_end_the_reload_well(delivered: bool, outcome: ReloadOutcome)
    requires
        call_ensures(after_publish, (delivered,), outcome),
    ensures
        delivered <==> outcome is Reloaded,
        !delivered <==> outcome is SendFailed,
{
}

/// A whole reload, step by step: where the configuration was loaded and is valid, its base URLs
/// are good, the builder of clients gave no error and somebody received the state, the reload
/// worked, and what was published does what the configuration says.
pub proof fn good_configurations_are_reloaded(
    config: Config,
    first: ReloadStep,
    second: ReloadStep,
    outcome: ReloadOutcome,
)
    requires
        call_ensures(after_load, (Ok::<Config, String>(config),), first),
        first is Validate,
        call_ensures(after_validation, (first->Validate_0, Ok::<(), String>(())), second),
        call_ensures(after_publish, (true,), outcome),
        state::has_good_urls(config.providers@),
        forall|error: Seq<char>| !#[trigger] state::client_refused(error),
    ensures
        second is Publish,
        state::runs_as_configured(second->Publish_0, config),
        outcome is Reloaded,
{
    valid_configurations_are_published(config, second);
}

/// A start gives up with the bare error of the step that failed, and with nothing else.
pub proof fn starts_fail_with_the_bare_error(outcome: ReloadOutcome, failure: Option<String>)
    requires
        call_ensures(startup_failure, (outcome,), failure),
    ensures
        match outcome {
            ReloadOutcome::LoadFailed(error)
            | ReloadOutcome::Invalid(error)
            | ReloadOutcome::BuildFailed(error) => failure is Some && failure->Some_0@ == error@,
            ReloadOutcome::SendFailed | ReloadOutcome::Reloaded => failure is None,
        },
{
}

/// A reload that worked is answered with status 200 and a message. One that failed is answered
/// with status 400, where the configuration is at fault, and a message that ends with what is
/// wrong, and else with status 500.
pub proof fn replies_say_what_has_come_of_the_reload(outcome: &ReloadOutcome, reply: Reply)
    requires
        call_ensures(reload_reply, (outcome,), reply),
    ensures
        reply::says_json(reply.headers),
        match *outcome {
            ReloadOutcome::Reloaded => reply.status == 200 && exists|doc: json::JsonDoc|
                #[trigger] json::is_message(doc, "Configuration reloaded successfully"@)
                    && reply.body@ == json::json_bytes(doc),
            ReloadOutcome::SendFailed => reply.status == 500 && exists|doc: json::JsonDoc|
                #[trigger] json::is_error_report(
                    doc,
                    "Failed to send config update"@,
                    "internal_error"@,
                    500,
                ) && reply.body@ == json::json_bytes(doc),
            ReloadOutcome::LoadFailed(error) => reports_fault(
                reply,
                "Failed to load config: "@,
                error@,
            ),
            ReloadOutcome::Invalid(error) => reports_fault(
                reply,
                "Config validation failed: "@,
                error@,
            ),
            ReloadOutcome::BuildFailed(error) => reports_fault(
                reply,
                "Failed to build state: "@,
                error@,
            ),
        },
{
    let message = reload_message(*outcome);
    json::lemma_documents(message, reload_error_kind(*outcome), reload_status(*outcome) as nat);
    reply::lemma_json_headers(reply.headers);
}

/// Whether a reply says that a configuration is at fault: what failed, and why.
pub open spec fn reports_fault(reply: Reply, what: Seq<char>, why: Seq<char>) -> bool {
    &&& reply.status == 400
    &&& exists|doc: json::JsonDoc| #[trigger]
        json::is_error_report(doc, what + why, "invalid_request_error"@, 400) && reply.body@
            == json::json_bytes(doc)
}

} // verus!
