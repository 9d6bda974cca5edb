//! The commands that ask a running gateway for something.

use vstd::prelude::*;

use crate::routing;
use crate::text;
use crate::text::decimal_text;

verus! {

/// What the administrator of a gateway can do to a provider.
pub enum ProviderAction {
    /// Take it out of rotation.
    Offline,
    /// Bring it back.
    Online,
    /// Forget its failures and its rate limit.
    Reset,
}

impl ProviderAction {
    /// The last part of the path that asks for the action.
    pub open spec fn word(self) -> Seq<char> {
        match self {
            ProviderAction::Offline => "offline"@,
            ProviderAction::Online => "online"@,
            ProviderAction::Reset => "reset"@,
        }
    }
}

/// What has come of a request to a gateway.
pub enum Attempt {
    /// There is no answer, for this reason, be it that no connection could be made or not.
    Failed { connect: bool, error: String },
    /// There is an answer, with this status.
    Answered(u16),
}

/// What a command does next.
pub enum ClientStep {
    /// Print this, and end well.
    Report(String),
    /// End with this error.
    Fail(String),
    /// Read the answer.
    Proceed,
}

/// Where a gateway on this machine is reached.
pub open spec fn base_url(port: nat) -> Seq<char> {
    "http://127.0.0.1:"@ + text::decimal(port)
}

/// Where a gateway on this machine tells its status.
pub open spec fn status_url_text(port: nat) -> Seq<char> {
    base_url(port) + "/status"@
}

/// Where a gateway on this machine is told to do something to a provider.
pub open spec fn provider_url_text(port: nat, name: Seq<char>, action: ProviderAction) -> Seq<
    char,
> {
    base_url(port) + "/admin/providers/"@ + name + "/"@ + action.word()
}

/// What a command prints that finds no gateway.
pub open spec fn not_running_text(port: nat) -> Seq<char> {
    "oxllm is not running on "@ + base_url(port) + "\nStart it with: oxllm serve\n"@
}

/// A status as `http` displays it: its number, and what is usually meant by it.
pub uninterp spec fn status_display(code: u16) -> Seq<char>;

/// Calls `StatusCode::from_u16` and displays what it makes, which depends on the number alone.
/// A status has three digits.
#[verifier::external_body]
fn display_status(code: u16) -> (shown: String)
    requires
        100 <= code <= 999,
    ensures
        shown@ == status_display(code),
{
    reqwest::StatusCode::from_u16(code).unwrap().to_string()
}

/// What is said about an answer that reports an error, given how its status is displayed.
pub open spec fn bad_status_text(shown: Seq<char>) -> Seq<char> {
    "Server returned error status: "@ + shown
}

/// Whether a status reports success.
pub open spec fn is_success(code: u16) -> bool {
    200 <= code <= 299
}

/// Makes the start of all URLs of a gateway on this machine.
fn render_base_url(port: u16) -> (url: String)
    ensures
        url@ == base_url(port as nat),
{
    let digits: String = decimal_text(port as u64);
    let mut url: String = "http://127.0.0.1:".to_string();
    url.append(digits.as_str());
    url
}

/// Makes the URL where a gateway tells its status.
pub fn status_url(port: u16) -> (url: String)
    ensures
        url@ == status_url_text(port as nat),
{
    let mut url: String = render_base_url(port);
    url.append("/status");
    url
}

/// Makes the URL where a gateway is told to do something to a provider.
pub fn provider_url(port: u16, name: &str, action: &ProviderAction) -> (url: String)
    ensures
        url@ == provider_url_text(port as nat, name@, *action),
{
    let word: &str = match action {
        ProviderAction::Offline => "offline",
        ProviderAction::Online => "online",
        ProviderAction::Reset => "reset",
    };
    let mut url: String = render_base_url(port);
    url.append("/admin/providers/");
    url.append(name);
    url.append("/");
    url.append(word);
    url
}

/// Says that there is no gateway.
fn not_running(port: u16) -> (said: String)
    ensures
        said@ == not_running_text(port as nat),
{
    let url: String = render_base_url(port);
    let mut said: String = "oxllm is not running on ".to_string();
    said.append(url.as_str());
    said.append("\nStart it with: oxllm serve\n");
    said
}

/// Whether this follows a request that gets no answer: where no connection could be made, there
/// is no gateway, which is reported and is no error; any other error ends the command.
pub open spec fn follows_failure(step: ClientStep, port: u16, connect: bool, error: String) -> bool {
    if connect {
        step matches ClientStep::Report(said) && said@ == not_running_text(port as nat)
    } else {
        step == ClientStep::Fail(error)
    }
}

/// Decides how a command goes on whose request gets no answer.
pub fn after_failure(port: u16, connect: bool, error: String) -> (step: ClientStep)
    ensures
        follows_failure(step, port, connect, error),
{
    if connect {
        ClientStep::Report(not_running(port))
    } else {
        ClientStep::Fail(error)
    }
}

/// Decides how a command goes on that takes any answer.
pub fn after_request(port: u16, attempt: Attempt) -> (step: ClientStep)
    ensures
        match attempt {
            Attempt::Failed { connect, error } => follows_failure(step, port, connect, error),
            Attempt::Answered(_) => step == ClientStep::Proceed,
        },
{
    match attempt {
        Attempt::Failed { connect, error } => after_failure(port, connect, error),
        Attempt::Answered(_) => ClientStep::Proceed,
    }
}

/// Says that an answer reports an error, given how its status is displayed.
pub fn bad_status(shown: &str) -> (said: String)
    ensures
        said@ == bad_status_text(shown@),
{
    let mut said: String = "Server returned error status: ".to_string();
    said.append(shown);
    said
}

/// Decides how a command goes on that takes only answers that report success.
pub fn after_status_request(port: u16, attempt: Attempt) -> (step: ClientStep)
    requires
        attempt matches Attempt::Answered(code) ==> 100 <= code <= 999,
    ensures
        match attempt {
            Attempt::Failed { connect, error } => follows_failure(step, port, connect, error),
            Attempt::Answered(code) => if is_success(code) {
                step == ClientStep::Proceed
            } else {
                step matches ClientStep::Fail(said) && said@ == bad_status_text(
                    status_display(code),
                )
            },
        },
{
    match attempt {
        Attempt::Failed { connect, error } => after_failure(port, connect, error),
        Attempt::Answered(code) => if 200 <= code && code <= 299 {
            ClientStep::Proceed
        } else {
            let shown: String = display_status(code);
            ClientStep::Fail(bad_status(shown.as_str()))
        },
    }
}

/// The endpoint that an action is asked of.
pub open spec fn action_endpoint(action: ProviderAction) -> routing::Endpoint {
    match action {
        ProviderAction::Offline => routing::Endpoint::AdminOffline,
        ProviderAction::Online => routing::Endpoint::AdminOnline,
        ProviderAction::Reset => routing::Endpoint::AdminReset,
    }
}

/// A path with a name in place of its part in braces.
pub open spec fn is_path_for(path: Seq<char>, pattern: Seq<char>, name: Seq<char>) -> bool {
    exists|before: Seq<char>, after: Seq<char>|
        pattern == #[trigger] (before + "{name}"@ + after) && path == before + name + after
}

/// The commands ask for what they want on the routes that the gateway has for it.
pub proof fn commands_use_the_routes_of_the_gateway(
    port: u16,
    name: Seq<char>,
    action: ProviderAction,
)
    ensures
        status_url_text(port as nat) == base_url(port as nat) + routing::endpoint_path(
            routing::Endpoint::GetStatus,
        ),
        exists|path: Seq<char>|
            provider_url_text(port as nat, name, action) == base_url(port as nat) + path
                && #[trigger] is_path_for(
                path,
                routing::endpoint_path(action_endpoint(action)),
                name,
            ),
{
    reveal_strlit("/admin/providers/{name}/offline");
    reveal_strlit("/admin/providers/{name}/online");
    reveal_strlit("/admin/providers/{name}/reset");
    reveal_strlit("/admin/providers/");
    reveal_strlit("{name}");
    reveal_strlit("/");
    reveal_strlit("offline");
    reveal_strlit("online");
    reveal_strlit("reset");
    let before = "/admin/providers/"@;
    let after = "/"@ + action.word();
    let path = before + name + after;
    let pattern = routing::endpoint_path(action_endpoint(action));
    assert(pattern == before + "{name}"@ + after);
    assert(is_path_for(path, pattern, name));
    assert(provider_url_text(port as nat, name, action) == base_url(port as nat) + path);
}

/// Whether a URL leads to a gateway on this machine: to its port, and there to a path.
pub open spec fn is_local_url(url: Seq<char>, port: u16, path: Seq<char>) -> bool {
    exists|digits: Seq<char>| #[trigger]
        text::denotes(digits, port as nat) && url == "http://127.0.0.1:"@ + digits + path
}

/// The status is asked of the gateway on the given port.
pub proof fn status_is_asked_of_the_port(port: u16, url: String)
    requires
        call_ensures(status_url, (port,), url),
    ensures
        is_local_url(url@, port, "/status"@),
{
    text::lemma_decimal_denotes(port as nat);
}

/// An action is asked of the gateway on the given port, for the provider of the given name.
pub proof fn actions_are_asked_for_the_provider(
    port: u16,
    name: &str,
    action: &ProviderAction,
    url: String,
)
    requires
        call_ensures(provider_url, (port, name, action), url),
    ensures
        is_local_url(
            url@,
            port,
            "/admin/providers/"@ + name@ + "/"@ + match *action {
                ProviderAction::Offline => "offline"@,
                ProviderAction::Online => "online"@,
                ProviderAction::Reset => "reset"@,
            },
        ),
{
    text::lemma_decimal_denotes(port as nat);
    let digits = text::decimal(port as nat);
    let path = "/admin/providers/"@ + name@ + "/"@ + action.word();
    assert(url@ == "http://127.0.0.1:"@ + digits + path);
}

/// Whether a text says that there is no gateway on a port, and how to start one.
pub open spec fn says_not_running(said: Seq<char>, port: u16) -> bool {
    exists|digits: Seq<char>| #[trigger]
        text::denotes(digits, port as nat) && said == "oxllm is not running on http://127.0.0.1:"@
            + digits + "\nStart it with: oxllm serve\n"@
}

/// The notice of an absent gateway says so.
proof fn lemma_not_running(port: u16)
    ensures
        says_not_running(not_running_text(port as nat), port),
{
    text::lemma_decimal_denotes(port as nat);
    reveal_strlit("oxllm is not running on ");
    reveal_strlit("http://127.0.0.1:");
    reveal_strlit("oxllm is not running on http://127.0.0.1:");
    let digits = text::decimal(port as nat);
    assert(not_running_text(port as nat) == "oxllm is not running on http://127.0.0.1:"@ + digits
        + "\nStart it with: oxllm serve\n"@);
}

/// A request that gets no answer is an error of the command, unless no connection could be made:
/// then the command tells that there is no gateway, and ends well.
pub proof fn absent_gateways_are_no_error(
    port: u16,
    connect: bool,
    error: String,
    step: ClientStep,
)
    requires
        call_ensures(after_failure, (port, connect, error), step),
    ensures
        match step {
            ClientStep::Report(said) => connect && says_not_running(said@, port),
            ClientStep::Fail(said) => !connect && said@ == error@,
            ClientStep::Proceed => false,
        },
{
    lemma_not_running(port);
}

/// A command that takes any answer reads it whatever its status.
pub proof fn any_answer_is_read(port: u16, attempt: Attempt, step: ClientStep)
    requires
        call_ensures(after_request, (port, attempt), step),
    ensures
        match step {
            ClientStep::Report(said) => says_not_running(said@, port) && (
            attempt matches Attempt::Failed { connect, error } && connect),
            ClientStep::Fail(said) => attempt matches Attempt::Failed { connect, error }
                && !connect && said@ == error@,
            ClientStep::Proceed => attempt is Answered,
        },
{
    lemma_not_running(port);
}

/// A command that takes only answers that report success reads those whose status has a two for
/// its first digit, and tells the status of any other.
pub proof fn successful_answers_are_read(port: u16, attempt: Attempt, step: ClientStep)
    requires
        attempt matches Attempt::Answered(code) ==> 100 <= code <= 999,
        call_ensures(after_status_request, (port, attempt), step),
    ensures
        match step {
            ClientStep::Report(said) => says_not_running(said@, port) && (
            attempt matches Attempt::Failed { connect, error } && connect),
            ClientStep::Fail(said) => match attempt {
                Attempt::Failed { connect, error } => !connect && said@ == error@,
                Attempt::Answered(code) => code / 100 != 2 && said@
                    == "Server returned error status: "@ + status_display(code),
            },
            ClientStep::Proceed => attempt matches Attempt::Answered(code) && code / 100 == 2,
        },
{
    lemma_not_running(port);
}

/// What is said about an answer that reports an error ends with its status.
pub proof fn bad_answers_are_told(shown: &str, said: String)
    requires
        call_ensures(bad_status, (shown,), said),
    ensures
        said@ == "Server returned error status: "@ + shown@,
{
}

} // verus!
