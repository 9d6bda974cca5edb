//! Where a gateway listens.

use vstd::prelude::*;

use crate::config::ServerConfig;
use crate::text;
use crate::text::{decimal_text, same_text};

verus! {

/// The socket to listen on.
pub enum ListenPlan {
    /// Bind to this address, for IPv6 clients.
    Ipv6(String),
    /// Make a socket for clients of both families, on this port.
    Dual(u16),
    /// Bind to this address, for IPv4 clients.
    Ipv4(String),
}

/// One step of making a socket for clients of both families.
pub enum SocketStep {
    /// Create an IPv6 stream socket.
    Create,
    /// Say whether it is for IPv6 clients only.
    OnlyV6(bool),
    /// Say whether its address may be in use by a closed connection.
    ReuseAddress(bool),
    /// Bind it to the address that `dual_stack_address` makes.
    Bind,
    /// Have it listen, with this many connections waiting.
    Listen(i32),
    /// Say whether it returns at once where there is nothing to do.
    NonBlocking(bool),
    /// Hand it to the runtime.
    Adopt,
}

/// The address of a server: a host and a port.
pub open spec fn socket_address(host: Seq<char>, port: nat) -> Seq<char> {
    host + ":"@ + text::decimal(port)
}

/// The steps of making a socket for clients of both families.
pub open spec fn dual_stack_sequence() -> Seq<SocketStep> {
    seq![
        SocketStep::Create,
        SocketStep::OnlyV6(false),
        SocketStep::ReuseAddress(true),
        SocketStep::Bind,
        SocketStep::Listen(1024),
        SocketStep::NonBlocking(true),
        SocketStep::Adopt,
    ]
}

/// What is said where a step fails.
pub open spec fn step_failure_text(step: SocketStep, error: Seq<char>) -> Seq<char> {
    let what = match step {
        SocketStep::Create => "Failed to create socket: "@,
        SocketStep::OnlyV6(_) => "Failed to set dual-stack: "@,
        SocketStep::ReuseAddress(_) => "Failed to set reuse address: "@,
        SocketStep::Bind => "Failed to bind: "@,
        SocketStep::Listen(_) => "Failed to listen: "@,
        SocketStep::NonBlocking(_) => "Failed to set non-blocking: "@,
        SocketStep::Adopt => "Failed to create tokio listener: "@,
    };
    what + error
}

/// Makes the address of a server.
fn render_socket_address(host: &str, port: u16) -> (address: String)
    ensures
        address@ == socket_address(host@, port as nat),
{
    let digits: String = decimal_text(port as u64);
    let mut address: String = host.to_string();
    address.append(":");
    address.append(digits.as_str());
    address
}

/// Makes the address to which a socket for clients of both families is bound: the port on all
/// addresses.
pub fn dual_stack_address(port: u16) -> (address: String)
    ensures
        address@ == socket_address("[::]"@, port as nat),
{
    render_socket_address("[::]", port)
}

/// Decides where to listen. A family other than `ipv6` and `dual` means IPv4, on the configured
/// host; the others listen on all addresses.
pub fn listen_plan(server: &ServerConfig) -> (plan: ListenPlan)
    ensures
        server.bind_family@ == "ipv6"@ ==> (plan matches ListenPlan::Ipv6(address) && address@
            == socket_address("[::]"@, server.port as nat)),
        server.bind_family@ == "dual"@ ==> plan == ListenPlan::Dual(server.port),
        server.bind_family@ != "ipv6"@ && server.bind_family@ != "dual"@ ==> (
        plan matches ListenPlan::Ipv4(address) && address@ == socket_address(
            server.host@,
            server.port as nat,
        )),
{
    proof {
        reveal_strlit("ipv6");
        reveal_strlit("dual");
    }
    assert("ipv6"@[0] != "dual"@[0]);
    if same_text(server.bind_family.as_str(), "ipv6") {
        ListenPlan::Ipv6(render_socket_address("[::]", server.port))
    } else if same_text(server.bind_family.as_str(), "dual") {
        ListenPlan::Dual(server.port)
    } else {
        ListenPlan::Ipv4(render_socket_address(server.host.as_str(), server.port))
    }
}

/// Lists the steps of making a socket for clients of both families, in their order.
pub fn dual_stack_steps() -> (steps: Vec<SocketStep>)
    ensures
        steps@ == dual_stack_sequence(),
{
    let mut steps: Vec<SocketStep> = Vec::new();
    steps.push(SocketStep::Create);
    steps.push(SocketStep::OnlyV6(false));
    steps.push(SocketStep::ReuseAddress(true));
    steps.push(SocketStep::Bind);
    steps.push(SocketStep::Listen(1024));
    steps.push(SocketStep::NonBlocking(true));
    steps.push(SocketStep::Adopt);
    steps
}

/// Says which step failed, and why.
pub fn step_failure(step: &SocketStep, error: &str) -> (said: String)
    ensures
        said@ == step_failure_text(*step, error@),
{
    let mut said: String = match step {
        SocketStep::Create => "Failed to create socket: ".to_string(),
        SocketStep::OnlyV6(_) => "Failed to set dual-stack: ".to_string(),
        SocketStep::ReuseAddress(_) => "Failed to set reuse address: ".to_string(),
        SocketStep::Bind => "Failed to bind: ".to_string(),
        SocketStep::Listen(_) => "Failed to listen: ".to_string(),
        SocketStep::NonBlocking(_) => "Failed to set non-blocking: ".to_string(),
        SocketStep::Adopt => "Failed to create tokio listener: ".to_string(),
    };
    said.append(error);
    said
}

/// A socket is created before anything is set on it, set up for both families before it is
/// bound, bound before it listens, and handed over last.
pub proof fn sockets_are_set_up_before_use(i: int, j: int)
    requires
        0 <= i < dual_stack_sequence().len(),
        0 <= j < dual_stack_sequence().len(),
    ensures
        dual_stack_sequence()[i] is Create && !(dual_stack_sequence()[j] is Create) ==> i < j,
        dual_stack_sequence()[i] == SocketStep::OnlyV6(false) && dual_stack_sequence()[j] is Bind
            ==> i < j,
        dual_stack_sequence()[i] is Bind && dual_stack_sequence()[j] is Listen ==> i < j,
        dual_stack_sequence()[i] is Adopt && !(dual_stack_sequence()[j] is Adopt) ==> j < i,
{
}

/// Whether a text is the address of a host and a port: the host comes first, then a colon, and the
/// rest are digits that denote the port.
pub open spec fn is_address_of(address: Seq<char>, host: Seq<char>, port: nat) -> bool {
    let n = host.len() as int;
    &&& text::starts_with(address, host)
    &&& address.len() > n
    &&& address[n] == ':'
    &&& text::denotes(address.skip(n + 1), port)
}

/// The address of a server keeps its host and its port.
pub proof fn addresses_keep_host_and_port(host: Seq<char>, port: nat)
    ensures
        is_address_of(socket_address(host, port), host, port),
{
    reveal_strlit(":");
    text::lemma_decimal_denotes(port);
    let address = socket_address(host, port);
    assert(address.take(host.len() as int) == host);
    assert(address.skip(host.len() as int + 1) == text::decimal(port));
}

/// An address tells its host and its port: no other has it.
pub proof fn addresses_tell_host_and_port(
    address: Seq<char>,
    host: Seq<char>,
    port: nat,
    other_host: Seq<char>,
    other_port: nat,
)
    requires
        is_address_of(address, host, port),
        is_address_of(address, other_host, other_port),
    ensures
        host == other_host,
        port == other_port,
{
    let m = host.len() as int;
    let n = other_host.len() as int;
    if m < n {
        assert(address.skip(m + 1)[n - m - 1] == ':');
    } else if n < m {
        assert(address.skip(n + 1)[m - n - 1] == ':');
    }
}

/// A gateway listens on the configured port: on the configured host, unless the family is `ipv6`
/// or `dual`, and then on all addresses.
pub proof fn gateways_listen_where_configured(server: &ServerConfig, plan: ListenPlan)
    requires
        call_ensures(listen_plan, (server,), plan),
    ensures
        plan is Ipv6 <==> server.bind_family@ == "ipv6"@,
        plan is Dual <==> server.bind_family@ == "dual"@,
        match plan {
            ListenPlan::Ipv6(address) => is_address_of(address@, "[::]"@, server.port as nat),
            ListenPlan::Dual(port) => port == server.port,
            ListenPlan::Ipv4(address) => is_address_of(
                address@,
                server.host@,
                server.port as nat,
            ),
        },
{
    reveal_strlit("ipv6");
    reveal_strlit("dual");
    assert("ipv6"@[0] != "dual"@[0]);
    addresses_keep_host_and_port("[::]"@, server.port as nat);
    addresses_keep_host_and_port(server.host@, server.port as nat);
}

/// Two gateways that listen on the same IPv4 address have the same host and the same port.
pub proof fn shared_addresses_mean_shared_settings(
    left: &ServerConfig,
    right: &ServerConfig,
    left_address: String,
    right_address: String,
)
    requires
        call_ensures(listen_plan, (left,), ListenPlan::Ipv4(left_address)),
        call_ensures(listen_plan, (right,), ListenPlan::Ipv4(right_address)),
        left_address@ == right_address@,
    ensures
        left.host@ == right.host@,
        left.port == right.port,
{
    gateways_listen_where_configured(left, ListenPlan::Ipv4(left_address));
    gateways_listen_where_configured(right, ListenPlan::Ipv4(right_address));
    addresses_tell_host_and_port(
        left_address@,
        left.host@,
        left.port as nat,
        right.host@,
        right.port as nat,
    );
}

/// A socket for clients of both families is bound to the port on all addresses.
pub proof fn both_families_are_served_on_all_addresses(port: u16, address: String)
    requires
        call_ensures(dual_stack_address, (port,), address),
    ensures
        is_address_of(address@, "[::]"@, port as nat),
{
    addresses_keep_host_and_port("[::]"@, port as nat);
}

/// What is said where a step fails ends with the error, and the rest depends on the step alone.
pub proof fn failures_tell_the_error(
    step: &SocketStep,
    error: &str,
    said: String,
    other_error: &str,
    other_said: String,
)
    requires
        call_ensures(step_failure, (step, error), said),
        call_ensures(step_failure, (step, other_error), other_said),
    ensures
        said@.len() >= error@.len(),
        said@.skip(said@.len() - error@.len()) == error@,
        other_said@.len() >= other_error@.len(),
        said@.take(said@.len() - error@.len()) == other_said@.take(
            other_said@.len() - other_error@.len(),
        ),
        text::starts_with(said@, "Failed to "@),
{
    reveal_strlit("Failed to ");
    reveal_strlit("Failed to create socket: ");
    reveal_strlit("Failed to set dual-stack: ");
    reveal_strlit("Failed to set reuse address: ");
    reveal_strlit("Failed to bind: ");
    reveal_strlit("Failed to listen: ");
    reveal_strlit("Failed to set non-blocking: ");
    reveal_strlit("Failed to create tokio listener: ");
    let n = said@.len() - error@.len();
    let what = step_failure_text(*step, Seq::empty());
    assert(said@ == what + error@);
    assert(other_said@ == what + other_error@);
    assert(said@.skip(n) == error@);
    assert(said@.take(n) == what);
    assert(other_said@.take(other_said@.len() - other_error@.len()) == what);
    assert(said@.take(10) == "Failed to "@);
}

} // verus!
