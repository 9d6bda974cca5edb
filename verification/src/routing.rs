//! The routes of the gateway.

use vstd::prelude::*;

use crate::text;

verus! {

/// The methods of HTTP that the gateway answers.
#[derive(Clone, Copy, PartialEq, Eq, Structural)]
pub enum Method {
    Get,
    Post,
    Options,
}

/// What a request can ask of the gateway.
#[derive(Clone, Copy, PartialEq, Eq, Structural)]
pub enum Endpoint {
    ListModels,
    CreateEmbeddings,
    CreateChatCompletions,
    GetStatus,
    HealthCheck,
    Reload,
    AdminOffline,
    AdminOnline,
    AdminReset,
}

/// How a request reaches an endpoint.
pub struct Route {
    pub endpoint: Endpoint,
    pub path: &'static str,
    pub method: Method,
    /// Whether only clients on this machine are let through.
    pub local_only: bool,
}

/// The path of an endpoint. A part in braces stands for any name.
pub open spec fn endpoint_path(endpoint: Endpoint) -> Seq<char> {
    match endpoint {
        Endpoint::ListModels => "/v1/models"@,
        Endpoint::CreateEmbeddings => "/v1/embeddings"@,
        Endpoint::CreateChatCompletions => "/v1/chat/completions"@,
        Endpoint::GetStatus => "/status"@,
        Endpoint::HealthCheck => "/health"@,
        Endpoint::Reload => "/reload"@,
        Endpoint::AdminOffline => "/admin/providers/{name}/offline"@,
        Endpoint::AdminOnline => "/admin/providers/{name}/online"@,
        Endpoint::AdminReset => "/admin/providers/{name}/reset"@,
    }
}

/// The method of an endpoint: those that only report something are read, the others are posted
/// to.
pub open spec fn endpoint_method(endpoint: Endpoint) -> Method {
    match endpoint {
        Endpoint::ListModels | Endpoint::GetStatus | Endpoint::HealthCheck => Method::Get,
        _ => Method::Post,
    }
}

/// Whether an endpoint is for the administration of the gateway.
pub open spec fn is_administrative(endpoint: Endpoint) -> bool {
    match endpoint {
        Endpoint::ListModels
        | Endpoint::CreateEmbeddings
        | Endpoint::CreateChatCompletions => false,
        _ => true,
    }
}

/// All endpoints.
pub open spec fn all_endpoints() -> Seq<Endpoint> {
    seq![
        Endpoint::ListModels,
        Endpoint::CreateEmbeddings,
        Endpoint::CreateChatCompletions,
        Endpoint::GetStatus,
        Endpoint::HealthCheck,
        Endpoint::Reload,
        Endpoint::AdminOffline,
        Endpoint::AdminOnline,
        Endpoint::AdminReset,
    ]
}

/// Whether this is the route to an endpoint.
pub open spec fn is_route_to(route: Route, endpoint: Endpoint) -> bool {
    &&& route.endpoint == endpoint
    &&& route.path@ == endpoint_path(endpoint)
    &&& route.method == endpoint_method(endpoint)
    &&& route.local_only == is_administrative(endpoint)
}

/// The route to an endpoint.
pub fn route_to(endpoint: Endpoint) -> (route: Route)
    ensures
        is_route_to(route, endpoint),
{
    match endpoint {
        Endpoint::ListModels => Route {
            endpoint,
            path: "/v1/models",
            method: Method::Get,
            local_only: false,
        },
        Endpoint::CreateEmbeddings => Route {
            endpoint,
            path: "/v1/embeddings",
            method: Method::Post,
            local_only: false,
        },
        Endpoint::CreateChatCompletions => Route {
            endpoint,
            path: "/v1/chat/completions",
            method: Method::Post,
            local_only: false,
        },
        Endpoint::GetStatus => Route {
            endpoint,
            path: "/status",
            method: Method::Get,
            local_only: true,
        },
        Endpoint::HealthCheck => Route {
            endpoint,
            path: "/health",
            method: Method::Get,
            local_only: true,
        },
        Endpoint::Reload => Route {
            endpoint,
            path: "/reload",
            method: Method::Post,
            local_only: true,
        },
        Endpoint::AdminOffline => Route {
            endpoint,
            path: "/admin/providers/{name}/offline",
            method: Method::Post,
            local_only: true,
        },
        Endpoint::AdminOnline => Route {
            endpoint,
            path: "/admin/providers/{name}/online",
            method: Method::Post,
            local_only: true,
        },
        Endpoint::AdminReset => Route {
            endpoint,
            path: "/admin/providers/{name}/reset",
            method: Method::Post,
            local_only: true,
        },
    }
}

/// Lists the routes of the gateway.
pub fn routes() -> (routes: Vec<Route>)
    ensures
        routes@.len() == all_endpoints().len(),
        forall|i: int|
            0 <= i < routes@.len() ==> is_route_to(#[trigger] routes@[i], all_endpoints()[i]),
{
    let mut routes: Vec<Route> = Vec::new();
    routes.push(route_to(Endpoint::ListModels));
    routes.push(route_to(Endpoint::CreateEmbeddings));
    routes.push(route_to(Endpoint::CreateChatCompletions));
    routes.push(route_to(Endpoint::GetStatus));
    routes.push(route_to(Endpoint::HealthCheck));
    routes.push(route_to(Endpoint::Reload));
    routes.push(route_to(Endpoint::AdminOffline));
    routes.push(route_to(Endpoint::AdminOnline));
    routes.push(route_to(Endpoint::AdminReset));
    routes
}

/// Lists the methods that a browser may use from a page of any origin.
pub fn cross_origin_methods() -> (methods: Vec<Method>)
    ensures
        methods@ == seq![Method::Get, Method::Post, Method::Options],
{
    let mut methods: Vec<Method> = Vec::new();
    methods.push(Method::Get);
    methods.push(Method::Post);
    methods.push(Method::Options);
    methods
}

/// The status and the text that answer a health check.
pub fn health_check() -> (answer: (u16, &'static str))
    ensures
        answer.0 == 200,
        answer.1@ == "OK"@,
{
    (200, "OK")
}

/// Every endpoint has its route.
pub proof fn every_endpoint_has_a_route(endpoint: Endpoint)
    ensures
        all_endpoints().contains(endpoint),
{
    let all = all_endpoints();
    assert(all[0] == Endpoint::ListModels && all[1] == Endpoint::CreateEmbeddings && all[2]
        == Endpoint::CreateChatCompletions && all[3] == Endpoint::GetStatus && all[4]
        == Endpoint::HealthCheck && all[5] == Endpoint::Reload && all[6] == Endpoint::AdminOffline
        && all[7] == Endpoint::AdminOnline && all[8] == Endpoint::AdminReset);
}

/// Exactly the routes outside `/v1/` are for clients on this machine only.
pub proof fn routes_outside_the_api_are_local(endpoint: Endpoint)
    ensures
        is_administrative(endpoint) <==> !text::starts_with(endpoint_path(endpoint), "/v1/"@),
{
    reveal_strlit("/v1/models");
    reveal_strlit("/v1/embeddings");
    reveal_strlit("/v1/chat/completions");
    reveal_strlit("/status");
    reveal_strlit("/health");
    reveal_strlit("/reload");
    reveal_strlit("/admin/providers/{name}/offline");
    reveal_strlit("/admin/providers/{name}/online");
    reveal_strlit("/admin/providers/{name}/reset");
    reveal_strlit("/v1/");
    let start = endpoint_path(endpoint).take(4);
    if !is_administrative(endpoint) {
        assert(start == "/v1/"@);
    } else {
        assert(start[1] != "/v1/"@[1]);
    }
}

/// No two endpoints have the same path.
pub proof fn paths_differ(left: Endpoint, right: Endpoint)
    requires
        left != right,
    ensures
        endpoint_path(left) != endpoint_path(right),
{
    reveal_strlit("/v1/models");
    reveal_strlit("/v1/embeddings");
    reveal_strlit("/v1/chat/completions");
    reveal_strlit("/status");
    reveal_strlit("/health");
    reveal_strlit("/reload");
    reveal_strlit("/admin/providers/{name}/offline");
    reveal_strlit("/admin/providers/{name}/online");
    reveal_strlit("/admin/providers/{name}/reset");
    let a = endpoint_path(left);
    let b = endpoint_path(right);
    if a == b {
        assert(a.len() == b.len());
        assert(a[1] == b[1] && a[4] == b[4]);
        assert(a.last() == b.last());
        assert(a[a.len() - 3] == b[b.len() - 3]);
    }
}

/// A browser may use the method of every endpoint.
pub proof fn every_method_is_allowed_across_origins(endpoint: Endpoint)
    ensures
        seq![Method::Get, Method::Post, Method::Options].contains(endpoint_method(endpoint)),
{
    let methods = seq![Method::Get, Method::Post, Method::Options];
    assert(methods[0] == Method::Get && methods[1] == Method::Post);
}

/// A route leads to its endpoint. It is for clients on this machine only unless its path begins
/// with `/v1/`, and it is read from where its endpoint only reports something.
pub proof fn routes_are_guarded(endpoint: Endpoint, route: Route)
    requires
        call_ensures(route_to, (endpoint,), route),
    ensures
        route.endpoint == endpoint,
        route.local_only <==> !text::starts_with(route.path@, "/v1/"@),
        route.method is Get <==> endpoint is ListModels || endpoint is GetStatus
            || endpoint is HealthCheck,
        route.method is Get || route.method is Post,
{
    routes_outside_the_api_are_local(endpoint);
}

/// The gateway has exactly one route to every endpoint.
pub proof fn every_endpoint_is_reached_once(routes: Vec<Route>, endpoint: Endpoint)
    requires
        call_ensures(self::routes, (), routes),
    ensures
        exists|i: int| 0 <= i < routes@.len() && #[trigger] routes@[i].endpoint == endpoint,
        forall|i: int, j: int|
            0 <= i < j < routes@.len() ==> #[trigger] routes@[i].path@
                != #[trigger] routes@[j].path@,
        forall|i: int|
            0 <= i < routes@.len() ==> ((#[trigger] routes@[i]).local_only
                <==> !text::starts_with(routes@[i].path@, "/v1/"@)),
{
    every_endpoint_has_a_route(endpoint);
    let k = choose|k: int| 0 <= k < all_endpoints().len() && all_endpoints()[k] == endpoint;
    assert(is_route_to(routes@[k], endpoint));
    assert forall|i: int, j: int| 0 <= i < j < routes@.len() implies #[trigger] routes@[i].path@
        != #[trigger] routes@[j].path@ by {
        assert(is_route_to(routes@[i], all_endpoints()[i]));
        assert(is_route_to(routes@[j], all_endpoints()[j]));
        assert(all_endpoints()[i] != all_endpoints()[j]);
        paths_differ(all_endpoints()[i], all_endpoints()[j]);
    }
    assert forall|i: int| 0 <= i < routes@.len() implies ((#[trigger] routes@[i]).local_only
        <==> !text::starts_with(routes@[i].path@, "/v1/"@)) by {
        assert(is_route_to(routes@[i], all_endpoints()[i]));
        routes_outside_the_api_are_local(all_endpoints()[i]);
    }
}

} // verus!
