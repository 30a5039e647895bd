//! The routes that the server answers, and the answers that need no waiting.

use crate::metrics::{exposition, Snapshot};
use crate::model::StateView;
use crate::outside::{checked_status, is_status};
use crate::protocol::FormResponse;
use crate::scrape::ResponseView;
use crate::state::{AppState, ProxyResponse};
use crate::text::{trim_slashes, without_slashes};
use vstd::prelude::*;
use vstd::string::*;

verus! {

/// How a route is called.
#[derive(Clone, Copy, Debug, Eq, PartialEq, Structural)]
pub enum Method {
    Get,
    Post,
}

/// What a route leads to.
#[derive(Clone, Copy, Debug, Eq, PartialEq, Structural)]
pub enum Endpoint {
    Metrics,
    Health,
    WebSocket,
    CallResource,
    Response,
}

/// A route. Names in braces stand for one segment of the path.
pub struct Route {
    pub path: String,
    pub method: Method,
    pub endpoint: Endpoint,
}

/// A route.
#[verifier::ext_equal]
pub struct RouteView {
    pub path: Seq<char>,
    pub method: Method,
    pub endpoint: Endpoint,
}

impl View for Route {
    type V = RouteView;

    open spec fn view(&self) -> RouteView {
        RouteView { path: self.path@, method: self.method, endpoint: self.endpoint }
    }
}

/// The routes in a list.
pub open spec fn routes_view(routes: Seq<Route>) -> Seq<RouteView> {
    routes.map_values(|route: Route| route@)
}

/// What every prefixed path begins with. Slashes around the prefix do not matter.
pub open spec fn base_path(url_prefix: Seq<char>) -> Seq<char> {
    let prefix = without_slashes(url_prefix);
    if prefix.len() == 0 {
        Seq::empty()
    } else {
        "/"@ + prefix
    }
}

impl Endpoint {
    /// The path of the endpoint below the prefix.
    pub open spec fn tail(self) -> Seq<char> {
        match self {
            Endpoint::Metrics => "/metrics"@,
            Endpoint::Health => "/health"@,
            Endpoint::WebSocket => "/ws"@,
            Endpoint::CallResource => "/request/{instance}/{resource}"@,
            Endpoint::Response => "/response/{uid}"@,
        }
    }

    /// How the endpoint is called.
    pub open spec fn called_by(self) -> Method {
        match self {
            Endpoint::Response => Method::Post,
            _ => Method::Get,
        }
    }

    /// The route to the endpoint, without or with a slash at its end.
    pub open spec fn route(self, base: Seq<char>, slash: bool) -> RouteView {
        RouteView {
            path: if slash {
                base + self.tail() + "/"@
            } else {
                base + self.tail()
            },
            method: self.called_by(),
            endpoint: self,
        }
    }
}

/// The metrics are served at the root; every other endpoint is served below the prefix, without
/// and with a slash at its end.
pub open spec fn route_table(url_prefix: Seq<char>) -> Seq<RouteView> {
    let base = base_path(url_prefix);
    seq![
        Endpoint::Metrics.route(Seq::empty(), false),
        Endpoint::Health.route(base, false),
        Endpoint::Health.route(base, true),
        Endpoint::WebSocket.route(base, false),
        Endpoint::WebSocket.route(base, true),
        Endpoint::CallResource.route(base, false),
        Endpoint::CallResource.route(base, true),
        Endpoint::Response.route(base, false),
        Endpoint::Response.route(base, true),
    ]
}

/// A route below `base`.
fn route(base: &str, tail: &str, slash: bool, method: Method, endpoint: Endpoint) -> (route: Route)
    ensures
        route@ == (RouteView {
            path: if slash {
                base@ + tail@ + "/"@
            } else {
                base@ + tail@
            },
            method,
            endpoint,
        }),
{
    let mut path = base.to_owned();
    path.append(tail);
    if slash {
        path.append("/");
    }
    Route { path, method, endpoint }
}

/// The routes of a server whose routes are prefixed by `url_prefix`.
pub fn build_router(url_prefix: &str) -> (routes: Vec<Route>)
    ensures
        routes_view(routes@) == route_table(url_prefix@),
{
    let prefix = trim_slashes(url_prefix);
    let base = if prefix.as_str().is_empty() {
        String::new()
    } else {
        let mut base = "/".to_owned();
        base.append(prefix.as_str());
        base
    };
    let at = base.as_str();
    let mut routes: Vec<Route> = Vec::new();
    routes.push(route("", "/metrics", false, Method::Get, Endpoint::Metrics));
    routes.push(route(at, "/health", false, Method::Get, Endpoint::Health));
    routes.push(route(at, "/health", true, Method::Get, Endpoint::Health));
    routes.push(route(at, "/ws", false, Method::Get, Endpoint::WebSocket));
    routes.push(route(at, "/ws", true, Method::Get, Endpoint::WebSocket));
    let request = "/request/{instance}/{resource}";
    routes.push(route(at, request, false, Method::Get, Endpoint::CallResource));
    routes.push(route(at, request, true, Method::Get, Endpoint::CallResource));
    routes.push(route(at, "/response/{uid}", false, Method::Post, Endpoint::Response));
    routes.push(route(at, "/response/{uid}", true, Method::Post, Endpoint::Response));
    proof {
        reveal_strlit("");
        assert(""@ =~= Seq::<char>::empty());
        assert(routes_view(routes@) =~= route_table(url_prefix@));
    }
    routes
}

/// The server is alive.
pub fn health_handler() -> (status: u16)
    ensures
        status == 200,
{
    200
}

/// The type of the exposed metrics.
pub const METRICS_CONTENT_TYPE: &'static str = "text/plain; version=0.0.4; charset=utf-8";

/// The metrics of the server, in the text exposition of Prometheus.
pub fn metrics_handler(state: &AppState) -> (text: String)
    requires
        state.wf(),
    ensures
        exists|snapshot: Snapshot| #[trigger]
            state@.shows(snapshot) && text@ == exposition(state@.metrics, snapshot),
{
    let snapshot = state.metrics_snapshot();
    state.metrics().render(&snapshot)
}

/// What became of a posted response.
pub struct Posted {
    pub status: u16,
    /// What the scrape gets that waits for the response, if one does.
    pub delivered: Option<ProxyResponse>,
}

/// What becomes of a posted response.
#[verifier::ext_equal]
pub struct PostedView {
    pub status: u16,
    pub delivered: Option<ResponseView>,
    pub state: StateView,
}

/// A response is posted for the request `uid`. One with a status that is none is refused; one
/// that no scrape waits for is dropped without complaint.
pub open spec fn posted(
    state: StateView,
    uid: Seq<char>,
    status: u16,
    body: Seq<char>,
) -> PostedView {
    if is_status(status) {
        PostedView {
            status: 200,
            delivered: if state.answers(uid, None) {
                Some(ResponseView { status, body })
            } else {
                None
            },
            state: state.answered(uid, None),
        }
    } else {
        PostedView { status: 400, delivered: None, state }
    }
}

/// Takes a response that was posted for the request `uid`.
pub fn response_handler(state: &mut AppState, uid: &str, form: FormResponse) -> (result: Posted)
    requires
        old(state).wf(),
    ensures
        final(state).wf(),
        (PostedView {
            status: result.status,
            delivered: match result.delivered {
                Some(response) => Some(response@),
                None => None,
            },
            state: final(state)@,
        }) == posted(old(state)@, uid@, form.status, form.body@),
{
    match checked_status(form.status) {
        Some(status) => {
            let delivered = state.complete_response(
                uid,
                None,
                ProxyResponse { status, body: form.body },
            );
            Posted { status: 200, delivered }
        },
        None => Posted { status: 400, delivered: None },
    }
}

} // verus!
