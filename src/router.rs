//! Routing of one request to the isolate of its tenant: which header names
//! the tenant, whether its isolate is live, and the bookkeeping of a cold
//! start.
use vstd::prelude::*;
use crate::errors::RouteError;
use crate::loader::ModuleSpecifier;
use crate::text::{decimal, push_decimal};
use crate::workers::{
    deregistered, holds_port, least, lemma_deregistered_wf, lemma_least_exists, lemma_least_unique,
    lemma_running_ports_insert, running_ports, IsolateState, Worker, Workers, WorkersView,
};

verus! {

/// One request header as the router sees it.
#[derive(Debug)]
pub enum HostHeader {
    Absent,
    /// Present, but not visible ASCII text.
    Opaque,
    Text(String),
}

/// The authority of a request: the `:authority` pseudo-header when present,
/// else the `host` header.
pub open spec fn authority_text(authority: HostHeader, host: HostHeader) -> Option<Seq<char>> {
    match authority {
        HostHeader::Text(a) => Some(a@),
        HostHeader::Opaque => None,
        HostHeader::Absent => match host {
            HostHeader::Text(h) => Some(h@),
            _ => None,
        },
    }
}

/// The position of the first `.` at or after `i`, or the length.
pub open spec fn dot_from(a: Seq<char>, i: int) -> int
    decreases a.len() - i,
{
    if i >= a.len() || i < 0 || a[i] == '.' {
        i
    } else {
        dot_from(a, i + 1)
    }
}

/// The host slug: the authority up to its first `.`.
pub open spec fn slug_of(a: Seq<char>) -> Seq<char> {
    a.take(dot_from(a, 0))
}

/// The slug a request names, if its authority gives a non-empty one.
pub open spec fn request_slug(authority: HostHeader, host: HostHeader) -> Option<Seq<char>> {
    match authority_text(authority, host) {
        Some(a) => if slug_of(a).len() > 0 {
            Some(slug_of(a))
        } else {
            None
        },
        None => None,
    }
}

proof fn lemma_dot_from_bounds(a: Seq<char>, i: int)
    requires
        0 <= i <= a.len(),
    ensures
        i <= dot_from(a, i) <= a.len(),
        dot_from(a, i) < a.len() ==> a[dot_from(a, i)] == '.',
        forall|j: int| i <= j < dot_from(a, i) ==> a[j] != '.',
    decreases a.len() - i,
{
    if i < a.len() && a[i] != '.' {
        lemma_dot_from_bounds(a, i + 1);
    }
}

/// The characters of `authority` up to its first `.`; `None` when that is
/// empty.
pub fn host_slug(authority: &str) -> (r: Option<String>)
    ensures
        match r {
            Some(s) => s@ == slug_of(authority@) && s@.len() > 0,
            None => slug_of(authority@).len() == 0,
        },
{
    let n = authority.unicode_len();
    let mut i: usize = 0;
    while i < n && authority.get_char(i) != '.'
        invariant
            n == authority@.len(),
            i <= n,
            dot_from(authority@, i as int) == dot_from(authority@, 0),
        decreases n - i,
    {
        i = i + 1;
    }
    proof {
        lemma_dot_from_bounds(authority@, 0);
    }
    if i == 0 {
        None
    } else {
        Some(authority.substring_char(0, i).to_owned())
    }
}

/// The slug a request names, from its `:authority` and `host` headers.
pub fn request_host_slug(authority: &HostHeader, host: &HostHeader) -> (r: Option<String>)
    ensures
        match r {
            Some(s) => request_slug(*authority, *host) == Some(s@),
            None => request_slug(*authority, *host) is None,
        },
{
    match authority {
        HostHeader::Text(a) => host_slug(a.as_str()),
        HostHeader::Opaque => None,
        HostHeader::Absent => match host {
            HostHeader::Text(h) => host_slug(h.as_str()),
            _ => None,
        },
    }
}

/// Where a request goes: the isolate's port, the tenant's module, and
/// whether this request started the isolate.
#[derive(Debug)]
pub struct Route {
    pub slug: String,
    pub port: u16,
    pub locator: ModuleSpecifier,
    pub state: IsolateState,
    pub cold_start: bool,
}

pub struct RouteView {
    pub slug: Seq<char>,
    pub port: u16,
    pub locator: Seq<char>,
    pub state: IsolateState,
    pub cold_start: bool,
}

impl View for Route {
    type V = RouteView;

    open spec fn view(&self) -> RouteView {
        RouteView {
            slug: self.slug@,
            port: self.port,
            locator: self.locator@,
            state: self.state,
            cold_start: self.cold_start,
        }
    }
}

pub open spec fn route_result_view(r: Result<Route, RouteError>) -> Result<RouteView, RouteError> {
    match r {
        Ok(route) => Ok(route@),
        Err(e) => Err(e),
    }
}

/// Routing a request for `slug` (`None` when its authority gives none):
/// the manager afterwards and the outcome. A tenant with a live isolate is
/// served by it; one without gets the least free port and a record in state
/// `Starting`.
pub open spec fn route_spec(v: WorkersView, slug: Option<Seq<char>>) -> (WorkersView, Result<RouteView, RouteError>) {
    match slug {
        None => (v, Err(RouteError::BadHost)),
        Some(s) => if !v.registry.contains_key(s) {
            (v, Err(RouteError::NoSuchTenant))
        } else if v.running.contains_key(s) {
            (v, Ok(RouteView {
                slug: s,
                port: v.running[s].port,
                locator: v.registry[s],
                state: v.running[s].state,
                cold_start: false,
            }))
        } else if v.free.is_empty() {
            (v, Err(RouteError::NoPortsAvailable))
        } else {
            let p = least(v.free);
            (WorkersView {
                running: v.running.insert(s, Worker { port: p, state: IsolateState::Starting }),
                free: v.free.remove(p),
                ..v
            }, Ok(RouteView {
                slug: s,
                port: p,
                locator: v.registry[s],
                state: IsolateState::Starting,
                cold_start: true,
            }))
        },
    }
}

/// Resolves a request to the isolate that serves it, taking a port and
/// registering a starting isolate on a cold start. The caller then spawns
/// the worker (on a cold start), waits until it accepts connections (while
/// it is starting), and forwards the request to its port.
pub fn resolve_to_proxy(state: &mut Workers, authority: &HostHeader, host: &HostHeader) -> (r: Result<Route, RouteError>)
    requires
        old(state).wf(),
    ensures
        final(state).wf(),
        (final(state)@, route_result_view(r)) == route_spec(old(state)@, request_slug(*authority, *host)),
{
    let slug = match request_host_slug(authority, host) {
        Some(s) => s,
        None => return Err(RouteError::BadHost),
    };
    let locator = match state.store().hostslug_to_module(slug.clone()) {
        Ok(m) => m,
        Err(e) => return Err(e),
    };
    match state.get_existing_worker(slug.as_str()) {
        Some(w) => Ok(Route { slug, port: w.port, locator, state: w.state, cold_start: false }),
        None => {
            let port = match state.take_available_port() {
                Some(p) => p,
                None => return Err(RouteError::NoPortsAvailable),
            };
            proof {
                old(state).lemma_view_wf();
                lemma_least_unique(old(state)@.free, port);
            }
            let worker = Worker { port, state: IsolateState::Starting };
            state.register_new_running_worker(slug.as_str(), worker);
            proof {
                let o = old(state)@;
                assert(!o.in_flight.contains(port));
                assert(o.in_flight.insert(port).remove(port) =~= o.in_flight);
            }
            Ok(Route { slug, port, locator, state: IsolateState::Starting, cold_start: true })
        },
    }
}

/// The manager and the outcome after the readiness probe of a cold start
/// on `port`: on success the record, if it still holds that port, becomes
/// ready; on failure it is removed and the port returned. A record that no
/// longer holds the port belongs to another start and is left alone.
pub open spec fn finish_spec(v: WorkersView, slug: Seq<char>, port: u16, ready: bool) -> (WorkersView, Result<u16, RouteError>) {
    if holds_port(v, slug, port) {
        if ready {
            (WorkersView {
                running: v.running.insert(slug, Worker { port, state: IsolateState::Ready }),
                ..v
            }, Ok(port))
        } else {
            (deregistered(v, slug), Err(RouteError::StartupFailed))
        }
    } else {
        (v, Err(RouteError::StartupFailed))
    }
}

/// Finishes the cold start of `slug` on `port` once the probe has answered.
pub fn finish_start(state: &mut Workers, slug: &str, port: u16, ready: bool) -> (r: Result<u16, RouteError>)
    requires
        old(state).wf(),
    ensures
        final(state).wf(),
        (final(state)@, r) == finish_spec(old(state)@, slug@, port, ready),
{
    let holds = match state.get_existing_worker(slug) {
        Some(w) => w.port == port,
        None => false,
    };
    if !holds {
        Err(RouteError::StartupFailed)
    } else if ready {
        state.mark_ready(slug);
        Ok(port)
    } else {
        state.deregister(slug);
        Err(RouteError::StartupFailed)
    }
}

/// What the caller does with a route before forwarding: start the worker,
/// and wait until it accepts connections.
#[derive(Clone, Copy, Debug, PartialEq, Eq, Structural)]
pub struct RoutePlan {
    pub spawn: bool,
    pub probe: bool,
}

/// A cold start spawns its worker; every request to a starting isolate,
/// the one that started it or one that joined it, probes first.
pub fn plan_route(route: &Route) -> (r: RoutePlan)
    ensures
        r.spawn == route.cold_start,
        r.probe == (route.state == IsolateState::Starting),
{
    RoutePlan {
        spawn: route.cold_start,
        probe: match route.state {
            IsolateState::Starting => true,
            IsolateState::Ready => false,
        },
    }
}

/// After the probe of a routed request: the request that started the
/// isolate finishes the start; one that joined it goes on when the isolate
/// answered and fails otherwise, leaving the record to the start's owner.
/// Gives the port to forward to.
pub fn after_probe(state: &mut Workers, route: &Route, ready: bool) -> (r: Result<u16, RouteError>)
    requires
        old(state).wf(),
    ensures
        final(state).wf(),
        route.cold_start ==> (final(state)@, r) == finish_spec(old(state)@, route.slug@, route.port, ready),
        !route.cold_start ==> final(state)@ == old(state)@ && r == (if ready {
            Ok::<u16, RouteError>(route.port)
        } else {
            Err::<u16, RouteError>(RouteError::StartupFailed)
        }),
{
    if route.cold_start {
        finish_start(state, route.slug.as_str(), route.port, ready)
    } else if ready {
        Ok(route.port)
    } else {
        Err(RouteError::StartupFailed)
    }
}

/// Releases the isolate of `slug` whose worker stopped, if its record still
/// holds `port`; gives whether it did.
pub fn release_worker(state: &mut Workers, slug: &str, port: u16) -> (r: bool)
    requires
        old(state).wf(),
    ensures
        final(state).wf(),
        r == holds_port(old(state)@, slug@, port),
        final(state)@ == (if r {
            deregistered(old(state)@, slug@)
        } else {
            old(state)@
        }),
{
    state.deregister_worker(slug, port)
}

pub open spec fn proxy_url_spec(port: u16) -> Seq<char> {
    "http://127.0.0.1:"@ + decimal(port as nat)
}

/// The URL requests for an isolate on `port` are forwarded to.
pub fn proxy_url(port: u16) -> (r: String)
    ensures
        r@ == proxy_url_spec(port),
{
    let mut r = "http://127.0.0.1:".to_owned();
    push_decimal(&mut r, port);
    r
}

/// Routing keeps every port of the initial pool in exactly one place.
pub proof fn lemma_route_wf(v: WorkersView, slug: Option<Seq<char>>)
    requires
        v.wf(),
    ensures
        route_spec(v, slug).0.wf(),
        route_spec(v, slug).0.pool == v.pool,
        route_spec(v, slug).0.registry == v.registry,
{
    match slug {
        Some(s) => {
            if v.registry.contains_key(s) && !v.running.contains_key(s) && !v.free.is_empty() {
                let p = least(v.free);
                let q = choose|q: u16| v.free.contains(q);
                lemma_least_exists(v.free, q);
                let n = route_spec(v, slug).0;
                lemma_running_ports_insert(v.running, s, Worker { port: p, state: IsolateState::Starting });
                assert(n.pool =~= n.free + n.in_flight + running_ports(n.running));
            }
        },
        None => {},
    }
}

/// Requests for one slug that arrive while its isolate starts share that
/// isolate: once one request has been routed, a second for the same slug
/// finds the record, goes to the same port, starts nothing and changes
/// nothing; only that one record was added.
pub proof fn lemma_cold_start_coalescing(v: WorkersView, slug: Seq<char>)
    requires
        v.wf(),
    ensures
        ({
            let (v1, r1) = route_spec(v, Some(slug));
            let (v2, r2) = route_spec(v1, Some(slug));
            r1 is Ok ==> {
                &&& r2 is Ok
                &&& r2->Ok_0.port == r1->Ok_0.port
                &&& !r2->Ok_0.cold_start
                &&& v2 == v1
                &&& v1.running.dom() == v.running.dom().insert(slug)
                &&& v1.wf()
                &&& v1.pool == v.pool
            }
        }),
{
    lemma_route_wf(v, Some(slug));
    let (v1, r1) = route_spec(v, Some(slug));
    if r1 is Ok {
        assert(v1.running.dom() =~= v.running.dom().insert(slug));
    }
}

/// After a failed start is deregistered, its port is back in the pool, the
/// slug has no record, and the next request for the slug starts a fresh
/// isolate.
pub proof fn lemma_restart_after_failure(v: WorkersView, slug: Seq<char>)
    requires
        v.wf(),
        v.running.contains_key(slug),
        v.registry.contains_key(slug),
    ensures
        ({
            let v1 = deregistered(v, slug);
            let (v2, r2) = route_spec(v1, Some(slug));
            &&& v1.free.contains(v.running[slug].port)
            &&& !v1.running.contains_key(slug)
            &&& r2 is Ok
            &&& r2->Ok_0.cold_start
            &&& r2->Ok_0.state == IsolateState::Starting
            &&& v2.running[slug].state == IsolateState::Starting
        }),
{
    let v1 = deregistered(v, slug);
    lemma_deregistered_wf(v, slug);
    assert(v1.free.contains(v.running[slug].port));
    assert(!v1.free.is_empty());
}

} // verus!
