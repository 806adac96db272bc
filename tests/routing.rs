use openedge::errors::RouteError;
use openedge::loader::ModuleSpecifier;
use openedge::router::{
    after_probe, finish_start, host_slug, plan_route, proxy_url, release_worker, request_host_slug, resolve_to_proxy,
    HostHeader, RoutePlan,
};
use openedge::store::Store;
use openedge::workers::{IsolateState, Workers};

fn hello_registry() -> Store {
    let mut store = Store::new();
    store.register_module("hello".to_string(), ModuleSpecifier::parse("file:///hello.js".to_string()).unwrap());
    store
}

fn host(s: &str) -> HostHeader {
    HostHeader::Text(s.to_string())
}

#[test]
fn slug_is_authority_up_to_first_dot() {
    assert_eq!(host_slug("hello.example.com"), Some("hello".to_string()));
    assert_eq!(host_slug("hello"), Some("hello".to_string()));
    assert_eq!(host_slug("hello:8080"), Some("hello:8080".to_string()));
    assert_eq!(host_slug(".example.com"), None);
    assert_eq!(host_slug(""), None);
}

#[test]
fn authority_preferred_over_host() {
    let r = request_host_slug(&host("first.example"), &host("second.example"));
    assert_eq!(r, Some("first".to_string()));
    let r = request_host_slug(&HostHeader::Absent, &host("second.example"));
    assert_eq!(r, Some("second".to_string()));
    assert_eq!(request_host_slug(&HostHeader::Absent, &HostHeader::Absent), None);
    assert_eq!(request_host_slug(&HostHeader::Opaque, &host("second.example")), None);
    assert_eq!(request_host_slug(&HostHeader::Absent, &HostHeader::Opaque), None);
}

#[test]
fn cold_start_then_warm_hit() {
    let mut w = Workers::new(hello_registry(), vec![8081]);
    let r = resolve_to_proxy(&mut w, &HostHeader::Absent, &host("hello.example")).unwrap();
    assert_eq!(r.slug, "hello");
    assert_eq!(r.port, 8081);
    assert!(r.cold_start);
    assert_eq!(r.state, IsolateState::Starting);
    assert_eq!(r.locator.as_str(), "file:///hello.js");
    assert_eq!(w.get_existing_worker_port("hello"), Some(8081));
    assert_eq!(finish_start(&mut w, "hello", 8081, true), Ok(8081));
    let again = resolve_to_proxy(&mut w, &HostHeader::Absent, &host("hello.example")).unwrap();
    assert_eq!(again.port, 8081);
    assert!(!again.cold_start);
    assert_eq!(again.state, IsolateState::Ready);
    // no port movement: the pool stays empty
    assert_eq!(w.take_available_port(), None);
}

#[test]
fn unknown_tenant_is_502_and_leaves_pool() {
    let mut w = Workers::new(hello_registry(), vec![8081]);
    let r = resolve_to_proxy(&mut w, &HostHeader::Absent, &host("ghost.example"));
    assert_eq!(r.unwrap_err(), RouteError::NoSuchTenant);
    assert_eq!(RouteError::NoSuchTenant.status(), 502);
    assert_eq!(w.take_available_port(), Some(8081));
}

#[test]
fn port_exhaustion_is_503() {
    let mut w = Workers::new(hello_registry(), vec![]);
    let r = resolve_to_proxy(&mut w, &HostHeader::Absent, &host("hello.example"));
    assert_eq!(r.unwrap_err(), RouteError::NoPortsAvailable);
    assert_eq!(RouteError::NoPortsAvailable.status(), 503);
}

#[test]
fn missing_host_is_400() {
    let mut w = Workers::new(hello_registry(), vec![8081]);
    let r = resolve_to_proxy(&mut w, &HostHeader::Absent, &HostHeader::Absent);
    assert_eq!(r.unwrap_err(), RouteError::BadHost);
    let r = resolve_to_proxy(&mut w, &HostHeader::Absent, &host(".example"));
    assert_eq!(r.unwrap_err(), RouteError::BadHost);
    assert_eq!(RouteError::BadHost.status(), 400);
    assert_eq!(w.take_available_port(), Some(8081));
}

#[test]
fn concurrent_cold_starts_share_one_isolate() {
    let mut w = Workers::new(hello_registry(), vec![8081, 8082]);
    let mut ports = Vec::new();
    let mut cold = 0;
    for _ in 0..50 {
        let r = resolve_to_proxy(&mut w, &HostHeader::Absent, &host("hello.example")).unwrap();
        if r.cold_start {
            cold += 1;
        }
        ports.push(r.port);
    }
    assert_eq!(cold, 1);
    assert!(ports.iter().all(|p| *p == 8081));
    // only one port left the pool
    assert_eq!(w.take_available_port(), Some(8082));
    assert_eq!(w.take_available_port(), None);
}

#[test]
fn failed_start_returns_port_and_next_request_starts_fresh() {
    let mut w = Workers::new(hello_registry(), vec![8081]);
    let r = resolve_to_proxy(&mut w, &HostHeader::Absent, &host("hello.example")).unwrap();
    assert!(r.cold_start);
    assert_eq!(finish_start(&mut w, "hello", 8081, false), Err(RouteError::StartupFailed));
    assert_eq!(RouteError::StartupFailed.status(), 502);
    assert_eq!(w.get_existing_worker_port("hello"), None);
    let again = resolve_to_proxy(&mut w, &HostHeader::Absent, &host("hello.example")).unwrap();
    assert!(again.cold_start);
    assert_eq!(again.port, 8081);
}

#[test]
fn upstream_error_is_502() {
    assert_eq!(RouteError::UpstreamError.status(), 502);
}

#[test]
fn proxy_url_of_port() {
    assert_eq!(proxy_url(8081), "http://127.0.0.1:8081");
    assert_eq!(proxy_url(0), "http://127.0.0.1:0");
    assert_eq!(proxy_url(65535), "http://127.0.0.1:65535");
}

#[test]
fn late_failure_of_old_start_leaves_newer_isolate() {
    let mut w = Workers::new(hello_registry(), vec![8081, 8082]);
    let first = resolve_to_proxy(&mut w, &HostHeader::Absent, &host("hello.example")).unwrap();
    assert_eq!(first.port, 8081);
    // the first worker dies before its probe ends
    assert!(release_worker(&mut w, "hello", 8081));
    let second = resolve_to_proxy(&mut w, &HostHeader::Absent, &host("hello.example")).unwrap();
    assert!(second.cold_start);
    assert_eq!(second.port, 8081);
    let mut w2 = Workers::new(hello_registry(), vec![8082]);
    let r = resolve_to_proxy(&mut w2, &HostHeader::Absent, &host("hello.example")).unwrap();
    assert_eq!(r.port, 8082);
    // a probe outcome or release for another port changes nothing
    assert_eq!(finish_start(&mut w2, "hello", 8081, false), Err(RouteError::StartupFailed));
    assert!(!release_worker(&mut w2, "hello", 8081));
    assert_eq!(w2.get_existing_worker_port("hello"), Some(8082));
    assert_eq!(finish_start(&mut w2, "hello", 8081, true), Err(RouteError::StartupFailed));
    assert_eq!(w2.get_existing_worker("hello").unwrap().state, IsolateState::Starting);
}

#[test]
fn plan_and_after_probe() {
    let mut w = Workers::new(hello_registry(), vec![8081]);
    let first = resolve_to_proxy(&mut w, &HostHeader::Absent, &host("hello.example")).unwrap();
    assert_eq!(plan_route(&first), RoutePlan { spawn: true, probe: true });
    let joined = resolve_to_proxy(&mut w, &HostHeader::Absent, &host("hello.example")).unwrap();
    assert_eq!(plan_route(&joined), RoutePlan { spawn: false, probe: true });
    assert_eq!(after_probe(&mut w, &joined, false), Err(RouteError::StartupFailed));
    assert_eq!(w.get_existing_worker_port("hello"), Some(8081));
    assert_eq!(after_probe(&mut w, &joined, true), Ok(8081));
    assert_eq!(after_probe(&mut w, &first, true), Ok(8081));
    let warm = resolve_to_proxy(&mut w, &HostHeader::Absent, &host("hello.example")).unwrap();
    assert_eq!(plan_route(&warm), RoutePlan { spawn: false, probe: false });
}
