use openedge::loader::{ModuleLoadForbidden, ModuleSpecifier, OnlyLoadWrapperImports};
use openedge::permissions::{block_local_net, FetchBlockLocal, PermissionDenied, Permissions};

#[test]
fn loopback_allowed_only_on_own_port() {
    let p = Permissions { allow_local_port: 8081 };
    assert_eq!(p.check_net("127.0.0.1", Some(8081)), Ok(()));
    assert_eq!(p.check_net("127.0.0.1", Some(9999)), Err(PermissionDenied::LocalNet));
    assert_eq!(p.check_net("127.0.0.1", None), Err(PermissionDenied::LocalNet));
    assert_eq!(p.check_net("0.0.0.0", Some(8081)), Ok(()));
    assert_eq!(p.check_net("[::1]", Some(1)), Err(PermissionDenied::LocalNet));
    assert_eq!(p.check_net("::", Some(8081)), Ok(()));
    assert_eq!(p.check_net("example.com", Some(9999)), Ok(()));
}

#[test]
fn fetch_urls_follow_the_same_rule() {
    let p = Permissions { allow_local_port: 8081 };
    assert_eq!(p.check_net_url(Some("127.0.0.1"), Some(8081)), Ok(()));
    assert_eq!(p.check_net_url(Some("127.0.0.1"), Some(9999)), Err(PermissionDenied::LocalNet));
    assert_eq!(p.check_net_url(Some("localhost"), Some(80)), Err(PermissionDenied::LocalNet));
    assert_eq!(p.check_net_url(Some("deno.land"), Some(443)), Ok(()));
    assert_eq!(p.check_net_url(None, None), Err(PermissionDenied::NoHost));
}

#[test]
fn filesystem_is_denied() {
    let p = Permissions { allow_local_port: 8081 };
    assert_eq!(p.check_read("/etc/passwd"), Err(PermissionDenied::Read));
    assert_eq!(p.check_read(""), Err(PermissionDenied::Read));
    assert_eq!(p.check_write("/tmp/x"), Err(PermissionDenied::Write));
    assert!(!p.allow_hrtime());
    assert_eq!(PermissionDenied::Read.message(), "local reads not permitted");
}

#[test]
fn block_local_net_names() {
    for h in ["localhost", "127.0.0.1", "0.0.0.0", "::", "::1", "[::]", "[::1]"] {
        assert_eq!(block_local_net(h), Err(PermissionDenied::LocalNet));
    }
    assert_eq!(block_local_net("127.0.0.2"), Ok(()));
    assert_eq!(block_local_net("localhost.example"), Ok(()));
    assert_eq!(PermissionDenied::LocalNet.message(), "local net blocked");
}

#[test]
fn fetch_block_local_has_no_port_exception() {
    let f = FetchBlockLocal;
    assert_eq!(f.check_net_url(Some("127.0.0.1")), Err(PermissionDenied::LocalNet));
    assert_eq!(f.check_net_url(Some("example.com")), Ok(()));
    assert_eq!(f.check_net_url(None), Err(PermissionDenied::NoHost));
    assert_eq!(f.check_read("/x"), Err(PermissionDenied::Read));
}

#[test]
fn resolve_only_wrapper_and_its_imports() {
    let loader = OnlyLoadWrapperImports::new();
    assert_eq!(loader.resolve("file:///wrapper.js", "", true), Ok(()));
    assert_eq!(loader.resolve("file:///hello.js", "file:///wrapper.js", false), Ok(()));
    assert_eq!(
        loader.resolve("file:///wrapper.js", "", false),
        Err(ModuleLoadForbidden::NotWrapperImport)
    );
    assert_eq!(
        loader.resolve("file:///etc/passwd", "file:///hello.js", false),
        Err(ModuleLoadForbidden::NotWrapperImport)
    );
    assert_eq!(
        loader.resolve("file:///other.js", "", true),
        Err(ModuleLoadForbidden::NotWrapperImport)
    );
}

#[test]
fn load_rejects_dynamic_and_non_file() {
    let loader = OnlyLoadWrapperImports::new();
    let file = ModuleSpecifier::parse("file:///hello.js".to_string()).unwrap();
    let web = ModuleSpecifier::parse("https://deno.land/x.js".to_string()).unwrap();
    assert_eq!(loader.load(&file, false), Ok(()));
    assert_eq!(loader.load(&file, true), Err(ModuleLoadForbidden::DynamicImport));
    assert_eq!(loader.load(&web, false), Err(ModuleLoadForbidden::NotFile));
    assert!(file.is_file());
    assert!(!web.is_file());
    assert!(ModuleSpecifier::parse("fil".to_string()).is_none());
    assert!(!ModuleSpecifier::parse("fil:e".to_string()).unwrap().is_file());
    assert_eq!(ModuleLoadForbidden::DynamicImport.message(), "Dynamic import() statements not supported");
}

#[test]
fn module_specifier_needs_a_scheme() {
    assert!(ModuleSpecifier::parse("file:///hello.js".to_string()).is_some());
    assert!(ModuleSpecifier::parse("git+ssh://host/x".to_string()).is_some());
    assert!(ModuleSpecifier::parse("./hello.js".to_string()).is_none());
    assert!(ModuleSpecifier::parse(":x".to_string()).is_none());
    assert!(ModuleSpecifier::parse("1a:x".to_string()).is_none());
    assert!(ModuleSpecifier::parse("ab".to_string()).is_none());
    assert!(ModuleSpecifier::parse("".to_string()).is_none());
}
