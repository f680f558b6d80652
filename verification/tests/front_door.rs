use front_door::cert::CertManager;
use front_door::cert::IssuanceAction;
use front_door::config::Config;
use front_door::config::DomainGroup;
use front_door::config::SubdomainEntry;
use front_door::config::derive_hostname;
use front_door::config::join_path;
use front_door::proxy::proxy_target;
use front_door::redirect::https_redirect_url;
use front_door::rewrite::rewrite_path;
use front_door::rewrite::rewrite_path_and_query;
use front_door::router::Handler;
use front_door::router::RouteTable;
use front_door::router::build_routes;
use front_door::router::try_build_routes;

fn entry(label: &str, path: &str) -> SubdomainEntry {
    SubdomainEntry { label: label.to_string(), path: path.to_string() }
}

fn sample_config() -> Config {
    Config {
        root_dir: "".to_string(),
        certcache_dir: "./certcache".to_string(),
        cert_email: "test@example.com".to_string(),
        domains: vec![
            DomainGroup {
                root_domain: "example.com".to_string(),
                entries: vec![entry("root", "/www/main"), entry("blog", "/www/blog")],
            },
            DomainGroup {
                root_domain: "another.com".to_string(),
                entries: vec![entry("root", "/www/another")],
            },
        ],
    }
}

#[test]
fn test_derive_hostname() {
    let label = "root".to_string();
    let root = "example.com".to_string();
    assert_eq!(derive_hostname(&label, &root), "example.com");
    let blog = "blog".to_string();
    assert_eq!(derive_hostname(&blog, &root), "blog.example.com");
}

#[test]
fn test_join_path() {
    let root = "/var/www".to_string();
    assert_eq!(join_path(&root, &"blog".to_string()), "/var/www/blog");
    assert_eq!(join_path(&root, &"/www/blog".to_string()), "/www/blog");
    let slashed = "/var/www/".to_string();
    assert_eq!(join_path(&slashed, &"blog".to_string()), "/var/www/blog");
    assert_eq!(join_path(&"".to_string(), &"blog".to_string()), "blog");
}

#[test]
fn test_hostname_router() {
    let mut table = RouteTable::new();
    table.insert_route("example.com".to_string(), Handler::StaticDir("/www/main".to_string()));
    table.insert_route(
        "blog.example.com".to_string(),
        Handler::StaticDir("/www/blog".to_string()),
    );

    assert_eq!(
        table.dispatch(&"example.com".to_string()),
        Some(&Handler::StaticDir("/www/main".to_string()))
    );
    assert_eq!(
        table.dispatch(&"blog.example.com".to_string()),
        Some(&Handler::StaticDir("/www/blog".to_string()))
    );
    assert_eq!(table.dispatch(&"unknown.com".to_string()), None);
}

#[test]
fn test_insert_route_replaces() {
    let mut table = RouteTable::new();
    table.insert_route("mail.example.com".to_string(), Handler::StaticDir("/www".to_string()));
    table.insert_route("mail.example.com".to_string(), Handler::ReverseProxy(8080));
    assert_eq!(
        table.dispatch(&"mail.example.com".to_string()),
        Some(&Handler::ReverseProxy(8080))
    );
}

#[test]
fn test_build_routes_from_config() {
    let config = sample_config();
    let table = build_routes(&config);
    assert_eq!(
        table.dispatch(&"example.com".to_string()),
        Some(&Handler::StaticDir("/www/main".to_string()))
    );
    assert_eq!(
        table.dispatch(&"blog.example.com".to_string()),
        Some(&Handler::StaticDir("/www/blog".to_string()))
    );
    assert_eq!(
        table.dispatch(&"another.com".to_string()),
        Some(&Handler::StaticDir("/www/another".to_string()))
    );
    assert_eq!(table.dispatch(&"unknown.com".to_string()), None);

    let hostnames = table.hostnames();
    assert_eq!(hostnames.len(), 3);
    assert!(hostnames.contains(&"example.com".to_string()));
    assert!(hostnames.contains(&"blog.example.com".to_string()));
    assert!(hostnames.contains(&"another.com".to_string()));
}

#[test]
fn test_duplicate_hostnames_rejected() {
    let mut config = sample_config();
    assert!(try_build_routes(&config).is_some());
    config.domains.push(DomainGroup {
        root_domain: "example.com".to_string(),
        entries: vec![entry("blog", "/www/elsewhere")],
    });
    assert!(try_build_routes(&config).is_none());
}

#[test]
fn test_rewrite_extensionless_path() {
    assert_eq!(rewrite_path("/about"), "/about.html");
    assert_eq!(rewrite_path("/a/b"), "/a/b.html");
    assert_eq!(rewrite_path("/"), "/");
    assert_eq!(rewrite_path("/a/b/"), "/a/b/");
    assert_eq!(rewrite_path("/style.css"), "/style.css");
    assert_eq!(rewrite_path("/a/b.tar.gz"), "/a/b.tar.gz");
    assert_eq!(rewrite_path("/.hidden"), "/.hidden.html");
    assert_eq!(rewrite_path("/name."), "/name.");
}

#[test]
fn test_rewrite_preserves_query() {
    assert_eq!(rewrite_path_and_query("/a/b", Some("c=1")), "/a/b.html?c=1");
    assert_eq!(rewrite_path_and_query("/a/b/", Some("c=1")), "/a/b/?c=1");
    assert_eq!(rewrite_path_and_query("/x.css", Some("v=2")), "/x.css?v=2");
    assert_eq!(rewrite_path_and_query("/about", None), "/about.html");
}

#[test]
fn test_proxy_target() {
    assert_eq!(
        proxy_target(8080, Some("/inbox?x=1"), "/inbox"),
        "http://127.0.0.1:8080/inbox?x=1"
    );
    assert_eq!(proxy_target(8080, None, "/inbox"), "http://127.0.0.1:8080/inbox");
    assert_eq!(proxy_target(80, Some("/"), "/"), "http://127.0.0.1:80/");
    assert_eq!(proxy_target(65535, Some("/a"), "/a"), "http://127.0.0.1:65535/a");
    assert_eq!(proxy_target(0, Some("/a"), "/a"), "http://127.0.0.1:0/a");
}

#[test]
fn test_redirect_url() {
    assert_eq!(
        https_redirect_url("example.com", Some("/a/b?c=1")),
        Some("https://example.com/a/b?c=1".to_string())
    );
    assert_eq!(https_redirect_url("example.com", None), Some("https://example.com/".to_string()));
    assert_eq!(
        https_redirect_url("example.com:8443", Some("/x")),
        Some("https://example.com:8443/x".to_string())
    );
}

#[test]
fn test_redirect_rejects_bad_host() {
    assert_eq!(https_redirect_url("exa mple.com", Some("/a")), None);
    assert_eq!(https_redirect_url("", Some("/a")), None);
    assert_eq!(https_redirect_url("host/with/path", None), None);
}

#[test]
fn test_cert_manager_single_issuance_in_flight() {
    let domains = vec!["example.com".to_string(), "blog.example.com".to_string()];
    let mut manager = CertManager::new(domains);
    let d = "example.com".to_string();

    assert_eq!(manager.ensure_certificate(&d, 0), IssuanceAction::Started);
    assert_eq!(manager.ensure_certificate(&d, 0), IssuanceAction::AlreadyInFlight);
    assert_eq!(manager.ensure_certificate(&d, 5), IssuanceAction::AlreadyInFlight);

    manager.issuance_succeeded(&d, 100, 80);
    assert!(manager.has_live_certificate(&d));
    assert_eq!(manager.ensure_certificate(&d, 10), IssuanceAction::CertificateCurrent);
    assert_eq!(manager.ensure_certificate(&d, 80), IssuanceAction::Started);
    assert_eq!(manager.ensure_certificate(&d, 81), IssuanceAction::AlreadyInFlight);
}

#[test]
fn test_cert_manager_failure_and_unknown() {
    let domains = vec!["example.com".to_string(), "blog.example.com".to_string()];
    let mut manager = CertManager::new(domains);
    let blog = "blog.example.com".to_string();

    assert!(!manager.has_live_certificate(&blog));
    assert_eq!(manager.ensure_certificate(&blog, 0), IssuanceAction::Started);
    manager.issuance_failed(&blog, "rate limited".to_string());
    assert!(!manager.has_live_certificate(&blog));
    assert_eq!(manager.ensure_certificate(&blog, 1), IssuanceAction::Started);

    let stranger = "unknown.com".to_string();
    assert_eq!(manager.ensure_certificate(&stranger, 0), IssuanceAction::UnknownDomain);
    assert!(!manager.has_live_certificate(&stranger));
}

#[test]
fn test_end_to_end_dispatch_scenario() {
    let config = Config {
        root_dir: "".to_string(),
        certcache_dir: "./certcache".to_string(),
        cert_email: "ops@example.com".to_string(),
        domains: vec![DomainGroup {
            root_domain: "example.com".to_string(),
            entries: vec![entry("root", "/www/main"), entry("blog", "/www/blog")],
        }],
    };
    let table = try_build_routes(&config).expect("no duplicate hostnames");

    let rewritten = rewrite_path_and_query("/about", None);
    assert_eq!(rewritten, "/about.html");
    match table.dispatch(&"example.com".to_string()) {
        Some(Handler::StaticDir(dir)) => assert_eq!(dir.as_str(), "/www/main"),
        other => panic!("wrong route: {:?}", other),
    }

    let rewritten = rewrite_path_and_query("/", None);
    assert_eq!(rewritten, "/");
    match table.dispatch(&"blog.example.com".to_string()) {
        Some(Handler::StaticDir(dir)) => assert_eq!(dir.as_str(), "/www/blog"),
        other => panic!("wrong route: {:?}", other),
    }

    assert_eq!(table.dispatch(&"unknown.com".to_string()), None);
}
