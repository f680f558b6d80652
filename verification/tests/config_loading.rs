use front_door::config::Config;
use front_door::config::DomainGroup;
use front_door::config::SubdomainEntry;

/// Parse the on-disk TOML shape into the library's configuration model,
/// the way the process bootstrap does.
fn parse_config(config_str: &str) -> Config {
    let table: toml::Table = config_str.parse().unwrap();
    let mut domains: Vec<DomainGroup> = Vec::new();
    for (root_domain, subs) in table["domains"].as_table().unwrap() {
        let mut entries: Vec<SubdomainEntry> = Vec::new();
        for (label, path) in subs.as_table().unwrap() {
            entries.push(SubdomainEntry {
                label: label.clone(),
                path: path.as_str().unwrap().to_string(),
            });
        }
        domains.push(DomainGroup { root_domain: root_domain.clone(), entries });
    }
    Config {
        root_dir: table["root_dir"].as_str().unwrap().to_string(),
        certcache_dir: table["certcache_dir"].as_str().unwrap().to_string(),
        cert_email: table["cert_email"].as_str().unwrap().to_string(),
        domains,
    }
}

fn group<'a>(config: &'a Config, root_domain: &str) -> Option<&'a DomainGroup> {
    config.domains.iter().find(|g| g.root_domain == root_domain)
}

fn path_of<'a>(group: &'a DomainGroup, label: &str) -> &'a str {
    group
        .entries
        .iter()
        .find(|e| e.label == label)
        .map(|e| e.path.as_str())
        .unwrap()
}

#[test]
fn test_config_parsing() {
    let config_str = r#"
root_dir = "/var/www"
certcache_dir = "./certcache"
cert_email = "test@example.com"

[domains]
"example.com" = { root = "/var/www/example", blog = "/var/www/blog" }
"another.com" = { root = "/var/www/another" }
"#;

    let config = parse_config(config_str);
    assert_eq!(config.root_dir, "/var/www");
    assert_eq!(config.cert_email, "test@example.com");
    assert!(group(&config, "example.com").is_some());
    assert!(group(&config, "another.com").is_some());
    assert_eq!(path_of(group(&config, "example.com").unwrap(), "root"), "/var/www/example");
    assert_eq!(path_of(group(&config, "example.com").unwrap(), "blog"), "/var/www/blog");
    assert_eq!(path_of(group(&config, "another.com").unwrap(), "root"), "/var/www/another");
}
