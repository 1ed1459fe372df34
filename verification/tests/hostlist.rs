use sojourn::config::{Config, HostOverride, JumpHostRule};
use sojourn::hostlist::{clean_hosts, glob_match, prepare_hosts};
use sojourn::inventory::Host;

fn host(name: &str, ip: Option<&str>, user: Option<&str>) -> Host {
    Host {
        hostname: name.to_string(),
        ip: ip.map(|s| s.to_string()),
        user: user.map(|s| s.to_string()),
        source: "test".to_string(),
        ..Default::default()
    }
}

#[test]
fn glob_star_and_question_mark() {
    assert!(glob_match("web-*", "web-01"));
    assert!(glob_match("web-*", "web-"));
    assert!(!glob_match("web-*", "db-01"));
    assert!(glob_match("db?", "db1"));
    assert!(!glob_match("db?", "db12"));
    assert!(glob_match("*.prod.example.com", "a.prod.example.com"));
    // other regex characters are taken literally
    assert!(!glob_match("a.c", "abc"));
    assert!(glob_match("a.c", "a.c"));
    assert!(glob_match("(x)", "(x)"));
}

#[test]
fn noise_and_wildcards_are_dropped() {
    let hs = vec![
        host("localhost", None, None),
        host("LOCALHOST", Some("10.0.0.1"), None),
        host("box", Some("127.0.0.1"), None),
        host("*.example.com", Some("10.0.0.2"), None),
        host("web?", Some("10.0.0.3"), None),
        host("keep", Some("10.0.0.4"), None),
    ];
    let out = clean_hosts(hs);
    assert_eq!(out.len(), 1);
    assert_eq!(out[0].hostname, "keep");
}

#[test]
fn bare_names_need_something_useful() {
    let hs = vec![
        host("bare", None, None),
        host("withuser", None, Some("root")),
        host("fq.example.com", None, None),
        host("10.1.2.3", None, None),
    ];
    let out = clean_hosts(hs);
    let names: Vec<&str> = out.iter().map(|h| h.hostname.as_str()).collect();
    assert_eq!(names, vec!["withuser", "fq.example.com", "10.1.2.3"]);
}

#[test]
fn duplicates_by_address_and_user_are_dropped() {
    let hs = vec![
        host("a", Some("10.0.0.5"), Some("root")),
        host("b", Some("10.0.0.5"), Some("root")),
        host("c", Some("10.0.0.5"), Some("admin")),
        host("d", Some("10.0.0.6"), None),
    ];
    let out = clean_hosts(hs);
    let names: Vec<&str> = out.iter().map(|h| h.hostname.as_str()).collect();
    assert_eq!(names, vec!["a", "c", "d"]);
}

#[test]
fn cleaning_twice_changes_nothing() {
    let hs = vec![
        host("a", Some("10.0.0.5"), None),
        host("a2", Some("10.0.0.5"), None),
        host("x.y", None, None),
        host("localhost", None, None),
    ];
    let once = clean_hosts(hs);
    let names_once: Vec<String> = once.iter().map(|h| h.hostname.clone()).collect();
    let twice = clean_hosts(once);
    let names_twice: Vec<String> = twice.iter().map(|h| h.hostname.clone()).collect();
    assert_eq!(names_once, names_twice);
}

#[test]
fn rules_default_user_and_overrides_apply() {
    let mut c = Config::default();
    c.settings.default_user = Some("ops".to_string());
    c.jump_hosts.push(JumpHostRule {
        host_pattern: "int-*".to_string(),
        jump_host: "bastion".to_string(),
        user: Some("jumper".to_string()),
    });
    c.host_overrides.push(HostOverride {
        hostname: "web.example.com".to_string(),
        user: Some("deploy".to_string()),
        label: Some("front".to_string()),
        alias: Some("w".to_string()),
        jump_host: None,
    });
    let hs = vec![
        host("int-db", Some("10.2.0.1"), None),
        host("int-app", Some("10.2.0.2"), Some("me")),
        host("web.example.com", None, None),
        host("other.example.com", None, None),
    ];
    let out = prepare_hosts(hs, &c);
    assert_eq!(out.len(), 4);
    assert_eq!(out[0].jump_host.as_deref(), Some("bastion"));
    assert_eq!(out[0].user.as_deref(), Some("jumper"));
    assert_eq!(out[1].jump_host.as_deref(), Some("bastion"));
    assert_eq!(out[1].user.as_deref(), Some("me"));
    assert_eq!(out[2].user.as_deref(), Some("deploy"));
    assert_eq!(out[2].label.as_deref(), Some("front"));
    assert_eq!(out[2].alias.as_deref(), Some("w"));
    assert_eq!(out[3].user.as_deref(), Some("ops"));
    assert!(out[3].jump_host.is_none());
}
