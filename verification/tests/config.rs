use sojourn::config::{
    check_label, ip_matches_pattern, source_for_path, Config, HostOverride, InventoryConfig,
    IpLabel, Settings,
};

fn label(pattern: &str, name: &str) -> IpLabel {
    IpLabel { pattern: pattern.to_string(), label: name.to_string(), color: None }
}

fn ov(host: &str, user: Option<&str>, label: Option<&str>) -> HostOverride {
    HostOverride {
        hostname: host.to_string(),
        user: user.map(|s| s.to_string()),
        label: label.map(|s| s.to_string()),
        alias: None,
        jump_host: None,
    }
}

#[test]
fn default_settings_values() {
    let s = Settings::default();
    assert!(s.default_user.is_none());
    assert!(s.ssh_extra_args.is_none());
    assert!(s.connect_on_single_match);
    assert!(!s.exit_after_connect);
    assert_eq!(s.theme, "default");
}

#[test]
fn default_config_reads_ssh_config() {
    let c = Config::default();
    assert_eq!(c.inventory.len(), 1);
    match &c.inventory[0] {
        InventoryConfig::SshConfig { path } => assert_eq!(path, "~/.ssh/config"),
        _ => panic!("expected an ssh_config source"),
    }
    assert!(c.ip_labels.is_empty());
    assert!(c.jump_hosts.is_empty());
    assert!(c.host_overrides.is_empty());
}

#[test]
fn prefix_patterns_match() {
    assert!(ip_matches_pattern("192.168.1.20", "192.168.*"));
    assert!(ip_matches_pattern("10.0.3.4", "10.0.*"));
    assert!(!ip_matches_pattern("10.1.3.4", "10.0.*"));
    // the prefix ends at a dot: `10.1.*` does not cover `10.10.0.1`
    assert!(ip_matches_pattern("10.1.5.5", "10.1.*"));
    assert!(!ip_matches_pattern("10.10.0.1", "10.1.*"));
    assert!(!ip_matches_pattern("10.00.1.1", "10.0.*"));
    assert!(ip_matches_pattern("10.0", "10.0.*"));
    assert!(ip_matches_pattern("8.8.8.8", "*"));
}

#[test]
fn cidr_patterns_match() {
    assert!(ip_matches_pattern("10.80.1.5", "10.80.0.0/16"));
    assert!(!ip_matches_pattern("10.81.1.5", "10.80.0.0/16"));
    assert!(ip_matches_pattern("192.168.0.255", "192.168.0.0/24"));
}

#[test]
fn bad_cidr_falls_back_to_prefix() {
    // neither side parses as an address/network: a textual prefix test
    assert!(ip_matches_pattern("abc/", "abc/"));
    assert!(!ip_matches_pattern("abc/def", "abc/"));
    assert!(!ip_matches_pattern("host", "10.0.0.0/8"));
}

#[test]
fn first_matching_label_wins() {
    let mut c = Config::default();
    c.ip_labels.push(label("10.0.*", "Lab"));
    c.ip_labels.push(label("10.0.0.0/8", "Private"));
    assert_eq!(c.label_for_ip("10.0.0.7").map(|l| l.label.as_str()), Some("Lab"));
    assert_eq!(c.label_for_ip("10.9.0.7").map(|l| l.label.as_str()), Some("Private"));
    assert!(c.label_for_ip("8.8.8.8").is_none());
}

#[test]
fn upsert_replaces_then_reads_back() {
    let mut c = Config::default();
    c.upsert_override(ov("web", Some("alice"), None));
    c.upsert_override(ov("db", None, Some("primary")));
    c.upsert_override(ov("web", Some("bob"), Some("front")));
    assert_eq!(c.host_overrides.len(), 2);
    let w = c.override_for("web").unwrap();
    assert_eq!(w.user.as_deref(), Some("bob"));
    assert_eq!(w.label.as_deref(), Some("front"));
    assert_eq!(c.override_for("db").unwrap().label.as_deref(), Some("primary"));
    assert!(c.override_for("cache").is_none());
}

#[test]
fn yaml_paths_become_yaml_sources() {
    match source_for_path("/inv/hosts.yml".to_string()) {
        InventoryConfig::Yaml { path } => assert_eq!(path, "/inv/hosts.yml"),
        _ => panic!("expected yaml"),
    }
    match source_for_path("/inv/prod/hosts_*".to_string()) {
        InventoryConfig::Ansible { path } => assert_eq!(path, "/inv/prod/hosts_*"),
        _ => panic!("expected ansible"),
    }
}

#[test]
fn adding_a_source_twice_keeps_one() {
    let mut c = Config::default();
    assert!(c.add_inventory(InventoryConfig::Ansible { path: "/inv/hosts".to_string() }));
    assert!(c.has_inventory_path("/inv/hosts"));
    assert!(!c.add_inventory(InventoryConfig::Yaml { path: "/inv/hosts".to_string() }));
    assert_eq!(c.inventory.len(), 2);
    assert!(!c.add_inventory(InventoryConfig::ShellAlias { path: "~/.ssh/config".to_string() }));
    assert_eq!(c.inventory.len(), 2);
}

#[test]
fn check_labels_name_the_kind() {
    assert_eq!(check_label(&InventoryConfig::Ansible { path: "a".to_string() }), "[ansible]    a");
    assert_eq!(check_label(&InventoryConfig::SshConfig { path: "b".to_string() }), "[ssh_config] b");
    assert_eq!(check_label(&InventoryConfig::Yaml { path: "c".to_string() }), "[yaml]       c");
    assert_eq!(check_label(&InventoryConfig::ShellAlias { path: "d".to_string() }), "[shell_alias] d");
}
