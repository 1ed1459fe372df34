use sojourn::discovery::{keep_flagged, probe_source_with_home, Probe};
use sojourn::config::InventoryConfig;
use sojourn::discovery::{
    ansible_cfg_inventory, ansible_probe_pattern, classify_inventory_file, counted_label_exec,
    high_probability_paths_for, is_yaml_inventory, join_path, looks_like_ansible_ini,
    parent_glob_pattern, resolve_cfg_inventory_with_home, scan_root_candidates, should_skip,
    shorten_with_home, src_path_key, ssh_config_source, DiscoveredSource, InventoryFileKind,
};

#[test]
fn skipped_directories() {
    assert!(should_skip("/home/u/repos/x/node_modules"));
    assert!(should_skip("/home/u/repos/.git"));
    assert!(should_skip("/home/u/.hidden"));
    assert!(should_skip("roles"));
    assert!(!should_skip("/home/u/repos/ansible"));
    assert!(!should_skip("/"));
}

#[test]
fn inventory_file_names() {
    assert_eq!(classify_inventory_file("/r/inv/hosts", true), InventoryFileKind::Yes);
    assert_eq!(classify_inventory_file("/r/inv/hosts_prod", true), InventoryFileKind::Yes);
    assert_eq!(classify_inventory_file("/r/inv/production", true), InventoryFileKind::IfIniContent);
    assert_eq!(classify_inventory_file("/r/inv/staging.ini", true), InventoryFileKind::Yes);
    assert_eq!(classify_inventory_file("/r/inv/inventory.ini", true), InventoryFileKind::Yes);
    assert_eq!(classify_inventory_file("/r/inv/random.ini", true), InventoryFileKind::No);
    assert_eq!(classify_inventory_file("/r/inv/readme.md", true), InventoryFileKind::No);
    assert_eq!(classify_inventory_file("/r/inv/hosts", false), InventoryFileKind::No);
}

#[test]
fn ini_content_heuristic() {
    assert!(looks_like_ansible_ini("# c\n[web]\nweb01\n"));
    assert!(looks_like_ansible_ini("\n; comment\nweb01 ansible_host=1.2.3.4\n"));
    assert!(!looks_like_ansible_ini("key=value\n# only comments\n"));
    assert!(!looks_like_ansible_ini(""));
    assert!(!looks_like_ansible_ini("-item\n"));
}

#[test]
fn yaml_inventory_names() {
    assert!(is_yaml_inventory("/r/hosts.yaml", true));
    assert!(is_yaml_inventory("/r/my-inventory.yml", true));
    assert!(is_yaml_inventory("/c/sojourn.yaml", true));
    assert!(!is_yaml_inventory("/r/values.yaml", true));
    assert!(!is_yaml_inventory("/r/hosts.yaml", false));
    assert!(!is_yaml_inventory("/r/hosts.json", true));
}

#[test]
fn sibling_patterns() {
    assert_eq!(parent_glob_pattern("/r/inventories/prod/hosts_web"), "/r/inventories/prod/hosts_*");
    assert_eq!(ansible_probe_pattern("/r/inventories/prod/hosts_web"), "/r/inventories/prod/hosts_*");
    assert_eq!(ansible_probe_pattern("/r/inventories/prod/hosts"), "/r/inventories/prod/hosts_*");
    assert_eq!(ansible_probe_pattern("/r/inventory/production"), "/r/inventory/production");
}

#[test]
fn ansible_cfg_inventory_value() {
    let cfg = "[ssh_connection]\ninventory = nope\n[DEFAULTS]\nremote_user = x\ninventory = ./inventories/prod/hosts\n";
    assert_eq!(ansible_cfg_inventory(cfg).as_deref(), Some("./inventories/prod/hosts"));
    assert_eq!(ansible_cfg_inventory("[defaults]\ninventory =\n"), None);
    assert_eq!(ansible_cfg_inventory("[defaults]\ninventory_plugins = x\n"), None);
    assert_eq!(ansible_cfg_inventory("inventory = top\n"), None);
}

#[test]
fn shortened_labels() {
    assert_eq!(shorten_with_home("/home/u/x", 52, "/home/u").as_deref(), Some("~/x"));
    let long = "/home/u/repos/ansible/inventories/production/hosts_webservers_eu";
    let s = shorten_with_home(long, 20, "/home/u").unwrap();
    assert_eq!(s, "...sts_webservers_eu");
    assert_eq!(s.len(), 20);
    assert_eq!(shorten_with_home("/a/bcdef", 2, "/zz"), None);
}

#[test]
fn source_labels_and_keys() {
    assert_eq!(counted_label_exec("~/x", 3, "hosts, ansible"), "~/x  (3 hosts, ansible)");
    let s = ssh_config_source("/home/u/.ssh/config", 4).unwrap();
    assert_eq!(s.label, "~/.ssh/config  (4 hosts)");
    assert_eq!(s.host_count, 4);
    assert!(s.selected);
    assert!(ssh_config_source("/home/u/.ssh/config", 0).is_none());
    let d = DiscoveredSource {
        config: InventoryConfig::Yaml { path: "/p.yaml".to_string() },
        label: String::new(),
        host_count: 1,
        selected: false,
    };
    assert_eq!(src_path_key(&d), "/p.yaml");
}

#[test]
fn joined_paths() {
    assert_eq!(join_path("/home/u", "repos"), "/home/u/repos");
    assert_eq!(join_path("/home/u/", "repos"), "/home/u/repos");
    assert_eq!(join_path("", "repos"), "repos");
}

#[test]
fn scan_patterns_and_roots() {
    let ps = high_probability_paths_for("/home/u");
    assert_eq!(ps.len(), 32);
    assert_eq!(ps[0], "/home/u/ansible/inventories/*/hosts_*");
    assert_eq!(ps[31], "/home/u/.config/sojourn/hosts.yaml");
    let roots = scan_root_candidates("/home/u");
    assert_eq!(roots.len(), 9);
    assert_eq!(roots[0], "/home/u/repos");
    assert_eq!(roots[8], "/home/u/ops");
}

#[test]
fn cfg_inventory_paths_resolve() {
    let home = Some("/home/u".to_string());
    assert_eq!(resolve_cfg_inventory_with_home("/r/x/ansible.cfg", "inv/hosts", &home), "/r/x/inv/hosts");
    assert_eq!(resolve_cfg_inventory_with_home("/r/x/ansible.cfg", "/abs/hosts", &home), "/abs/hosts");
    assert_eq!(resolve_cfg_inventory_with_home("/r/x/ansible.cfg", "~/inv", &home), "/home/u/inv");
    assert_eq!(resolve_cfg_inventory_with_home("ansible.cfg", "inv", &home), "inv");
}

#[test]
fn flagged_candidates_are_kept_in_order() {
    let c = vec!["/a".to_string(), "/b".to_string(), "/c".to_string()];
    assert_eq!(keep_flagged(&c, &vec![true, false, true]), vec!["/a".to_string(), "/c".to_string()]);
    assert!(keep_flagged(&c, &vec![false, false, false]).is_empty());
}

#[test]
fn probing_a_found_file() {
    let cfg = InventoryConfig::Ansible { path: "/home/u/inv/hosts_*".to_string() };
    assert!(matches!(probe_source_with_home(cfg, 0, "hosts, ansible", "/home/u"), Probe::NoHosts));
    let cfg = InventoryConfig::Ansible { path: "/home/u/inv/hosts_*".to_string() };
    match probe_source_with_home(cfg, 3, "hosts, ansible", "/home/u") {
        Probe::Found(s) => {
            assert_eq!(s.label, "~/inv/hosts_*  (3 hosts, ansible)");
            assert_eq!(s.host_count, 3);
            assert!(s.selected);
        }
        _ => panic!("expected a source"),
    }
}
