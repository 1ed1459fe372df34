use sojourn::inventory::teleport::{parse_tsh_ls, tsh_choice};
use sojourn::inventory::ansible::{
    extract_group_from_path, extract_var, parse_ansible_host_line, parse_ini_ansible_inventory,
    parse_inventory_content, parse_yaml_ansible_inventory,
};
use sojourn::inventory::ssh_config::{parse_ssh_config, split_ssh_config_line, SshConfigInventory};
use sojourn::inventory::teleport::{parse_tsh_nodes, TeleportInventory, TshNode};
use sojourn::inventory::yaml_config::{YamlConfig, YamlHost, YamlInventory};
use sojourn::inventory::Host;

#[test]
fn ssh_config_line_forms() {
    assert_eq!(
        split_ssh_config_line("Host web"),
        Some(("Host".to_string(), "web".to_string()))
    );
    assert_eq!(
        split_ssh_config_line("HostName=10.0.0.1"),
        Some(("HostName".to_string(), "10.0.0.1".to_string()))
    );
    assert_eq!(
        split_ssh_config_line("User   deploy"),
        Some(("User".to_string(), "deploy".to_string()))
    );
    assert_eq!(split_ssh_config_line("Lonely"), None);
}

#[test]
fn ssh_config_hosts_and_fields() {
    let cfg = "\
# comment
Host *
    User everyone

Host web
    HostName 10.0.0.1
    User deploy
    Port 2222
    IdentityFile ~/.ssh/web
    ProxyJump bastion

host db?
    hostname 10.0.0.9

Host db
    HostName=10.0.0.2
    Port notanumber
";
    let hs = parse_ssh_config(cfg, "~/.ssh/config");
    assert_eq!(hs.len(), 2);
    let w = &hs[0];
    assert_eq!(w.hostname, "web");
    assert_eq!(w.ip.as_deref(), Some("10.0.0.1"));
    assert_eq!(w.user.as_deref(), Some("deploy"));
    assert_eq!(w.port, Some(2222));
    assert_eq!(w.identity_file.as_deref(), Some("~/.ssh/web"));
    assert_eq!(w.jump_host.as_deref(), Some("bastion"));
    assert_eq!(w.groups, vec!["ssh_config".to_string()]);
    assert_eq!(w.source, "~/.ssh/config");
    let d = &hs[1];
    assert_eq!(d.hostname, "db");
    assert_eq!(d.ip.as_deref(), Some("10.0.0.2"));
    assert_eq!(d.port, None);
}

#[test]
fn ssh_config_inventory_parses_with_its_path() {
    let inv = SshConfigInventory { path: "/etc/ssh/cfg".to_string() };
    let hs = inv.parse("Host a\n  HostName 1.2.3.4\n");
    assert_eq!(hs.len(), 1);
    assert_eq!(hs[0].source, "/etc/ssh/cfg");
}

#[test]
fn extract_var_reads_key_values() {
    let line = "web01 ansible_host=10.1.1.1 ansible_user=deploy";
    assert_eq!(extract_var(line, "ansible_host").as_deref(), Some("10.1.1.1"));
    assert_eq!(extract_var(line, "ansible_user").as_deref(), Some("deploy"));
    assert_eq!(extract_var(line, "ansible_port"), None);
}

#[test]
fn host_line_with_inline_port() {
    let h = parse_ansible_host_line("db01:2201 ansible_user=pg", "db", "f").unwrap();
    assert_eq!(h.hostname, "db01");
    assert_eq!(h.port, Some(2201));
    assert_eq!(h.user.as_deref(), Some("pg"));
    assert_eq!(h.groups, vec!["db".to_string()]);
    let h2 = parse_ansible_host_line("db02:2201 ansible_port=22", "db", "f").unwrap();
    assert_eq!(h2.port, Some(22));
    assert!(parse_ansible_host_line("ansible_user=x", "db", "f").is_none());
    let h3 = parse_ansible_host_line("[::1]:x", "g", "f").unwrap();
    assert_eq!(h3.hostname, "[::1]:x");
    assert_eq!(h3.port, None);
}

#[test]
fn ini_inventory_groups() {
    let content = "\
[web]
web01 ansible_host=10.0.0.1
web02 ansible_host=10.0.0.2

[web:vars]
ansible_user=deploy

# comment
[db]
db01
";
    let mut hosts: Vec<Host> = Vec::new();
    parse_ini_ansible_inventory(content, "prod", "src", &mut hosts);
    assert_eq!(hosts.len(), 3);
    assert_eq!(hosts[0].hostname, "web01");
    assert_eq!(hosts[0].groups, vec!["web".to_string()]);
    assert_eq!(hosts[1].ip.as_deref(), Some("10.0.0.2"));
    assert_eq!(hosts[2].hostname, "db01");
    assert_eq!(hosts[2].groups, vec!["db".to_string()]);
    assert_eq!(hosts[2].source, "src");
}

#[test]
fn yaml_inventory_hosts() {
    let content = "\
all:
  hosts:
    web01:
      ansible_host: 10.0.0.1
      ansible_user: deploy
      ansible_port: 2200
      extra:
    web02:
      ansible_host: 10.0.0.2
  children:
    db:
      hosts:
        db01:
          ansible_host: 10.0.1.1
";
    let mut hosts: Vec<Host> = Vec::new();
    parse_yaml_ansible_inventory(content, "grp", "s", &mut hosts);
    let names: Vec<&str> = hosts.iter().map(|h| h.hostname.as_str()).collect();
    assert_eq!(names, vec!["web01", "web02", "db", "db01"]);
    assert_eq!(hosts[0].ip.as_deref(), Some("10.0.0.1"));
    assert_eq!(hosts[0].user.as_deref(), Some("deploy"));
    assert_eq!(hosts[0].port, Some(2200));
    assert_eq!(hosts[1].ip.as_deref(), Some("10.0.0.2"));
    assert_eq!(hosts[3].ip.as_deref(), Some("10.0.1.1"));
    assert_eq!(hosts[3].groups, vec!["grp".to_string()]);
}

#[test]
fn content_kind_is_detected() {
    let mut hosts: Vec<Host> = Vec::new();
    parse_inventory_content("---\nall:\n  hosts:\n    a1:\n", "g", "s", &mut hosts);
    assert_eq!(hosts.len(), 1);
    assert_eq!(hosts[0].hostname, "a1");
    parse_inventory_content("[x]\nb1 ansible_host=1.1.1.1\n", "g", "s", &mut hosts);
    assert_eq!(hosts.len(), 2);
    assert_eq!(hosts[1].groups, vec!["x".to_string()]);
}

#[test]
fn group_from_parent_directory() {
    assert_eq!(extract_group_from_path("/inv/prod/hosts_web"), "prod");
    assert_eq!(extract_group_from_path("hosts"), "ansible");
    assert_eq!(extract_group_from_path("/hosts"), "ansible");
}

#[test]
fn tsh_arguments() {
    let t = TeleportInventory { tsh_binary: "tsh".to_string(), proxy: None };
    assert_eq!(t.tsh_args("ls"), vec!["ls".to_string()]);
    let p = TeleportInventory { tsh_binary: "tsh".to_string(), proxy: Some("tp.example.com".to_string()) };
    assert_eq!(p.tsh_args("status"), vec!["status".to_string(), "--proxy=tp.example.com".to_string()]);
}

#[test]
fn tsh_nodes_become_hosts() {
    let nodes = vec![
        TshNode {
            spec_hostname: Some("node1".to_string()),
            metadata_name: Some("uuid-1".to_string()),
            addr: Some("10.0.0.5:3022".to_string()),
            labels: vec![
                ("env".to_string(), Some("prod".to_string())),
                ("n".to_string(), None),
            ],
        },
        TshNode {
            spec_hostname: None,
            metadata_name: Some("uuid-2".to_string()),
            addr: None,
            labels: vec![],
        },
        TshNode { spec_hostname: None, metadata_name: None, addr: Some("1.1.1.1".to_string()), labels: vec![] },
    ];
    let hs = parse_tsh_nodes(&nodes);
    assert_eq!(hs.len(), 2);
    assert_eq!(hs[0].hostname, "node1");
    assert_eq!(hs[0].ip.as_deref(), Some("10.0.0.5"));
    assert_eq!(hs[0].tags, vec![("env".to_string(), "prod".to_string())]);
    assert_eq!(hs[0].source, "teleport");
    assert_eq!(hs[1].hostname, "uuid-2");
    assert!(hs[1].ip.is_none());
}

#[test]
fn yaml_config_hosts() {
    let cfg = YamlConfig {
        hosts: vec![YamlHost {
            hostname: "h1".to_string(),
            ip: Some("10.0.0.1".to_string()),
            user: None,
            port: Some(22),
            identity_file: None,
            jump_host: None,
            groups: vec!["g".to_string()],
            tags: vec![("role".to_string(), "db".to_string())],
        }],
    };
    let inv = YamlInventory { path: "/h.yaml".to_string() };
    let hs = inv.hosts_from(&cfg, "/h.yaml");
    assert_eq!(hs.len(), 1);
    assert_eq!(hs[0].hostname, "h1");
    assert_eq!(hs[0].port, Some(22));
    assert_eq!(hs[0].source, "/h.yaml");
    assert_eq!(hs[0].tags, vec![("role".to_string(), "db".to_string())]);
}

#[test]
fn search_string_and_connect_target() {
    let h = Host {
        hostname: "web".to_string(),
        ip: Some("10.0.0.1".to_string()),
        user: Some("deploy".to_string()),
        label: Some("front".to_string()),
        groups: vec!["prod".to_string(), "eu".to_string()],
        tags: vec![("role".to_string(), "app".to_string())],
        ..Default::default()
    };
    assert_eq!(h.search_string(), "web 10.0.0.1 front prod eu role:app");
    assert_eq!(h.connect_target(), "deploy@10.0.0.1");
    let bare = Host { hostname: "box".to_string(), ..Default::default() };
    assert_eq!(bare.search_string(), "box");
    assert_eq!(bare.connect_target(), "box");
}

#[test]
fn tsh_json_output() {
    let json = r#"
      [{"spec":{"hostname":"n1","addr":"10.0.0.5:3022"},"metadata":{"name":"u1","labels":{"env":"prod","n":3}}},
       {"metadata":{"name":"u2"}},
       {"spec":{}}]
    "#;
    let hs = parse_tsh_ls(json).unwrap();
    assert_eq!(hs.len(), 2);
    assert_eq!(hs[0].hostname, "n1");
    assert_eq!(hs[0].ip.as_deref(), Some("10.0.0.5"));
    assert_eq!(hs[0].tags, vec![("env".to_string(), "prod".to_string())]);
    assert_eq!(hs[1].hostname, "u2");
    assert!(parse_tsh_ls("{}").is_none());
    assert!(parse_tsh_ls("not json").is_none());
    assert_eq!(parse_tsh_ls(" [] ").map(|v| v.len()), Some(0));
}

#[test]
fn tsh_install_choice() {
    assert_eq!(tsh_choice(&vec![false, false, true, true, false]), Some(2));
    assert_eq!(tsh_choice(&vec![true, false, false, false, false]), Some(0));
    assert_eq!(tsh_choice(&vec![false; 5]), None);
}
