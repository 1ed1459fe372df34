use sojourn::inventory::shell_alias::parse_aliases;
use sojourn::inventory::Host;

fn aliases(src: &str) -> Vec<Host> {
    parse_aliases(src, "test")
}

#[test]
fn basic_user_at_host() {
    let h = &aliases("alias prod='ssh deploy@prod.example.com'")[0];
    assert_eq!(h.hostname, "prod");
    assert_eq!(h.user.as_deref(), Some("deploy"));
    assert_eq!(h.ip.as_deref(), Some("prod.example.com"));
}

#[test]
fn port_and_identity() {
    let h = &aliases("alias box=\"ssh -p 2222 -i ~/.ssh/id_rsa root@10.0.0.1\"")[0];
    assert_eq!(h.port, Some(2222));
    assert!(h.identity_file.as_deref().map(|p| !p.contains('~')).unwrap_or(false));
    assert_eq!(h.user.as_deref(), Some("root"));
}

#[test]
fn jump_host() {
    let h = &aliases("alias internal='ssh -J jump.example.com user@192.168.1.5'")[0];
    assert_eq!(h.jump_host.as_deref(), Some("jump.example.com"));
}

#[test]
fn l_flag_user() {
    let h = &aliases("alias srv='ssh -l admin 10.10.10.1'")[0];
    assert_eq!(h.user.as_deref(), Some("admin"));
}

#[test]
fn non_ssh_alias_ignored() {
    let hosts = aliases("alias ll='ls -la'\nalias g='git'");
    assert!(hosts.is_empty());
}
