use sojourn::inventory::shell_alias::{
    extract_ssh_command, is_ip_or_fqdn, parse_aliases_with_home, rc_file_candidates,
    shell_tokenize, shorten_path_with_home, strip_quotes,
};

fn strings(v: &[&str]) -> Vec<String> {
    v.iter().map(|s| s.to_string()).collect()
}

#[test]
fn tokenizer_quotes_and_escapes() {
    assert_eq!(
        shell_tokenize("ssh -p 22 'a b' \"c d\" e\\ f"),
        strings(&["ssh", "-p", "22", "a b", "c d", "e f"])
    );
    assert_eq!(shell_tokenize("  x\t y  "), strings(&["x", "y"]));
    assert_eq!(shell_tokenize("''"), Vec::<String>::new());
    assert_eq!(shell_tokenize("a'b c'd"), strings(&["ab cd"]));
}

#[test]
fn quote_stripping() {
    assert_eq!(strip_quotes("'x'"), "x");
    assert_eq!(strip_quotes("\"y\""), "y");
    assert_eq!(strip_quotes("z"), "z");
    assert_eq!(strip_quotes("''"), "");
    assert_eq!(strip_quotes("'x\""), "'x\"");
}

#[test]
fn ssh_commands() {
    assert_eq!(extract_ssh_command("ssh -p 22 host"), Some(strings(&["-p", "22", "host"])));
    assert_eq!(extract_ssh_command("/usr/bin/ssh h"), Some(strings(&["h"])));
    assert_eq!(extract_ssh_command("env FOO=1 ssh h.example.com"), Some(strings(&["h.example.com"])));
    assert_eq!(extract_ssh_command("env FOO=1 ls"), None);
    assert_eq!(extract_ssh_command("ls -la"), None);
    assert_eq!(extract_ssh_command("env"), None);
}

#[test]
fn address_heuristic() {
    assert!(is_ip_or_fqdn("a.b"));
    assert!(is_ip_or_fqdn("host-1"));
    assert!(is_ip_or_fqdn("host_1"));
    assert!(!is_ip_or_fqdn("a@b"));
}

#[test]
fn home_prefix_is_written_as_tilde() {
    let home = Some("/home/u".to_string());
    assert_eq!(shorten_path_with_home("/home/u/.zshrc", &home), "~/.zshrc");
    assert_eq!(shorten_path_with_home("/etc/profile", &home), "/etc/profile");
    assert_eq!(shorten_path_with_home("/home/user2/x", &home), "~ser2/x");
    assert_eq!(shorten_path_with_home("/home/u/.zshrc", &None), "/home/u/.zshrc");
}

#[test]
fn identity_files_expand_home() {
    let home = Some("/home/u".to_string());
    let hs = parse_aliases_with_home("alias box='ssh -i ~/.ssh/k root@h.example.com'", "rc", &home);
    assert_eq!(hs.len(), 1);
    assert_eq!(hs[0].identity_file.as_deref(), Some("/home/u/.ssh/k"));
    assert_eq!(hs[0].user.as_deref(), Some("root"));
    assert_eq!(hs[0].ip.as_deref(), Some("h.example.com"));
    assert_eq!(hs[0].hostname, "box");
    assert_eq!(hs[0].source, "rc");
}

#[test]
fn rc_files_under_home() {
    let fs = rc_file_candidates("/home/u");
    assert_eq!(fs.len(), 6);
    assert_eq!(fs[0], "/home/u/.zshrc");
    assert_eq!(fs[5], "/home/u/.config/fish/config.fish");
}
