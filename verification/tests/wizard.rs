use sojourn::config::{Config, HostOverride, IpLabel, JumpHostRule};
use sojourn::app::{Key, KeyInput};
use sojourn::config::InventoryConfig;
use sojourn::discovery::DiscoveredSource;
use sojourn::wizard::{default_ip_labels, IpLabelField, Wizard, WizardAction, WizardStep};

fn key(code: KeyInput) -> Key {
    Key { code, modifiers: 0 }
}

fn ch(c: char) -> Key {
    key(KeyInput::Char(c))
}

fn src(path: &str, selected: bool) -> DiscoveredSource {
    DiscoveredSource {
        config: InventoryConfig::Ansible { path: path.to_string() },
        label: format!("{}  (1 hosts, ansible)", path),
        host_count: 1,
        selected,
    }
}

fn typed(w: &mut Wizard, s: &str) {
    for c in s.chars() {
        assert_eq!(w.handle_key(ch(c)), WizardAction::Continue);
    }
}

#[test]
fn starts_scanning_with_default_labels() {
    let w = Wizard::new(None);
    assert_eq!(w.step, WizardStep::Scanning);
    assert!(w.sources.is_empty());
    assert_eq!(w.ip_labels.len(), 3);
    assert_eq!(w.ip_labels[0].pattern, "192.168.*");
    assert_eq!(w.ip_labels[0].color.as_deref(), Some("green"));
    assert_eq!(w.ip_labels[2].label, "Private (172.16)");
    assert_eq!(default_ip_labels()[1].pattern, "10.0.*");
}

#[test]
fn scanned_sources_are_deduplicated_by_path() {
    let mut w = Wizard::new(None);
    w.add_scanned_source(src("/a/hosts_*", true));
    w.add_scanned_source(src("/b/hosts_*", true));
    w.add_scanned_source(src("/a/hosts_*", false));
    assert_eq!(w.sources.len(), 2);
    assert!(w.sources[0].selected);
}

#[test]
fn scan_ends_by_key_or_by_tick() {
    let mut w = Wizard::new(None);
    w.handle_key(key(KeyInput::Enter));
    assert_eq!(w.step, WizardStep::ReviewSources);
    assert!(w.scan_done);

    let mut v = Wizard::new(None);
    v.tick();
    assert_eq!(v.step, WizardStep::Scanning);
    assert_eq!(v.spinner_tick, 1);
    v.finish_scan();
    v.cursor = 3;
    v.tick();
    assert_eq!(v.step, WizardStep::ReviewSources);
    assert_eq!(v.cursor, 0);
}

#[test]
fn control_c_quits_anywhere() {
    let mut w = Wizard::new(None);
    w.step = WizardStep::ManualAdd;
    let r = w.handle_key(Key { code: KeyInput::Char('c'), modifiers: 2 });
    assert_eq!(r, WizardAction::Quit);
    assert!(w.manual_input.is_empty());
    let r2 = w.handle_key(Key { code: KeyInput::Char('c'), modifiers: 3 });
    assert_eq!(r2, WizardAction::Quit);
}

#[test]
fn review_moves_toggles_and_opens_manual_add() {
    let mut w = Wizard::new(None);
    w.add_scanned_source(src("/a", true));
    w.add_scanned_source(src("/b", true));
    w.handle_key(key(KeyInput::Enter));
    w.handle_key(ch(' '));
    assert!(!w.sources[0].selected);
    w.handle_key(ch('j'));
    w.handle_key(key(KeyInput::Down));
    w.handle_key(key(KeyInput::Down));
    assert_eq!(w.cursor, 2);
    w.handle_key(ch(' '));
    assert!(w.sources[1].selected);
    w.manual_input = "old".to_string();
    w.handle_key(key(KeyInput::Enter));
    assert_eq!(w.step, WizardStep::ManualAdd);
    assert!(w.manual_input.is_empty());
    assert!(w.manual_error.is_none());
}

#[test]
fn manual_add_typing_and_commit_request() {
    let mut w = Wizard::new(None);
    w.step = WizardStep::ManualAdd;
    w.manual_error = Some("earlier".to_string());
    typed(&mut w, "~/invx");
    assert!(w.manual_error.is_none());
    w.handle_key(key(KeyInput::Backspace));
    assert_eq!(w.manual_input, "~/inv");
    assert_eq!(w.handle_key(key(KeyInput::Enter)), WizardAction::CommitManualAdd);
    assert_eq!(w.step, WizardStep::ManualAdd);
    w.handle_key(key(KeyInput::Esc));
    assert_eq!(w.step, WizardStep::ReviewSources);
}

#[test]
fn manual_candidates() {
    let home = Some("/h".to_string());
    let mut w = Wizard::new(None);
    w.manual_input = "  ~/inv/ ".to_string();
    let (c, t, raw) = w.manual_candidate_with_home(&home).unwrap();
    assert_eq!(c.path(), "/h/inv/*/hosts_*");
    assert!(matches!(c, InventoryConfig::Ansible { .. }));
    assert_eq!(t, "ansible");
    assert_eq!(raw, "~/inv/");

    w.manual_input = "/x/hosts.yml".to_string();
    let (c2, t2, _) = w.manual_candidate_with_home(&home).unwrap();
    assert!(matches!(c2, InventoryConfig::Yaml { .. }));
    assert_eq!(t2, "yaml");

    w.manual_input = "/x/*/hosts_*".to_string();
    let (c3, _, _) = w.manual_candidate_with_home(&home).unwrap();
    assert_eq!(c3.path(), "/x/*/hosts_*");

    w.manual_input = "   ".to_string();
    assert!(w.manual_candidate_with_home(&home).is_none());
    assert_eq!(w.manual_error.as_deref(), Some("Path cannot be empty."));
}

#[test]
fn completing_a_manual_add() {
    let mut w = Wizard::new(None);
    w.step = WizardStep::ManualAdd;
    w.add_scanned_source(src("/a", true));
    w.complete_manual_add("~/inv", InventoryConfig::Ansible { path: "/h/inv/*/hosts_*".to_string() }, "ansible", 0);
    assert_eq!(
        w.manual_error.as_deref(),
        Some("No hosts found at '~/inv'. Check the path and try again.")
    );
    assert_eq!(w.sources.len(), 1);
    assert_eq!(w.step, WizardStep::ManualAdd);
    w.complete_manual_add("~/inv", InventoryConfig::Ansible { path: "/h/inv/*/hosts_*".to_string() }, "ansible", 3);
    assert_eq!(w.sources.len(), 2);
    assert_eq!(w.sources[1].label, "~/inv  (3 hosts, ansible)");
    assert!(w.sources[1].selected);
    assert_eq!(w.step, WizardStep::ReviewSources);
    assert_eq!(w.cursor, 1);
}

#[test]
fn ip_label_entry_flow() {
    let mut w = Wizard::new(None);
    w.step = WizardStep::IpLabels;
    w.handle_key(key(KeyInput::Down));
    w.handle_key(key(KeyInput::Down));
    w.handle_key(key(KeyInput::Down));
    w.handle_key(key(KeyInput::Down));
    assert_eq!(w.ip_label_cursor, 3);
    w.handle_key(key(KeyInput::Enter));
    assert_eq!(w.step, WizardStep::AddIpLabel);
    assert_eq!(w.label_entry.as_ref().unwrap().editing_field, IpLabelField::Pattern);
    typed(&mut w, " 10.80.*");
    w.handle_key(key(KeyInput::Tab));
    typed(&mut w, "Office ");
    w.handle_key(key(KeyInput::Backspace));
    typed(&mut w, "x");
    {
        let e = w.label_entry.as_ref().unwrap();
        assert_eq!(e.pattern_input, " 10.80.*");
        assert_eq!(e.label_input, "Officex");
    }
    w.handle_key(key(KeyInput::Enter));
    assert_eq!(w.step, WizardStep::IpLabels);
    assert!(w.label_entry.is_none());
    assert_eq!(w.ip_labels.len(), 4);
    assert_eq!(w.ip_labels[3].pattern, "10.80.*");
    assert_eq!(w.ip_labels[3].label, "Officex");
    assert_eq!(w.ip_label_cursor, 4);
}

#[test]
fn blank_label_entry_adds_nothing() {
    let mut w = Wizard::new(None);
    w.step = WizardStep::IpLabels;
    w.ip_label_cursor = 3;
    w.handle_key(key(KeyInput::Enter));
    typed(&mut w, "10.*");
    w.handle_key(key(KeyInput::Enter));
    assert_eq!(w.ip_labels.len(), 3);
    assert_eq!(w.ip_label_cursor, 3);
    w.handle_key(key(KeyInput::Enter));
    w.handle_key(key(KeyInput::Esc));
    assert!(w.label_entry.is_none());
    assert_eq!(w.step, WizardStep::IpLabels);
}

#[test]
fn deleting_labels_and_finishing() {
    let mut w = Wizard::new(None);
    w.step = WizardStep::IpLabels;
    w.ip_label_cursor = 1;
    w.handle_key(ch('d'));
    assert_eq!(w.ip_labels.len(), 2);
    assert_eq!(w.ip_labels[1].pattern, "172.16.*");
    assert_eq!(w.ip_label_cursor, 0);
    w.handle_key(key(KeyInput::Delete));
    assert_eq!(w.ip_labels.len(), 1);
    assert_eq!(w.ip_label_cursor, 0);
    w.handle_key(ch('s'));
    assert_eq!(w.step, WizardStep::Done);
}

#[test]
fn review_enter_goes_to_labels_and_n_skips() {
    let mut w = Wizard::new(None);
    w.add_scanned_source(src("/a", true));
    w.step = WizardStep::ReviewSources;
    w.ip_label_cursor = 2;
    w.handle_key(key(KeyInput::Enter));
    assert_eq!(w.step, WizardStep::IpLabels);
    assert_eq!(w.ip_label_cursor, 0);
    w.handle_key(key(KeyInput::Enter));
    assert_eq!(w.step, WizardStep::Done);

    let mut v = Wizard::new(None);
    v.step = WizardStep::ReviewSources;
    v.handle_key(ch('n'));
    assert_eq!(v.step, WizardStep::Done);
}

#[test]
fn config_keeps_selected_sources() {
    let mut w = Wizard::new(None);
    w.add_scanned_source(src("/a", true));
    w.add_scanned_source(src("/b", false));
    w.add_scanned_source(src("/c", true));
    let c = w.build_config();
    let paths: Vec<String> = c.inventory.iter().map(|i| i.path()).collect();
    assert_eq!(paths, vec!["/a".to_string(), "/c".to_string()]);
    assert_eq!(c.ip_labels.len(), 3);
    assert!(c.jump_hosts.is_empty());
    assert!(c.host_overrides.is_empty());
    assert_eq!(c.settings.theme, "default");
}

#[test]
fn rerun_prefills_existing_config() {
    let mut c = Config::default();
    c.settings.theme = "nord".to_string();
    c.settings.default_user = Some("ops".to_string());
    c.inventory.push(InventoryConfig::Yaml { path: "/h.yaml".to_string() });
    c.ip_labels = vec![IpLabel { pattern: "10.9.*".to_string(), label: "Lab".to_string(), color: None }];
    c.jump_hosts.push(JumpHostRule { host_pattern: "int-*".to_string(), jump_host: "b".to_string(), user: None });
    c.host_overrides.push(HostOverride {
        hostname: "web".to_string(),
        user: Some("u".to_string()),
        label: None,
        alias: None,
        jump_host: None,
    });
    let mut w = Wizard::new(Some(c));
    assert_eq!(w.sources.len(), 2);
    assert!(w.sources.iter().all(|s| s.selected));
    assert_eq!(w.sources[1].label, "[yaml]       /h.yaml");
    assert_eq!(w.ip_labels.len(), 1);
    w.add_scanned_source(src("/h.yaml", false));
    assert_eq!(w.sources.len(), 2);
    let out = w.build_config();
    assert_eq!(out.inventory.len(), 2);
    assert_eq!(out.settings.theme, "nord");
    assert_eq!(out.settings.default_user.as_deref(), Some("ops"));
    assert_eq!(out.jump_hosts.len(), 1);
    assert_eq!(out.host_overrides.len(), 1);
    assert_eq!(out.ip_labels[0].label, "Lab");
}

#[test]
fn batches_of_scanned_sources() {
    let mut w = Wizard::new(None);
    w.add_scanned_sources(vec![src("/a", true), src("/b", true), src("/a", false)]);
    assert_eq!(w.sources.len(), 2);
    w.add_scanned_sources(vec![src("/b", true), src("/c", true)]);
    let paths: Vec<String> = w.sources.iter().map(|s| s.config.path()).collect();
    assert_eq!(paths, vec!["/a".to_string(), "/b".to_string(), "/c".to_string()]);
}

#[test]
fn no_scanned_sources_after_scan_finished() {
    let mut w = Wizard::new(None);
    w.add_scanned_sources(vec![src("/a", true)]);
    w.finish_scan();
    w.add_scanned_sources(vec![src("/b", true), src("/c", true)]);
    assert_eq!(w.sources.len(), 1);
    assert_eq!(w.sources[0].config.path(), "/a".to_string());
    assert!(w.scan_done);
}
