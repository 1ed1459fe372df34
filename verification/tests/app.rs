use sojourn::app::{load_warning, App, AppAction, EditField, Key, KeyInput, Mode, SourceFilter};
use sojourn::config::{Config, InventoryConfig};
use sojourn::inventory::Host;
use sojourn::theme::ThemeKind;

fn key(code: KeyInput) -> Key {
    Key { code, modifiers: 0 }
}

fn ch(c: char) -> Key {
    key(KeyInput::Char(c))
}

fn ctrl(c: char) -> Key {
    Key { code: KeyInput::Char(c), modifiers: 2 }
}

fn host(name: &str, ip: &str) -> Host {
    Host {
        hostname: name.to_string(),
        ip: Some(ip.to_string()),
        source: "t".to_string(),
        ..Default::default()
    }
}

fn sample() -> App {
    let hosts = vec![
        host("web.example.com", "10.0.0.1"),
        host("db.example.com", "10.0.0.2"),
        host("cache", "10.0.0.3"),
    ];
    App::new(Config::default(), String::new(), hosts, None)
}

fn listed(app: &App) -> Vec<String> {
    app.filtered.iter().map(|(i, _)| app.hosts[*i].hostname.clone()).collect()
}

#[test]
fn edit_field_cycle() {
    assert_eq!(EditField::User.next(), EditField::Alias);
    assert_eq!(EditField::JumpHost.next(), EditField::User);
    assert_eq!(EditField::User.prev(), EditField::JumpHost);
    assert_eq!(EditField::Label.prev(), EditField::Alias);
    for f in [EditField::User, EditField::Alias, EditField::Label, EditField::JumpHost] {
        assert_eq!(f.next().prev(), f);
        assert_eq!(f.next().next().next().next(), f);
    }
}

#[test]
fn starts_in_search_sorted_by_name() {
    let mut c = Config::default();
    c.settings.theme = "Nord".to_string();
    let app = App::new(c, String::new(), vec![host("b.x", "1.1.1.2"), host("a.x", "1.1.1.1")], Some("w".to_string()));
    assert_eq!(app.mode, Mode::Search);
    assert_eq!(listed(&app), vec!["a.x".to_string(), "b.x".to_string()]);
    assert_eq!(app.list_cursor, 0);
    assert_eq!(app.status.as_deref(), Some("w"));
    assert_eq!(app.theme, ThemeKind::Nord);
    assert_eq!(app.selected_host().map(|h| h.hostname.as_str()), Some("a.x"));
}

#[test]
fn typing_filters_and_escape_clears() {
    let mut app = sample();
    assert_eq!(app.handle_key(ch('d')), AppAction::Nothing);
    assert_eq!(app.handle_key(ch('b')), AppAction::Nothing);
    assert_eq!(app.query, "db");
    assert_eq!(listed(&app), vec!["db.example.com".to_string()]);
    let idx = app.highlight_indices("db.example.com");
    assert_eq!(idx, vec![0, 1]);
    app.handle_key(key(KeyInput::Backspace));
    assert_eq!(app.query, "d");
    app.handle_key(key(KeyInput::Esc));
    assert_eq!(app.query, "");
    assert_eq!(app.filtered.len(), 3);
    assert_eq!(app.mode, Mode::Search);
    app.handle_key(key(KeyInput::Esc));
    assert_eq!(app.mode, Mode::Navigate);
}

#[test]
fn blank_query_highlights_nothing() {
    let app = sample();
    assert!(app.highlight_indices("cache").is_empty());
}

#[test]
fn navigation_and_help() {
    let mut app = sample();
    app.handle_key(key(KeyInput::Tab));
    assert_eq!(app.mode, Mode::Navigate);
    assert_eq!(app.list_cursor, 1);
    app.handle_key(ch('j'));
    app.handle_key(ch('j'));
    assert_eq!(app.list_cursor, 2);
    app.handle_key(ch('k'));
    assert_eq!(app.list_cursor, 1);
    app.handle_key(key(KeyInput::PageUp));
    assert_eq!(app.list_cursor, 0);
    app.handle_key(key(KeyInput::PageDown));
    assert_eq!(app.list_cursor, 2);
    app.handle_key(ch('?'));
    assert_eq!(app.mode, Mode::Help);
    app.handle_key(ch('x'));
    assert_eq!(app.mode, Mode::Help);
    app.handle_key(key(KeyInput::F(1)));
    assert_eq!(app.mode, Mode::Navigate);
    app.handle_key(ch('/'));
    assert_eq!(app.mode, Mode::Search);
}

#[test]
fn multi_selection() {
    let mut app = sample();
    app.handle_key(key(KeyInput::Esc));
    app.handle_key(ch(' '));
    assert_eq!(app.multi_selected.len(), 1);
    assert_eq!(app.list_cursor, 1);
    app.handle_key(ctrl('a'));
    assert_eq!(app.multi_selected.len(), 3);
    app.handle_key(ctrl('d'));
    assert!(app.multi_selected.is_empty());
}

#[test]
fn quitting_and_actions() {
    let mut app = sample();
    assert_eq!(app.handle_key(key(KeyInput::Enter)), AppAction::Connect);
    app.handle_key(ctrl('c'));
    assert!(app.should_quit);

    let mut nav = sample();
    nav.handle_key(key(KeyInput::Esc));
    assert_eq!(nav.handle_key(ch('c')), AppAction::OpenEditor);
    assert_eq!(nav.handle_key(key(KeyInput::Enter)), AppAction::Connect);
    nav.handle_key(ch('q'));
    assert!(nav.should_quit);

    let mut empty = App::new(Config::default(), "zzzz".to_string(), sample().hosts, None);
    assert!(empty.filtered.is_empty());
    assert_eq!(empty.handle_key(key(KeyInput::Enter)), AppAction::Nothing);
}

#[test]
fn edit_overlay_saves_an_override() {
    let mut app = sample();
    app.handle_key(key(KeyInput::Esc));
    app.handle_key(ch('e'));
    assert_eq!(app.mode, Mode::EditHost);
    let idx = app.edit_state.as_ref().unwrap().host_idx;
    assert_eq!(app.hosts[idx].hostname, "cache");
    for c in " root ".chars() {
        app.handle_key(ch(c));
    }
    app.handle_key(key(KeyInput::Tab));
    app.handle_key(key(KeyInput::Tab));
    for c in "cache box".chars() {
        app.handle_key(ch(c));
    }
    app.handle_key(key(KeyInput::Backspace));
    assert_eq!(app.edit_state.as_ref().unwrap().active_field, EditField::Label);
    let r = app.handle_key(key(KeyInput::Enter));
    assert_eq!(r, AppAction::SaveConfig(idx));
    assert!(app.edit_state.is_none());
    assert_eq!(app.hosts[idx].user.as_deref(), Some("root"));
    assert_eq!(app.hosts[idx].label.as_deref(), Some("cache bo"));
    assert!(app.hosts[idx].alias.is_none());
    let ov = app.config.override_for("cache").unwrap();
    assert_eq!(ov.user.as_deref(), Some("root"));
    app.finish_save(idx);
    assert_eq!(app.status.as_deref(), Some("Saved overrides for cache"));
    assert_eq!(app.mode, Mode::Navigate);
}

#[test]
fn edit_overlay_escape_and_clear() {
    let mut app = sample();
    app.handle_key(key(KeyInput::Esc));
    app.handle_key(ch('e'));
    app.handle_key(ch('x'));
    app.handle_key(ctrl('u'));
    assert_eq!(app.edit_state.as_ref().unwrap().user_input, "");
    app.handle_key(key(KeyInput::BackTab));
    assert_eq!(app.edit_state.as_ref().unwrap().active_field, EditField::JumpHost);
    app.handle_key(key(KeyInput::Esc));
    assert!(app.edit_state.is_none());
    assert_eq!(app.mode, Mode::Navigate);
}

#[test]
fn ssh_arguments() {
    let mut c = Config::default();
    c.settings.ssh_extra_args = Some("-o  StrictHostKeyChecking=no -A".to_string());
    let app = App::new(c, String::new(), vec![], None);
    let h = Host {
        hostname: "web".to_string(),
        ip: Some("10.0.0.1".to_string()),
        user: Some("deploy".to_string()),
        port: Some(2222),
        identity_file: Some("~/.ssh/id".to_string()),
        jump_host: Some("bastion".to_string()),
        ..Default::default()
    };
    let args = app.ssh_args_with_home(&h, &Some("/home/u".to_string()));
    let expected: Vec<String> = vec![
        "-J", "bastion", "-i", "/home/u/.ssh/id", "-p", "2222", "-o", "StrictHostKeyChecking=no", "-A",
        "deploy@10.0.0.1",
    ]
    .into_iter()
    .map(|s| s.to_string())
    .collect();
    assert_eq!(args, expected);
    let plain = Host { hostname: "box".to_string(), ..Default::default() };
    assert_eq!(App::new(Config::default(), String::new(), vec![], None).ssh_args_with_home(&plain, &None), vec!["box".to_string()]);
}

#[test]
fn load_warnings() {
    assert_eq!(
        load_warning(&InventoryConfig::Ansible { path: "p".to_string() }, "bad glob"),
        "Warning: Ansible inventory failed: bad glob"
    );
    assert_eq!(
        load_warning(&InventoryConfig::ShellAlias { path: "p".to_string() }, "e"),
        "Warning: shell alias scan failed: e"
    );
}

#[test]
fn scroll_follows_cursor() {
    let mut app = sample();
    app.handle_key(key(KeyInput::Esc));
    app.handle_key(ch('j'));
    app.handle_key(ch('j'));
    app.adjust_scroll(2);
    assert_eq!(app.list_scroll, 1);
    app.handle_key(ch('k'));
    app.handle_key(ch('k'));
    app.adjust_scroll(2);
    assert_eq!(app.list_scroll, 0);
}

#[test]
fn ctrl_d_in_search_clears_selection() {
    let mut app = sample();
    app.handle_key(key(KeyInput::Esc));
    app.handle_key(ctrl('a'));
    app.handle_key(ch('/'));
    assert_eq!(app.mode, Mode::Search);
    app.handle_key(ctrl('d'));
    assert!(app.multi_selected.is_empty());
    assert!(!app.should_quit);
    assert_eq!(app.mode, Mode::Search);
}

#[test]
fn tab_in_list_focuses_search() {
    let mut app = App::new(Config::default(), "e".to_string(), sample().hosts, None);
    app.handle_key(key(KeyInput::Down));
    let cursor = app.list_cursor;
    app.handle_key(key(KeyInput::Tab));
    assert_eq!(app.mode, Mode::Search);
    assert_eq!(app.list_cursor, cursor);
    assert_eq!(app.query, "e");
}

#[test]
fn source_filter_cycles() {
    let mut tele = host("node1", "10.9.0.1");
    tele.source = "teleport".to_string();
    let mut app = App::new(Config::default(), String::new(), vec![host("web.example.com", "10.0.0.1"), tele], None);
    app.handle_key(key(KeyInput::Esc));
    assert_eq!(app.source_filter, SourceFilter::All);
    assert_eq!(app.filtered.len(), 2);
    app.handle_key(ch('f'));
    assert_eq!(app.source_filter, SourceFilter::Ssh);
    assert_eq!(listed(&app), vec!["web.example.com".to_string()]);
    app.handle_key(ch('f'));
    assert_eq!(app.source_filter, SourceFilter::Teleport);
    assert_eq!(listed(&app), vec!["node1".to_string()]);
    app.handle_key(ch('f'));
    assert_eq!(app.source_filter, SourceFilter::All);
    assert_eq!(app.filtered.len(), 2);
}
