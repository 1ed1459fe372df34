use sojourn::app::{Mode, SourceFilter};
use sojourn::config::{Config, IpLabel};
use sojourn::inventory::Host;
use sojourn::theme::{theme_kind, ThemeKind};
use sojourn::ui::{
    address_text, connect_command, count_text, highlight_segments, list_columns, location_text,
    mode_hints, search_padding, shorten_display_path_with_home, status_text, truncate_str,
};

fn segs(text: &str, idx: Vec<usize>) -> Vec<(String, bool)> {
    highlight_segments(text, &idx).into_iter().map(|s| (s.text, s.highlighted)).collect()
}

#[test]
fn truncation() {
    assert_eq!(truncate_str("hello", 0), "");
    assert_eq!(truncate_str("hello", 10), "hello");
    assert_eq!(truncate_str("hello", 5), "hello");
    assert_eq!(truncate_str("hello", 3), "he…");
    assert_eq!(truncate_str("hello", 1), "h");
    assert_eq!(truncate_str("héllo wörld", 5), "héll…");
}

#[test]
fn highlighted_runs() {
    assert_eq!(
        segs("abcde", vec![1, 3]),
        vec![
            ("a".to_string(), false),
            ("b".to_string(), true),
            ("c".to_string(), false),
            ("d".to_string(), true),
            ("e".to_string(), false),
        ]
    );
    assert_eq!(segs("abcde", vec![]), vec![("abcde".to_string(), false)]);
    assert_eq!(segs("", vec![]), vec![(String::new(), false)]);
    assert_eq!(segs("ab", vec![0, 1]), vec![("a".to_string(), true), ("b".to_string(), true)]);
    assert_eq!(segs("ab", vec![5]), vec![("ab".to_string(), false)]);
    let joined: String = segs("web-server", vec![0, 4, 5]).into_iter().map(|(t, _)| t).collect();
    assert_eq!(joined, "web-server");
}

#[test]
fn column_widths() {
    assert_eq!(list_columns(100), (44, 22));
    assert_eq!(list_columns(10), (8, 8));
    assert_eq!(list_columns(30), (13, 8));
}

#[test]
fn address_and_location_columns() {
    let mut c = Config::default();
    c.ip_labels.push(IpLabel { pattern: "10.0.*".to_string(), label: "Lab".to_string(), color: None });
    let h = Host {
        hostname: "web".to_string(),
        ip: Some("10.0.0.1".to_string()),
        user: Some("deploy".to_string()),
        ..Default::default()
    };
    assert_eq!(address_text(&h), "10.0.0.1");
    assert_eq!(location_text(&h, &c).as_deref(), Some("Lab"));
    assert_eq!(connect_command(&h), "ssh deploy@10.0.0.1");
    let aliased = Host { alias: Some("w".to_string()), ..h.clone() };
    assert_eq!(address_text(&aliased), "w");
    let bare = Host { hostname: "box".to_string(), ..Default::default() };
    assert_eq!(address_text(&bare), "—");
    assert!(location_text(&bare, &c).is_none());
    assert_eq!(connect_command(&bare), "ssh box");
}

#[test]
fn details_paths() {
    let none: Option<String> = None;
    let home = Some("/h".to_string());
    assert_eq!(shorten_display_path_with_home("/a/b", 10, &none).as_deref(), Some("/a/b"));
    assert_eq!(
        shorten_display_path_with_home("/srv/inventories/production/hosts", 10, &none).as_deref(),
        Some("...n/hosts")
    );
    assert_eq!(shorten_display_path_with_home("~/inv/hosts", 12, &home).as_deref(), Some("~/inv/hosts"));
    assert_eq!(shorten_display_path_with_home("~/inv/hosts", 5, &home).as_deref(), Some("...ts"));
    assert_eq!(shorten_display_path_with_home("ééé", 4, &none), None);
    assert_eq!(shorten_display_path_with_home("ééé", 5, &none).as_deref(), Some("...é"));
    assert_eq!(shorten_display_path_with_home("abcdef", 2, &none), None);
}

#[test]
fn bar_texts() {
    assert_eq!(count_text(3, 10), "3/10");
    assert_eq!(search_padding(40, "web", true, "3/10"), 12);
    assert_eq!(search_padding(40, "web", false, "3/10"), 13);
    assert_eq!(search_padding(10, "web", true, "3/10"), 0);
    assert_eq!(status_text(&Some("Saved".to_string()), 2, SourceFilter::All), " Saved");
    assert_eq!(status_text(&None, 2, SourceFilter::All), " 2 selected");
    assert_eq!(status_text(&None, 0, SourceFilter::All), "");
    assert_eq!(status_text(&None, 0, SourceFilter::Teleport), " [teleport]");
    assert_eq!(status_text(&None, 1, SourceFilter::Ssh), " [ssh] 1 selected");
    assert_eq!(mode_hints(Mode::Help), " ? / Esc  close ");
    assert_eq!(mode_hints(Mode::EditHost), " Tab next  ·  Enter save  ·  Esc cancel ");
}

#[test]
fn themes_by_name() {
    assert_eq!(theme_kind("Tokyo Night"), ThemeKind::TokyoNight);
    assert_eq!(theme_kind("tokyo_night"), ThemeKind::TokyoNight);
    assert_eq!(theme_kind("CATPPUCCIN"), ThemeKind::CatppuccinMocha);
    assert_eq!(theme_kind("latte"), ThemeKind::CatppuccinLatte);
    assert_eq!(theme_kind("Rose Pine"), ThemeKind::RosePineDawn);
    assert_eq!(theme_kind("soLarized"), ThemeKind::SolarizedLight);
    assert_eq!(theme_kind("gruvbox-dark"), ThemeKind::GruvboxDark);
    assert_eq!(theme_kind("dracula"), ThemeKind::Dracula);
    assert_eq!(theme_kind("nord"), ThemeKind::Nord);
    assert_eq!(theme_kind("unknown"), ThemeKind::Default);
    assert_eq!(theme_kind(""), ThemeKind::Default);
}

#[test]
fn theme_names_round_trip() {
    for k in [
        ThemeKind::Default,
        ThemeKind::TokyoNight,
        ThemeKind::CatppuccinMocha,
        ThemeKind::CatppuccinLatte,
        ThemeKind::Dracula,
        ThemeKind::GruvboxDark,
        ThemeKind::Nord,
        ThemeKind::SolarizedLight,
        ThemeKind::RosePineDawn,
    ] {
        assert_eq!(theme_kind(&k.name()), k);
    }
    assert_eq!(ThemeKind::TokyoNight.name(), "tokyo-night");
}
