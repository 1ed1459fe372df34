use sojourn::inventory::Host;
use sojourn::search::{all_by_name, SearchEngine};

fn host(name: &str) -> Host {
    Host { hostname: name.to_string(), source: "t".to_string(), ..Default::default() }
}

#[test]
fn search_keeps_only_matches_best_first() {
    let hosts = vec![host("web01"), host("db01"), host("webserver"), host("w-e-b")];
    let engine = SearchEngine::new();
    let r = engine.search("web", &hosts);
    let mut idx: Vec<usize> = r.iter().map(|(i, _)| *i).collect();
    for w in r.windows(2) {
        assert!(w[0].1 > w[1].1 || (w[0].1 == w[1].1 && w[0].0 < w[1].0));
    }
    idx.sort();
    assert_eq!(idx, vec![0, 2, 3]);
}

#[test]
fn search_matches_other_fields() {
    let mut h = host("alpha");
    h.groups = vec!["payments".to_string()];
    let hosts = vec![h, host("beta")];
    let r = SearchEngine::new().search("paym", &hosts);
    assert_eq!(r.len(), 1);
    assert_eq!(r[0].0, 0);
}

#[test]
fn no_match_gives_empty_list() {
    let hosts = vec![host("alpha"), host("beta")];
    assert!(SearchEngine::new().search("zzz", &hosts).is_empty());
}

#[test]
fn highlight_positions() {
    let e = SearchEngine::new();
    assert_eq!(e.highlight_indices("web01", "w1"), vec![0, 4]);
    assert!(e.highlight_indices("web01", "zz").is_empty());
}

#[test]
fn list_by_name() {
    let hosts = vec![host("b"), host("a"), host("c"), host("a")];
    let r = all_by_name(&hosts);
    let idx: Vec<usize> = r.iter().map(|(i, s)| { assert_eq!(*s, 0); *i }).collect();
    assert_eq!(idx, vec![1, 3, 0, 2]);
}
