//! Hosts listed by Teleport's `tsh ls --format=json`.

use vstd::prelude::*;
use crate::text::{chars_of, concat, find_char, find_char_vec, opt_view, slice_of, string_from, string_of, strings_view, trim, trim_str};
use crate::external::{path_exists, tsh_json_nodes, tsh_json_nodes_of, tsh_json_valid};
use super::{Host, HostModel, all_tags_wf, hosts_view, keys_distinct, tags_view};

verus! {

/// An inventory listed by the Teleport client `tsh`.
pub struct TeleportInventory {
    pub tsh_binary: String,
    pub proxy: Option<String>,
}

/// The fields of one node of `tsh ls --format=json` that hosts are built
/// from: `spec.hostname`, `metadata.name`, `spec.addr` (each when it is a
/// string) and the `metadata.labels` entries (value when it is a string).
pub struct TshNode {
    pub spec_hostname: Option<String>,
    pub metadata_name: Option<String>,
    pub addr: Option<String>,
    pub labels: Vec<(String, Option<String>)>,
}

pub struct TshNodeModel {
    pub spec_hostname: Option<Seq<char>>,
    pub metadata_name: Option<Seq<char>>,
    pub addr: Option<Seq<char>>,
    pub labels: Seq<(Seq<char>, Option<Seq<char>>)>,
}

impl View for TshNode {
    type V = TshNodeModel;

    open spec fn view(&self) -> TshNodeModel {
        TshNodeModel {
            spec_hostname: opt_view(self.spec_hostname),
            metadata_name: opt_view(self.metadata_name),
            addr: opt_view(self.addr),
            labels: self.labels@.map_values(|p: (String, Option<String>)| (p.0@, opt_view(p.1))),
        }
    }
}

pub open spec fn nodes_view(v: Seq<TshNode>) -> Seq<TshNodeModel> {
    v.map_values(|n: TshNode| n@)
}

/// The arguments of a `tsh` subcommand, with `--proxy=` when a proxy is set.
pub open spec fn tsh_args_of(subcommand: Seq<char>, proxy: Option<Seq<char>>) -> Seq<Seq<char>> {
    match proxy {
        Some(p) => seq![subcommand, "--proxy="@ + p],
        None => seq![subcommand],
    }
}

/// The labels whose values are strings, as tags.
pub open spec fn string_labels(ls: Seq<(Seq<char>, Option<Seq<char>>)>) -> Seq<(Seq<char>, Seq<char>)>
    decreases ls.len(),
{
    if ls.len() == 0 {
        seq![]
    } else {
        let prev = string_labels(ls.drop_last());
        match ls.last().1 {
            Some(v) => prev.push((ls.last().0, v)),
            None => prev,
        }
    }
}

/// Every key of the string labels is a key of the labels, and keys that
/// were distinct stay distinct.
proof fn lemma_string_labels_keys(ls: Seq<(Seq<char>, Option<Seq<char>>)>)
    ensures
        forall|j: int| 0 <= j < string_labels(ls).len() ==> exists|i: int| 0 <= i < ls.len() && #[trigger] ls[i].0 == (#[trigger] string_labels(ls)[j]).0,
        keys_distinct(ls) ==> keys_distinct(string_labels(ls)),
    decreases ls.len(),
{
    if ls.len() > 0 {
        let d = ls.drop_last();
        lemma_string_labels_keys(d);
        let prev = string_labels(d);
        assert forall|j: int| 0 <= j < string_labels(ls).len() implies exists|i: int| 0 <= i < ls.len() && #[trigger] ls[i].0 == (#[trigger] string_labels(ls)[j]).0 by {
            if j < prev.len() {
                let i = choose|i: int| 0 <= i < d.len() && #[trigger] d[i].0 == (#[trigger] prev[j]).0;
                assert(ls[i] == d[i]);
            } else {
                assert(ls[ls.len() - 1].0 == string_labels(ls)[j].0);
            }
        }
        if keys_distinct(ls) {
            assert forall|a: int, b: int| 0 <= a < b < d.len() implies #[trigger] d[a].0 != #[trigger] d[b].0 by {
                assert(d[a] == ls[a] && d[b] == ls[b]);
            }
            let r = string_labels(ls);
            assert forall|a: int, b: int| 0 <= a < b < r.len() implies #[trigger] r[a].0 != #[trigger] r[b].0 by {
                if b >= prev.len() {
                    let i = choose|i: int| 0 <= i < d.len() && #[trigger] d[i].0 == (#[trigger] prev[a]).0;
                    assert(d[i] == ls[i]);
                    assert(r[b].0 == ls[ls.len() - 1].0);
                }
            }
        }
    }
}

/// Nodes whose label keys are distinct give hosts whose tag keys are.
proof fn lemma_tsh_hosts_wf(ns: Seq<TshNodeModel>)
    requires
        forall|i: int| 0 <= i < ns.len() ==> keys_distinct(#[trigger] ns[i].labels),
    ensures
        all_tags_wf(tsh_hosts(ns)),
    decreases ns.len(),
{
    if ns.len() > 0 {
        let d = ns.drop_last();
        assert forall|i: int| 0 <= i < d.len() implies keys_distinct(#[trigger] d[i].labels) by {
            assert(d[i] == ns[i]);
        }
        lemma_tsh_hosts_wf(d);
        lemma_string_labels_keys(ns.last().labels);
    }
}

/// The host of one node: named by `spec.hostname`, else `metadata.name`
/// (skipped when neither gives a nonempty name), addressed by `spec.addr`
/// up to its first `:`, tagged with its string labels.
pub open spec fn tsh_node_host(n: TshNodeModel) -> Option<HostModel> {
    let hostname = match n.spec_hostname {
        Some(h) => h,
        None => match n.metadata_name {
            Some(m) => m,
            None => seq![],
        },
    };
    if hostname.len() == 0 {
        None
    } else {
        let addr = match n.addr {
            Some(a) => a,
            None => seq![],
        };
        let ip = if addr.len() == 0 {
            None
        } else {
            match find_char(addr, ':') {
                Some(k) => Some(addr.take(k)),
                None => Some(addr),
            }
        };
        Some(
            HostModel {
                hostname,
                ip,
                user: None,
                port: None,
                identity_file: None,
                jump_host: None,
                groups: seq![],
                source: "teleport"@,
                tags: string_labels(n.labels),
                label: None,
                alias: None,
            },
        )
    }
}

pub open spec fn tsh_hosts(ns: Seq<TshNodeModel>) -> Seq<HostModel>
    decreases ns.len(),
{
    if ns.len() == 0 {
        seq![]
    } else {
        let prev = tsh_hosts(ns.drop_last());
        match tsh_node_host(ns.last()) {
            Some(h) => prev.push(h),
            None => prev,
        }
    }
}

impl TeleportInventory {
    /// The arguments for `tsh <subcommand>`, with the proxy when one is set.
    pub fn tsh_args(&self, subcommand: &str) -> (r: Vec<String>)
        ensures
            strings_view(r@) == tsh_args_of(subcommand@, opt_view(self.proxy)),
    {
        let mut args: Vec<String> = Vec::new();
        args.push(string_from(subcommand));
        if let Some(proxy) = &self.proxy {
            let a = concat(&chars_of("--proxy="), &chars_of(proxy.as_str()));
            args.push(string_of(&a));
        }
        assert(strings_view(args@) =~= tsh_args_of(subcommand@, opt_view(self.proxy)));
        args
    }
}

fn node_host(n: &TshNode) -> (r: Option<Host>)
    ensures
        match r {
            Some(h) => tsh_node_host(n@) == Some(h@),
            None => tsh_node_host(n@) is None,
        },
{
    let hostname: Vec<char> = match &n.spec_hostname {
        Some(h) => chars_of(h.as_str()),
        None => match &n.metadata_name {
            Some(m) => chars_of(m.as_str()),
            None => Vec::new(),
        },
    };
    if hostname.len() == 0 {
        return None;
    }
    let addr: Vec<char> = match &n.addr {
        Some(a) => chars_of(a.as_str()),
        None => Vec::new(),
    };
    let ip = if addr.len() == 0 {
        None
    } else {
        match find_char_vec(&addr, ':') {
            Some(k) => {
                let p = slice_of(&addr, 0, k);
                assert(p@ =~= addr@.take(k as int));
                Some(string_of(&p))
            },
            None => Some(string_of(&addr)),
        }
    };
    let ghost ls = n@.labels;
    let mut tags: Vec<(String, String)> = Vec::new();
    let mut i: usize = 0;
    while i < n.labels.len()
        invariant
            i <= n.labels.len(),
            ls == n@.labels,
            tags_view(tags@) == string_labels(ls.take(i as int)),
        decreases n.labels.len() - i,
    {
        assert(ls.take(i + 1).drop_last() =~= ls.take(i as int));
        assert(ls.take(i + 1).last() == (n.labels@[i as int].0@, opt_view(n.labels@[i as int].1)));
        if let Some(v) = &n.labels[i].1 {
            let ghost before = tags@;
            let k = n.labels[i].0.clone();
            let vv = v.clone();
            tags.push((k, vv));
            assert(tags_view(tags@) =~= tags_view(before).push((k@, vv@)));
        }
        i += 1;
    }
    assert(ls.take(n.labels.len() as int) =~= ls);
    let h = Host {
        hostname: string_of(&hostname),
        ip,
        user: None,
        port: None,
        identity_file: None,
        jump_host: None,
        groups: Vec::new(),
        source: string_from("teleport"),
        tags,
        label: None,
        alias: None,
    };
    assert(strings_view(h.groups@) =~= seq![]);
    Some(h)
}

/// The hosts of the nodes listed by `tsh ls`, in order; nodes without a
/// name are skipped.
pub fn parse_tsh_nodes(nodes: &Vec<TshNode>) -> (r: Vec<Host>)
    ensures
        hosts_view(r@) == tsh_hosts(nodes_view(nodes@)),
{
    let ghost ns = nodes_view(nodes@);
    let mut hosts: Vec<Host> = Vec::new();
    let mut i: usize = 0;
    while i < nodes.len()
        invariant
            i <= nodes.len(),
            ns == nodes_view(nodes@),
            hosts_view(hosts@) == tsh_hosts(ns.take(i as int)),
        decreases nodes.len() - i,
    {
        assert(ns.take(i + 1).drop_last() =~= ns.take(i as int));
        assert(ns.take(i + 1).last() == nodes@[i as int]@);
        if let Some(h) = node_host(&nodes[i]) {
            let ghost before = hosts@;
            hosts.push(h);
            assert(hosts_view(hosts@) =~= hosts_view(before).push(h@));
        }
        i += 1;
    }
    assert(ns.take(nodes.len() as int) =~= ns);
    hosts
}

/// Parses the output of `tsh ls --format=json` (surrounding whitespace
/// trimmed) into hosts; `None` when it is not a JSON list of nodes. The
/// hosts' tag keys are distinct.
pub fn parse_tsh_ls(json: &str) -> (r: Option<Vec<Host>>)
    ensures
        match r {
            Some(hs) => tsh_json_valid(trim(json@)) && hosts_view(hs@) == tsh_hosts(tsh_json_nodes_of(trim(json@)))
                && all_tags_wf(hosts_view(hs@)),
            None => !tsh_json_valid(trim(json@)),
        },
{
    let t = trim_str(json);
    match tsh_json_nodes(t.as_str()) {
        Some(nodes) => {
            let hs = parse_tsh_nodes(&nodes);
            proof {
                let ns = nodes_view(nodes@);
                assert forall|i: int| 0 <= i < ns.len() implies keys_distinct(#[trigger] ns[i].labels) by {
                    assert(ns[i].labels == nodes@[i]@.labels);
                }
                lemma_tsh_hosts_wf(ns);
            }
            Some(hs)
        },
        None => None,
    }
}

/// The common install locations of `tsh`, in the order they are checked.
pub open spec fn tsh_paths() -> Seq<Seq<char>> {
    seq![
        "/usr/local/bin/tsh"@,
        "/usr/bin/tsh"@,
        "/opt/homebrew/bin/tsh"@,
        "/opt/homebrew/sbin/tsh"@,
        "/home/linuxbrew/.linuxbrew/bin/tsh"@,
    ]
}

fn tsh_path_strs() -> (v: Vec<&'static str>)
    ensures
        v@.map_values(|s: &str| s@) == tsh_paths(),
{
    let mut v: Vec<&'static str> = Vec::new();
    v.push("/usr/local/bin/tsh");
    v.push("/usr/bin/tsh");
    v.push("/opt/homebrew/bin/tsh");
    v.push("/opt/homebrew/sbin/tsh");
    v.push("/home/linuxbrew/.linuxbrew/bin/tsh");
    assert(v@.map_values(|s: &str| s@) =~= tsh_paths());
    v
}

/// The index of the first `true`, if any.
pub open spec fn first_true(v: Seq<bool>) -> Option<int>
    decreases v.len(),
{
    if v.len() == 0 {
        None
    } else if v[0] {
        Some(0)
    } else {
        match first_true(v.drop_first()) {
            Some(i) => Some(i + 1),
            None => None,
        }
    }
}

/// Which install location to use, given which of them exist: the first
/// that does.
pub fn tsh_choice(exists: &Vec<bool>) -> (r: Option<usize>)
    requires
        exists@.len() == tsh_paths().len(),
    ensures
        match r {
            Some(i) => first_true(exists@) == Some(i as int),
            None => first_true(exists@) is None,
        },
{
    let mut i: usize = exists.len();
    let mut found: Option<usize> = None;
    while i > 0
        invariant
            i <= exists.len(),
            match found {
                Some(j) => first_true(exists@.skip(i as int)) == Some(j - i) && i <= j < exists.len(),
                None => first_true(exists@.skip(i as int)) is None,
            },
        decreases i,
    {
        assert(exists@.skip(i - 1).drop_first() =~= exists@.skip(i as int));
        i -= 1;
        if exists[i] {
            found = Some(i);
        }
    }
    assert(exists@.skip(0) =~= exists@);
    found
}

/// What `find_tsh_binary` returns for the existence flags of the install
/// locations: the first location that exists, else the PATH lookup's result.
pub open spec fn tsh_found<F: FnOnce() -> Option<String>>(flags: Seq<bool>, which_tsh: F, r: Option<String>) -> bool {
    &&& flags.len() == tsh_paths().len()
    &&& match first_true(flags) {
        Some(i) => opt_view(r) == Some(tsh_paths()[i]),
        None => which_tsh.ensures((), r),
    }
}

/// Finds the tsh binary, checking common install locations before $PATH:
/// the locations are probed in order until one exists (those after it are
/// not probed and count as absent), and `which_tsh` (the PATH lookup) is
/// called only when none does.
pub fn find_tsh_binary<F: FnOnce() -> Option<String>>(which_tsh: F) -> (r: Option<String>)
    requires
        which_tsh.requires(()),
    ensures
        exists|flags: Seq<bool>| #[trigger] tsh_found(flags, which_tsh, r),
{
    let cands = tsh_path_strs();
    let mut flags: Vec<bool> = Vec::new();
    let mut i: usize = 0;
    let mut hit = false;
    while i < cands.len()
        invariant
            i <= cands.len(),
            flags@.len() == i,
            cands@.len() == tsh_paths().len(),
            cands@.map_values(|s: &str| s@) == tsh_paths(),
            !hit ==> forall|j: int| 0 <= j < i ==> !flags@[j],
            hit ==> i == cands.len() && first_true(flags@) is Some,
            !hit ==> first_true(flags@) is None,
        decreases cands.len() - i,
    {
        let e = if hit { false } else { path_exists(cands[i]) };
        let ghost before = flags@;
        flags.push(e);
        proof {
            lemma_first_true_push(before, e);
        }
        if e {
            hit = true;
            while flags.len() < cands.len()
                invariant
                    flags@.len() <= cands.len(),
                    cands@.len() == tsh_paths().len(),
                    first_true(flags@) is Some,
                decreases cands.len() - flags.len(),
            {
                let ghost b2 = flags@;
                flags.push(false);
                proof {
                    lemma_first_true_push(b2, false);
                }
            }
            i = cands.len();
        } else {
            i += 1;
        }
    }
    match tsh_choice(&flags) {
        Some(k) => {
            proof {
                lemma_first_true_in_range(flags@);
            }
            let r = string_from(cands[k]);
            assert(cands@.map_values(|s: &str| s@)[k as int] == tsh_paths()[k as int]);
            assert(tsh_found(flags@, which_tsh, Some(r)));
            Some(r)
        },
        None => {
            let r = which_tsh();
            assert(tsh_found(flags@, which_tsh, r));
            r
        },
    }
}

proof fn lemma_first_true_in_range(v: Seq<bool>)
    ensures
        first_true(v) matches Some(i) ==> 0 <= i < v.len() && v[i],
    decreases v.len(),
{
    if v.len() > 0 {
        lemma_first_true_in_range(v.drop_first());
    }
}

proof fn lemma_first_true_push(v: Seq<bool>, b: bool)
    ensures
        first_true(v) matches Some(i) ==> first_true(v.push(b)) == Some(i),
        first_true(v) is None && b ==> first_true(v.push(b)) == Some(v.len() as int),
        first_true(v) is None && !b ==> first_true(v.push(b)) is None,
    decreases v.len(),
{
    if v.len() == 0 {
        assert(v.push(b).drop_first() =~= Seq::<bool>::empty());
    } else {
        assert(v.push(b).drop_first() =~= v.drop_first().push(b));
        lemma_first_true_push(v.drop_first(), b);
    }
}

} // verus!
