//! What the first-run scan decides about the files it finds: which names
//! look like inventories, which directories to skip, how `ansible.cfg`
//! points at an inventory, and how a found source is described.

use vstd::prelude::*;
use crate::config::InventoryConfig;
use crate::external::{file_name_of_path, home_dir, path_exists, tilde_expansion, tilde_with_home, parent_of_path, path_file_name, path_parent, char_is_alphanumeric, unicode_alphanumeric};
use crate::text::{
    chars_of, chars_eq, concat, strings_view, decimal, decimal_usize, ends_with, ends_with_vec, is_blank, lines,
    lines_vec, lower_eq, lower_eq_vec, opt_view, replace_str, replace_str_vec, slice_of, starts_with,
    starts_with_vec, string_from, string_of, trim, trim_start, trim_start_vec, trim_vec, utf8_len,
    utf8_len_of, skip_bytes, is_char_boundary, chars_before, vv, words, words_vec, contains_char,
};

verus! {

/// A source found during discovery, ready to be added to config
pub struct DiscoveredSource {
    pub config: InventoryConfig,
    /// human-readable description shown in the wizard
    pub label: String,
    pub host_count: usize,
    /// whether the user has ticked it in the wizard
    pub selected: bool,
}

/// Directories the scan never enters.
pub open spec fn skip_dirs() -> Seq<Seq<char>> {
    seq![
        "node_modules"@, ".git"@, "target"@, "vendor"@, "__pycache__"@, "dist"@, "build"@,
        ".cache"@, ".npm"@, ".cargo"@, "venv"@, ".venv"@, ".tox"@, "coverage"@, ".idea"@,
        ".vscode"@, "roles"@, "collections"@,
    ]
}

fn skip_dirs_exec() -> (r: Vec<Vec<char>>)
    ensures
        vv(r@) == skip_dirs(),
{
    let mut r: Vec<Vec<char>> = Vec::new();
    r.push(chars_of("node_modules"));
    r.push(chars_of(".git"));
    r.push(chars_of("target"));
    r.push(chars_of("vendor"));
    r.push(chars_of("__pycache__"));
    r.push(chars_of("dist"));
    r.push(chars_of("build"));
    r.push(chars_of(".cache"));
    r.push(chars_of(".npm"));
    r.push(chars_of(".cargo"));
    r.push(chars_of("venv"));
    r.push(chars_of(".venv"));
    r.push(chars_of(".tox"));
    r.push(chars_of("coverage"));
    r.push(chars_of(".idea"));
    r.push(chars_of(".vscode"));
    r.push(chars_of("roles"));
    r.push(chars_of("collections"));
    assert(vv(r@) =~= skip_dirs());
    r
}

fn member(list: &Vec<Vec<char>>, x: &Vec<char>) -> (b: bool)
    ensures
        b == vv(list@).contains(x@),
{
    let mut i: usize = 0;
    while i < list.len()
        invariant
            i <= list.len(),
            forall|j: int| 0 <= j < i ==> vv(list@)[j] != x@,
        decreases list.len() - i,
    {
        if chars_eq(&list[i], x) {
            assert(vv(list@)[i as int] == x@);
            return true;
        }
        i += 1;
    }
    false
}

/// Whether the scan skips `path`: hidden entries and the directories above.
pub open spec fn skipped(path: Seq<char>) -> bool {
    match path_file_name(path) {
        Some(n) => (n.len() > 0 && n[0] == '.') || skip_dirs().contains(n),
        None => false,
    }
}

pub fn should_skip(path: &str) -> (b: bool)
    ensures
        b == skipped(path@),
{
    match file_name_of_path(path) {
        Some(n) => {
            let v = chars_of(n.as_str());
            (v.len() > 0 && v[0] == '.') || member(&skip_dirs_exec(), &v)
        },
        None => false,
    }
}

/// File names of environment-named inventories.
pub open spec fn env_names() -> Seq<Seq<char>> {
    seq![
        "inventory"@, "production"@, "staging"@, "development"@, "testing"@, "prod"@, "stage"@,
        "dev"@, "test"@, "local"@,
    ]
}

fn env_names_exec() -> (r: Vec<Vec<char>>)
    ensures
        vv(r@) == env_names(),
{
    let mut r: Vec<Vec<char>> = Vec::new();
    r.push(chars_of("inventory"));
    r.push(chars_of("production"));
    r.push(chars_of("staging"));
    r.push(chars_of("development"));
    r.push(chars_of("testing"));
    r.push(chars_of("prod"));
    r.push(chars_of("stage"));
    r.push(chars_of("dev"));
    r.push(chars_of("test"));
    r.push(chars_of("local"));
    assert(vv(r@) =~= env_names());
    r
}

/// How a file name classifies as an Ansible inventory.
#[derive(Debug, Clone, Copy, PartialEq, Eq, Structural)]
pub enum InventoryFileKind {
    /// Not an inventory.
    No,
    /// An inventory by its name.
    Yes,
    /// An inventory if its content looks like an INI inventory.
    IfIniContent,
}

/// `s` without trailing copies of `suffix` (std `trim_end_matches` with a `&str`).
pub open spec fn trim_suffix_all(s: Seq<char>, suffix: Seq<char>) -> Seq<char>
    decreases s.len(),
{
    if suffix.len() > 0 && ends_with(s, suffix) {
        trim_suffix_all(s.take(s.len() - suffix.len()), suffix)
    } else {
        s
    }
}

/// The classification of an entry: not a file or no name → no; `hosts` or
/// `hosts_*` → yes; an environment name (no extension) → by content; an
/// `.ini` whose stem is `hosts`, `inventory` or an environment name → yes.
pub open spec fn inventory_file_kind(path: Seq<char>, is_file: bool) -> InventoryFileKind {
    if !is_file {
        InventoryFileKind::No
    } else {
        match path_file_name(path) {
            None => InventoryFileKind::No,
            Some(name) => if name == "hosts"@ || starts_with(name, "hosts_"@) {
                InventoryFileKind::Yes
            } else if env_names().contains(name) {
                InventoryFileKind::IfIniContent
            } else if ends_with(name, ".ini"@) && ({
                let stem = trim_suffix_all(name, ".ini"@);
                stem == "hosts"@ || stem == "inventory"@ || env_names().contains(stem)
            }) {
                InventoryFileKind::Yes
            } else {
                InventoryFileKind::No
            },
        }
    }
}

fn trim_suffix_all_vec(s: &Vec<char>, suffix: &Vec<char>) -> (r: Vec<char>)
    requires
        suffix.len() > 0,
    ensures
        r@ == trim_suffix_all(s@, suffix@),
{
    let mut cur = s.clone();
    while ends_with_vec(&cur, suffix)
        invariant
            suffix.len() > 0,
            trim_suffix_all(s@, suffix@) == trim_suffix_all(cur@, suffix@),
        decreases cur.len(),
    {
        let n = cur.len() - suffix.len();
        let t = slice_of(&cur, 0, n);
        assert(t@ =~= cur@.take(cur@.len() - suffix@.len()));
        cur = t;
    }
    cur
}

/// Classifies a file found by the scan as an Ansible inventory (the name
/// rules; the content check is `looks_like_ansible_ini`).
pub fn classify_inventory_file(path: &str, is_file: bool) -> (r: InventoryFileKind)
    ensures
        r == inventory_file_kind(path@, is_file),
{
    if !is_file {
        return InventoryFileKind::No;
    }
    let name = match file_name_of_path(path) {
        Some(n) => chars_of(n.as_str()),
        None => return InventoryFileKind::No,
    };
    let envs = env_names_exec();
    if chars_eq(&name, &chars_of("hosts")) || starts_with_vec(&name, &chars_of("hosts_")) {
        return InventoryFileKind::Yes;
    }
    if member(&envs, &name) {
        return InventoryFileKind::IfIniContent;
    }
    let ini = chars_of(".ini");
    proof {
        reveal_strlit(".ini");
    }
    if ends_with_vec(&name, &ini) {
        let stem = trim_suffix_all_vec(&name, &ini);
        if chars_eq(&stem, &chars_of("hosts")) || chars_eq(&stem, &chars_of("inventory")) || member(&envs, &stem) {
            return InventoryFileKind::Yes;
        }
    }
    InventoryFileKind::No
}

/// Lines that count: not blank, not `#` or `;` comments.
pub open spec fn counts_as_line(l: Seq<char>) -> bool {
    let t = trim(l);
    t.len() > 0 && t[0] != '#' && t[0] != ';'
}

/// A line of an INI inventory: a `[group]` header, or a first word that
/// starts with a letter or digit and is no assignment.
pub open spec fn looks_like_inventory_line(l: Seq<char>) -> bool {
    let t = trim(l);
    (t.len() > 0 && t[0] == '[' && t.last() == ']') || (words(t).len() > 0 && !words(t)[0].contains('=')
        && words(t)[0].len() > 0 && unicode_alphanumeric(words(t)[0][0]))
}

/// Whether some counted line of `content` looks like an INI inventory line.
pub open spec fn looks_like_ini(content: Seq<char>) -> bool {
    exists|i: int|
        0 <= i < lines(content).len() && counts_as_line(#[trigger] lines(content)[i])
            && looks_like_inventory_line(lines(content)[i])
}

/// Quick heuristic: does the content look like an INI-style Ansible
/// inventory (has `[group]` sections or bare hostnames/IPs)?
pub fn looks_like_ansible_ini(content: &str) -> (b: bool)
    ensures
        b == looks_like_ini(content@),
{
    let ls = lines_vec(&chars_of(content));
    let mut i: usize = 0;
    while i < ls.len()
        invariant
            i <= ls.len(),
            vv(ls@) == lines(content@),
            forall|j: int|
                0 <= j < i ==> !(counts_as_line(#[trigger] lines(content@)[j]) && looks_like_inventory_line(
                    lines(content@)[j],
                )),
        decreases ls.len() - i,
    {
        assert(lines(content@)[i as int] == ls@[i as int]@);
        let t = trim_vec(&ls[i]);
        if t.len() > 0 && t[0] != '#' && t[0] != ';' {
            let header = t[0] == '[' && t[t.len() - 1] == ']';
            let ws = words_vec(&t);
            let bare = ws.len() > 0 && !contains_char(&ws[0], '=') && ws[0].len() > 0 && char_is_alphanumeric(ws[0][0]);
            if ws.len() > 0 {
                assert(vv(ws@)[0] == ws@[0]@);
            }
            if header || bare {
                return true;
            }
        }
        i += 1;
    }
    false
}

/// Whether a file found by the scan is a YAML inventory: a file whose name
/// ends in `.yaml` or `.yml` and mentions `host`, `inventory` or `sojourn`.
pub open spec fn yaml_inventory_name(path: Seq<char>, is_file: bool) -> bool {
    is_file && {
        let name = match path_file_name(path) {
            Some(n) => n,
            None => seq![],
        };
        (ends_with(name, ".yaml"@) || ends_with(name, ".yml"@)) && (crate::text::contains_seq(name, "host"@)
            || crate::text::contains_seq(name, "inventory"@) || crate::text::contains_seq(name, "sojourn"@))
    }
}

pub fn is_yaml_inventory(path: &str, is_file: bool) -> (b: bool)
    ensures
        b == yaml_inventory_name(path@, is_file),
{
    if !is_file {
        return false;
    }
    let name = match file_name_of_path(path) {
        Some(n) => chars_of(n.as_str()),
        None => Vec::new(),
    };
    (ends_with_vec(&name, &chars_of(".yaml")) || ends_with_vec(&name, &chars_of(".yml"))) && (
    crate::text::contains_vec(&name, &chars_of("host")) || crate::text::contains_vec(&name, &chars_of("inventory"))
        || crate::text::contains_vec(&name, &chars_of("sojourn")))
}

/// Turn  /home/user/repos/ansible/inventories/prod/hosts_web
/// into  /home/user/repos/ansible/inventories/prod/hosts_*
pub open spec fn sibling_hosts_pattern(path: Seq<char>) -> Seq<char> {
    match path_parent(path) {
        Some(p) => p + "/hosts_*"@,
        None => path,
    }
}

pub fn parent_glob_pattern(path: &str) -> (r: String)
    ensures
        r@ == sibling_hosts_pattern(path@),
{
    match parent_of_path(path) {
        Some(p) => string_of(&concat(&chars_of(p.as_str()), &chars_of("/hosts_*"))),
        None => string_from(path),
    }
}

/// The path of a discovered source, the key under which sources are deduplicated.
pub fn src_path_key(src: &DiscoveredSource) -> (r: String)
    ensures
        r@ == src.config.path_of(),
{
    src.config.path()
}

/// The `inventory =` value in the `[defaults]` section of an ansible.cfg.
pub open spec fn cfg_scan(ls: Seq<Seq<char>>, in_defaults: bool) -> Option<Seq<char>>
    decreases ls.len(),
{
    if ls.len() == 0 {
        None
    } else {
        let t = trim(ls[0]);
        if t.len() > 0 && t[0] == '[' {
            cfg_scan(ls.drop_first(), lower_eq(t, "[defaults]"@))
        } else if in_defaults && starts_with(t, "inventory"@) && {
            let rest = trim_start(t.skip(9));
            rest.len() > 0 && rest[0] == '=' && trim(rest.drop_first()).len() > 0
        } {
            Some(trim(trim_start(t.skip(9)).drop_first()))
        } else {
            cfg_scan(ls.drop_first(), in_defaults)
        }
    }
}

pub open spec fn cfg_inventory(content: Seq<char>) -> Option<Seq<char>> {
    cfg_scan(lines(content), false)
}

/// The inventory an ansible.cfg names (`inventory = …` under `[defaults]`).
pub fn ansible_cfg_inventory(content: &str) -> (r: Option<String>)
    ensures
        opt_view(r) == cfg_inventory(content@),
{
    let ls = lines_vec(&chars_of(content));
    let kw = chars_of("inventory");
    let defaults = chars_of("[defaults]");
    proof {
        reveal_strlit("inventory");
    }
    let mut in_defaults = false;
    let mut i: usize = 0;
    assert(vv(ls@).skip(0) =~= vv(ls@));
    while i < ls.len()
        invariant
            i <= ls.len(),
            kw@ == "inventory"@,
            kw@.len() == 9,
            defaults@ == "[defaults]"@,
            cfg_inventory(content@) == cfg_scan(vv(ls@).skip(i as int), in_defaults),
        decreases ls.len() - i,
    {
        let ghost rest_lines = vv(ls@).skip(i as int);
        assert(rest_lines[0] == ls@[i as int]@);
        assert(rest_lines.drop_first() =~= vv(ls@).skip(i + 1));
        let t = trim_vec(&ls[i]);
        if t.len() > 0 && t[0] == '[' {
            in_defaults = lower_eq_vec(&t, &defaults);
        } else if in_defaults && starts_with_vec(&t, &kw) {
            let after = slice_of(&t, 9, t.len());
            assert(after@ =~= t@.skip(9));
            let rest = trim_start_vec(&after);
            if rest.len() > 0 && rest[0] == '=' {
                let v0 = slice_of(&rest, 1, rest.len());
                assert(v0@ =~= rest@.drop_first());
                let v = trim_vec(&v0);
                if v.len() > 0 {
                    return Some(string_of(&v));
                }
            }
        }
        i += 1;
    }
    assert(vv(ls@).skip(i as int) =~= seq![]);
    None
}

// ───────────────────────────── labels ─────────────────────────────

/// `s` with the home directory written `~`, cut from the left to at most
/// `max` bytes behind `...`; `None` where that byte slicing
/// would not land on a character boundary or `max - 3` would underflow.
pub open spec fn shortened_label(s: Seq<char>, max: nat, home: Seq<char>) -> Option<Seq<char>> {
    let t = replace_str(s, home, seq!['~']);
    if utf8_len(t) <= max {
        Some(t)
    } else if max < 3 {
        None
    } else {
        let cut = utf8_len(t) - (max - 3);
        if is_char_boundary(t, cut) {
            Some("..."@ + t.skip(chars_before(t, cut)))
        } else {
            None
        }
    }
}

/// Shortens a path for display, with the given home directory.
pub fn shorten_with_home(s: &str, max: usize, home: &str) -> (r: Option<String>)
    ensures
        opt_view(r) == shortened_label(s@, max as nat, home@),
{
    let mut tilde: Vec<char> = Vec::new();
    tilde.push('~');
    assert(tilde@ =~= seq!['~']);
    let t = replace_str_vec(&chars_of(s), &chars_of(home), &tilde);
    let total = utf8_len_of(&t);
    if total <= max as u128 {
        return Some(string_of(&t));
    }
    if max < 3 {
        return None;
    }
    match skip_bytes(&t, total - (max - 3) as u128) {
        Some(rest) => Some(string_of(&concat(&chars_of("..."), &rest))),
        None => None,
    }
}

/// Shortens a path for display, with the current home directory (none
/// known: the empty path, as `unwrap_or_default` gives it).
pub fn shorten(s: &str, max: usize) -> (r: Option<String>)
    ensures
        exists|home: Seq<char>| opt_view(r) == shortened_label(s@, max as nat, home),
{
    let home = match home_dir() {
        Some(h) => h,
        None => String::new(),
    };
    shorten_with_home(s, max, home.as_str())
}

/// `"<text>  (<count> <what>)"`.
pub open spec fn counted_label(text: Seq<char>, count: nat, what: Seq<char>) -> Seq<char> {
    text + "  ("@ + decimal(count) + seq![' '] + what + seq![')']
}

pub fn counted_label_exec(text: &str, count: usize, what: &str) -> (r: String)
    ensures
        r@ == counted_label(text@, count as nat, what@),
{
    let mut sp: Vec<char> = Vec::new();
    sp.push(' ');
    let mut close: Vec<char> = Vec::new();
    close.push(')');
    assert(sp@ =~= seq![' ']);
    assert(close@ =~= seq![')']);
    let a = concat(&chars_of(text), &chars_of("  ("));
    let b = concat(&a, &decimal_usize(count));
    let c = concat(&b, &sp);
    let d = concat(&c, &chars_of(what));
    string_of(&concat(&d, &close))
}

/// The source for an SSH config that lists `count` hosts; none when it lists none.
pub fn ssh_config_source(path: &str, count: usize) -> (r: Option<DiscoveredSource>)
    ensures
        count == 0 <==> r is None,
        r matches Some(s) ==> (s.config matches InventoryConfig::SshConfig { path: p } && p@ == path@)
            && s.label@ == counted_label("~/.ssh/config"@, count as nat, "hosts"@)
            && s.host_count == count && s.selected,
{
    if count == 0 {
        return None;
    }
    Some(DiscoveredSource {
        config: InventoryConfig::SshConfig { path: string_from(path) },
        label: counted_label_exec("~/.ssh/config", count, "hosts"),
        host_count: count,
        selected: true,
    })
}

/// The glob to load for an Ansible inventory file: its `hosts_*` siblings
/// when it is named `hosts` or `hosts_*`, else the file itself.
pub open spec fn probe_pattern(path: Seq<char>) -> Seq<char> {
    match path_file_name(path) {
        Some(n) => if n == "hosts"@ || starts_with(n, "hosts_"@) {
            sibling_hosts_pattern(path)
        } else {
            path
        },
        None => path,
    }
}

pub fn ansible_probe_pattern(path: &str) -> (r: String)
    ensures
        r@ == probe_pattern(path@),
{
    match file_name_of_path(path) {
        Some(n) => {
            let v = chars_of(n.as_str());
            if chars_eq(&v, &chars_of("hosts")) || starts_with_vec(&v, &chars_of("hosts_")) {
                parent_glob_pattern(path)
            } else {
                string_from(path)
            }
        },
        None => string_from(path),
    }
}

/// The label of a found source: its shortened path and what it holds;
/// `None` where shortening the path would fail.
pub fn source_label(path: &str, count: usize, what: &str) -> (r: Option<String>)
    ensures
        exists|home: Seq<char>|
            match #[trigger] shortened_label(path@, 52, home) {
                Some(t) => r matches Some(l) && l@ == counted_label(t, count as nat, what@),
                None => r is None,
            },
{
    match shorten(path, 52) {
        Some(t) => Some(counted_label_exec(t.as_str(), count, what)),
        None => None,
    }
}

/// What probing a found file gives: no hosts (no source), a source, or a
/// label whose shortening would cut a character apart.
pub enum Probe {
    NoHosts,
    Found(DiscoveredSource),
    LabelCut,
}

/// `r` is the probe of `config` listing `count` hosts of kind `what`, its
/// path shortened with `home`.
pub open spec fn probe_of(r: Probe, config: InventoryConfig, count: nat, what: Seq<char>, home: Seq<char>) -> bool {
    if count == 0 {
        r is NoHosts
    } else {
        match shortened_label(config.path_of(), 52, home) {
            Some(t) => r matches Probe::Found(s) && s.config == config && s.label@ == counted_label(t, count, what)
                && s.host_count == count && s.selected,
            None => r is LabelCut,
        }
    }
}

/// The source a probed file makes, given how many hosts it lists: none
/// when it lists none, else a selected source labelled with its shortened
/// path (home written `~`) and the count.
pub fn probe_source_with_home(config: InventoryConfig, count: usize, what: &str, home: &str) -> (r: Probe)
    ensures
        probe_of(r, config, count as nat, what@, home@),
{
    if count == 0 {
        return Probe::NoHosts;
    }
    let p = config.path();
    match shorten_with_home(p.as_str(), 52, home) {
        Some(t) => Probe::Found(DiscoveredSource {
            label: counted_label_exec(t.as_str(), count, what),
            config,
            host_count: count,
            selected: true,
        }),
        None => Probe::LabelCut,
    }
}

/// `probe_source_with_home` with the current home directory (the empty
/// path when none is known).
pub fn probe_source(config: InventoryConfig, count: usize, what: &str) -> (r: Probe)
    ensures
        exists|home: Seq<char>| #[trigger] probe_of(r, config, count as nat, what@, home),
{
    let home = match home_dir() {
        Some(h) => h,
        None => String::new(),
    };
    probe_source_with_home(config, count, what, home.as_str())
}

// ───────────────────────────── where the scan looks ─────────────────────────────

/// The path `name` (relative) under the directory `base`, joined as
/// `Path::join` does: a `/` between them unless `base` is empty or already
/// ends in one.
pub open spec fn joined(base: Seq<char>, name: Seq<char>) -> Seq<char> {
    if base.len() == 0 || base.last() == '/' {
        base + name
    } else {
        base + "/"@ + name
    }
}

pub fn join_path(base: &str, name: &str) -> (r: String)
    ensures
        r@ == joined(base@, name@),
{
    let b = chars_of(base);
    if b.len() == 0 || b[b.len() - 1] == '/' {
        string_of(&concat(&b, &chars_of(name)))
    } else {
        string_of(&concat(&concat(&b, &chars_of("/")), &chars_of(name)))
    }
}

/// The patterns checked before the deep scan, after the home directory.
pub open spec fn probe_suffixes() -> Seq<Seq<char>> {
    seq![
        "/ansible/inventories/*/hosts_*"@,
        "/ansible/inventories/*/*/hosts_*"@,
        "/repos/ansible/inventories/*/hosts_*"@,
        "/repos/ansible/inventories/*/*/hosts_*"@,
        "/repos/*/inventories/*/hosts_*"@,
        "/repos/*/inventories/*/*/hosts_*"@,
        "/repos/*/inventory/hosts_*"@,
        "/repos/*/*/inventories/*/hosts_*"@,
        "/projects/*/inventories/*/hosts_*"@,
        "/work/*/inventories/*/hosts_*"@,
        "/repos/*/hosts"@,
        "/repos/*/*/hosts"@,
        "/repos/*/inventory/hosts"@,
        "/repos/*/inventories/hosts"@,
        "/ansible/hosts"@,
        "/repos/*/hosts.ini"@,
        "/repos/*/inventory.ini"@,
        "/repos/*/inventory/hosts.ini"@,
        "/repos/*/inventories/hosts.ini"@,
        "/repos/*/inventory/production"@,
        "/repos/*/inventory/staging"@,
        "/repos/*/inventory/development"@,
        "/repos/*/inventories/production"@,
        "/repos/*/inventories/staging"@,
        "/repos/*/inventories/development"@,
        "/repos/*/hosts.yaml"@,
        "/repos/*/hosts.yml"@,
        "/repos/*/inventory.yaml"@,
        "/repos/*/inventory.yml"@,
        "/repos/*/*/hosts.yaml"@,
        "/repos/*/*/hosts.yml"@,
        "/.config/sojourn/hosts.yaml"@,
    ]
}

fn probe_suffix_strs() -> (v: Vec<&'static str>)
    ensures
        v@.map_values(|s: &str| s@) == probe_suffixes(),
{
    let mut v: Vec<&'static str> = Vec::new();
    v.push("/ansible/inventories/*/hosts_*");
    v.push("/ansible/inventories/*/*/hosts_*");
    v.push("/repos/ansible/inventories/*/hosts_*");
    v.push("/repos/ansible/inventories/*/*/hosts_*");
    v.push("/repos/*/inventories/*/hosts_*");
    v.push("/repos/*/inventories/*/*/hosts_*");
    v.push("/repos/*/inventory/hosts_*");
    v.push("/repos/*/*/inventories/*/hosts_*");
    v.push("/projects/*/inventories/*/hosts_*");
    v.push("/work/*/inventories/*/hosts_*");
    v.push("/repos/*/hosts");
    v.push("/repos/*/*/hosts");
    v.push("/repos/*/inventory/hosts");
    v.push("/repos/*/inventories/hosts");
    v.push("/ansible/hosts");
    v.push("/repos/*/hosts.ini");
    v.push("/repos/*/inventory.ini");
    v.push("/repos/*/inventory/hosts.ini");
    v.push("/repos/*/inventories/hosts.ini");
    v.push("/repos/*/inventory/production");
    v.push("/repos/*/inventory/staging");
    v.push("/repos/*/inventory/development");
    v.push("/repos/*/inventories/production");
    v.push("/repos/*/inventories/staging");
    v.push("/repos/*/inventories/development");
    v.push("/repos/*/hosts.yaml");
    v.push("/repos/*/hosts.yml");
    v.push("/repos/*/inventory.yaml");
    v.push("/repos/*/inventory.yml");
    v.push("/repos/*/*/hosts.yaml");
    v.push("/repos/*/*/hosts.yml");
    v.push("/.config/sojourn/hosts.yaml");
    assert(v@.map_values(|s: &str| s@) =~= probe_suffixes());
    v
}

/// The high-probability patterns under the home directory `home`.
pub open spec fn probe_paths(home: Seq<char>) -> Seq<Seq<char>> {
    probe_suffixes().map_values(|x: Seq<char>| home + x)
}

/// The high-probability patterns for the home directory `home`.
pub fn high_probability_paths_for(home: &str) -> (r: Vec<String>)
    ensures
        strings_view(r@) == probe_paths(home@),
{
    let sfx = probe_suffix_strs();
    let mut r: Vec<String> = Vec::new();
    let mut i: usize = 0;
    while i < sfx.len()
        invariant
            i <= sfx.len(),
            sfx@.map_values(|s: &str| s@) == probe_suffixes(),
            r@.len() == i,
            forall|j: int| 0 <= j < i ==> #[trigger] r@[j]@ == home@ + probe_suffixes()[j],
        decreases sfx.len() - i,
    {
        assert(sfx@[i as int]@ == probe_suffixes()[i as int]);
        r.push(string_of(&concat(&chars_of(home), &chars_of(sfx[i]))));
        i += 1;
    }
    assert(strings_view(r@) =~= probe_paths(home@));
    r
}

/// High-probability patterns checked before the deep scan, under the
/// current home directory (the empty path when none is known).
pub fn high_probability_paths() -> (r: Vec<String>)
    ensures
        exists|home: Seq<char>| #[trigger] probe_paths(home) == strings_view(r@),
{
    let home = match home_dir() {
        Some(h) => h,
        None => String::new(),
    };
    high_probability_paths_for(home.as_str())
}

/// The directories under home that the deep scan walks, in order.
pub open spec fn scan_root_names() -> Seq<Seq<char>> {
    seq!["repos"@, "projects"@, "work"@, "src"@, "dev"@, "ansible"@, "infrastructure"@, "infra"@, "ops"@]
}

fn scan_root_strs() -> (v: Vec<&'static str>)
    ensures
        v@.map_values(|s: &str| s@) == scan_root_names(),
{
    let mut v: Vec<&'static str> = Vec::new();
    v.push("repos");
    v.push("projects");
    v.push("work");
    v.push("src");
    v.push("dev");
    v.push("ansible");
    v.push("infrastructure");
    v.push("infra");
    v.push("ops");
    assert(v@.map_values(|s: &str| s@) =~= scan_root_names());
    v
}

/// The deep scan's roots under `home`.
pub open spec fn scan_roots(home: Seq<char>) -> Seq<Seq<char>> {
    scan_root_names().map_values(|n: Seq<char>| joined(home, n))
}

/// The deep scan's roots under `home`, existing or not.
pub fn scan_root_candidates(home: &str) -> (r: Vec<String>)
    ensures
        strings_view(r@) == scan_roots(home@),
{
    let names = scan_root_strs();
    let mut r: Vec<String> = Vec::new();
    let mut i: usize = 0;
    while i < names.len()
        invariant
            i <= names.len(),
            names@.map_values(|s: &str| s@) == scan_root_names(),
            r@.len() == i,
            forall|j: int| 0 <= j < i ==> #[trigger] r@[j]@ == joined(home@, scan_root_names()[j]),
        decreases names.len() - i,
    {
        assert(names@[i as int]@ == scan_root_names()[i as int]);
        r.push(join_path(home, names[i]));
        i += 1;
    }
    assert(strings_view(r@) =~= scan_roots(home@));
    r
}

/// The elements of `s` whose flag is set, in order.
pub open spec fn kept(s: Seq<Seq<char>>, flags: Seq<bool>) -> Seq<Seq<char>>
    decreases s.len(),
{
    if s.len() == 0 || flags.len() != s.len() {
        seq![]
    } else {
        let rest = kept(s.drop_last(), flags.drop_last());
        if flags.last() {
            rest.push(s.last())
        } else {
            rest
        }
    }
}

/// The candidates whose flag is set, in order.
pub fn keep_flagged(cands: &Vec<String>, flags: &Vec<bool>) -> (r: Vec<String>)
    requires
        flags@.len() == cands@.len(),
    ensures
        strings_view(r@) == kept(strings_view(cands@), flags@),
{
    let mut r: Vec<String> = Vec::new();
    let mut i: usize = 0;
    while i < cands.len()
        invariant
            i <= cands.len(),
            flags@.len() == cands@.len(),
            kept(strings_view(cands@).take(i as int), flags@.take(i as int)) == strings_view(r@),
        decreases cands.len() - i,
    {
        let ghost before = strings_view(r@);
        if flags[i] {
            r.push(cands[i].clone());
        }
        proof {
            assert(strings_view(cands@).take(i + 1).drop_last() =~= strings_view(cands@).take(i as int));
            assert(flags@.take(i + 1).drop_last() =~= flags@.take(i as int));
            assert(strings_view(r@) =~= if flags@[i as int] { before.push(cands@[i as int]@) } else { before });
        }
        i += 1;
    }
    assert(strings_view(cands@).take(cands.len() as int) =~= strings_view(cands@));
    assert(flags@.take(cands.len() as int) =~= flags@);
    r
}

/// The candidates that exist on disk, in order: each is probed, and
/// `keep_flagged` keeps those found.
pub fn keep_existing(cands: &Vec<String>) -> (r: Vec<String>)
    ensures
        exists|flags: Seq<bool>| flags.len() == cands@.len() && #[trigger] kept(strings_view(cands@), flags) == strings_view(r@),
{
    let mut flags: Vec<bool> = Vec::new();
    let mut i: usize = 0;
    while i < cands.len()
        invariant
            i <= cands.len(),
            flags@.len() == i,
        decreases cands.len() - i,
    {
        flags.push(path_exists(cands[i].as_str()));
        i += 1;
    }
    let r = keep_flagged(cands, &flags);
    assert(kept(strings_view(cands@), flags@) == strings_view(r@));
    r
}

/// Roots to walk during the deep scan: those of `scan_root_candidates`
/// under the current home directory (the empty path when none is known)
/// that exist.
pub fn repo_scan_roots() -> (r: Vec<String>)
    ensures
        exists|home: Seq<char>, flags: Seq<bool>|
            flags.len() == scan_root_names().len() && #[trigger] kept(scan_roots(home), flags) == strings_view(r@),
{
    let home = match home_dir() {
        Some(h) => h,
        None => String::new(),
    };
    let cands = scan_root_candidates(home.as_str());
    keep_existing(&cands)
}

/// Whether a path is absolute (on Unix: it starts at the root).
pub open spec fn is_absolute(p: Seq<char>) -> bool {
    p.len() > 0 && p[0] == '/'
}

/// The inventory an `ansible.cfg` at `cfg` names with the value `raw`
/// (`~` already expanded to `expanded`): an absolute path as it is, a
/// relative one under the file's directory (`.` when it has none).
pub open spec fn cfg_inventory_path(cfg: Seq<char>, expanded: Seq<char>) -> Seq<char> {
    if is_absolute(expanded) {
        expanded
    } else {
        match path_parent(cfg) {
            Some(d) => joined(d, expanded),
            None => joined("."@, expanded),
        }
    }
}

/// Resolves the `inventory =` value `raw` of the `ansible.cfg` at
/// `cfg_path`, `~` expanded with `home`.
pub fn resolve_cfg_inventory_with_home(cfg_path: &str, raw: &str, home: &Option<String>) -> (r: String)
    ensures
        r@ == cfg_inventory_path(cfg_path@, tilde_expansion(raw@, opt_view(*home))),
{
    let expanded = tilde_with_home(raw, home);
    let e = chars_of(expanded.as_str());
    if e.len() > 0 && e[0] == '/' {
        return expanded;
    }
    match parent_of_path(cfg_path) {
        Some(d) => join_path(d.as_str(), expanded.as_str()),
        None => join_path(".", expanded.as_str()),
    }
}

/// Resolves the `inventory =` value `raw` of the `ansible.cfg` at
/// `cfg_path`, `~` expanded with the current home directory.
pub fn resolve_cfg_inventory(cfg_path: &str, raw: &str) -> (r: String)
    ensures
        exists|home: Option<Seq<char>>| r@ == #[trigger] cfg_inventory_path(cfg_path@, tilde_expansion(raw@, home)),
{
    let home = home_dir();
    resolve_cfg_inventory_with_home(cfg_path, raw, &home)
}

// ───────────────────────────── laws of inventory file names ─────────────────────────────

proof fn lemma_no_dot_before_ini(s: Seq<char>)
    requires
        s.len() >= 4 ==> s[s.len() - 4] != '.',
    ensures
        !ends_with(s, ".ini"@),
{
    reveal_strlit(".ini");
    if ends_with(s, ".ini"@) {
        assert(s.skip(s.len() - 4)[0] == s[s.len() - 4]);
    }
}

proof fn lemma_inventory_stems_not_ini(s: Seq<char>)
    requires
        s == "hosts"@ || s == "inventory"@ || env_names().contains(s),
    ensures
        !ends_with(s, ".ini"@),
{
    reveal_strlit("hosts");
    reveal_strlit("inventory");
    reveal_strlit("production");
    reveal_strlit("staging");
    reveal_strlit("development");
    reveal_strlit("testing");
    reveal_strlit("prod");
    reveal_strlit("stage");
    reveal_strlit("dev");
    reveal_strlit("test");
    reveal_strlit("local");
    let e = env_names();
    let c = if s == "hosts"@ {
        s
    } else if s == "inventory"@ {
        s
    } else {
        let k = choose|k: int| 0 <= k < e.len() && e[k] == s;
        assert(k == 0 || k == 1 || k == 2 || k == 3 || k == 4 || k == 5 || k == 6 || k == 7 || k == 8 || k == 9);
        e[k]
    };
    assert(c == s);
    lemma_no_dot_before_ini(s);
}

/// A file named `hosts` or `hosts_<anything>` is an inventory by its name.
pub proof fn law_hosts_files_are_inventories(path: Seq<char>, name: Seq<char>)
    requires
        path_file_name(path) == Some(name),
        name == "hosts"@ || starts_with(name, "hosts_"@),
    ensures
        inventory_file_kind(path, true) == InventoryFileKind::Yes,
{
}

/// A file named `hosts.ini`, `inventory.ini` or `<environment>.ini` (such
/// as `prod.ini`) is an inventory by its name.
pub proof fn law_ini_inventory_names(path: Seq<char>, stem: Seq<char>)
    requires
        path_file_name(path) == Some(stem + ".ini"@),
        stem == "hosts"@ || stem == "inventory"@ || env_names().contains(stem),
    ensures
        inventory_file_kind(path, true) == InventoryFileKind::Yes,
{
    reveal_strlit(".ini");
    let name = stem + ".ini"@;
    assert(name.skip(name.len() - 4) =~= ".ini"@);
    assert(ends_with(name, ".ini"@));
    lemma_inventory_stems_not_ini(stem);
    if env_names().contains(name) {
        lemma_inventory_stems_not_ini(name);
    }
    assert(name.take(name.len() - 4) =~= stem);
    assert(trim_suffix_all(stem, ".ini"@) == stem);
    assert(trim_suffix_all(name, ".ini"@) == stem);
}

} // verus!
