//! The configuration: settings, inventory sources, IP range labels, jump host
//! rules and per-host overrides.

use vstd::prelude::*;
use crate::text::{
    chars_eq, chars_of, clone_opt, concat, contains_char, ends_with, ends_with_vec, opt_view,
    slice_of, starts_with, starts_with_vec, string_from, string_of, str_eq,
};
use crate::external::{
    home_dir, ip_addr_valid, ip_net_contains, ip_net_contains_addr, ip_net_valid, parse_ip_addr,
    parse_ip_net, tilde_expansion, tilde_with_home,
};

verus! {

pub struct Config {
    pub settings: Settings,
    pub inventory: Vec<InventoryConfig>,
    pub ip_labels: Vec<IpLabel>,
    pub jump_hosts: Vec<JumpHostRule>,
    /// Per-host overrides set via the TUI editor (keyed by hostname)
    pub host_overrides: Vec<HostOverride>,
}

/// A user-defined override for a specific host, persisted in config.toml.
/// Overrides are matched by hostname and merged on top of inventory data.
pub struct HostOverride {
    pub hostname: String,
    pub user: Option<String>,
    pub label: Option<String>,
    pub alias: Option<String>,
    pub jump_host: Option<String>,
}

pub struct Settings {
    pub default_user: Option<String>,
    pub ssh_extra_args: Option<String>,
    pub connect_on_single_match: bool,
    /// Exit after the SSH session ends instead of returning to the TUI
    pub exit_after_connect: bool,
    /// Name of the color theme: "default", "tokyo-night", "catppuccin", "dracula", "gruvbox", "nord"
    pub theme: String,
}

/// An inventory source and the path (or glob pattern) it is read from.
pub enum InventoryConfig {
    Ansible { path: String },
    SshConfig { path: String },
    Yaml { path: String },
    ShellAlias { path: String },
}

pub struct IpLabel {
    pub pattern: String,
    pub label: String,
    pub color: Option<String>,
}

pub struct JumpHostRule {
    pub host_pattern: String,
    pub jump_host: String,
    pub user: Option<String>,
}

pub struct HostOverrideModel {
    pub hostname: Seq<char>,
    pub user: Option<Seq<char>>,
    pub label: Option<Seq<char>>,
    pub alias: Option<Seq<char>>,
    pub jump_host: Option<Seq<char>>,
}

impl View for HostOverride {
    type V = HostOverrideModel;

    open spec fn view(&self) -> HostOverrideModel {
        HostOverrideModel {
            hostname: self.hostname@,
            user: opt_view(self.user),
            label: opt_view(self.label),
            alias: opt_view(self.alias),
            jump_host: opt_view(self.jump_host),
        }
    }
}

pub open spec fn overrides_view(v: Seq<HostOverride>) -> Seq<HostOverrideModel> {
    v.map_values(|o: HostOverride| o@)
}

impl InventoryConfig {
    /// The path (or glob pattern) of the source.
    pub open spec fn path_of(&self) -> Seq<char> {
        match self {
            InventoryConfig::Ansible { path } => path@,
            InventoryConfig::SshConfig { path } => path@,
            InventoryConfig::Yaml { path } => path@,
            InventoryConfig::ShellAlias { path } => path@,
        }
    }

    /// The path (or glob pattern) of the source.
    pub fn path(&self) -> (r: String)
        ensures
            r@ == self.path_of(),
    {
        match self {
            InventoryConfig::Ansible { path } => path.clone(),
            InventoryConfig::SshConfig { path } => path.clone(),
            InventoryConfig::Yaml { path } => path.clone(),
            InventoryConfig::ShellAlias { path } => path.clone(),
        }
    }

    /// A copy of this source.
    pub fn copy(&self) -> (r: InventoryConfig)
        ensures
            r == *self,
    {
        match self {
            InventoryConfig::Ansible { path } => InventoryConfig::Ansible { path: path.clone() },
            InventoryConfig::SshConfig { path } => InventoryConfig::SshConfig { path: path.clone() },
            InventoryConfig::Yaml { path } => InventoryConfig::Yaml { path: path.clone() },
            InventoryConfig::ShellAlias { path } => InventoryConfig::ShellAlias { path: path.clone() },
        }
    }
}

impl IpLabel {
    /// A copy of this label.
    pub fn copy(&self) -> (r: IpLabel)
        ensures
            r == *self,
    {
        IpLabel { pattern: self.pattern.clone(), label: self.label.clone(), color: clone_opt(&self.color) }
    }
}

impl Settings {
    /// A copy of these settings.
    pub fn copy(&self) -> (r: Settings)
        ensures
            r == *self,
    {
        Settings {
            default_user: clone_opt(&self.default_user),
            ssh_extra_args: clone_opt(&self.ssh_extra_args),
            connect_on_single_match: self.connect_on_single_match,
            exit_after_connect: self.exit_after_connect,
            theme: self.theme.clone(),
        }
    }
}

impl JumpHostRule {
    /// A copy of this rule.
    pub fn copy(&self) -> (r: JumpHostRule)
        ensures
            r == *self,
    {
        JumpHostRule { host_pattern: self.host_pattern.clone(), jump_host: self.jump_host.clone(), user: clone_opt(&self.user) }
    }
}

impl HostOverride {
    /// A copy of this override.
    pub fn copy(&self) -> (r: HostOverride)
        ensures
            r == *self,
    {
        HostOverride {
            hostname: self.hostname.clone(),
            user: clone_opt(&self.user),
            label: clone_opt(&self.label),
            alias: clone_opt(&self.alias),
            jump_host: clone_opt(&self.jump_host),
        }
    }
}

pub fn default_true() -> (b: bool)
    ensures
        b,
{
    true
}

pub fn default_false() -> (b: bool)
    ensures
        !b,
{
    false
}

pub fn default_theme() -> (s: String)
    ensures
        s@ == "default"@,
{
    string_from("default")
}

impl Default for Settings {
    fn default() -> (s: Settings)
        ensures
            s.default_user is None,
            s.ssh_extra_args is None,
            s.connect_on_single_match,
            !s.exit_after_connect,
            s.theme@ == "default"@,
    {
        Settings {
            default_user: None,
            ssh_extra_args: None,
            connect_on_single_match: default_true(),
            exit_after_connect: default_false(),
            theme: default_theme(),
        }
    }
}

impl Default for Config {
    fn default() -> (c: Config)
        ensures
            c.settings.default_user is None,
            c.settings.ssh_extra_args is None,
            c.settings.connect_on_single_match,
            !c.settings.exit_after_connect,
            c.settings.theme@ == "default"@,
            c.inventory@.len() == 1,
            c.inventory@[0] matches InventoryConfig::SshConfig { path } && path@ == "~/.ssh/config"@,
            c.ip_labels@.len() == 0,
            c.jump_hosts@.len() == 0,
            c.host_overrides@.len() == 0,
    {
        let mut inventory: Vec<InventoryConfig> = Vec::new();
        inventory.push(InventoryConfig::SshConfig { path: string_from("~/.ssh/config") });
        Config {
            settings: Settings::default(),
            inventory,
            ip_labels: Vec::new(),
            jump_hosts: Vec::new(),
            host_overrides: Vec::new(),
        }
    }
}

// ───────────────────────────── IP labels ─────────────────────────────

/// `s` without trailing copies of `c` (std `trim_end_matches` with a char).
pub open spec fn trim_end_char(s: Seq<char>, c: char) -> Seq<char>
    decreases s.len(),
{
    if s.len() > 0 && s.last() == c {
        trim_end_char(s.drop_last(), c)
    } else {
        s
    }
}

/// Whether `ip` starts with the dotted prefix `p` ending at a dot boundary:
/// `10.1` covers `10.1` and `10.1.x.x` but not `10.10.0.1`; the empty
/// prefix covers everything.
pub open spec fn dotted_prefix(ip: Seq<char>, p: Seq<char>) -> bool {
    p.len() == 0 || ip == p || starts_with(ip, p + seq!['.'])
}

/// Whether `ip` falls under `pattern`: a CIDR network when the pattern has
/// a `/` and both parse, else a dotted prefix (`10.0.*` means the addresses
/// `10.0.…`).
pub open spec fn ip_matches(ip: Seq<char>, pattern: Seq<char>) -> bool {
    if pattern.contains('/') && ip_addr_valid(ip) && ip_net_valid(pattern) {
        ip_net_contains(pattern, ip)
    } else {
        dotted_prefix(ip, trim_end_char(trim_end_char(pattern, '*'), '.'))
    }
}

fn trim_end_char_vec(s: &Vec<char>, c: char) -> (r: Vec<char>)
    ensures
        r@ == trim_end_char(s@, c),
{
    let mut j: usize = s.len();
    assert(s@.subrange(0, j as int) =~= s@);
    while j > 0 && s[j - 1] == c
        invariant
            j <= s.len(),
            trim_end_char(s@, c) == trim_end_char(s@.subrange(0, j as int), c),
        decreases j,
    {
        assert(s@.subrange(0, j as int).drop_last() =~= s@.subrange(0, j - 1));
        j -= 1;
    }
    slice_of(s, 0, j)
}

/// Whether `ip` matches an IP label pattern (CIDR or `prefix*`).
pub fn ip_matches_pattern(ip: &str, pattern: &str) -> (b: bool)
    ensures
        b == ip_matches(ip@, pattern@),
{
    let p = chars_of(pattern);
    if contains_char(&p, '/') {
        if let Some(addr) = parse_ip_addr(ip) {
            if let Some(net) = parse_ip_net(pattern) {
                return ip_net_contains_addr(&net, &addr);
            }
        }
    }
    let t1 = trim_end_char_vec(&p, '*');
    let prefix = trim_end_char_vec(&t1, '.');
    let v = chars_of(ip);
    let mut dotted = prefix.clone();
    dotted.push('.');
    assert(dotted@ =~= prefix@ + seq!['.']);
    prefix.len() == 0 || chars_eq(&v, &prefix) || starts_with_vec(&v, &dotted)
}

/// Index of the first label at or after `i` whose pattern matches `ip`.
pub open spec fn first_label_from(labels: Seq<IpLabel>, ip: Seq<char>, i: int) -> Option<int>
    decreases labels.len() - i,
{
    if i < 0 || i >= labels.len() {
        None
    } else if ip_matches(ip, labels[i].pattern@) {
        Some(i)
    } else {
        first_label_from(labels, ip, i + 1)
    }
}

/// Index of the first override at or after `i` for `hostname`.
pub open spec fn find_override_from(os: Seq<HostOverrideModel>, hostname: Seq<char>, i: int) -> Option<int>
    decreases os.len() - i,
{
    if i < 0 || i >= os.len() {
        None
    } else if os[i].hostname == hostname {
        Some(i)
    } else {
        find_override_from(os, hostname, i + 1)
    }
}

pub open spec fn find_override(os: Seq<HostOverrideModel>, hostname: Seq<char>) -> Option<int> {
    find_override_from(os, hostname, 0)
}

/// The overrides after an upsert: the first entry for the same hostname
/// replaced, or the new entry appended.
pub open spec fn upserted(os: Seq<HostOverrideModel>, ov: HostOverrideModel) -> Seq<HostOverrideModel> {
    match find_override(os, ov.hostname) {
        Some(k) => os.update(k, ov),
        None => os.push(ov),
    }
}

pub proof fn lemma_find_override_from(os: Seq<HostOverrideModel>, hostname: Seq<char>, i: int)
    requires
        0 <= i,
    ensures
        find_override_from(os, hostname, i) matches Some(k) ==> i <= k < os.len() && os[k].hostname
            == hostname && forall|j: int| i <= j < k ==> os[j].hostname != hostname,
        find_override_from(os, hostname, i) is None ==> forall|j: int|
            i <= j < os.len() ==> os[j].hostname != hostname,
    decreases os.len() - i,
{
    if i < os.len() && os[i].hostname != hostname {
        lemma_find_override_from(os, hostname, i + 1);
    }
}

/// The first index `k` with a property is the answer of the search from 0.
proof fn lemma_find_override_char(os: Seq<HostOverrideModel>, hostname: Seq<char>, k: int)
    requires
        0 <= k < os.len(),
        os[k].hostname == hostname,
        forall|j: int| 0 <= j < k ==> os[j].hostname != hostname,
    ensures
        find_override(os, hostname) == Some(k),
{
    lemma_find_override_from(os, hostname, 0);
    match find_override(os, hostname) {
        Some(m) => {
            if m < k {
                assert(os[m].hostname != hostname);
            } else if m > k {
                assert(os[k].hostname != hostname);
            }
        },
        None => {
            assert(os[k].hostname != hostname);
        },
    }
}

proof fn lemma_find_override_none(os: Seq<HostOverrideModel>, hostname: Seq<char>)
    requires
        forall|j: int| 0 <= j < os.len() ==> os[j].hostname != hostname,
    ensures
        find_override(os, hostname) is None,
{
    lemma_find_override_from(os, hostname, 0);
    if let Some(m) = find_override(os, hostname) {
        assert(os[m].hostname != hostname);
    }
}

/// Read after write: once `ov` is upserted, looking up its hostname finds
/// `ov`, and every other hostname finds what it found before.
pub proof fn lemma_upsert_then_lookup(os: Seq<HostOverrideModel>, ov: HostOverrideModel, name: Seq<char>)
    ensures
        name == ov.hostname ==> match find_override(upserted(os, ov), name) {
            Some(k) => upserted(os, ov)[k] == ov,
            None => false,
        },
        name != ov.hostname ==> match find_override(os, name) {
            Some(k) => find_override(upserted(os, ov), name) == Some(k) && upserted(os, ov)[k]
                == os[k],
            None => find_override(upserted(os, ov), name) is None,
        },
{
    lemma_find_override_from(os, ov.hostname, 0);
    lemma_find_override_from(os, name, 0);
    let u = upserted(os, ov);
    match find_override(os, ov.hostname) {
        Some(k) => {
            assert(u.len() == os.len());
            if name == ov.hostname {
                assert forall|j: int| 0 <= j < k implies u[j].hostname != name by {
                    assert(u[j] == os[j]);
                }
                lemma_find_override_char(u, name, k);
            } else {
                assert forall|j: int| 0 <= j < u.len() && j != k implies u[j] == os[j] by {}
                match find_override(os, name) {
                    Some(m) => {
                        assert(m != k);
                        assert forall|j: int| 0 <= j < m implies u[j].hostname != name by {
                            if j != k {
                                assert(u[j] == os[j]);
                            }
                        }
                        lemma_find_override_char(u, name, m);
                    },
                    None => {
                        assert forall|j: int| 0 <= j < u.len() implies u[j].hostname != name by {
                            if j != k {
                                assert(u[j] == os[j]);
                            }
                        }
                        lemma_find_override_none(u, name);
                    },
                }
            }
        },
        None => {
            let n = os.len() as int;
            assert(u[n] == ov);
            if name == ov.hostname {
                assert forall|j: int| 0 <= j < n implies u[j].hostname != name by {
                    assert(u[j] == os[j]);
                }
                lemma_find_override_char(u, name, n);
            } else {
                match find_override(os, name) {
                    Some(m) => {
                        assert forall|j: int| 0 <= j < m implies u[j].hostname != name by {
                            assert(u[j] == os[j]);
                        }
                        lemma_find_override_char(u, name, m);
                    },
                    None => {
                        assert forall|j: int| 0 <= j < u.len() implies u[j].hostname != name by {
                            if j < n {
                                assert(u[j] == os[j]);
                            }
                        }
                        lemma_find_override_none(u, name);
                    },
                }
            }
        },
    }
}

/// Upserting an override never adds a second entry for one hostname: when
/// no hostname occurs twice before, none occurs twice after.
pub proof fn lemma_upsert_keeps_unique(os: Seq<HostOverrideModel>, ov: HostOverrideModel)
    requires
        forall|a: int, b: int|
            0 <= a < b < os.len() ==> #[trigger] os[a].hostname != #[trigger] os[b].hostname,
    ensures
        forall|a: int, b: int|
            0 <= a < b < upserted(os, ov).len() ==> #[trigger] upserted(os, ov)[a].hostname
                != #[trigger] upserted(os, ov)[b].hostname,
{
    lemma_find_override_from(os, ov.hostname, 0);
    let u = upserted(os, ov);
    match find_override(os, ov.hostname) {
        Some(k) => {
            assert forall|a: int, b: int| 0 <= a < b < u.len() implies #[trigger] u[a].hostname
                != #[trigger] u[b].hostname by {
                if a == k {
                    assert(os[b].hostname != os[k].hostname);
                } else if b == k {
                    assert(os[a].hostname != os[k].hostname);
                } else {
                    assert(os[a].hostname != os[b].hostname);
                }
            }
        },
        None => {
            assert forall|a: int, b: int| 0 <= a < b < u.len() implies #[trigger] u[a].hostname
                != #[trigger] u[b].hostname by {
                if b == os.len() {
                    assert(u[a] == os[a]);
                } else {
                    assert(os[a].hostname != os[b].hostname);
                }
            }
        },
    }
}

impl Config {
    /// The first IP label whose pattern matches `ip`.
    pub fn label_for_ip(&self, ip: &str) -> (r: Option<&IpLabel>)
        ensures
            match first_label_from(self.ip_labels@, ip@, 0) {
                Some(k) => r == Some(&self.ip_labels@[k]),
                None => r is None,
            },
    {
        let mut i: usize = 0;
        while i < self.ip_labels.len()
            invariant
                i <= self.ip_labels.len(),
                first_label_from(self.ip_labels@, ip@, 0) == first_label_from(
                    self.ip_labels@,
                    ip@,
                    i as int,
                ),
            decreases self.ip_labels.len() - i,
        {
            if ip_matches_pattern(ip, self.ip_labels[i].pattern.as_str()) {
                return Some(&self.ip_labels[i]);
            }
            i += 1;
        }
        None
    }

    /// Find the override entry for a given hostname, if any.
    pub fn override_for(&self, hostname: &str) -> (r: Option<&HostOverride>)
        ensures
            match find_override(overrides_view(self.host_overrides@), hostname@) {
                Some(k) => r == Some(&self.host_overrides@[k]),
                None => r is None,
            },
    {
        match self.override_index(hostname) {
            Some(k) => Some(&self.host_overrides[k]),
            None => None,
        }
    }

    fn override_index(&self, hostname: &str) -> (r: Option<usize>)
        ensures
            match r {
                Some(k) => find_override(overrides_view(self.host_overrides@), hostname@) == Some(
                    k as int,
                ) && k < self.host_overrides@.len(),
                None => find_override(overrides_view(self.host_overrides@), hostname@) is None,
            },
    {
        let ghost os = overrides_view(self.host_overrides@);
        let mut i: usize = 0;
        while i < self.host_overrides.len()
            invariant
                i <= self.host_overrides.len(),
                os == overrides_view(self.host_overrides@),
                find_override(os, hostname@) == find_override_from(os, hostname@, i as int),
            decreases self.host_overrides.len() - i,
        {
            if str_eq(self.host_overrides[i].hostname.as_str(), hostname) {
                return Some(i);
            }
            i += 1;
        }
        None
    }

    /// Upsert a host override — replaces existing entry or appends a new one.
    pub fn upsert_override(&mut self, ov: HostOverride)
        ensures
            overrides_view(final(self).host_overrides@) == upserted(
                overrides_view(old(self).host_overrides@),
                ov@,
            ),
            final(self).settings == old(self).settings,
            final(self).inventory == old(self).inventory,
            final(self).ip_labels == old(self).ip_labels,
            final(self).jump_hosts == old(self).jump_hosts,
    {
        let ghost os = overrides_view(self.host_overrides@);
        let name = ov.hostname.clone();
        match self.override_index(name.as_str()) {
            Some(k) => {
                self.host_overrides.set(k, ov);
                assert(overrides_view(self.host_overrides@) =~= os.update(k as int, ov@));
            },
            None => {
                self.host_overrides.push(ov);
                assert(overrides_view(self.host_overrides@) =~= os.push(ov@));
            },
        }
    }
}

// ───────────────────────────── adding sources ─────────────────────────────

/// Whether one of `inv` reads from the path (or pattern) `p`.
pub open spec fn has_source_path(inv: Seq<InventoryConfig>, p: Seq<char>) -> bool {
    exists|i: int| 0 <= i < inv.len() && #[trigger] inv[i].path_of() == p
}

/// The sources after adding `c`: unchanged when one with the same path is
/// already there, else `c` appended.
pub open spec fn with_source(inv: Seq<InventoryConfig>, c: InventoryConfig) -> Seq<InventoryConfig> {
    if has_source_path(inv, c.path_of()) {
        inv
    } else {
        inv.push(c)
    }
}

/// Adding a source makes its path present, and adding it again changes
/// nothing.
pub proof fn lemma_add_source_idempotent(inv: Seq<InventoryConfig>, c: InventoryConfig)
    ensures
        has_source_path(with_source(inv, c), c.path_of()),
        with_source(with_source(inv, c), c) == with_source(inv, c),
{
    if !has_source_path(inv, c.path_of()) {
        let n = inv.len() as int;
        assert(with_source(inv, c)[n].path_of() == c.path_of());
    }
}

pub open spec fn is_yaml_path(p: Seq<char>) -> bool {
    ends_with(p, ".yaml"@) || ends_with(p, ".yml"@)
}

/// `c` is the source `sojourn add` records for the expanded path `p`: a
/// YAML inventory for a `.yaml`/`.yml` path, an Ansible one (a file or a
/// glob) otherwise.
pub open spec fn is_source_for(c: InventoryConfig, p: Seq<char>) -> bool {
    &&& c.path_of() == p
    &&& (is_yaml_path(p) ==> c is Yaml)
    &&& (!is_yaml_path(p) ==> c is Ansible)
}

/// A path as the user wrote it, with a leading `~` expanded to the current
/// home directory.
pub fn expand_user_path(path: &str) -> (r: String)
    ensures
        exists|home: Option<Seq<char>>| r@ == #[trigger] tilde_expansion(path@, home),
{
    let home = home_dir();
    tilde_with_home(path, &home)
}

/// The source for an already expanded path.
pub fn source_for_path(expanded: String) -> (c: InventoryConfig)
    ensures
        is_source_for(c, expanded@),
{
    let v = chars_of(expanded.as_str());
    if ends_with_vec(&v, &chars_of(".yaml")) || ends_with_vec(&v, &chars_of(".yml")) {
        InventoryConfig::Yaml { path: expanded }
    } else {
        InventoryConfig::Ansible { path: expanded }
    }
}

/// The source for a path as the user typed it, `~` expanded with the
/// current home directory.
pub fn source_for_input(path: &str) -> (c: InventoryConfig)
    ensures
        exists|home: Option<Seq<char>>| #[trigger] is_source_for(c, tilde_expansion(path@, home)),
{
    let home = home_dir();
    let expanded = tilde_with_home(path, &home);
    let c = source_for_path(expanded);
    assert(is_source_for(c, tilde_expansion(path@, opt_view(home))));
    c
}

/// The line `config-check` prints for a source, before its host count.
pub open spec fn check_line(c: InventoryConfig) -> Seq<char> {
    match c {
        InventoryConfig::Ansible { path } => "[ansible]    "@ + path@,
        InventoryConfig::SshConfig { path } => "[ssh_config] "@ + path@,
        InventoryConfig::Yaml { path } => "[yaml]       "@ + path@,
        InventoryConfig::ShellAlias { path } => "[shell_alias] "@ + path@,
    }
}

pub fn check_label(c: &InventoryConfig) -> (r: String)
    ensures
        r@ == check_line(*c),
{
    let (tag, path) = match c {
        InventoryConfig::Ansible { path } => ("[ansible]    ", path),
        InventoryConfig::SshConfig { path } => ("[ssh_config] ", path),
        InventoryConfig::Yaml { path } => ("[yaml]       ", path),
        InventoryConfig::ShellAlias { path } => ("[shell_alias] ", path),
    };
    string_of(&concat(&chars_of(tag), &chars_of(path.as_str())))
}

impl Config {
    /// Whether a source reads from `p`.
    pub fn has_inventory_path(&self, p: &str) -> (b: bool)
        ensures
            b == has_source_path(self.inventory@, p@),
    {
        let pv = chars_of(p);
        let mut i: usize = 0;
        while i < self.inventory.len()
            invariant
                i <= self.inventory.len(),
                pv@ == p@,
                forall|j: int| 0 <= j < i ==> #[trigger] self.inventory@[j].path_of() != p@,
            decreases self.inventory.len() - i,
        {
            let q = chars_of(self.inventory[i].path().as_str());
            if chars_eq(&q, &pv) {
                return true;
            }
            i += 1;
        }
        false
    }

    /// Adds a source unless one with the same path is there; says whether it
    /// was added.
    pub fn add_inventory(&mut self, c: InventoryConfig) -> (added: bool)
        ensures
            added == !has_source_path(old(self).inventory@, c.path_of()),
            final(self).inventory@ == with_source(old(self).inventory@, c),
            final(self).settings == old(self).settings,
            final(self).ip_labels == old(self).ip_labels,
            final(self).jump_hosts == old(self).jump_hosts,
            final(self).host_overrides == old(self).host_overrides,
    {
        let p = c.path();
        if self.has_inventory_path(p.as_str()) {
            return false;
        }
        self.inventory.push(c);
        true
    }
}

} // verus!
