//! Hosts listed in a YAML file of sojourn's own format.

use vstd::prelude::*;
use crate::text::{clone_opt, clone_strings, opt_view, string_from, strings_view};
use super::{Host, HostModel, hosts_view, keys_distinct, tags_view, tags_wf};

verus! {

/// One host entry of the YAML file.
pub struct YamlHost {
    pub hostname: String,
    pub ip: Option<String>,
    pub user: Option<String>,
    pub port: Option<u16>,
    pub identity_file: Option<String>,
    pub jump_host: Option<String>,
    pub groups: Vec<String>,
    pub tags: Vec<(String, String)>,
}

/// The YAML file: a list of hosts.
pub struct YamlConfig {
    pub hosts: Vec<YamlHost>,
}

/// An inventory read from a YAML file.
pub struct YamlInventory {
    pub path: String,
}

/// The host of one YAML entry, read from `source`.
pub open spec fn yaml_entry_host(y: YamlHost, source: Seq<char>) -> HostModel {
    HostModel {
        hostname: y.hostname@,
        ip: opt_view(y.ip),
        user: opt_view(y.user),
        port: y.port,
        identity_file: opt_view(y.identity_file),
        jump_host: opt_view(y.jump_host),
        groups: strings_view(y.groups@),
        source,
        tags: tags_view(y.tags@),
        label: None,
        alias: None,
    }
}

/// A host read from a YAML entry carries the entry's own fields: its
/// hostname, address, user, port, identity file, jump host, groups and
/// tags, with the file as its source and no label or alias.
pub proof fn law_yaml_host_fields(y: YamlHost, source: Seq<char>)
    ensures
        yaml_entry_host(y, source).hostname == y.hostname@,
        yaml_entry_host(y, source).ip == opt_view(y.ip),
        yaml_entry_host(y, source).user == opt_view(y.user),
        yaml_entry_host(y, source).port == y.port,
        yaml_entry_host(y, source).identity_file == opt_view(y.identity_file),
        yaml_entry_host(y, source).jump_host == opt_view(y.jump_host),
        yaml_entry_host(y, source).groups == strings_view(y.groups@),
        yaml_entry_host(y, source).tags == tags_view(y.tags@),
        yaml_entry_host(y, source).source == source,
        yaml_entry_host(y, source).label is None,
        yaml_entry_host(y, source).alias is None,
{
}

/// The hosts of a YAML file, one per entry, in order.
pub fn yaml_hosts(config: &YamlConfig, source: &str) -> (r: Vec<Host>)
    ensures
        r@.len() == config.hosts@.len(),
        forall|i: int| 0 <= i < r@.len() ==> #[trigger] r@[i]@ == yaml_entry_host(config.hosts@[i], source@),
        forall|i: int| 0 <= i < r@.len() ==> (#[trigger] r@[i]@).hostname == config.hosts@[i].hostname@ && r@[i]@.ip == opt_view(config.hosts@[i].ip)
            && r@[i]@.user == opt_view(config.hosts@[i].user) && r@[i]@.port == config.hosts@[i].port
            && r@[i]@.identity_file == opt_view(config.hosts@[i].identity_file) && r@[i]@.jump_host == opt_view(config.hosts@[i].jump_host)
            && r@[i]@.groups == strings_view(config.hosts@[i].groups@) && r@[i]@.source == source@,
{
    let mut out: Vec<Host> = Vec::new();
    let mut i: usize = 0;
    while i < config.hosts.len()
        invariant
            i <= config.hosts.len(),
            out@.len() == i,
            forall|j: int| 0 <= j < i ==> #[trigger] out@[j]@ == yaml_entry_host(config.hosts@[j], source@),
        decreases config.hosts.len() - i,
    {
        let y = &config.hosts[i];
        let mut tags: Vec<(String, String)> = Vec::new();
        let mut k: usize = 0;
        while k < y.tags.len()
            invariant
                k <= y.tags.len(),
                tags_view(tags@) == tags_view(y.tags@).take(k as int),
            decreases y.tags.len() - k,
        {
            let a = y.tags[k].0.clone();
            let b = y.tags[k].1.clone();
            let ghost before = tags@;
            tags.push((a, b));
            assert(tags_view(tags@) =~= tags_view(before).push((a@, b@)));
            assert(tags_view(y.tags@).take(k + 1) =~= tags_view(y.tags@).take(k as int).push(
                (y.tags@[k as int].0@, y.tags@[k as int].1@),
            ));
            k += 1;
        }
        assert(tags_view(y.tags@).take(y.tags.len() as int) =~= tags_view(y.tags@));
        let h = Host {
            hostname: y.hostname.clone(),
            ip: clone_opt(&y.ip),
            user: clone_opt(&y.user),
            port: y.port,
            identity_file: clone_opt(&y.identity_file),
            jump_host: clone_opt(&y.jump_host),
            groups: clone_strings(&y.groups),
            source: string_from(source),
            tags,
            label: None,
            alias: None,
        };
        out.push(h);
        i += 1;
    }
    out
}

impl YamlInventory {
    /// The hosts of the parsed YAML file `config`, with `source` (the
    /// expanded path) as their source.
    pub fn hosts_from(&self, config: &YamlConfig, source: &str) -> (r: Vec<Host>)
        ensures
            r@.len() == config.hosts@.len(),
            forall|i: int| 0 <= i < r@.len() ==> #[trigger] r@[i]@ == yaml_entry_host(config.hosts@[i], source@),
            forall|i: int| 0 <= i < r@.len() ==> (tags_wf(#[trigger] r@[i]@) <==> keys_distinct(tags_view(config.hosts@[i].tags@))),
            forall|i: int| 0 <= i < r@.len() ==> (#[trigger] r@[i]@).hostname == config.hosts@[i].hostname@ && r@[i]@.ip == opt_view(config.hosts@[i].ip)
            && r@[i]@.user == opt_view(config.hosts@[i].user) && r@[i]@.port == config.hosts@[i].port
            && r@[i]@.identity_file == opt_view(config.hosts@[i].identity_file) && r@[i]@.jump_host == opt_view(config.hosts@[i].jump_host)
            && r@[i]@.groups == strings_view(config.hosts@[i].groups@) && r@[i]@.source == source@,
    {
        yaml_hosts(config, source)
    }
}

} // verus!
