//! Hosts and the inventory sources they are read from.

use vstd::prelude::*;
use crate::text::{chars_of, clone_opt, clone_strings, concat, opt_view, string_of, strings_view, vv};

pub mod ansible;
pub mod shell_alias;
pub mod ssh_config;
pub mod teleport;
pub mod yaml_config;

verus! {

/// One SSH host as read from an inventory source.
#[derive(Debug, Clone)]
pub struct Host {
    pub hostname: String,
    pub ip: Option<String>,
    pub user: Option<String>,
    pub port: Option<u16>,
    pub identity_file: Option<String>,
    pub jump_host: Option<String>,
    pub groups: Vec<String>,
    pub source: String,
    /// Key/value tags, in the order the source gives them.
    pub tags: Vec<(String, String)>,
    /// Custom label set by the user via the TUI editor
    pub label: Option<String>,
    /// Custom display alias set by the user via the TUI editor
    pub alias: Option<String>,
}

/// The mathematical content of a `Host`.
pub struct HostModel {
    pub hostname: Seq<char>,
    pub ip: Option<Seq<char>>,
    pub user: Option<Seq<char>>,
    pub port: Option<u16>,
    pub identity_file: Option<Seq<char>>,
    pub jump_host: Option<Seq<char>>,
    pub groups: Seq<Seq<char>>,
    pub source: Seq<char>,
    pub tags: Seq<(Seq<char>, Seq<char>)>,
    pub label: Option<Seq<char>>,
    pub alias: Option<Seq<char>>,
}

pub open spec fn tags_view(t: Seq<(String, String)>) -> Seq<(Seq<char>, Seq<char>)> {
    t.map_values(|p: (String, String)| (p.0@, p.1@))
}

impl View for Host {
    type V = HostModel;

    open spec fn view(&self) -> HostModel {
        HostModel {
            hostname: self.hostname@,
            ip: opt_view(self.ip),
            user: opt_view(self.user),
            port: self.port,
            identity_file: opt_view(self.identity_file),
            jump_host: opt_view(self.jump_host),
            groups: strings_view(self.groups@),
            source: self.source@,
            tags: tags_view(self.tags@),
            label: opt_view(self.label),
            alias: opt_view(self.alias),
        }
    }
}

/// No key occurs twice among `t`'s pairs.
pub open spec fn keys_distinct<V>(t: Seq<(Seq<char>, V)>) -> bool {
    forall|a: int, b: int| 0 <= a < b < t.len() ==> #[trigger] t[a].0 != #[trigger] t[b].0
}

/// Well-formedness of a host: no tag key occurs twice (tags are a map).
pub open spec fn tags_wf(h: HostModel) -> bool {
    keys_distinct(h.tags)
}

/// Every host of `hs` is well-formed.
pub open spec fn all_tags_wf(hs: Seq<HostModel>) -> bool {
    forall|k: int| 0 <= k < hs.len() ==> tags_wf(#[trigger] hs[k])
}

/// The views of a sequence of hosts.
pub open spec fn hosts_view(v: Seq<Host>) -> Seq<HostModel> {
    v.map_values(|h: Host| h@)
}

impl Default for Host {
    fn default() -> (h: Host)
        ensures
            h@ == (HostModel {
                hostname: Seq::empty(),
                ip: None,
                user: None,
                port: None,
                identity_file: None,
                jump_host: None,
                groups: Seq::empty(),
                source: Seq::empty(),
                tags: Seq::empty(),
                label: None,
                alias: None,
            }),
    {
        let h = Host {
            hostname: String::new(),
            ip: None,
            user: None,
            port: None,
            identity_file: None,
            jump_host: None,
            groups: Vec::new(),
            source: String::new(),
            tags: Vec::new(),
            label: None,
            alias: None,
        };
        assert(strings_view(h.groups@) =~= Seq::empty());
        assert(tags_view(h.tags@) =~= Seq::empty());
        h
    }
}

/// `parts` joined with `sep` between neighbours (std `join`).
pub open spec fn join(parts: Seq<Seq<char>>, sep: Seq<char>) -> Seq<char>
    decreases parts.len(),
{
    if parts.len() == 0 {
        seq![]
    } else if parts.len() == 1 {
        parts[0]
    } else {
        join(parts.drop_last(), sep) + sep + parts.last()
    }
}

/// The parts of a host's fuzzy-search text: hostname, IP, label, groups and
/// `key:value` tags.
pub open spec fn search_parts(h: HostModel) -> Seq<Seq<char>> {
    let a = seq![h.hostname];
    let b = match h.ip {
        Some(ip) => a.push(ip),
        None => a,
    };
    let c = match h.label {
        Some(l) => b.push(l),
        None => b,
    };
    c + h.groups + h.tags.map_values(|t: (Seq<char>, Seq<char>)| t.0 + seq![':'] + t.1)
}

/// The target string passed to ssh: `user@host` or `host`, where host is the
/// IP when known, else the hostname.
pub open spec fn connect_target_of(h: HostModel) -> Seq<char> {
    let host = match h.ip {
        Some(ip) => ip,
        None => h.hostname,
    };
    match h.user {
        Some(u) => u + seq!['@'] + host,
        None => host,
    }
}

pub fn join_vec(parts: &Vec<Vec<char>>, sep: &Vec<char>) -> (r: Vec<char>)
    ensures
        r@ == join(vv(parts@), sep@),
{
    let mut r: Vec<char> = Vec::new();
    let mut i: usize = 0;
    while i < parts.len()
        invariant
            i <= parts.len(),
            r@ == join(vv(parts@).take(i as int), sep@),
        decreases parts.len() - i,
    {
        let ghost prev = vv(parts@).take(i as int);
        assert(vv(parts@).take(i + 1).drop_last() =~= prev);
        if i == 0 {
            assert(vv(parts@).take(1) =~= seq![parts@[0]@]);
            r = parts[0].clone();
        } else {
            let t = concat(&r, sep);
            r = concat(&t, &parts[i]);
        }
        i += 1;
    }
    assert(vv(parts@).take(parts.len() as int) =~= vv(parts@));
    r
}

impl Host {
    /// A copy of this host.
    pub fn copy(&self) -> (r: Host)
        ensures
            r@ == self@,
    {
        let mut tags: Vec<(String, String)> = Vec::new();
        let mut i: usize = 0;
        while i < self.tags.len()
            invariant
                i <= self.tags.len(),
                tags_view(tags@) == tags_view(self.tags@).take(i as int),
            decreases self.tags.len() - i,
        {
            let k = self.tags[i].0.clone();
            let v = self.tags[i].1.clone();
            let ghost before = tags@;
            tags.push((k, v));
            assert(tags@ =~= before.push((k, v)));
            assert(tags_view(tags@) =~= tags_view(before).push((k@, v@)));
            assert(tags_view(self.tags@).take(i + 1) =~= tags_view(self.tags@).take(i as int).push(
                (self.tags@[i as int].0@, self.tags@[i as int].1@),
            ));
            assert(tags_view(tags@) =~= tags_view(self.tags@).take(i + 1));
            i += 1;
        }
        assert(tags_view(self.tags@).take(self.tags.len() as int) =~= tags_view(self.tags@));
        Host {
            hostname: self.hostname.clone(),
            ip: clone_opt(&self.ip),
            user: clone_opt(&self.user),
            port: self.port,
            identity_file: clone_opt(&self.identity_file),
            jump_host: clone_opt(&self.jump_host),
            groups: clone_strings(&self.groups),
            source: self.source.clone(),
            tags,
            label: clone_opt(&self.label),
            alias: clone_opt(&self.alias),
        }
    }

    /// Build a combined string used for fuzzy matching
    pub fn search_string(&self) -> (r: String)
        ensures
            r@ == join(search_parts(self@), seq![' ']),
    {
        let mut parts: Vec<Vec<char>> = Vec::new();
        parts.push(chars_of(self.hostname.as_str()));
        if let Some(ip) = &self.ip {
            parts.push(chars_of(ip.as_str()));
        }
        if let Some(label) = &self.label {
            parts.push(chars_of(label.as_str()));
        }
        let ghost head = vv(parts@);
        let mut i: usize = 0;
        while i < self.groups.len()
            invariant
                i <= self.groups.len(),
                vv(parts@) == head + strings_view(self.groups@).take(i as int),
            decreases self.groups.len() - i,
        {
            parts.push(chars_of(self.groups[i].as_str()));
            assert(head + strings_view(self.groups@).take(i + 1) =~= (head + strings_view(
                self.groups@,
            ).take(i as int)).push(self.groups@[i as int]@));
            i += 1;
        }
        assert(strings_view(self.groups@).take(self.groups.len() as int) =~= strings_view(
            self.groups@,
        ));
        let ghost head2 = vv(parts@);
        let ghost tagparts = tags_view(self.tags@).map_values(
            |t: (Seq<char>, Seq<char>)| t.0 + seq![':'] + t.1,
        );
        let mut j: usize = 0;
        while j < self.tags.len()
            invariant
                j <= self.tags.len(),
                tagparts.len() == self.tags.len(),
                tagparts == tags_view(self.tags@).map_values(
                    |t: (Seq<char>, Seq<char>)| t.0 + seq![':'] + t.1,
                ),
                vv(parts@) == head2 + tagparts.take(j as int),
            decreases self.tags.len() - j,
        {
            let k = chars_of(self.tags[j].0.as_str());
            let mut colon: Vec<char> = Vec::new();
            colon.push(':');
            let kc = concat(&k, &colon);
            let v = chars_of(self.tags[j].1.as_str());
            let part = concat(&kc, &v);
            assert(part@ == tagparts[j as int]);
            parts.push(part);
            assert(head2 + tagparts.take(j + 1) =~= (head2 + tagparts.take(j as int)).push(
                tagparts[j as int],
            ));
            j += 1;
        }
        assert(tagparts.take(self.tags.len() as int) =~= tagparts);
        assert(vv(parts@) =~= search_parts(self@));
        let mut sep: Vec<char> = Vec::new();
        sep.push(' ');
        assert(sep@ =~= seq![' ']);
        let r = join_vec(&parts, &sep);
        string_of(&r)
    }

    /// The actual target string passed to ssh (user@ip or user@hostname)
    pub fn connect_target(&self) -> (r: String)
        ensures
            r@ == connect_target_of(self@),
    {
        let host = match &self.ip {
            Some(ip) => chars_of(ip.as_str()),
            None => chars_of(self.hostname.as_str()),
        };
        match &self.user {
            Some(u) => {
                let mut at: Vec<char> = Vec::new();
                at.push('@');
                let ua = concat(&chars_of(u.as_str()), &at);
                let full = concat(&ua, &host);
                string_of(&full)
            },
            None => string_of(&host),
        }
    }
}

} // verus!
