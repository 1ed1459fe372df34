//! Hosts declared in an OpenSSH client configuration file.

use vstd::prelude::*;
use crate::text::{
    chars_of, contains_char, find_char, find_char_vec, find_ws, find_ws_vec, is_blank, lines,
    lines_vec, lower_eq, lower_eq_vec, opt_view, parse_u16, parse_u16_vec, slice_of, string_from,
    string_of, strings_view, trim, trim_vec, vv,
};
use super::{Host, HostModel, hosts_view, tags_view};

verus! {

/// An inventory read from an OpenSSH client config file.
pub struct SshConfigInventory {
    pub path: String,
}

/// A config line split into keyword and argument: `Key=Value` when both
/// sides are nonempty, else `Key Value` at the first whitespace.
pub open spec fn config_line_parts(line: Seq<char>) -> Option<(Seq<char>, Seq<char>)> {
    let by_eq = match find_char(line, '=') {
        Some(pos) => {
            let key = trim(line.take(pos));
            let value = trim(line.skip(pos + 1));
            if key.len() > 0 && value.len() > 0 {
                Some((key, value))
            } else {
                None
            }
        },
        None => None,
    };
    match by_eq {
        Some(kv) => Some(kv),
        None => match find_ws(line) {
            Some(pos) => {
                let key = trim(line.take(pos));
                let value = trim(line.skip(pos));
                if key.len() > 0 && value.len() > 0 {
                    Some((key, value))
                } else {
                    None
                }
            },
            None => None,
        },
    }
}

/// Whether a `Host` block names a single host rather than a pattern.
pub open spec fn is_concrete(h: HostModel) -> bool {
    !h.hostname.contains('*') && !h.hostname.contains('?')
}

/// A fresh host for a `Host` line.
pub open spec fn new_config_host(name: Seq<char>, source: Seq<char>) -> HostModel {
    HostModel {
        hostname: name,
        ip: None,
        user: None,
        port: None,
        identity_file: None,
        jump_host: None,
        groups: seq!["ssh_config"@],
        source,
        tags: seq![],
        label: None,
        alias: None,
    }
}

/// `done` with `cur` appended when `cur` is a concrete host.
pub open spec fn flush_config_host(done: Seq<HostModel>, cur: Option<HostModel>) -> Seq<HostModel> {
    match cur {
        Some(h) => if is_concrete(h) {
            done.push(h)
        } else {
            done
        },
        None => done,
    }
}

/// One configuration line applied to the hosts read so far and the host
/// being filled in.
pub open spec fn config_step(st: (Seq<HostModel>, Option<HostModel>), raw: Seq<char>, source: Seq<char>) -> (
    Seq<HostModel>,
    Option<HostModel>,
) {
    let (done, cur) = st;
    let line = trim(raw);
    if line.len() == 0 || line[0] == '#' {
        st
    } else {
        match config_line_parts(line) {
            None => st,
            Some((key, value)) => {
                if lower_eq(key, "host"@) {
                    (flush_config_host(done, cur), Some(new_config_host(value, source)))
                } else {
                    match cur {
                        None => st,
                        Some(h) => if lower_eq(key, "hostname"@) {
                            (done, Some(HostModel { ip: Some(value), ..h }))
                        } else if lower_eq(key, "user"@) {
                            (done, Some(HostModel { user: Some(value), ..h }))
                        } else if lower_eq(key, "port"@) {
                            (done, Some(HostModel { port: parse_u16(value), ..h }))
                        } else if lower_eq(key, "identityfile"@) {
                            (done, Some(HostModel { identity_file: Some(value), ..h }))
                        } else if lower_eq(key, "proxyjump"@) {
                            (done, Some(HostModel { jump_host: Some(value), ..h }))
                        } else {
                            st
                        },
                    }
                }
            },
        }
    }
}

pub open spec fn config_scan(ls: Seq<Seq<char>>, source: Seq<char>) -> (Seq<HostModel>, Option<HostModel>)
    decreases ls.len(),
{
    if ls.len() == 0 {
        (seq![], None)
    } else {
        config_step(config_scan(ls.drop_last(), source), ls.last(), source)
    }
}

/// The concrete hosts of an SSH config, each with its HostName, User, Port,
/// IdentityFile and ProxyJump (keywords matched case-insensitively).
pub open spec fn ssh_config_hosts(content: Seq<char>, source: Seq<char>) -> Seq<HostModel> {
    let (done, cur) = config_scan(lines(content), source);
    flush_config_host(done, cur)
}

fn split_ssh_config_line_vec(line: &Vec<char>) -> (r: Option<(Vec<char>, Vec<char>)>)
    ensures
        match r {
            Some((k, v)) => config_line_parts(line@) == Some((k@, v@)),
            None => config_line_parts(line@) is None,
        },
{
    proof {
        crate::text::lemma_find_char(line@, '=');
        crate::text::lemma_find_ws_from(line@, 0);
    }
    if let Some(pos) = find_char_vec(line, '=') {
        let k = slice_of(line, 0, pos);
        let v = slice_of(line, pos + 1, line.len());
        assert(k@ =~= line@.take(pos as int));
        assert(v@ =~= line@.skip(pos + 1));
        let key = trim_vec(&k);
        let value = trim_vec(&v);
        if key.len() > 0 && value.len() > 0 {
            return Some((key, value));
        }
    }
    if let Some(pos) = find_ws_vec(line) {
        let k = slice_of(line, 0, pos);
        let v = slice_of(line, pos, line.len());
        assert(k@ =~= line@.take(pos as int));
        assert(v@ =~= line@.skip(pos as int));
        let key = trim_vec(&k);
        let value = trim_vec(&v);
        if key.len() > 0 && value.len() > 0 {
            return Some((key, value));
        }
    }
    None
}

/// Splits a config line into keyword and argument ("Key Value" or "Key=Value").
pub fn split_ssh_config_line(line: &str) -> (r: Option<(String, String)>)
    ensures
        match r {
            Some((k, v)) => config_line_parts(line@) == Some((k@, v@)),
            None => config_line_parts(line@) is None,
        },
{
    let l = chars_of(line);
    match split_ssh_config_line_vec(&l) {
        Some((k, v)) => Some((string_of(&k), string_of(&v))),
        None => None,
    }
}

fn new_host_exec(name: &Vec<char>, source: &str) -> (h: Host)
    ensures
        h@ == new_config_host(name@, source@),
{
    let mut groups: Vec<String> = Vec::new();
    groups.push(string_from("ssh_config"));
    let h = Host {
        hostname: string_of(name),
        ip: None,
        user: None,
        port: None,
        identity_file: None,
        jump_host: None,
        groups,
        source: string_from(source),
        tags: Vec::new(),
        label: None,
        alias: None,
    };
    assert(strings_view(h.groups@) =~= seq!["ssh_config"@]);
    assert(tags_view(h.tags@) =~= seq![]);
    h
}

fn push_if_concrete(done: &mut Vec<Host>, cur: Option<Host>)
    ensures
        hosts_view(final(done)@) == flush_config_host(hosts_view(old(done)@), match cur {
            Some(h) => Some(h@),
            None => None,
        }),
{
    match cur {
        Some(h) => {
            let name = chars_of(h.hostname.as_str());
            if !contains_char(&name, '*') && !contains_char(&name, '?') {
                let ghost before = done@;
                done.push(h);
                assert(hosts_view(done@) =~= hosts_view(before).push(h@));
            }
        },
        None => {},
    }
}

impl SshConfigInventory {
    /// The hosts of the config text `content`, each recorded with this
    /// inventory's path as its source.
    pub fn parse(&self, content: &str) -> (r: Vec<Host>)
        ensures
            hosts_view(r@) == ssh_config_hosts(content@, self.path@),
    {
        parse_ssh_config(content, self.path.as_str())
    }
}

/// The hosts of SSH config text `content`, with `source` as their source.
pub fn parse_ssh_config(content: &str, source: &str) -> (r: Vec<Host>)
    ensures
        hosts_view(r@) == ssh_config_hosts(content@, source@),
{
    let c = chars_of(content);
    let ls = lines_vec(&c);
    let ghost l = vv(ls@);
    let kw_host = chars_of("host");
    let kw_hostname = chars_of("hostname");
    let kw_user = chars_of("user");
    let kw_port = chars_of("port");
    let kw_identity = chars_of("identityfile");
    let kw_jump = chars_of("proxyjump");
    let mut done: Vec<Host> = Vec::new();
    let mut cur: Option<Host> = None;
    let mut i: usize = 0;
    while i < ls.len()
        invariant
            i <= ls.len(),
            l == vv(ls@),
            l == lines(content@),
            kw_host@ == "host"@,
            kw_hostname@ == "hostname"@,
            kw_user@ == "user"@,
            kw_port@ == "port"@,
            kw_identity@ == "identityfile"@,
            kw_jump@ == "proxyjump"@,
            (hosts_view(done@), match cur {
                Some(h) => Some(h@),
                None => None,
            }) == config_scan(l.take(i as int), source@),
        decreases ls.len() - i,
    {
        assert(l.take(i + 1).drop_last() =~= l.take(i as int));
        assert(l.take(i + 1).last() == ls@[i as int]@);
        let line = trim_vec(&ls[i]);
        if line.len() == 0 || line[0] == '#' {
            i += 1;
            continue;
        }
        match split_ssh_config_line_vec(&line) {
            None => {},
            Some((key, value)) => {
                if lower_eq_vec(&key, &kw_host) {
                    let prev = cur;
                    push_if_concrete(&mut done, prev);
                    cur = Some(new_host_exec(&value, source));
                } else {
                    match cur {
                        None => {},
                        Some(mut h) => {
                            if lower_eq_vec(&key, &kw_hostname) {
                                h.ip = Some(string_of(&value));
                            } else if lower_eq_vec(&key, &kw_user) {
                                h.user = Some(string_of(&value));
                            } else if lower_eq_vec(&key, &kw_port) {
                                h.port = parse_u16_vec(&value);
                            } else if lower_eq_vec(&key, &kw_identity) {
                                h.identity_file = Some(string_of(&value));
                            } else if lower_eq_vec(&key, &kw_jump) {
                                h.jump_host = Some(string_of(&value));
                            }
                            cur = Some(h);
                        },
                    }
                }
            },
        }
        i += 1;
    }
    assert(l.take(ls.len() as int) =~= l);
    push_if_concrete(&mut done, cur);
    done
}

} // verus!
