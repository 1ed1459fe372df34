//! Ansible inventories, INI style (`[group]` sections of host lines) and the
//! YAML style (`all: hosts: name: ansible_host: …`).

use vstd::prelude::*;
use crate::text::{
    all_digits, chars_of, concat, contains_seq, contains_vec, find_char, find_char_vec, is_digit,
    is_ws, lines, lines_vec, opt_view, parse_u16, parse_u16_vec, rfind_char, rfind_char_vec,
    slice_of, starts_with, starts_with_vec, string_from, string_of, strings_view, trim,
    trim_start, trim_vec, vv, words, words_vec, chars_eq, contains_char, utf8_char_len,
};
use crate::external::{
    char_is_alphanumeric, compile_regex, file_name_of_path, parent_of_path, path_file_name,
    path_parent, regex_capture, regex_escape, regex_escaped, regex_first_capture, regex_valid,
    unicode_alphanumeric,
};
use super::{Host, HostModel, hosts_view, tags_view};

verus! {

/// An inventory given by a glob pattern of Ansible inventory files.
pub struct AnsibleInventory {
    pub pattern: String,
}

// ───────────────────────────── variables on a host line ─────────────────────────────

/// The regex that finds `key=value` on a host line: the escaped key, `=`,
/// and a captured run of non-whitespace.
pub open spec fn var_pattern(key: Seq<char>) -> Seq<char> {
    regex_escaped(key) + "=(\\S+)"@
}

/// The value of `key=value` on `line`, as the regex finds it.
pub open spec fn var_value(line: Seq<char>, key: Seq<char>) -> Option<Seq<char>> {
    if regex_valid(var_pattern(key)) {
        regex_first_capture(var_pattern(key), line)
    } else {
        None
    }
}

/// The value written `key=value` on `line`, if any.
pub fn extract_var(line: &str, key: &str) -> (r: Option<String>)
    ensures
        opt_view(r) == var_value(line@, key@),
{
    let esc = regex_escape(key);
    let e = chars_of(esc.as_str());
    let tail = chars_of("=(\\S+)");
    let p = concat(&e, &tail);
    let ps = string_of(&p);
    match compile_regex(ps.as_str()) {
        Some(re) => regex_capture(&re, line),
        None => None,
    }
}

// ───────────────────────────── INI inventories ─────────────────────────────

/// The host and inline port of a `host` or `host:port` word.
pub open spec fn host_and_port(raw: Seq<char>) -> (Seq<char>, Option<u16>) {
    match rfind_char(raw, ':') {
        Some(c) => {
            let ps = raw.skip(c + 1);
            if all_digits(ps) {
                (raw.take(c), parse_u16(ps))
            } else {
                (raw, None)
            }
        },
        None => (raw, None),
    }
}

/// A host from an INI host line: the first word names it (optionally with
/// `:port`), and `ansible_host`, `ansible_user`, `ansible_port` variables
/// give its address, user and port (`ansible_port` over the inline port).
pub open spec fn ansible_host_line(line: Seq<char>, group: Seq<char>, source: Seq<char>) -> Option<HostModel> {
    let parts = words(line);
    if parts.len() == 0 {
        None
    } else if parts[0].contains('=') {
        None
    } else {
        let (hostname, inline_port) = host_and_port(parts[0]);
        let port = match var_value(line, "ansible_port"@) {
            Some(p) => match parse_u16(p) {
                Some(x) => Some(x),
                None => inline_port,
            },
            None => inline_port,
        };
        Some(
            HostModel {
                hostname,
                ip: var_value(line, "ansible_host"@),
                user: var_value(line, "ansible_user"@),
                port,
                identity_file: None,
                jump_host: None,
                groups: seq![group],
                source,
                tags: seq![],
                label: None,
                alias: None,
            },
        )
    }
}

pub open spec fn is_bracket(c: char) -> bool {
    c == '[' || c == ']'
}

pub open spec fn trim_brackets_start(s: Seq<char>) -> Seq<char>
    decreases s.len(),
{
    if s.len() > 0 && is_bracket(s[0]) {
        trim_brackets_start(s.drop_first())
    } else {
        s
    }
}

pub open spec fn trim_brackets_end(s: Seq<char>) -> Seq<char>
    decreases s.len(),
{
    if s.len() > 0 && is_bracket(s.last()) {
        trim_brackets_end(s.drop_last())
    } else {
        s
    }
}

/// The group a `[group]`, `[group:vars]` or `[group:children]` header opens.
pub open spec fn section_group(line: Seq<char>) -> Seq<char> {
    let inner = trim_brackets_end(trim_brackets_start(line));
    match find_char(inner, ':') {
        Some(k) => inner.take(k),
        None => inner,
    }
}

pub open spec fn ini_step(st: (Seq<HostModel>, Seq<char>), raw: Seq<char>, source: Seq<char>) -> (
    Seq<HostModel>,
    Seq<char>,
) {
    let line = trim(raw);
    if line.len() == 0 || line[0] == '#' {
        st
    } else if line[0] == '[' {
        (st.0, section_group(line))
    } else {
        match ansible_host_line(line, st.1, source) {
            Some(h) => (st.0.push(h), st.1),
            None => st,
        }
    }
}

pub open spec fn ini_scan(ls: Seq<Seq<char>>, group: Seq<char>, source: Seq<char>) -> (
    Seq<HostModel>,
    Seq<char>,
)
    decreases ls.len(),
{
    if ls.len() == 0 {
        (seq![], group)
    } else {
        ini_step(ini_scan(ls.drop_last(), group, source), ls.last(), source)
    }
}

/// The hosts of an INI inventory, each in the group of the section above it
/// (`group` before the first section).
pub open spec fn ini_inventory_hosts(content: Seq<char>, group: Seq<char>, source: Seq<char>) -> Seq<HostModel> {
    ini_scan(lines(content), group, source).0
}

fn host_and_port_vec(raw: &Vec<char>) -> (r: (Vec<char>, Option<u16>))
    ensures
        (r.0@, r.1) == host_and_port(raw@),
{
    match rfind_char_vec(raw, ':') {
        Some(c) => {
            let ps = slice_of(raw, c + 1, raw.len());
            assert(ps@ =~= raw@.skip(c + 1));
            let mut all = true;
            let mut i: usize = 0;
            while i < ps.len()
                invariant
                    i <= ps.len(),
                    all == (forall|j: int| 0 <= j < i ==> is_digit(#[trigger] ps@[j])),
                decreases ps.len() - i,
            {
                if !('0' <= ps[i] && ps[i] <= '9') {
                    all = false;
                }
                i += 1;
            }
            if all {
                let h = slice_of(raw, 0, c);
                assert(h@ =~= raw@.take(c as int));
                (h, parse_u16_vec(&ps))
            } else {
                (raw.clone(), None)
            }
        },
        None => (raw.clone(), None),
    }
}

fn var_value_vec(line: &str, key: &str) -> (r: Option<Vec<char>>)
    ensures
        match r {
            Some(v) => var_value(line@, key@) == Some(v@),
            None => var_value(line@, key@) is None,
        },
{
    match extract_var(line, key) {
        Some(s) => Some(chars_of(s.as_str())),
        None => None,
    }
}

fn host_line_vec(line: &Vec<char>, group: &Vec<char>, source: &str) -> (r: Option<Host>)
    ensures
        match r {
            Some(h) => ansible_host_line(line@, group@, source@) == Some(h@),
            None => ansible_host_line(line@, group@, source@) is None,
        },
{
    let parts = words_vec(line);
    if parts.len() == 0 {
        return None;
    }
    assert(vv(parts@)[0] == parts@[0]@);
    if contains_char(&parts[0], '=') {
        return None;
    }
    let (hostname, inline_port) = host_and_port_vec(&parts[0]);
    let ls = string_of(line);
    let ip = extract_var(ls.as_str(), "ansible_host");
    let user = extract_var(ls.as_str(), "ansible_user");
    let port = match var_value_vec(ls.as_str(), "ansible_port") {
        Some(p) => match parse_u16_vec(&p) {
            Some(x) => Some(x),
            None => inline_port,
        },
        None => inline_port,
    };
    let mut groups: Vec<String> = Vec::new();
    groups.push(string_of(group));
    let h = Host {
        hostname: string_of(&hostname),
        ip,
        user,
        port,
        identity_file: None,
        jump_host: None,
        groups,
        source: string_from(source),
        tags: Vec::new(),
        label: None,
        alias: None,
    };
    assert(strings_view(h.groups@) =~= seq![group@]);
    assert(tags_view(h.tags@) =~= seq![]);
    Some(h)
}

/// Parses one INI host line into a host of `group`.
pub fn parse_ansible_host_line(line: &str, group: &str, source: &str) -> (r: Option<Host>)
    ensures
        match r {
            Some(h) => ansible_host_line(line@, group@, source@) == Some(h@),
            None => ansible_host_line(line@, group@, source@) is None,
        },
{
    let l = chars_of(line);
    let g = chars_of(group);
    host_line_vec(&l, &g, source)
}

fn section_group_vec(line: &Vec<char>) -> (r: Vec<char>)
    ensures
        r@ == section_group(line@),
{
    let n = line.len();
    let mut i: usize = 0;
    assert(line@.subrange(0, n as int) =~= line@);
    while i < n && (line[i] == '[' || line[i] == ']')
        invariant
            i <= n == line.len(),
            trim_brackets_start(line@) == trim_brackets_start(line@.subrange(i as int, n as int)),
        decreases n - i,
    {
        assert(line@.subrange(i as int, n as int).drop_first() =~= line@.subrange(i + 1, n as int));
        i += 1;
    }
    let s = slice_of(line, i, n);
    let mut j: usize = s.len();
    assert(s@.subrange(0, j as int) =~= s@);
    while j > 0 && (s[j - 1] == '[' || s[j - 1] == ']')
        invariant
            j <= s.len(),
            trim_brackets_end(s@) == trim_brackets_end(s@.subrange(0, j as int)),
        decreases j,
    {
        assert(s@.subrange(0, j as int).drop_last() =~= s@.subrange(0, j - 1));
        j -= 1;
    }
    let inner = slice_of(&s, 0, j);
    match find_char_vec(&inner, ':') {
        Some(k) => {
            let g = slice_of(&inner, 0, k);
            assert(g@ =~= inner@.take(k as int));
            g
        },
        None => inner,
    }
}

fn ini_hosts_vec(ls: &Vec<Vec<char>>, group: &str, source: &str, hosts: &mut Vec<Host>)
    ensures
        hosts_view(final(hosts)@) == hosts_view(old(hosts)@) + ini_scan(vv(ls@), group@, source@).0,
{
    let ghost l = vv(ls@);
    let ghost base = hosts_view(hosts@);
    let mut current = chars_of(group);
    let mut i: usize = 0;
    assert(hosts_view(hosts@) =~= base + ini_scan(l.take(0), group@, source@).0);
    while i < ls.len()
        invariant
            i <= ls.len(),
            l == vv(ls@),
            hosts_view(hosts@) == base + ini_scan(l.take(i as int), group@, source@).0,
            current@ == ini_scan(l.take(i as int), group@, source@).1,
        decreases ls.len() - i,
    {
        assert(l.take(i + 1).drop_last() =~= l.take(i as int));
        assert(l.take(i + 1).last() == ls@[i as int]@);
        let line = trim_vec(&ls[i]);
        if line.len() == 0 || line[0] == '#' {
        } else if line[0] == '[' {
            current = section_group_vec(&line);
        } else {
            match host_line_vec(&line, &current, source) {
                Some(h) => {
                    let ghost before = hosts@;
                    hosts.push(h);
                    assert(hosts_view(hosts@) =~= hosts_view(before).push(h@));
                },
                None => {},
            }
        }
        i += 1;
    }
    assert(l.take(ls.len() as int) =~= l);
}

// ───────────────────────────── YAML inventories ─────────────────────────────

/// Bytes of the leading whitespace of `line` (the indent, as
/// `line.len() - line.trim_start().len()` gives it).
pub open spec fn indent_bytes(line: Seq<char>) -> nat
    decreases line.len(),
{
    if line.len() > 0 && is_ws(line[0]) {
        utf8_char_len(line[0]) + indent_bytes(line.drop_first())
    } else {
        0
    }
}

/// The state of the line-by-line YAML reading: hosts so far, the host being
/// read and its variables, and the indent at which host names appear.
pub struct YamlScan {
    pub hosts: Seq<HostModel>,
    pub name: Option<Seq<char>>,
    pub ip: Option<Seq<char>>,
    pub user: Option<Seq<char>>,
    pub port: Option<u16>,
    pub indent: Option<nat>,
}

pub open spec fn yaml_start() -> YamlScan {
    YamlScan { hosts: seq![], name: None, ip: None, user: None, port: None, indent: None }
}

/// The host being read, finished and appended; its variables reset.
pub open spec fn yaml_flush(st: YamlScan, group: Seq<char>, source: Seq<char>) -> YamlScan {
    match st.name {
        Some(n) => YamlScan {
            hosts: st.hosts.push(
                HostModel {
                    hostname: n,
                    ip: st.ip,
                    user: st.user,
                    port: st.port,
                    identity_file: None,
                    jump_host: None,
                    groups: seq![group],
                    source,
                    tags: seq![],
                    label: None,
                    alias: None,
                },
            ),
            name: None,
            ip: None,
            user: None,
            port: None,
            indent: st.indent,
        },
        None => st,
    }
}

pub open spec fn is_structural_key(k: Seq<char>) -> bool {
    k == "all"@ || k == "hosts"@ || k == "children"@ || k == "vars"@ || k == "ungrouped"@
}

pub open spec fn is_marker_line(t: Seq<char>) -> bool {
    t == "---"@ || t == "all:"@ || t == "ungrouped:"@ || t == "children:"@ || t == "vars:"@
}

pub open spec fn starts_name(c: char) -> bool {
    unicode_alphanumeric(c) || c == '_' || c == '-'
}

/// One line of a YAML inventory: a bare `name:` at the host indent opens a
/// host; `ansible_host`, `ansible_user`, `ansible_port` set its variables;
/// `hosts:` makes the next bare key fix the host indent anew.
pub open spec fn yaml_step(st: YamlScan, line: Seq<char>, group: Seq<char>, source: Seq<char>) -> YamlScan {
    let t = trim(line);
    if t.len() == 0 || t[0] == '#' {
        st
    } else if is_marker_line(t) {
        st
    } else if t == "hosts:"@ {
        YamlScan { indent: None, ..st }
    } else {
        match find_char(t, ':') {
            None => st,
            Some(c) => {
                let key = trim(t.take(c));
                let val = trim(t.skip(c + 1));
                let ind = indent_bytes(line);
                if val.len() == 0 {
                    let at_level = match st.indent {
                        None => true,
                        Some(hi) => ind == hi,
                    };
                    if at_level && !is_structural_key(key) && key.len() > 0 && starts_name(key[0]) {
                        let f = yaml_flush(st, group, source);
                        YamlScan { name: Some(key), indent: Some(ind), ..f }
                    } else {
                        st
                    }
                } else if key == "ansible_host"@ {
                    YamlScan { ip: Some(val), ..st }
                } else if key == "ansible_user"@ {
                    YamlScan { user: Some(val), ..st }
                } else if key == "ansible_port"@ {
                    YamlScan { port: parse_u16(val), ..st }
                } else {
                    st
                }
            },
        }
    }
}

pub open spec fn yaml_scan(ls: Seq<Seq<char>>, group: Seq<char>, source: Seq<char>) -> YamlScan
    decreases ls.len(),
{
    if ls.len() == 0 {
        yaml_start()
    } else {
        yaml_step(yaml_scan(ls.drop_last(), group, source), ls.last(), group, source)
    }
}

/// The hosts of a YAML inventory, all in `group`.
pub open spec fn yaml_inventory_hosts(content: Seq<char>, group: Seq<char>, source: Seq<char>) -> Seq<HostModel> {
    yaml_flush(yaml_scan(lines(content), group, source), group, source).hosts
}

fn indent_bytes_vec(line: &Vec<char>) -> (r: u128)
    ensures
        r as nat == indent_bytes(line@),
{
    let n = line.len();
    let mut i: usize = 0;
    let mut total: u128 = 0;
    assert(line@.subrange(0, n as int) =~= line@);
    while i < n && crate::text::char_is_ws(line[i])
        invariant
            i <= n == line.len(),
            total <= 4 * i,
            total as nat + indent_bytes(line@.subrange(i as int, n as int)) == indent_bytes(line@),
        decreases n - i,
    {
        assert(line@.subrange(i as int, n as int).drop_first() =~= line@.subrange(i + 1, n as int));
        let u = line[i] as u32;
        let b: u128 = if u < 0x80 {
            1
        } else if u < 0x800 {
            2
        } else if u < 0x10000 {
            3
        } else {
            4
        };
        total = total + b;
        i += 1;
    }
    total
}

/// Exec form of `YamlScan`.
struct YamlState {
    hosts: Vec<Host>,
    name: Option<Vec<char>>,
    ip: Option<Vec<char>>,
    user: Option<Vec<char>>,
    port: Option<u16>,
    indent: Option<u128>,
}

pub open spec fn opt_chars(o: Option<Vec<char>>) -> Option<Seq<char>> {
    match o {
        Some(v) => Some(v@),
        None => None,
    }
}

impl YamlState {
    spec fn model(&self, base: Seq<HostModel>) -> YamlScan {
        YamlScan {
            hosts: hosts_view(self.hosts@).skip(base.len() as int),
            name: opt_chars(self.name),
            ip: opt_chars(self.ip),
            user: opt_chars(self.user),
            port: self.port,
            indent: match self.indent {
                Some(i) => Some(i as nat),
                None => None,
            },
        }
    }

    fn flush(&mut self, group: &str, source: &str, Ghost(base): Ghost<Seq<HostModel>>)
        requires
            hosts_view(old(self).hosts@).take(base.len() as int) == base,
            base.len() <= old(self).hosts@.len(),
        ensures
            hosts_view(final(self).hosts@).take(base.len() as int) == base,
            base.len() <= final(self).hosts@.len(),
            final(self).model(base) == yaml_flush(old(self).model(base), group@, source@),
    {
        let ghost m0 = self.model(base);
        let ghost hv0 = hosts_view(self.hosts@);
        if let Some(n) = self.name.take() {
            let ip = self.ip.take();
            let user = self.user.take();
            let port = self.port.take();
            let mut groups: Vec<String> = Vec::new();
            groups.push(string_from(group));
            let h = Host {
                hostname: string_of(&n),
                ip: match &ip {
                    Some(v) => Some(string_of(v)),
                    None => None,
                },
                user: match &user {
                    Some(v) => Some(string_of(v)),
                    None => None,
                },
                port,
                identity_file: None,
                jump_host: None,
                groups,
                source: string_from(source),
                tags: Vec::new(),
                label: None,
                alias: None,
            };
            assert(strings_view(h.groups@) =~= seq![group@]);
            assert(tags_view(h.tags@) =~= seq![]);
            let ghost before = self.hosts@;
            self.hosts.push(h);
            assert(hosts_view(self.hosts@) =~= hosts_view(before).push(h@));
            assert(hosts_view(self.hosts@).take(base.len() as int) =~= hv0.take(base.len() as int));
            assert(hosts_view(self.hosts@).skip(base.len() as int) =~= hv0.skip(base.len() as int).push(h@));
        }
    }
}

fn yaml_hosts_vec(ls: &Vec<Vec<char>>, group: &str, source: &str, hosts: &mut Vec<Host>)
    ensures
        hosts_view(final(hosts)@) == hosts_view(old(hosts)@) + yaml_flush(
            yaml_scan(vv(ls@), group@, source@),
            group@,
            source@,
        ).hosts,
{
    let ghost l = vv(ls@);
    let ghost base = hosts_view(hosts@);
    let kw_hosts = chars_of("hosts:");
    let m1 = chars_of("---");
    let m2 = chars_of("all:");
    let m3 = chars_of("ungrouped:");
    let m4 = chars_of("children:");
    let m5 = chars_of("vars:");
    let k1 = chars_of("all");
    let k2 = chars_of("hosts");
    let k3 = chars_of("children");
    let k4 = chars_of("vars");
    let k5 = chars_of("ungrouped");
    let v_host = chars_of("ansible_host");
    let v_user = chars_of("ansible_user");
    let v_port = chars_of("ansible_port");
    let mut taken: Vec<Host> = Vec::new();
    std::mem::swap(&mut taken, hosts);
    let mut st = YamlState { hosts: taken, name: None, ip: None, user: None, port: None, indent: None };
    assert(hosts_view(st.hosts@).take(base.len() as int) =~= base);
    assert(st.model(base).hosts =~= seq![]);
    let mut i: usize = 0;
    while i < ls.len()
        invariant
            i <= ls.len(),
            l == vv(ls@),
            kw_hosts@ == "hosts:"@,
            m1@ == "---"@,
            m2@ == "all:"@,
            m3@ == "ungrouped:"@,
            m4@ == "children:"@,
            m5@ == "vars:"@,
            k1@ == "all"@,
            k2@ == "hosts"@,
            k3@ == "children"@,
            k4@ == "vars"@,
            k5@ == "ungrouped"@,
            v_host@ == "ansible_host"@,
            v_user@ == "ansible_user"@,
            v_port@ == "ansible_port"@,
            base.len() <= st.hosts@.len(),
            hosts_view(st.hosts@).take(base.len() as int) == base,
            st.model(base) == yaml_scan(l.take(i as int), group@, source@),
        decreases ls.len() - i,
    {
        assert(l.take(i + 1).drop_last() =~= l.take(i as int));
        assert(l.take(i + 1).last() == ls@[i as int]@);
        let raw = &ls[i];
        let t = trim_vec(raw);
        if t.len() == 0 || t[0] == '#' {
        } else if chars_eq(&t, &m1) || chars_eq(&t, &m2) || chars_eq(&t, &m3) || chars_eq(&t, &m4)
            || chars_eq(&t, &m5) {
        } else if chars_eq(&t, &kw_hosts) {
            st.indent = None;
        } else {
            match find_char_vec(&t, ':') {
                None => {},
                Some(c) => {
                    let kraw = slice_of(&t, 0, c);
                    let vraw = slice_of(&t, c + 1, t.len());
                    assert(kraw@ =~= t@.take(c as int));
                    assert(vraw@ =~= t@.skip(c + 1));
                    let key = trim_vec(&kraw);
                    let val = trim_vec(&vraw);
                    let ind = indent_bytes_vec(raw);
                    if val.len() == 0 {
                        let at_level = match st.indent {
                            None => true,
                            Some(hi) => ind == hi,
                        };
                        let structural = chars_eq(&key, &k1) || chars_eq(&key, &k2) || chars_eq(
                            &key,
                            &k3,
                        ) || chars_eq(&key, &k4) || chars_eq(&key, &k5);
                        if at_level && !structural && key.len() > 0 && (char_is_alphanumeric(key[0])
                            || key[0] == '_' || key[0] == '-') {
                            st.flush(group, source, Ghost(base));
                            st.name = Some(key);
                            st.indent = Some(ind);
                        }
                    } else if chars_eq(&key, &v_host) {
                        st.ip = Some(val);
                    } else if chars_eq(&key, &v_user) {
                        st.user = Some(val);
                    } else if chars_eq(&key, &v_port) {
                        st.port = parse_u16_vec(&val);
                    }
                },
            }
        }
        i += 1;
    }
    assert(l.take(ls.len() as int) =~= l);
    st.flush(group, source, Ghost(base));
    let ghost hv = hosts_view(st.hosts@);
    assert(hv =~= base + hv.skip(base.len() as int));
    *hosts = st.hosts;
}

// ───────────────────────────── whole files ─────────────────────────────

/// Whether inventory text is in the YAML style: it starts with `---` or
/// `all:`, or has a `hosts:` line or an `ansible_host:` key.
pub open spec fn is_yaml_inventory_text(content: Seq<char>) -> bool {
    let t = trim_start(content);
    starts_with(t, "---"@) || starts_with(t, "all:"@) || contains_seq(t, "\nhosts:"@) || contains_seq(
        t,
        "ansible_host:"@,
    )
}

/// The hosts of an Ansible inventory file, in file order.
pub open spec fn inventory_hosts(content: Seq<char>, group: Seq<char>, source: Seq<char>) -> Seq<HostModel> {
    if is_yaml_inventory_text(content) {
        yaml_inventory_hosts(content, group, source)
    } else {
        ini_inventory_hosts(content, group, source)
    }
}

/// Parse INI-style Ansible inventory (classic hosts_* format)
pub fn parse_ini_ansible_inventory(content: &str, group: &str, source: &str, hosts: &mut Vec<Host>)
    ensures
        hosts_view(final(hosts)@) == hosts_view(old(hosts)@) + ini_inventory_hosts(content@, group@, source@),
{
    let c = chars_of(content);
    let ls = lines_vec(&c);
    ini_hosts_vec(&ls, group, source, hosts);
}

/// Parse YAML-style Ansible inventory
pub fn parse_yaml_ansible_inventory(content: &str, group: &str, source: &str, hosts: &mut Vec<Host>)
    ensures
        hosts_view(final(hosts)@) == hosts_view(old(hosts)@) + yaml_inventory_hosts(content@, group@, source@),
{
    let c = chars_of(content);
    let ls = lines_vec(&c);
    yaml_hosts_vec(&ls, group, source, hosts);
}

/// Appends the hosts of one inventory file, detecting its style.
pub fn parse_inventory_content(content: &str, group: &str, source: &str, hosts: &mut Vec<Host>)
    ensures
        hosts_view(final(hosts)@) == hosts_view(old(hosts)@) + inventory_hosts(content@, group@, source@),
{
    let c = chars_of(content);
    let t = crate::text::trim_start_vec(&c);
    let yaml = starts_with_vec(&t, &chars_of("---")) || starts_with_vec(&t, &chars_of("all:"))
        || contains_vec(&t, &chars_of("\nhosts:")) || contains_vec(&t, &chars_of("ansible_host:"));
    if yaml {
        parse_yaml_ansible_inventory(content, group, source, hosts);
    } else {
        parse_ini_ansible_inventory(content, group, source, hosts);
    }
}

/// The group name an inventory file implies: the name of its directory.
pub open spec fn group_of_path(path: Seq<char>) -> Seq<char> {
    match path_parent(path) {
        Some(p) => match path_file_name(p) {
            Some(n) => n,
            None => "ansible"@,
        },
        None => "ansible"@,
    }
}

/// The name of the directory holding `path`, or `ansible`.
pub fn extract_group_from_path(path: &str) -> (r: String)
    ensures
        r@ == group_of_path(path@),
{
    match parent_of_path(path) {
        Some(p) => match file_name_of_path(p.as_str()) {
            Some(n) => n,
            None => string_from("ansible"),
        },
        None => string_from("ansible"),
    }
}

// ───────────────────────────── laws of style detection ─────────────────────────────

proof fn lemma_trim_start_ws_prefix(ws: Seq<char>, x: Seq<char>)
    requires
        forall|i: int| 0 <= i < ws.len() ==> is_ws(#[trigger] ws[i]),
    ensures
        trim_start(ws + x) == trim_start(x),
    decreases ws.len(),
{
    if ws.len() > 0 {
        let w2 = ws.drop_first();
        assert forall|i: int| 0 <= i < w2.len() implies is_ws(#[trigger] w2[i]) by {
            assert(w2[i] == ws[i + 1]);
        }
        lemma_trim_start_ws_prefix(w2, x);
        assert((ws + x)[0] == ws[0]);
        assert((ws + x).drop_first() =~= w2 + x);
    }
}

/// An inventory that begins (after any leading whitespace) with `---` or
/// `all:` is read as a YAML inventory, whatever follows.
pub proof fn law_yaml_header_means_yaml(ws: Seq<char>, header: Seq<char>, rest: Seq<char>, group: Seq<char>, source: Seq<char>)
    requires
        forall|i: int| 0 <= i < ws.len() ==> is_ws(#[trigger] ws[i]),
        header == "---"@ || header == "all:"@,
    ensures
        inventory_hosts(ws + (header + rest), group, source) == yaml_inventory_hosts(ws + (header + rest), group, source),
{
    reveal_strlit("---");
    reveal_strlit("all:");
    let x = header + rest;
    lemma_trim_start_ws_prefix(ws, x);
    assert(x[0] == header[0]);
    assert(!is_ws(x[0]));
    assert(trim_start(x) == x);
    assert(x.take(header.len() as int) =~= header);
    if header == "---"@ {
        assert(starts_with(trim_start(ws + x), "---"@));
    } else {
        assert(starts_with(trim_start(ws + x), "all:"@));
    }
}

} // verus!
