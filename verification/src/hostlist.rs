//! Preparing the loaded hosts for display: jump host rules, the default
//! user, per-host overrides, and the removal of noise and duplicates.

use vstd::prelude::*;
use crate::config::{Config, HostOverride, HostOverrideModel, JumpHostRule, find_override, overrides_view};
use crate::external::{compile_regex, ip_addr_valid, parse_ip_addr, regex_escape, regex_escaped, regex_is_match, regex_matches, regex_valid};
use crate::inventory::{Host, HostModel, all_tags_wf, hosts_view, tags_wf};
use crate::text::{
    chars_of, chars_eq, clone_opt, concat, contains_char, lower_eq, lower_eq_vec, opt_view,
    replace_all, replace_all_vec, string_of, str_eq,
};

verus! {

// ───────────────────────────── glob patterns ─────────────────────────────

/// The regex a glob pattern becomes: escaped, `*` as `.*`, `?` as `.`,
/// anchored at both ends.
pub open spec fn glob_regex(pattern: Seq<char>) -> Seq<char> {
    seq!['^'] + replace_all(replace_all(regex_escaped(pattern), seq!['\\', '*'], seq!['.', '*']), seq!['\\', '?'], seq!['.']) + seq!['$']
}

/// Whether `s` matches the glob `pattern` (through its regex).
pub open spec fn glob_matches(pattern: Seq<char>, s: Seq<char>) -> bool {
    regex_valid(glob_regex(pattern)) && regex_matches(glob_regex(pattern), s)
}

/// Whether `s` matches the shell-style glob `pattern` (`*` any run, `?` one char).
pub fn glob_match(pattern: &str, s: &str) -> (b: bool)
    ensures
        b == glob_matches(pattern@, s@),
{
    let esc = regex_escape(pattern);
    let e = chars_of(esc.as_str());
    let mut star: Vec<char> = Vec::new();
    star.push('\\');
    star.push('*');
    let mut dotstar: Vec<char> = Vec::new();
    dotstar.push('.');
    dotstar.push('*');
    let mut qm: Vec<char> = Vec::new();
    qm.push('\\');
    qm.push('?');
    let mut dot: Vec<char> = Vec::new();
    dot.push('.');
    assert(star@ =~= seq!['\\', '*']);
    assert(dotstar@ =~= seq!['.', '*']);
    assert(qm@ =~= seq!['\\', '?']);
    assert(dot@ =~= seq!['.']);
    let r1 = replace_all_vec(&e, &star, &dotstar);
    let r2 = replace_all_vec(&r1, &qm, &dot);
    let mut caret: Vec<char> = Vec::new();
    caret.push('^');
    let mut dollar: Vec<char> = Vec::new();
    dollar.push('$');
    assert(caret@ =~= seq!['^']);
    assert(dollar@ =~= seq!['$']);
    let p = concat(&concat(&caret, &r2), &dollar);
    let ps = string_of(&p);
    match compile_regex(ps.as_str()) {
        Some(re) => regex_is_match(&re, s),
        None => false,
    }
}

// ───────────────────────────── rules and overrides ─────────────────────────────

/// Index of the first jump rule at or after `i` whose pattern matches `name`.
pub open spec fn first_rule_from(rules: Seq<JumpHostRule>, name: Seq<char>, i: int) -> Option<int>
    decreases rules.len() - i,
{
    if i < 0 || i >= rules.len() {
        None
    } else if glob_matches(rules[i].host_pattern@, name) {
        Some(i)
    } else {
        first_rule_from(rules, name, i + 1)
    }
}

/// A host after the global settings: a host without a jump host takes the
/// first matching rule's jump host (and its user when it has none), then a
/// host still without a user takes the default user.
pub open spec fn with_rules(h: HostModel, rules: Seq<JumpHostRule>, default_user: Option<Seq<char>>) -> HostModel {
    let h1 = if h.jump_host is None {
        match first_rule_from(rules, h.hostname, 0) {
            Some(k) => HostModel {
                jump_host: Some(rules[k].jump_host@),
                user: if h.user is None {
                    opt_view(rules[k].user)
                } else {
                    h.user
                },
                ..h
            },
            None => h,
        }
    } else {
        h
    };
    if h1.user is None {
        HostModel { user: default_user, ..h1 }
    } else {
        h1
    }
}

pub open spec fn or_else(a: Option<Seq<char>>, b: Option<Seq<char>>) -> Option<Seq<char>> {
    match a {
        Some(x) => Some(x),
        None => b,
    }
}

/// A host with the first override for its hostname applied: each field the
/// override sets replaces the host's.
pub open spec fn with_override(h: HostModel, os: Seq<HostOverrideModel>) -> HostModel {
    match find_override(os, h.hostname) {
        Some(k) => HostModel {
            user: or_else(os[k].user, h.user),
            alias: or_else(os[k].alias, h.alias),
            label: or_else(os[k].label, h.label),
            jump_host: or_else(os[k].jump_host, h.jump_host),
            ..h
        },
        None => h,
    }
}

// ───────────────────────────── noise and duplicates ─────────────────────────────

/// Hostnames and addresses that are never useful.
pub open spec fn noise() -> Seq<Seq<char>> {
    seq!["127.0.0.1"@, "::1"@, "localhost"@, "localhost.localdomain"@, "0.0.0.0"@, "255.255.255.255"@]
}

pub open spec fn is_noise_name(name: Seq<char>) -> bool {
    exists|i: int| 0 <= i < noise().len() && lower_eq(name, #[trigger] noise()[i])
}

/// A host worth listing: not loopback or wildcard, and with an address, a
/// port, a jump host or a user, or a hostname that is a domain name or an IP.
pub open spec fn is_listable(h: HostModel) -> bool {
    &&& !is_noise_name(h.hostname)
    &&& match h.ip {
        Some(ip) => !noise().contains(ip),
        None => true,
    }
    &&& !h.hostname.contains('*')
    &&& !h.hostname.contains('?')
    &&& (h.ip is Some || h.port is Some || h.jump_host is Some || h.user is Some || h.hostname.contains('.') || ip_addr_valid(h.hostname))
}

/// The identity under which hosts count as duplicates: address (or
/// hostname) and user.
pub open spec fn dedup_key(h: HostModel) -> Seq<char> {
    (match h.ip {
        Some(ip) => ip,
        None => h.hostname,
    }) + seq!['|'] + (match h.user {
        Some(u) => u,
        None => seq![],
    })
}

/// The listable hosts among `hs`, each first occurrence of a key kept, with
/// the keys kept so far.
pub open spec fn clean_scan(hs: Seq<HostModel>) -> (Seq<HostModel>, Seq<Seq<char>>)
    decreases hs.len(),
{
    if hs.len() == 0 {
        (seq![], seq![])
    } else {
        let (out, seen) = clean_scan(hs.drop_last());
        let h = hs.last();
        if is_listable(h) && !seen.contains(dedup_key(h)) {
            (out.push(h), seen.push(dedup_key(h)))
        } else {
            (out, seen)
        }
    }
}

pub open spec fn cleaned(hs: Seq<HostModel>) -> Seq<HostModel> {
    clean_scan(hs).0
}

/// The hosts as listed: rules, then overrides, then noise and duplicates removed.
pub open spec fn prepared(hs: Seq<HostModel>, config: Config) -> Seq<HostModel> {
    cleaned(hs.map_values(|h: HostModel| prepared_host(h, config)))
}

/// One host with the jump host rules, default user and overrides applied.
pub open spec fn prepared_host(h: HostModel, config: Config) -> HostModel {
    with_override(
        with_rules(h, config.jump_hosts@, opt_view(config.settings.default_user)),
        overrides_view(config.host_overrides@),
    )
}

proof fn lemma_clean_scan(hs: Seq<HostModel>)
    ensures
        clean_scan(hs).1.len() == clean_scan(hs).0.len(),
        forall|k: int| 0 <= k < clean_scan(hs).0.len() ==> #[trigger] clean_scan(hs).1[k] == dedup_key(clean_scan(hs).0[k]),
        forall|k: int| 0 <= k < clean_scan(hs).0.len() ==> is_listable(#[trigger] clean_scan(hs).0[k]),
        forall|a: int, b: int|
            0 <= a < b < clean_scan(hs).1.len() ==> #[trigger] clean_scan(hs).1[a] != #[trigger] clean_scan(hs).1[b],
    decreases hs.len(),
{
    if hs.len() > 0 {
        lemma_clean_scan(hs.drop_last());
        let (out, seen) = clean_scan(hs.drop_last());
        let h = hs.last();
        if is_listable(h) && !seen.contains(dedup_key(h)) {
            let s2 = seen.push(dedup_key(h));
            assert forall|a: int, b: int| 0 <= a < b < s2.len() implies #[trigger] s2[a] != #[trigger] s2[b] by {
                if b == seen.len() {
                    assert(seen[a] == s2[a]);
                    if s2[a] == s2[b] {
                        assert(seen.contains(dedup_key(h)));
                    }
                }
            }
        }
    }
}

/// What cleaning keeps: listable hosts only, no two with the same key.
pub proof fn lemma_cleaned_unique(hs: Seq<HostModel>)
    ensures
        forall|k: int| 0 <= k < cleaned(hs).len() ==> is_listable(#[trigger] cleaned(hs)[k]),
        forall|a: int, b: int|
            0 <= a < b < cleaned(hs).len() ==> dedup_key(#[trigger] cleaned(hs)[a]) != dedup_key(
                #[trigger] cleaned(hs)[b],
            ),
{
    lemma_clean_scan(hs);
    let (out, seen) = clean_scan(hs);
    assert forall|a: int, b: int| 0 <= a < b < out.len() implies dedup_key(#[trigger] out[a]) != dedup_key(#[trigger] out[b]) by {
        assert(seen[a] == dedup_key(out[a]));
        assert(seen[b] == dedup_key(out[b]));
    }
}

/// Cleaning is idempotent: cleaned hosts are all kept by a second cleaning.
pub proof fn lemma_cleaned_idempotent(hs: Seq<HostModel>)
    ensures
        cleaned(cleaned(hs)) == cleaned(hs),
{
    lemma_cleaned_unique(hs);
    lemma_clean_all_kept(cleaned(hs));
}

proof fn lemma_clean_all_kept(hs: Seq<HostModel>)
    requires
        forall|k: int| 0 <= k < hs.len() ==> is_listable(#[trigger] hs[k]),
        forall|a: int, b: int| 0 <= a < b < hs.len() ==> dedup_key(#[trigger] hs[a]) != dedup_key(#[trigger] hs[b]),
    ensures
        clean_scan(hs).0 == hs,
        clean_scan(hs).1 == hs.map_values(|h: HostModel| dedup_key(h)),
    decreases hs.len(),
{
    if hs.len() > 0 {
        let p = hs.drop_last();
        assert forall|k: int| 0 <= k < p.len() implies is_listable(#[trigger] p[k]) by {
            assert(p[k] == hs[k]);
        }
        assert forall|a: int, b: int| 0 <= a < b < p.len() implies dedup_key(#[trigger] p[a]) != dedup_key(#[trigger] p[b]) by {
            assert(p[a] == hs[a] && p[b] == hs[b]);
        }
        lemma_clean_all_kept(p);
        let seen = clean_scan(p).1;
        let h = hs.last();
        assert(is_listable(hs[hs.len() - 1]));
        if seen.contains(dedup_key(h)) {
            let j = choose|j: int| 0 <= j < seen.len() && seen[j] == dedup_key(h);
            assert(seen[j] == dedup_key(p[j]));
            assert(dedup_key(hs[j]) != dedup_key(hs[hs.len() - 1]));
        }
        assert(p.push(h) =~= hs);
        assert(seen.push(dedup_key(h)) =~= hs.map_values(|h: HostModel| dedup_key(h)));
    }
}

fn is_noise_vec(s: &Vec<char>, exact: bool) -> (b: bool)
    ensures
        exact ==> b == noise().contains(s@),
        !exact ==> b == is_noise_name(s@),
{
    let n0 = chars_of("127.0.0.1");
    let n1 = chars_of("::1");
    let n2 = chars_of("localhost");
    let n3 = chars_of("localhost.localdomain");
    let n4 = chars_of("0.0.0.0");
    let n5 = chars_of("255.255.255.255");
    let ghost nz = noise();
    assert(nz[0] == n0@ && nz[1] == n1@ && nz[2] == n2@ && nz[3] == n3@ && nz[4] == n4@ && nz[5] == n5@);
    if exact {
        let b = chars_eq(s, &n0) || chars_eq(s, &n1) || chars_eq(s, &n2) || chars_eq(s, &n3) || chars_eq(s, &n4) || chars_eq(s, &n5);
        proof {
            if nz.contains(s@) {
                let j = choose|j: int| 0 <= j < nz.len() && nz[j] == s@;
                assert(0 <= j < 6);
            }
            if b {
                if s@ == n0@ { assert(nz[0] == s@); }
                if s@ == n1@ { assert(nz[1] == s@); }
                if s@ == n2@ { assert(nz[2] == s@); }
                if s@ == n3@ { assert(nz[3] == s@); }
                if s@ == n4@ { assert(nz[4] == s@); }
                if s@ == n5@ { assert(nz[5] == s@); }
            }
        }
        b
    } else {
        let b = lower_eq_vec(s, &n0) || lower_eq_vec(s, &n1) || lower_eq_vec(s, &n2) || lower_eq_vec(s, &n3) || lower_eq_vec(s, &n4) || lower_eq_vec(s, &n5);
        proof {
            if is_noise_name(s@) {
                let j = choose|j: int| 0 <= j < nz.len() && lower_eq(s@, #[trigger] nz[j]);
                assert(0 <= j < 6);
            }
            if b {
                if lower_eq(s@, n0@) { assert(lower_eq(s@, nz[0])); }
                if lower_eq(s@, n1@) { assert(lower_eq(s@, nz[1])); }
                if lower_eq(s@, n2@) { assert(lower_eq(s@, nz[2])); }
                if lower_eq(s@, n3@) { assert(lower_eq(s@, nz[3])); }
                if lower_eq(s@, n4@) { assert(lower_eq(s@, nz[4])); }
                if lower_eq(s@, n5@) { assert(lower_eq(s@, nz[5])); }
            }
        }
        b
    }
}

fn is_listable_exec(h: &Host) -> (b: bool)
    ensures
        b == is_listable(h@),
{
    let name = chars_of(h.hostname.as_str());
    if is_noise_vec(&name, false) {
        return false;
    }
    if let Some(ip) = &h.ip {
        if is_noise_vec(&chars_of(ip.as_str()), true) {
            return false;
        }
    }
    if contains_char(&name, '*') || contains_char(&name, '?') {
        return false;
    }
    h.ip.is_some() || h.port.is_some() || h.jump_host.is_some() || h.user.is_some() || contains_char(&name, '.')
        || parse_ip_addr(h.hostname.as_str()).is_some()
}

fn dedup_key_exec(h: &Host) -> (r: Vec<char>)
    ensures
        r@ == dedup_key(h@),
{
    let a = match &h.ip {
        Some(ip) => chars_of(ip.as_str()),
        None => chars_of(h.hostname.as_str()),
    };
    let mut bar: Vec<char> = Vec::new();
    bar.push('|');
    assert(bar@ =~= seq!['|']);
    let u = match &h.user {
        Some(u) => chars_of(u.as_str()),
        None => Vec::new(),
    };
    concat(&concat(&a, &bar), &u)
}

fn seen_contains(seen: &Vec<Vec<char>>, k: &Vec<char>) -> (b: bool)
    ensures
        b == crate::text::vv(seen@).contains(k@),
{
    let mut i: usize = 0;
    while i < seen.len()
        invariant
            i <= seen.len(),
            forall|j: int| 0 <= j < i ==> crate::text::vv(seen@)[j] != k@,
        decreases seen.len() - i,
    {
        if chars_eq(&seen[i], k) {
            assert(crate::text::vv(seen@)[i as int] == k@);
            return true;
        }
        i += 1;
    }
    false
}

/// Remove noise entries and deduplicate hosts after loading all inventories.
pub fn clean_hosts(hosts: Vec<Host>) -> (r: Vec<Host>)
    ensures
        hosts_view(r@) == cleaned(hosts_view(hosts@)),
        forall|k: int| 0 <= k < r@.len() ==> is_listable(#[trigger] r@[k]@),
        forall|a: int, b: int| 0 <= a < b < r@.len() ==> dedup_key(#[trigger] r@[a]@) != dedup_key(#[trigger] r@[b]@),
{
    let ghost hs = hosts_view(hosts@);
    let mut seen: Vec<Vec<char>> = Vec::new();
    let mut out: Vec<Host> = Vec::new();
    let mut i: usize = 0;
    while i < hosts.len()
        invariant
            i <= hosts.len(),
            hs == hosts_view(hosts@),
            (hosts_view(out@), crate::text::vv(seen@)) == clean_scan(hs.take(i as int)),
        decreases hosts.len() - i,
    {
        assert(hs.take(i + 1).drop_last() =~= hs.take(i as int));
        assert(hs.take(i + 1).last() == hosts@[i as int]@);
        let h = &hosts[i];
        if is_listable_exec(h) {
            let key = dedup_key_exec(h);
            if !seen_contains(&seen, &key) {
                let ghost o0 = out@;
                let ghost s0 = seen@;
                out.push(h.copy());
                seen.push(key);
                assert(hosts_view(out@) =~= hosts_view(o0).push(h@));
                assert(crate::text::vv(seen@) =~= crate::text::vv(s0).push(key@));
            }
        }
        i += 1;
    }
    assert(hs.take(hosts.len() as int) =~= hs);
    proof {
        lemma_cleaned_unique(hs);
    }
    assert(hosts_view(out@) == cleaned(hs));
    assert forall|k: int| 0 <= k < out@.len() implies is_listable(#[trigger] out@[k]@) by {
        assert(cleaned(hs)[k] == out@[k]@);
    }
    assert forall|a: int, b: int| 0 <= a < b < out@.len() implies dedup_key(#[trigger] out@[a]@) != dedup_key(#[trigger] out@[b]@) by {
        assert(cleaned(hs)[a] == out@[a]@);
        assert(cleaned(hs)[b] == out@[b]@);
    }
    out
}

fn first_rule_index(rules: &Vec<JumpHostRule>, name: &str) -> (r: Option<usize>)
    ensures
        match r {
            Some(k) => first_rule_from(rules@, name@, 0) == Some(k as int) && k < rules@.len(),
            None => first_rule_from(rules@, name@, 0) is None,
        },
{
    let mut i: usize = 0;
    while i < rules.len()
        invariant
            i <= rules.len(),
            first_rule_from(rules@, name@, 0) == first_rule_from(rules@, name@, i as int),
        decreases rules.len() - i,
    {
        if glob_match(rules[i].host_pattern.as_str(), name) {
            return Some(i);
        }
        i += 1;
    }
    None
}

fn apply_rules_exec(h: &mut Host, rules: &Vec<JumpHostRule>, default_user: &Option<String>)
    ensures
        final(h)@ == with_rules(old(h)@, rules@, opt_view(*default_user)),
{
    if h.jump_host.is_none() {
        if let Some(k) = first_rule_index(rules, h.hostname.as_str()) {
            h.jump_host = Some(rules[k].jump_host.clone());
            if h.user.is_none() {
                h.user = clone_opt(&rules[k].user);
            }
        }
    }
    if h.user.is_none() {
        h.user = clone_opt(default_user);
    }
}

fn apply_override_exec(h: &mut Host, os: &Vec<HostOverride>)
    ensures
        final(h)@ == with_override(old(h)@, overrides_view(os@)),
{
    let ghost ov = overrides_view(os@);
    let mut i: usize = 0;
    while i < os.len()
        invariant
            i <= os.len(),
            ov == overrides_view(os@),
            *h == *old(h),
            find_override(ov, h.hostname@) == crate::config::find_override_from(ov, h.hostname@, i as int),
        decreases os.len() - i,
    {
        if str_eq(os[i].hostname.as_str(), h.hostname.as_str()) {
            let o = &os[i];
            if let Some(u) = &o.user {
                h.user = Some(u.clone());
            }
            if let Some(a) = &o.alias {
                h.alias = Some(a.clone());
            }
            if let Some(l) = &o.label {
                h.label = Some(l.clone());
            }
            if let Some(j) = &o.jump_host {
                h.jump_host = Some(j.clone());
            }
            return;
        }
        i += 1;
    }
}

/// The loaded hosts as listed: jump host rules and the default user, then
/// the saved per-host overrides, then noise and duplicates removed.
proof fn lemma_clean_keeps_tags_wf(hs: Seq<HostModel>)
    requires
        all_tags_wf(hs),
    ensures
        all_tags_wf(cleaned(hs)),
    decreases hs.len(),
{
    if hs.len() > 0 {
        let d = hs.drop_last();
        assert forall|i: int| 0 <= i < d.len() implies tags_wf(#[trigger] d[i]) by {
            assert(d[i] == hs[i]);
        }
        lemma_clean_keeps_tags_wf(d);
        assert(tags_wf(hs[hs.len() - 1]));
    }
}

/// Preparing hosts keeps each host's tags, so hosts whose tag keys are
/// distinct stay so.
pub proof fn lemma_prepared_keeps_tags_wf(hs: Seq<HostModel>, config: Config)
    requires
        all_tags_wf(hs),
    ensures
        all_tags_wf(prepared(hs, config)),
{
    let m = hs.map_values(|h: HostModel| prepared_host(h, config));
    assert forall|i: int| 0 <= i < m.len() implies tags_wf(#[trigger] m[i]) by {
        assert(m[i] == prepared_host(hs[i], config));
        assert(tags_wf(hs[i]));
        assert(m[i].tags == hs[i].tags);
    }
    lemma_clean_keeps_tags_wf(m);
}

pub fn prepare_hosts(hosts: Vec<Host>, config: &Config) -> (r: Vec<Host>)
    ensures
        hosts_view(r@) == prepared(hosts_view(hosts@), *config),
        all_tags_wf(hosts_view(hosts@)) ==> all_tags_wf(hosts_view(r@)),
        forall|k: int| 0 <= k < r@.len() ==> exists|i: int|
            0 <= i < hosts@.len() && (#[trigger] r@[k])@ == prepared_host(hosts@[i]@, *config),
{
    proof {
        law_prepared_hosts_come_from_input(hosts_view(hosts@), *config);
        if all_tags_wf(hosts_view(hosts@)) {
            lemma_prepared_keeps_tags_wf(hosts_view(hosts@), *config);
        }
    }
    let mut hs = hosts;
    let ghost orig = hosts_view(hs@);
    let mut i: usize = 0;
    while i < hs.len()
        invariant
            i <= hs.len(),
            hs@.len() == orig.len(),
            forall|k: int| 0 <= k < i ==> #[trigger] hs@[k]@ == prepared_host(orig[k], *config),
            forall|k: int| i <= k < hs@.len() ==> #[trigger] hs@[k]@ == orig[k],
        decreases hs.len() - i,
    {
        let mut h = hs[i].copy();
        assert(h@ == orig[i as int]);
        apply_rules_exec(&mut h, &config.jump_hosts, &config.settings.default_user);
        apply_override_exec(&mut h, &config.host_overrides);
        assert(h@ == prepared_host(orig[i as int], *config));
        let ghost before = hs@;
        hs.set(i, h);
        assert forall|k: int| 0 <= k < i + 1 implies #[trigger] hs@[k]@ == prepared_host(orig[k], *config) by {
            if k < i {
                assert(hs@[k] == before[k]);
            }
        }
        assert forall|k: int| i + 1 <= k < hs@.len() implies #[trigger] hs@[k]@ == orig[k] by {
            assert(hs@[k] == before[k]);
        }
        i += 1;
    }
    assert(hosts_view(hs@) =~= orig.map_values(|h: HostModel| prepared_host(h, *config)));
    let r = clean_hosts(hs);
    proof {
        let p = prepared(orig, *config);
        assert forall|k: int| 0 <= k < r@.len() implies exists|i: int|
            0 <= i < hosts@.len() && (#[trigger] r@[k])@ == prepared_host(hosts@[i]@, *config) by {
            assert(r@[k]@ == hosts_view(r@)[k]);
            assert(hosts_view(r@)[k] == p[k]);
            let i = choose|i: int| 0 <= i < orig.len() && #[trigger] p[k] == prepared_host(orig[i], *config);
            assert(orig[i] == hosts@[i]@);
        }
    }
    r
}

// ───────────────────────────── laws of preparation ─────────────────────────────

/// No saved override for `name` sets a jump host.
pub open spec fn no_override_jump(config: Config, name: Seq<char>) -> bool {
    forall|k: int|
        0 <= k < config.host_overrides@.len() && (#[trigger] config.host_overrides@[k])@.hostname == name
            ==> config.host_overrides@[k]@.jump_host is None
}

/// No saved override for `name` sets a user.
pub open spec fn no_override_user(config: Config, name: Seq<char>) -> bool {
    forall|k: int|
        0 <= k < config.host_overrides@.len() && (#[trigger] config.host_overrides@[k])@.hostname == name
            ==> config.host_overrides@[k]@.user is None
}

proof fn lemma_override_fields(h: HostModel, config: Config)
    ensures
        no_override_jump(config, h.hostname) ==> with_override(h, overrides_view(config.host_overrides@)).jump_host == h.jump_host,
        no_override_user(config, h.hostname) ==> with_override(h, overrides_view(config.host_overrides@)).user == h.user,
{
    let os = overrides_view(config.host_overrides@);
    crate::config::lemma_find_override_from(os, h.hostname, 0);
    if let Some(k) = find_override(os, h.hostname) {
        assert(os[k] == config.host_overrides@[k]@);
    }
}

proof fn lemma_first_rule_from(rules: Seq<JumpHostRule>, name: Seq<char>, i: int, k: int)
    requires
        0 <= i <= k < rules.len(),
        glob_matches(rules[k].host_pattern@, name),
        forall|j: int| i <= j < k ==> !glob_matches(#[trigger] rules[j].host_pattern@, name),
    ensures
        first_rule_from(rules, name, i) == Some(k),
    decreases k - i,
{
    if i < k {
        lemma_first_rule_from(rules, name, i + 1, k);
    }
}

proof fn lemma_no_rule_from(rules: Seq<JumpHostRule>, name: Seq<char>, i: int)
    requires
        0 <= i <= rules.len(),
        forall|j: int| i <= j < rules.len() ==> !glob_matches(#[trigger] rules[j].host_pattern@, name),
    ensures
        first_rule_from(rules, name, i) is None,
    decreases rules.len() - i,
{
    if i < rules.len() {
        lemma_no_rule_from(rules, name, i + 1);
    }
}

/// A host's own jump host (such as its ProxyJump) survives preparation:
/// jump host rules only fill in a jump host for hosts that have none, so
/// unless a saved override replaces it, the prepared host keeps it.
pub proof fn law_own_jump_host_kept(h: HostModel, config: Config, j: Seq<char>)
    requires
        h.jump_host == Some(j),
        no_override_jump(config, h.hostname),
    ensures
        prepared_host(h, config).jump_host == Some(j),
{
    let h1 = with_rules(h, config.jump_hosts@, opt_view(config.settings.default_user));
    assert(h1.jump_host == Some(j));
    lemma_override_fields(h1, config);
}

/// A host without a jump host takes the jump host of the first rule whose
/// pattern matches its hostname (unless a saved override sets another).
pub proof fn law_first_matching_rule_applies(h: HostModel, config: Config, k: int)
    requires
        h.jump_host is None,
        0 <= k < config.jump_hosts@.len(),
        glob_matches(config.jump_hosts@[k].host_pattern@, h.hostname),
        forall|j: int| 0 <= j < k ==> !glob_matches(#[trigger] config.jump_hosts@[j].host_pattern@, h.hostname),
        no_override_jump(config, h.hostname),
    ensures
        prepared_host(h, config).jump_host == Some(config.jump_hosts@[k].jump_host@),
{
    lemma_first_rule_from(config.jump_hosts@, h.hostname, 0, k);
    let h1 = with_rules(h, config.jump_hosts@, opt_view(config.settings.default_user));
    assert(h1.jump_host == Some(config.jump_hosts@[k].jump_host@));
    lemma_override_fields(h1, config);
}

/// A host without a jump host that no rule matches stays without one
/// (unless a saved override sets one).
pub proof fn law_unmatched_host_stays_direct(h: HostModel, config: Config)
    requires
        h.jump_host is None,
        forall|j: int| 0 <= j < config.jump_hosts@.len() ==> !glob_matches(#[trigger] config.jump_hosts@[j].host_pattern@, h.hostname),
        no_override_jump(config, h.hostname),
    ensures
        prepared_host(h, config).jump_host is None,
{
    lemma_no_rule_from(config.jump_hosts@, h.hostname, 0);
    let h1 = with_rules(h, config.jump_hosts@, opt_view(config.settings.default_user));
    assert(h1.jump_host is None);
    lemma_override_fields(h1, config);
}

/// A host's own user survives preparation: rules and the default user only
/// fill in a user for hosts that have none (unless an override sets one).
pub proof fn law_own_user_kept(h: HostModel, config: Config, u: Seq<char>)
    requires
        h.user == Some(u),
        no_override_user(config, h.hostname),
    ensures
        prepared_host(h, config).user == Some(u),
{
    let h1 = with_rules(h, config.jump_hosts@, opt_view(config.settings.default_user));
    assert(h1.user == Some(u));
    lemma_override_fields(h1, config);
}

proof fn lemma_clean_scan_from(hs: Seq<HostModel>)
    ensures
        forall|k: int| 0 <= k < clean_scan(hs).0.len() ==> hs.contains(#[trigger] clean_scan(hs).0[k]),
    decreases hs.len(),
{
    if hs.len() > 0 {
        let p = hs.drop_last();
        lemma_clean_scan_from(p);
        let out = clean_scan(hs).0;
        assert forall|k: int| 0 <= k < out.len() implies hs.contains(#[trigger] out[k]) by {
            if k < clean_scan(p).0.len() {
                let i = choose|i: int| 0 <= i < p.len() && p[i] == clean_scan(p).0[k];
                assert(hs[i] == p[i]);
            } else {
                assert(hs[hs.len() - 1] == out[k]);
            }
        }
    }
}

/// Every listed host is one of the loaded hosts, prepared: preparation
/// invents no host.
pub proof fn law_prepared_hosts_come_from_input(hs: Seq<HostModel>, config: Config)
    ensures
        forall|k: int| 0 <= k < prepared(hs, config).len() ==> exists|i: int|
            0 <= i < hs.len() && #[trigger] prepared(hs, config)[k] == prepared_host(hs[i], config),
{
    let m = hs.map_values(|h: HostModel| prepared_host(h, config));
    lemma_clean_scan_from(m);
    assert forall|k: int| 0 <= k < prepared(hs, config).len() implies exists|i: int|
        0 <= i < hs.len() && #[trigger] prepared(hs, config)[k] == prepared_host(hs[i], config) by {
        let i = choose|i: int| 0 <= i < m.len() && m[i] == prepared(hs, config)[k];
        assert(m[i] == prepared_host(hs[i], config));
    }
}

} // verus!
