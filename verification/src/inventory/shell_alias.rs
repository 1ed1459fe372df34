//! SSH aliases in shell RC files (.zshrc, .bashrc, .bash_profile, etc.)
//!
//! Recognises patterns like:
//!   alias prod='ssh deploy@prod.example.com'
//!   alias jump="ssh -p 2222 -i ~/.ssh/key user@10.0.0.1"
//!   alias bastion='ssh -J jump.host user@internal.host'
//!   alias mybox='ssh -l root 192.168.1.10'

use vstd::prelude::*;
use crate::text::{
    chars_of, chars_eq, concat, contains_char, ends_with, ends_with_vec, find_char,
    find_char_vec, is_ws, lines, lines_vec, opt_view, parse_u16, parse_u16_vec, slice_of,
    starts_with, starts_with_vec, string_from, string_of, strings_view, trim, trim_start,
    trim_start_vec, trim_vec, vv,
};
use crate::external::{
    char_is_alphanumeric, home_dir, tilde_expansion, tilde_with_home, unicode_alphanumeric,
};
use crate::discovery::{join_path, joined, keep_existing, kept};
use super::{Host, HostModel, hosts_view};

verus! {

/// An inventory read from the `alias` lines of a shell RC file.
pub struct ShellAliasInventory {
    pub path: String,
}

// ───────────────────────────── tokenizer ─────────────────────────────

/// Tokenizer states: outside quotes, inside `'…'`, inside `"…"`, after `\`.
pub open spec fn tok_step(st: (Seq<Seq<char>>, Seq<char>, int), c: char) -> (
    Seq<Seq<char>>,
    Seq<char>,
    int,
) {
    let (done, cur, mode) = st;
    if mode == 1 {
        if c == '\'' {
            (done, cur, 0)
        } else {
            (done, cur.push(c), 1)
        }
    } else if mode == 2 {
        if c == '"' {
            (done, cur, 0)
        } else {
            (done, cur.push(c), 2)
        }
    } else if mode == 3 {
        (done, cur.push(c), 0)
    } else if c == '\'' {
        (done, cur, 1)
    } else if c == '"' {
        (done, cur, 2)
    } else if c == '\\' {
        (done, cur, 3)
    } else if c == ' ' || c == '\t' {
        if cur.len() > 0 {
            (done.push(cur), seq![], 0)
        } else {
            (done, cur, 0)
        }
    } else {
        (done, cur.push(c), 0)
    }
}

pub open spec fn tok_scan(s: Seq<char>) -> (Seq<Seq<char>>, Seq<char>, int)
    decreases s.len(),
{
    if s.len() == 0 {
        (seq![], seq![], 0)
    } else {
        tok_step(tok_scan(s.drop_last()), s.last())
    }
}

/// The words of a command line: split at unquoted spaces and tabs, quotes
/// removed, a backslash taking the next character literally.
pub open spec fn shell_tokens(s: Seq<char>) -> Seq<Seq<char>> {
    let (done, cur, _mode) = tok_scan(s);
    if cur.len() > 0 {
        done.push(cur)
    } else {
        done
    }
}

fn tokenize_vec(s: &Vec<char>) -> (r: Vec<Vec<char>>)
    ensures
        vv(r@) == shell_tokens(s@),
{
    let mut done: Vec<Vec<char>> = Vec::new();
    let mut cur: Vec<char> = Vec::new();
    let mut mode: u8 = 0;
    let mut i: usize = 0;
    while i < s.len()
        invariant
            i <= s.len(),
            mode <= 3,
            (vv(done@), cur@, mode as int) == tok_scan(s@.take(i as int)),
        decreases s.len() - i,
    {
        assert(s@.take(i + 1).drop_last() =~= s@.take(i as int));
        let c = s[i];
        if mode == 1 {
            if c == '\'' {
                mode = 0;
            } else {
                cur.push(c);
            }
        } else if mode == 2 {
            if c == '"' {
                mode = 0;
            } else {
                cur.push(c);
            }
        } else if mode == 3 {
            cur.push(c);
            mode = 0;
        } else if c == '\'' {
            mode = 1;
        } else if c == '"' {
            mode = 2;
        } else if c == '\\' {
            mode = 3;
        } else if c == ' ' || c == '\t' {
            if cur.len() > 0 {
                let ghost before = vv(done@);
                done.push(cur);
                assert(vv(done@) =~= before.push(cur@));
                cur = Vec::new();
            }
        } else {
            cur.push(c);
        }
        i += 1;
    }
    assert(s@.take(s.len() as int) =~= s@);
    if cur.len() > 0 {
        let ghost before = vv(done@);
        done.push(cur);
        assert(vv(done@) =~= before.push(cur@));
    }
    done
}

fn strings_of(v: &Vec<Vec<char>>) -> (r: Vec<String>)
    ensures
        strings_view(r@) == vv(v@),
{
    let mut r: Vec<String> = Vec::new();
    let mut i: usize = 0;
    while i < v.len()
        invariant
            i <= v.len(),
            strings_view(r@) == vv(v@).take(i as int),
        decreases v.len() - i,
    {
        let s = string_of(&v[i]);
        let ghost before = r@;
        r.push(s);
        assert(strings_view(r@) =~= strings_view(before).push(s@));
        assert(vv(v@).take(i + 1) =~= vv(v@).take(i as int).push(v@[i as int]@));
        i += 1;
    }
    assert(vv(v@).take(v.len() as int) =~= vv(v@));
    r
}

fn vecs_of(v: &Vec<String>) -> (r: Vec<Vec<char>>)
    ensures
        vv(r@) == strings_view(v@),
{
    let mut r: Vec<Vec<char>> = Vec::new();
    let mut i: usize = 0;
    while i < v.len()
        invariant
            i <= v.len(),
            vv(r@) == strings_view(v@).take(i as int),
        decreases v.len() - i,
    {
        let s = chars_of(v[i].as_str());
        let ghost before = r@;
        r.push(s);
        assert(vv(r@) =~= vv(before).push(s@));
        assert(strings_view(v@).take(i + 1) =~= strings_view(v@).take(i as int).push(
            v@[i as int]@,
        ));
        i += 1;
    }
    assert(strings_view(v@).take(v.len() as int) =~= strings_view(v@));
    r
}

/// Splits `s` into shell words (simple POSIX-ish quoting, good enough for
/// alias values).
pub fn shell_tokenize(s: &str) -> (r: Vec<String>)
    ensures
        strings_view(r@) == shell_tokens(s@),
{
    let v = chars_of(s);
    let t = tokenize_vec(&v);
    strings_of(&t)
}

// ───────────────────────────── quotes ─────────────────────────────

/// A value that is a single quote character, on which the slicing in
/// `strip_quotes` would fail.
pub open spec fn lone_quote(s: Seq<char>) -> bool {
    s.len() == 1 && (s[0] == '\'' || s[0] == '"')
}

/// `s` without one pair of surrounding single or double quotes.
pub open spec fn unquoted(s: Seq<char>) -> Seq<char> {
    if s.len() > 0 && ((s[0] == '\'' && s.last() == '\'') || (s[0] == '"' && s.last() == '"')) {
        s.subrange(1, s.len() - 1)
    } else {
        s
    }
}

fn strip_quotes_vec(s: &Vec<char>) -> (r: Vec<char>)
    requires
        !lone_quote(s@),
    ensures
        r@ == unquoted(s@),
{
    let n = s.len();
    if n > 0 && ((s[0] == '\'' && s[n - 1] == '\'') || (s[0] == '"' && s[n - 1] == '"')) {
        slice_of(s, 1, n - 1)
    } else {
        slice_of(s, 0, n)
    }
}

/// Removes one pair of surrounding quotes.
pub fn strip_quotes(s: &str) -> (r: String)
    requires
        !lone_quote(s@),
    ensures
        r@ == unquoted(s@),
{
    let v = chars_of(s);
    let r = strip_quotes_vec(&v);
    string_of(&r)
}

// ───────────────────────────── finding the ssh command ─────────────────────────────

pub open spec fn ssh_word() -> Seq<char> {
    seq!['s', 's', 'h']
}

/// A word naming ssh: `ssh` itself or a path ending in `/ssh`.
pub open spec fn names_ssh(t: Seq<char>) -> bool {
    t == ssh_word() || ends_with(t, seq!['/', 's', 's', 'h'])
}

/// The word at `i` starts the ssh command: `ssh` or a path ending in
/// `/ssh`, wherever it stands, so that wrappers such as
/// `env SSH_OPTIONS=… ssh` are allowed.
pub open spec fn starts_ssh_command(ws: Seq<Seq<char>>, i: int) -> bool {
    names_ssh(ws[i])
}

/// Index of the first word at or after `i` that starts the ssh command.
pub open spec fn ssh_position_from(ws: Seq<Seq<char>>, i: int) -> Option<int>
    decreases ws.len() - i,
{
    if i < 0 || i >= ws.len() {
        None
    } else if starts_ssh_command(ws, i) {
        Some(i)
    } else {
        ssh_position_from(ws, i + 1)
    }
}

/// The words after `ssh` in `value`, if `value` runs ssh.
pub open spec fn ssh_command_args(value: Seq<char>) -> Option<Seq<Seq<char>>> {
    let ws = shell_tokens(value);
    match ssh_position_from(ws, 0) {
        Some(p) => Some(ws.skip(p + 1)),
        None => None,
    }
}

proof fn lemma_ssh_position_from(ws: Seq<Seq<char>>, i: int)
    requires
        0 <= i,
    ensures
        ssh_position_from(ws, i) matches Some(p) ==> i <= p < ws.len(),
    decreases ws.len() - i,
{
    if i < ws.len() && !starts_ssh_command(ws, i) {
        lemma_ssh_position_from(ws, i + 1);
    }
}

fn lit3(a: char, b: char, c: char) -> (v: Vec<char>)
    ensures
        v@ == seq![a, b, c],
{
    let mut v: Vec<char> = Vec::new();
    v.push(a);
    v.push(b);
    v.push(c);
    assert(v@ =~= seq![a, b, c]);
    v
}

fn lit2(a: char, b: char) -> (v: Vec<char>)
    ensures
        v@ == seq![a, b],
{
    let mut v: Vec<char> = Vec::new();
    v.push(a);
    v.push(b);
    assert(v@ =~= seq![a, b]);
    v
}

fn ssh_args_vec(value: &Vec<char>) -> (r: Option<Vec<Vec<char>>>)
    ensures
        match r {
            Some(a) => ssh_command_args(value@) == Some(vv(a@)),
            None => ssh_command_args(value@) is None,
        },
{
    let ws = tokenize_vec(value);
    let ssh = lit3('s', 's', 'h');
    let slash_ssh = {
        let mut v = Vec::new();
        v.push('/');
        v.push('s');
        v.push('s');
        v.push('h');
        assert(v@ =~= seq!['/', 's', 's', 'h']);
        v
    };
    let mut i: usize = 0;
    while i < ws.len()
        invariant
            i <= ws.len(),
            ssh@ == ssh_word(),
            slash_ssh@ == seq!['/', 's', 's', 'h'],
            vv(ws@) == shell_tokens(value@),
            ssh_position_from(vv(ws@), 0) == ssh_position_from(vv(ws@), i as int),
        decreases ws.len() - i,
    {
        let t = &ws[i];
        assert(vv(ws@)[i as int] == t@);
        if chars_eq(t, &ssh) || ends_with_vec(t, &slash_ssh) {
            let mut rest: Vec<Vec<char>> = Vec::new();
            let mut j = i + 1;
            while j < ws.len()
                invariant
                    i < j <= ws.len(),
                    vv(rest@) == vv(ws@).subrange(i + 1, j as int),
                decreases ws.len() - j,
            {
                let ghost before = vv(rest@);
                rest.push(ws[j].clone());
                assert(vv(rest@) =~= before.push(ws@[j as int]@));
                assert(vv(ws@).subrange(i + 1, j + 1) =~= vv(ws@).subrange(i + 1, j as int).push(
                    ws@[j as int]@,
                ));
                j += 1;
            }
            assert(vv(ws@).skip(i + 1) =~= vv(ws@).subrange(i + 1, ws.len() as int));
            return Some(rest);
        }
        i += 1;
    }
    None
}

/// The ssh arguments of an alias value: the words after the first `ssh`
/// (or `…/ssh`); words before it, such as an `env` wrapper, are skipped.
pub fn extract_ssh_command(value: &str) -> (r: Option<Vec<String>>)
    ensures
        match r {
            Some(a) => ssh_command_args(value@) == Some(strings_view(a@)),
            None => ssh_command_args(value@) is None,
        },
{
    let v = chars_of(value);
    match ssh_args_vec(&v) {
        Some(a) => Some(strings_of(&a)),
        None => None,
    }
}

// ───────────────────────────── ssh options ─────────────────────────────

/// What the ssh command line says so far.
pub struct SshOpts {
    pub user: Option<Seq<char>>,
    pub port: Option<u16>,
    pub identity: Option<Seq<char>>,
    pub jump: Option<Seq<char>>,
    pub dest: Option<Seq<char>>,
}

pub open spec fn no_opts() -> SshOpts {
    SshOpts { user: None, port: None, identity: None, jump: None, dest: None }
}

/// Single-letter ssh flags that take no argument.
pub open spec fn flag_without_arg(c: char) -> bool {
    "46AaCfGgKkMNnqsTtVvXxYy"@.contains(c)
}

/// Single-letter ssh flags whose argument is skipped.
pub open spec fn flag_with_arg(c: char) -> bool {
    "bDEeFILmNoOQRSWw"@.contains(c)
}

pub open spec fn arg_after(args: Seq<Seq<char>>, i: int) -> Option<Seq<char>> {
    if 0 <= i + 1 < args.len() {
        Some(args[i + 1])
    } else {
        None
    }
}

pub open spec fn port_of(a: Option<Seq<char>>) -> Option<u16> {
    match a {
        Some(v) => parse_u16(v),
        None => None,
    }
}

pub open spec fn expanded(a: Option<Seq<char>>, home: Option<Seq<char>>) -> Option<Seq<char>> {
    match a {
        Some(v) => Some(tilde_expansion(v, home)),
        None => None,
    }
}

/// The options of an ssh command line read from word `i` on: `-p`, `-i`,
/// `-l`, `-J` (separate or joined argument), other flags skipped, and the
/// first word that is not a flag taken as destination, which ends the scan.
pub open spec fn ssh_scan(args: Seq<Seq<char>>, i: int, o: SshOpts, home: Option<Seq<char>>) -> SshOpts
    decreases args.len() + 1 - i,
{
    if i < 0 || i >= args.len() {
        o
    } else {
        let t = args[i];
        if t == seq!['-', 'p'] {
            ssh_scan(args, i + 2, SshOpts { port: port_of(arg_after(args, i)), ..o }, home)
        } else if t == seq!['-', 'i'] {
            ssh_scan(args, i + 2, SshOpts { identity: expanded(arg_after(args, i), home), ..o }, home)
        } else if t == seq!['-', 'l'] {
            ssh_scan(args, i + 2, SshOpts { user: arg_after(args, i), ..o }, home)
        } else if t == seq!['-', 'J'] {
            ssh_scan(args, i + 2, SshOpts { jump: arg_after(args, i), ..o }, home)
        } else if starts_with(t, seq!['-', 'p']) && t.len() > 2 {
            ssh_scan(args, i + 1, SshOpts { port: parse_u16(t.skip(2)), ..o }, home)
        } else if starts_with(t, seq!['-', 'i']) && t.len() > 2 {
            ssh_scan(
                args,
                i + 1,
                SshOpts { identity: Some(tilde_expansion(t.skip(2), home)), ..o },
                home,
            )
        } else if starts_with(t, seq!['-', 'l']) && t.len() > 2 {
            ssh_scan(args, i + 1, SshOpts { user: Some(t.skip(2)), ..o }, home)
        } else if t.len() == 2 && t[0] == '-' && flag_without_arg(t[1]) {
            ssh_scan(args, i + 1, o, home)
        } else if t.len() == 2 && t[0] == '-' && flag_with_arg(t[1]) {
            ssh_scan(args, i + 2, o, home)
        } else if !(t.len() > 0 && t[0] == '-') {
            SshOpts { dest: Some(t), ..o }
        } else {
            ssh_scan(args, i + 1, o, home)
        }
    }
}

/// A plausible address: it has a dot, or consists of letters, digits, `-`, `_`.
pub open spec fn looks_like_address(s: Seq<char>) -> bool {
    s.contains('.') || forall|i: int|
        0 <= i < s.len() ==> unicode_alphanumeric(#[trigger] s[i]) || s[i] == '-' || s[i] == '_'
}

/// The host described by an ssh command line aliased as `alias`.
pub open spec fn ssh_host(alias: Seq<char>, args: Seq<Seq<char>>, source: Seq<char>, home: Option<Seq<char>>) -> Option<HostModel> {
    let o = ssh_scan(args, 0, no_opts(), home);
    match o.dest {
        None => None,
        Some(dest) => {
            let (at_user, host) = match find_char(dest, '@') {
                Some(at) => (Some(dest.take(at)), dest.skip(at + 1)),
                None => (None, dest),
            };
            let user = match at_user {
                Some(u) => Some(u),
                None => o.user,
            };
            if host.len() == 0 || host[0] == '-' {
                None
            } else {
                Some(
                    HostModel {
                        hostname: alias,
                        ip: if looks_like_address(host) {
                            Some(host)
                        } else {
                            None
                        },
                        user,
                        port: o.port,
                        identity_file: o.identity,
                        jump_host: o.jump,
                        groups: seq!["shell_alias"@],
                        source,
                        tags: seq![],
                        label: None,
                        alias: None,
                    },
                )
            }
        },
    }
}

/// Quick heuristic: has a dot or is a valid-looking hostname.
pub fn is_ip_or_fqdn(s: &str) -> (b: bool)
    ensures
        b == looks_like_address(s@),
{
    let v = chars_of(s);
    is_ip_or_fqdn_vec(&v)
}

fn is_ip_or_fqdn_vec(v: &Vec<char>) -> (b: bool)
    ensures
        b == looks_like_address(v@),
{
    if contains_char(v, '.') {
        return true;
    }
    let mut i: usize = 0;
    while i < v.len()
        invariant
            i <= v.len(),
            !v@.contains('.'),
            forall|j: int|
                0 <= j < i ==> unicode_alphanumeric(#[trigger] v@[j]) || v@[j] == '-' || v@[j]
                    == '_',
        decreases v.len() - i,
    {
        let c = v[i];
        if !(char_is_alphanumeric(c) || c == '-' || c == '_') {
            assert(!(unicode_alphanumeric(v@[i as int]) || v@[i as int] == '-' || v@[i as int] == '_'));
            return false;
        }
        i += 1;
    }
    true
}

/// Exec form of `SshOpts`.
struct SshArgs {
    user: Option<String>,
    port: Option<u16>,
    identity: Option<String>,
    jump: Option<String>,
    dest: Option<Vec<char>>,
}

impl SshArgs {
    spec fn model(&self) -> SshOpts {
        SshOpts {
            user: opt_view(self.user),
            port: self.port,
            identity: opt_view(self.identity),
            jump: opt_view(self.jump),
            dest: match self.dest {
                Some(d) => Some(d@),
                None => None,
            },
        }
    }
}

fn arg_after_vec(args: &Vec<Vec<char>>, i: usize) -> (r: Option<String>)
    requires
        i < args.len(),
    ensures
        opt_view(r) == arg_after(vv(args@), i as int),
{
    if i + 1 < args.len() {
        Some(string_of(&args[i + 1]))
    } else {
        None
    }
}

fn scan_ssh_args(args: &Vec<Vec<char>>, home: &Option<String>) -> (o: SshArgs)
    ensures
        o.model() == ssh_scan(vv(args@), 0, no_opts(), opt_view(*home)),
{
    let ghost a = vv(args@);
    let ghost h = opt_view(*home);
    let dash_p = lit2('-', 'p');
    let dash_i = lit2('-', 'i');
    let dash_l = lit2('-', 'l');
    let dash_j = lit2('-', 'J');
    let no_arg = chars_of("46AaCfGgKkMNnqsTtVvXxYy");
    let with_arg = chars_of("bDEeFILmNoOQRSWw");
    let mut o = SshArgs { user: None, port: None, identity: None, jump: None, dest: None };
    let mut i: usize = 0;
    while i < args.len()
        invariant
            i <= args.len(),
            a == vv(args@),
            h == opt_view(*home),
            dash_p@ == seq!['-', 'p'],
            dash_i@ == seq!['-', 'i'],
            dash_l@ == seq!['-', 'l'],
            dash_j@ == seq!['-', 'J'],
            no_arg@ == "46AaCfGgKkMNnqsTtVvXxYy"@,
            with_arg@ == "bDEeFILmNoOQRSWw"@,
            ssh_scan(a, 0, no_opts(), h) == ssh_scan(a, i as int, o.model(), h),
        decreases args.len() - i,
    {
        let t = &args[i];
        assert(a[i as int] == t@);
        let ghost m0 = o.model();
        let ghost i0 = i as int;
        let step2: usize = if i + 1 < args.len() {
            i + 2
        } else {
            args.len()
        };
        if chars_eq(t, &dash_p) {
            let next = arg_after_vec(args, i);
            o.port = match &next {
                Some(v) => parse_u16_vec(&chars_of(v.as_str())),
                None => None,
            };
            assert(o.model() == SshOpts { port: port_of(arg_after(a, i0)), ..m0 });
            assert(ssh_scan(a, i0, m0, h) == ssh_scan(a, i0 + 2, o.model(), h));
            i = step2;
            assert(ssh_scan(a, i0, m0, h) == ssh_scan(a, i as int, o.model(), h));
        } else if chars_eq(t, &dash_i) {
            let next = arg_after_vec(args, i);
            o.identity = match &next {
                Some(v) => Some(tilde_with_home(v.as_str(), home)),
                None => None,
            };
            i = step2;
        } else if chars_eq(t, &dash_l) {
            o.user = arg_after_vec(args, i);
            i = step2;
        } else if chars_eq(t, &dash_j) {
            o.jump = arg_after_vec(args, i);
            i = step2;
        } else if starts_with_vec(t, &dash_p) && t.len() > 2 {
            let rest = slice_of(t, 2, t.len());
            assert(rest@ =~= t@.skip(2));
            o.port = parse_u16_vec(&rest);
            i = i + 1;
        } else if starts_with_vec(t, &dash_i) && t.len() > 2 {
            let rest = slice_of(t, 2, t.len());
            assert(rest@ =~= t@.skip(2));
            let rs = string_of(&rest);
            o.identity = Some(tilde_with_home(rs.as_str(), home));
            i = i + 1;
        } else if starts_with_vec(t, &dash_l) && t.len() > 2 {
            let rest = slice_of(t, 2, t.len());
            assert(rest@ =~= t@.skip(2));
            o.user = Some(string_of(&rest));
            i = i + 1;
        } else if t.len() == 2 && t[0] == '-' && contains_char(&no_arg, t[1]) {
            i = i + 1;
        } else if t.len() == 2 && t[0] == '-' && contains_char(&with_arg, t[1]) {
            i = step2;
        } else if !(t.len() > 0 && t[0] == '-') {
            o.dest = Some(t.clone());
            i = args.len();
        } else {
            i = i + 1;
        }
    }
    o
}

/// Parse ssh CLI tokens into a Host, `~` in an identity file expanded with
/// the given home directory.
pub fn parse_ssh_args_with_home(alias: &str, args: &Vec<String>, source: &str, home: &Option<String>) -> (r: Option<Host>)
    ensures
        match r {
            Some(h) => ssh_host(alias@, strings_view(args@), source@, opt_view(*home)) == Some(h@),
            None => ssh_host(alias@, strings_view(args@), source@, opt_view(*home)) is None,
        },
{
    let a = vecs_of(args);
    host_of_args(alias, &a, source, home)
}

fn host_of_args(alias: &str, args: &Vec<Vec<char>>, source: &str, home: &Option<String>) -> (r: Option<Host>)
    ensures
        match r {
            Some(h) => ssh_host(alias@, vv(args@), source@, opt_view(*home)) == Some(h@),
            None => ssh_host(alias@, vv(args@), source@, opt_view(*home)) is None,
        },
{
    let o = scan_ssh_args(args, home);
    let dest = match o.dest {
        Some(d) => d,
        None => return None,
    };
    proof {
        crate::text::lemma_find_char(dest@, '@');
    }
    let (at_user, host): (Option<String>, Vec<char>) = match find_char_vec(&dest, '@') {
        Some(at) => {
            let u = slice_of(&dest, 0, at);
            let h = slice_of(&dest, at + 1, dest.len());
            assert(u@ =~= dest@.take(at as int));
            assert(h@ =~= dest@.skip(at + 1));
            (Some(string_of(&u)), h)
        },
        None => (None, dest),
    };
    let user = match at_user {
        Some(u) => Some(u),
        None => o.user,
    };
    if host.len() == 0 || host[0] == '-' {
        return None;
    }
    let ip = if is_ip_or_fqdn_vec(&host) {
        Some(string_of(&host))
    } else {
        None
    };
    let mut groups: Vec<String> = Vec::new();
    groups.push(string_from("shell_alias"));
    let h = Host {
        hostname: string_from(alias),
        ip,
        user,
        port: o.port,
        identity_file: o.identity,
        jump_host: o.jump,
        groups,
        source: string_from(source),
        tags: Vec::new(),
        label: None,
        alias: None,
    };
    assert(strings_view(h.groups@) =~= seq!["shell_alias"@]);
    assert(super::tags_view(h.tags@) =~= seq![]);
    Some(h)
}

/// Parse ssh CLI tokens into a Host, `~` in an identity file expanded with
/// the current home directory.
pub fn parse_ssh_args(alias: &str, args: &Vec<String>, source: &str) -> (r: Option<Host>)
    ensures
        exists|home: Option<Seq<char>>|
            match r {
                Some(h) => ssh_host(alias@, strings_view(args@), source@, home) == Some(h@),
                None => ssh_host(alias@, strings_view(args@), source@, home) is None,
            },
{
    let home = home_dir();
    parse_ssh_args_with_home(alias, args, source, &home)
}

// ───────────────────────────── alias lines ─────────────────────────────

pub open spec fn alias_keyword() -> Seq<char> {
    seq!['a', 'l', 'i', 'a', 's']
}

/// What follows `alias` on a trimmed line, when it is an alias definition.
pub open spec fn alias_rest(line: Seq<char>) -> Option<Seq<char>> {
    if starts_with(line, alias_keyword()) {
        let r = trim_start(line.skip(5));
        if r.len() == 0 || r[0] == '=' {
            None
        } else {
            Some(r)
        }
    } else {
        None
    }
}

/// The alias name and the raw (still quoted) value of an `alias name=value` line.
pub open spec fn alias_parts(raw_line: Seq<char>) -> Option<(Seq<char>, Seq<char>)> {
    match alias_rest(trim(raw_line)) {
        None => None,
        Some(rest) => match find_char(rest, '=') {
            None => None,
            Some(eq) => Some((trim(rest.take(eq)), trim(rest.skip(eq + 1)))),
        },
    }
}

/// The host defined by one line of a shell RC file, if any.
pub open spec fn alias_host(raw_line: Seq<char>, source: Seq<char>, home: Option<Seq<char>>) -> Option<HostModel> {
    match alias_parts(raw_line) {
        None => None,
        Some((name, raw)) => match ssh_command_args(unquoted(raw)) {
            None => None,
            Some(args) => ssh_host(name, args, source, home),
        },
    }
}

/// The hosts defined by a sequence of lines, in order.
pub open spec fn alias_hosts(ls: Seq<Seq<char>>, source: Seq<char>, home: Option<Seq<char>>) -> Seq<HostModel>
    decreases ls.len(),
{
    if ls.len() == 0 {
        seq![]
    } else {
        let prev = alias_hosts(ls.drop_last(), source, home);
        match alias_host(ls.last(), source, home) {
            Some(h) => prev.push(h),
            None => prev,
        }
    }
}

/// Whether no line is one on which quote stripping would slice out of range,
/// an alias line whose value is a lone quote character.
pub open spec fn aliases_parsable(content: Seq<char>) -> bool {
    forall|i: int|
        0 <= i < lines(content).len() ==> match #[trigger] alias_parts(lines(content)[i]) {
            Some((_name, raw)) => !lone_quote(raw),
            None => true,
        }
}

fn alias_parts_vec(raw_line: &Vec<char>) -> (r: Option<(Vec<char>, Vec<char>)>)
    ensures
        match r {
            Some((n, v)) => alias_parts(raw_line@) == Some((n@, v@)),
            None => alias_parts(raw_line@) is None,
        },
{
    let line = trim_vec(raw_line);
    let kw = chars_of("alias");
    let mut kw2: Vec<char> = Vec::new();
    kw2.push('a');
    kw2.push('l');
    kw2.push('i');
    kw2.push('a');
    kw2.push('s');
    assert(kw2@ =~= alias_keyword());
    if !starts_with_vec(&line, &kw2) {
        return None;
    }
    let after = slice_of(&line, 5, line.len());
    assert(after@ =~= line@.skip(5));
    let rest = trim_start_vec(&after);
    if rest.len() == 0 || rest[0] == '=' {
        return None;
    }
    let eq = match find_char_vec(&rest, '=') {
        Some(p) => p,
        None => return None,
    };
    proof {
        crate::text::lemma_find_char(rest@, '=');
    }
    let name_raw = slice_of(&rest, 0, eq);
    let value_raw = slice_of(&rest, eq + 1, rest.len());
    assert(name_raw@ =~= rest@.take(eq as int));
    assert(value_raw@ =~= rest@.skip(eq + 1));
    let name = trim_vec(&name_raw);
    let value = trim_vec(&value_raw);
    let _ = kw;
    Some((name, value))
}

/// The hosts defined by the ssh aliases in `content`, `~` in identity files
/// expanded with the given home directory.
pub fn parse_aliases_with_home(content: &str, source: &str, home: &Option<String>) -> (r: Vec<Host>)
    requires
        aliases_parsable(content@),
    ensures
        hosts_view(r@) == alias_hosts(lines(content@), source@, opt_view(*home)),
{
    let c = chars_of(content);
    let ls = lines_vec(&c);
    let ghost l = vv(ls@);
    let mut hosts: Vec<Host> = Vec::new();
    let mut i: usize = 0;
    while i < ls.len()
        invariant
            i <= ls.len(),
            l == vv(ls@),
            l == lines(content@),
            aliases_parsable(content@),
            hosts_view(hosts@) == alias_hosts(l.take(i as int), source@, opt_view(*home)),
        decreases ls.len() - i,
    {
        assert(l.take(i + 1).drop_last() =~= l.take(i as int));
        assert(l.take(i + 1).last() == ls@[i as int]@);
        let parts = alias_parts_vec(&ls[i]);
        assert(alias_parts(l[i as int]) == alias_parts(ls@[i as int]@));
        match parts {
            None => {},
            Some((name, raw)) => {
                let value = strip_quotes_vec(&raw);
                match ssh_args_vec(&value) {
                    None => {},
                    Some(args) => {
                        let name_s = string_of(&name);
                        match host_of_args(name_s.as_str(), &args, source, home) {
                            Some(h) => {
                                let ghost before = hosts@;
                                hosts.push(h);
                                assert(hosts_view(hosts@) =~= hosts_view(before).push(h@));
                            },
                            None => {},
                        }
                    },
                }
            },
        }
        i += 1;
    }
    assert(l.take(ls.len() as int) =~= l);
    hosts
}

/// The hosts defined by the ssh aliases in `content`, `~` in identity files
/// expanded with the current home directory.
pub fn parse_aliases(content: &str, source: &str) -> (r: Vec<Host>)
    requires
        aliases_parsable(content@),
    ensures
        exists|home: Option<Seq<char>>| hosts_view(r@) == alias_hosts(lines(content@), source@, home),
{
    let home = home_dir();
    parse_aliases_with_home(content, source, &home)
}

/// Whether `parse_aliases` accepts `content` (no alias value is a lone quote).
pub fn aliases_parsable_check(content: &str) -> (b: bool)
    ensures
        b == aliases_parsable(content@),
{
    let c = chars_of(content);
    let ls = lines_vec(&c);
    let mut i: usize = 0;
    while i < ls.len()
        invariant
            i <= ls.len(),
            vv(ls@) == lines(content@),
            forall|j: int|
                0 <= j < i ==> match #[trigger] alias_parts(lines(content@)[j]) {
                    Some((_name, raw)) => !lone_quote(raw),
                    None => true,
                },
        decreases ls.len() - i,
    {
        assert(vv(ls@)[i as int] == ls@[i as int]@);
        match alias_parts_vec(&ls[i]) {
            Some((_n, raw)) => {
                if raw.len() == 1 && (raw[0] == '\'' || raw[0] == '"') {
                    return false;
                }
            },
            None => {},
        }
        i += 1;
    }
    true
}

/// `path` with the home directory prefix written as `~`.
pub open spec fn shortened(path: Seq<char>, home: Option<Seq<char>>) -> Seq<char> {
    match home {
        Some(h) => if starts_with(path, h) {
            seq!['~'] + path.skip(h.len() as int)
        } else {
            path
        },
        None => path,
    }
}

pub fn shorten_path_with_home(path: &str, home: &Option<String>) -> (r: String)
    ensures
        r@ == shortened(path@, opt_view(*home)),
{
    let p = chars_of(path);
    match home {
        Some(h) => {
            let hv = chars_of(h.as_str());
            if starts_with_vec(&p, &hv) {
                let mut t: Vec<char> = Vec::new();
                t.push('~');
                let rest = slice_of(&p, hv.len(), p.len());
                assert(rest@ =~= p@.skip(hv.len() as int));
                let r = concat(&t, &rest);
                assert(t@ =~= seq!['~']);
                string_of(&r)
            } else {
                string_of(&p)
            }
        },
        None => string_of(&p),
    }
}

/// `path` with the current home directory prefix written as `~`.
pub fn shorten_path(path: &str) -> (r: String)
    ensures
        exists|home: Option<Seq<char>>| r@ == shortened(path@, home),
{
    let home = home_dir();
    shorten_path_with_home(path, &home)
}

// ───────────────────────────── RC files ─────────────────────────────

/// The shell RC files looked at, relative to the home directory.
pub open spec fn rc_file_names() -> Seq<Seq<char>> {
    seq![".zshrc"@, ".bashrc"@, ".bash_profile"@, ".bash_aliases"@, ".profile"@, ".config/fish/config.fish"@]
}

/// The RC files under `home`, existing or not.
pub open spec fn rc_files_under(home: Seq<char>) -> Seq<Seq<char>> {
    rc_file_names().map_values(|n: Seq<char>| joined(home, n))
}

pub fn rc_file_candidates(home: &str) -> (r: Vec<String>)
    ensures
        strings_view(r@) == rc_files_under(home@),
{
    let mut r: Vec<String> = Vec::new();
    r.push(join_path(home, ".zshrc"));
    r.push(join_path(home, ".bashrc"));
    r.push(join_path(home, ".bash_profile"));
    r.push(join_path(home, ".bash_aliases"));
    r.push(join_path(home, ".profile"));
    r.push(join_path(home, ".config/fish/config.fish"));
    assert(strings_view(r@) =~= rc_files_under(home@));
    r
}

/// `r` is what `shell_rc_files` finds for the home directory `home`: none
/// without a home directory, else the RC files under it that exist.
pub open spec fn rc_files_found(r: Seq<Seq<char>>, home: Option<Seq<char>>, flags: Seq<bool>) -> bool {
    match home {
        None => r.len() == 0,
        Some(h) => flags.len() == rc_file_names().len() && kept(rc_files_under(h), flags) == r,
    }
}

/// The shell RC files in the home directory that exist.
pub fn shell_rc_files() -> (r: Vec<String>)
    ensures
        exists|home: Option<Seq<char>>, flags: Seq<bool>| #[trigger] rc_files_found(strings_view(r@), home, flags),
{
    match home_dir() {
        None => {
            let r: Vec<String> = Vec::new();
            assert(rc_files_found(strings_view(r@), None, seq![]));
            r
        },
        Some(h) => {
            let cands = rc_file_candidates(h.as_str());
            let r = keep_existing(&cands);
            proof {
                let flags = choose|flags: Seq<bool>| flags.len() == cands@.len() && #[trigger] kept(strings_view(cands@), flags) == strings_view(r@);
                assert(rc_files_found(strings_view(r@), Some(h@), flags));
            }
            r
        },
    }
}

// ───────────────────────────── laws of the ssh command line ─────────────────────────────

/// The scan reads only the words from its position on: two command lines
/// that agree from positions `i` and `j` on give the same options.
proof fn lemma_scan_same_suffix(a: Seq<Seq<char>>, i: int, b: Seq<Seq<char>>, j: int, home: Option<Seq<char>>)
    requires
        0 <= i,
        0 <= j,
        a.len() - i == b.len() - j || (i >= a.len() && j >= b.len()),
        forall|n: int| 0 <= n < a.len() - i ==> #[trigger] a[i + n] == b[j + n],
    ensures
        forall|o: SshOpts| #[trigger] ssh_scan(a, i, o, home) == ssh_scan(b, j, o, home),
    decreases a.len() - i,
{
    if i < a.len() {
        assert(a[i + 0] == b[j + 0]);
        if i + 1 < a.len() {
            assert(a[i + 1] == b[j + 1]);
        }
        assert forall|n: int| 0 <= n < a.len() - (i + 1) implies #[trigger] a[(i + 1) + n] == b[(j + 1) + n] by {
            assert(a[i + (n + 1)] == b[j + (n + 1)]);
        }
        lemma_scan_same_suffix(a, i + 1, b, j + 1, home);
        if i + 2 <= a.len() {
            assert forall|n: int| 0 <= n < a.len() - (i + 2) implies #[trigger] a[(i + 2) + n] == b[(j + 2) + n] by {
                assert(a[i + (n + 2)] == b[j + (n + 2)]);
            }
            lemma_scan_same_suffix(a, i + 2, b, j + 2, home);
        } else {
            assert forall|o: SshOpts| #[trigger] ssh_scan(a, i + 2, o, home) == o && ssh_scan(b, j + 2, o, home) == o by {}
        }
        assert forall|o: SshOpts| #[trigger] ssh_scan(a, i, o, home) == ssh_scan(b, j, o, home) by {
            let t = a[i];
            assert(t == b[j]);
            assert(arg_after(a, i) == arg_after(b, j));
            if t == seq!['-', 'p'] {
                let o2 = SshOpts { port: port_of(arg_after(a, i)), ..o };
                assert(ssh_scan(a, i + 2, o2, home) == ssh_scan(b, j + 2, o2, home));
            } else if t == seq!['-', 'i'] {
                let o2 = SshOpts { identity: expanded(arg_after(a, i), home), ..o };
                assert(ssh_scan(a, i + 2, o2, home) == ssh_scan(b, j + 2, o2, home));
            } else if t == seq!['-', 'l'] {
                let o2 = SshOpts { user: arg_after(a, i), ..o };
                assert(ssh_scan(a, i + 2, o2, home) == ssh_scan(b, j + 2, o2, home));
            } else if t == seq!['-', 'J'] {
                let o2 = SshOpts { jump: arg_after(a, i), ..o };
                assert(ssh_scan(a, i + 2, o2, home) == ssh_scan(b, j + 2, o2, home));
            } else if starts_with(t, seq!['-', 'p']) && t.len() > 2 {
                let o2 = SshOpts { port: parse_u16(t.skip(2)), ..o };
                assert(ssh_scan(a, i + 1, o2, home) == ssh_scan(b, j + 1, o2, home));
            } else if starts_with(t, seq!['-', 'i']) && t.len() > 2 {
                let o2 = SshOpts { identity: Some(tilde_expansion(t.skip(2), home)), ..o };
                assert(ssh_scan(a, i + 1, o2, home) == ssh_scan(b, j + 1, o2, home));
            } else if starts_with(t, seq!['-', 'l']) && t.len() > 2 {
                let o2 = SshOpts { user: Some(t.skip(2)), ..o };
                assert(ssh_scan(a, i + 1, o2, home) == ssh_scan(b, j + 1, o2, home));
            } else if t.len() == 2 && t[0] == '-' && flag_without_arg(t[1]) {
                assert(ssh_scan(a, i + 1, o, home) == ssh_scan(b, j + 1, o, home));
            } else if t.len() == 2 && t[0] == '-' && flag_with_arg(t[1]) {
                assert(ssh_scan(a, i + 2, o, home) == ssh_scan(b, j + 2, o, home));
            } else if !(t.len() > 0 && t[0] == '-') {
            } else {
                assert(ssh_scan(a, i + 1, o, home) == ssh_scan(b, j + 1, o, home));
            }
        }
    }
}

/// The words of a command line with one word `-<c><d>` split in two,
/// `-<c>` and `<d>`.
pub open spec fn split_flag_word(args: Seq<Seq<char>>, i: int, c: char, d: Seq<char>) -> Seq<Seq<char>> {
    args.take(i) + seq![seq!['-', c], d] + args.skip(i + 1)
}

/// `-p`, `-i` and `-l` read their argument the same whether it is joined to
/// the flag (`-p2222`) or follows it as the next word (`-p 2222`).
pub proof fn law_joined_flag_argument(args: Seq<Seq<char>>, i: int, c: char, d: Seq<char>, home: Option<Seq<char>>)
    requires
        0 <= i < args.len(),
        c == 'p' || c == 'i' || c == 'l',
        d.len() > 0,
        args[i] == seq!['-', c] + d,
    ensures
        forall|o: SshOpts| #[trigger] ssh_scan(args, i, o, home) == ssh_scan(split_flag_word(args, i, c, d), i, o, home),
{
    let b = split_flag_word(args, i, c, d);
    let t = args[i];
    assert(b.len() == args.len() + 1);
    assert(b[i] == seq!['-', c]);
    assert(b[i + 1] == d);
    assert(t.skip(2) =~= d);
    assert(t.len() > 2);
    assert(t.take(2) =~= seq!['-', c]);
    assert forall|n: int| 0 <= n < args.len() - (i + 1) implies #[trigger] args[(i + 1) + n] == b[(i + 2) + n] by {
        assert(b[(i + 2) + n] == args.skip(i + 1)[n]);
    }
    lemma_scan_same_suffix(args, i + 1, b, i + 2, home);
    assert(arg_after(b, i) == Some(d));
    assert forall|o: SshOpts| #[trigger] ssh_scan(args, i, o, home) == ssh_scan(b, i, o, home) by {
        assert(t != seq!['-', 'p'] && t != seq!['-', 'i'] && t != seq!['-', 'l'] && t != seq!['-', 'J']);
        if c == 'p' {
            assert(starts_with(t, seq!['-', 'p']));
            let o2 = SshOpts { port: parse_u16(d), ..o };
            assert(ssh_scan(args, i, o, home) == ssh_scan(args, i + 1, o2, home));
            assert(ssh_scan(b, i, o, home) == ssh_scan(b, i + 2, o2, home));
            assert(ssh_scan(args, i + 1, o2, home) == ssh_scan(b, i + 2, o2, home));
        } else if c == 'i' {
            assert(!starts_with(t, seq!['-', 'p']));
            assert(starts_with(t, seq!['-', 'i']));
            let o2 = SshOpts { identity: Some(tilde_expansion(d, home)), ..o };
            assert(ssh_scan(args, i, o, home) == ssh_scan(args, i + 1, o2, home));
            assert(ssh_scan(b, i, o, home) == ssh_scan(b, i + 2, o2, home));
            assert(ssh_scan(args, i + 1, o2, home) == ssh_scan(b, i + 2, o2, home));
        } else {
            assert(!starts_with(t, seq!['-', 'p']));
            assert(!starts_with(t, seq!['-', 'i']));
            assert(starts_with(t, seq!['-', 'l']));
            let o2 = SshOpts { user: Some(d), ..o };
            assert(ssh_scan(args, i, o, home) == ssh_scan(args, i + 1, o2, home));
            assert(ssh_scan(b, i, o, home) == ssh_scan(b, i + 2, o2, home));
            assert(ssh_scan(args, i + 1, o2, home) == ssh_scan(b, i + 2, o2, home));
        }
    }
}

/// An alias's host is the same whether its command line starts `-p2222`
/// or `-p 2222` (likewise `-i` and `-l`).
pub proof fn law_joined_flag_host(alias: Seq<char>, c: char, d: Seq<char>, rest: Seq<Seq<char>>, source: Seq<char>, home: Option<Seq<char>>)
    requires
        c == 'p' || c == 'i' || c == 'l',
        d.len() > 0,
    ensures
        ssh_host(alias, seq![seq!['-', c] + d] + rest, source, home) == ssh_host(alias, seq![seq!['-', c], d] + rest, source, home),
{
    let a = seq![seq!['-', c] + d] + rest;
    assert(a[0] == seq!['-', c] + d);
    law_joined_flag_argument(a, 0, c, d, home);
    assert(split_flag_word(a, 0, c, d) =~= seq![seq!['-', c], d] + rest);
    assert(ssh_scan(a, 0, no_opts(), home) == ssh_scan(seq![seq!['-', c], d] + rest, 0, no_opts(), home));
}

/// The port written after `-p`, joined (`-p2222`) or as the next word
/// (`-p 2222`), is the port of the command line, and the next plain word
/// its destination.
pub proof fn law_port_flag(d: Seq<char>, rest: Seq<Seq<char>>, alias: Seq<char>, source: Seq<char>, home: Option<Seq<char>>)
    requires
        d.len() > 0,
        crate::text::all_digits(d),
        crate::text::digits_value(d) <= 65535,
        rest.len() > 0,
        rest[0].len() > 0,
        rest[0][0] != '-',
    ensures
        ssh_scan(seq![seq!['-', 'p'] + d] + rest, 0, no_opts(), home).port == Some(crate::text::digits_value(d) as u16),
        ssh_scan(seq![seq!['-', 'p'] + d] + rest, 0, no_opts(), home).dest == Some(rest[0]),
        ssh_scan(seq![seq!['-', 'p'], d] + rest, 0, no_opts(), home).port == Some(crate::text::digits_value(d) as u16),
        ssh_scan(seq![seq!['-', 'p'], d] + rest, 0, no_opts(), home).dest == Some(rest[0]),
        ssh_host(alias, seq![seq!['-', 'p'] + d] + rest, source, home) matches Some(h) ==> h.port == Some(crate::text::digits_value(d) as u16),
{
    let a2 = seq![seq!['-', 'p'], d] + rest;
    let a1 = seq![seq!['-', 'p'] + d] + rest;
    assert(crate::text::is_digit(d[0]));
    assert(parse_u16(d) == Some(crate::text::digits_value(d) as u16));
    assert(a2[0] == seq!['-', 'p']);
    assert(a2[1] == d);
    assert(a2[2] == rest[0]);
    let t = rest[0];
    let o1 = SshOpts { port: Some(crate::text::digits_value(d) as u16), ..no_opts() };
    assert(!starts_with(t, seq!['-', 'p']) && !starts_with(t, seq!['-', 'i']) && !starts_with(t, seq!['-', 'l']));
    assert(t != seq!['-', 'p'] && t != seq!['-', 'i'] && t != seq!['-', 'l'] && t != seq!['-', 'J']);
    assert(ssh_scan(a2, 2, o1, home) == SshOpts { dest: Some(t), ..o1 });
    assert(ssh_scan(a2, 0, no_opts(), home) == ssh_scan(a2, 2, o1, home));
    assert(a1[0] == seq!['-', 'p'] + d);
    law_joined_flag_argument(a1, 0, 'p', d, home);
    assert(split_flag_word(a1, 0, 'p', d) =~= a2);
    assert(ssh_scan(a1, 0, no_opts(), home) == ssh_scan(a2, 0, no_opts(), home));
}

} // verus!
