//! The calls this library makes into outside crates and into the parts of std
//! that vstd does not specify. Each item here is trusted: its contract states
//! what the called function's source or documentation shows, and nothing is
//! proved about its body.

use vstd::prelude::*;
use fuzzy_matcher::skim::SkimMatcherV2;
use fuzzy_matcher::FuzzyMatcher;
use crate::inventory::keys_distinct;
use crate::inventory::teleport::{TshNode, TshNodeModel, nodes_view};

verus! {

// ───────────────────────────── outside types ─────────────────────────────

#[verifier::external_type_specification]
#[verifier::external_body]
pub struct ExRegex(regex::Regex);

#[verifier::external_type_specification]
#[verifier::external_body]
pub struct ExSkimMatcherV2(SkimMatcherV2);

#[verifier::external_type_specification]
#[verifier::external_body]
pub struct ExIpAddr(core::net::IpAddr);

#[verifier::external_type_specification]
#[verifier::external_body]
pub struct ExIpNet(ipnet::IpNet);

/// Appends one character to a `String` (std `String::push`).
#[verifier::external_body]
pub(crate) fn push_char(s: &mut String, c: char)
    ensures
        final(s)@ == old(s)@.push(c),
{
    s.push(c);
}

// ───────────────────────────── home directory and `~` ─────────────────────────────

/// `dirs::home_dir()`, as a string when the path is valid Unicode. The home
/// directory comes from the environment, so nothing is stated of it.
#[verifier::external_body]
pub(crate) fn home_dir() -> (r: Option<String>) {
    dirs::home_dir().and_then(|p| p.to_str().map(|s| s.to_string()))
}

/// What `shellexpand::tilde_with_context` returns on Unix: a leading `~` that
/// stands alone or before `/` is replaced by the home directory when one is
/// known; any other input is returned unchanged.
pub open spec fn tilde_expansion(s: Seq<char>, home: Option<Seq<char>>) -> Seq<char> {
    if s.len() > 0 && s[0] == '~' && (s.len() == 1 || s[1] == '/') {
        match home {
            Some(h) => h + s.drop_first(),
            None => s,
        }
    } else {
        s
    }
}

/// `shellexpand::tilde_with_context(input, || home)`: expands a leading `~`
/// as `tilde_expansion` states (the source of `tilde_with_context` in
/// shellexpand 3.1, for a non-Windows target).
#[verifier::external_body]
pub(crate) fn tilde_with_home(input: &str, home: &Option<String>) -> (r: String)
    ensures
        r@ == tilde_expansion(input@, crate::text::opt_view(*home)),
{
    let h = home.clone();
    shellexpand::tilde_with_context(input, move || h).to_string()
}

// ───────────────────────────── regular expressions ─────────────────────────────

/// The characters that `regex::escape` prefixes with a backslash
/// (`regex_syntax::is_meta_character`).
pub open spec fn is_regex_meta(c: char) -> bool {
    c == '\\' || c == '.' || c == '+' || c == '*' || c == '?' || c == '(' || c == ')' || c == '|'
        || c == '[' || c == ']' || c == '{' || c == '}' || c == '^' || c == '$' || c == '#' || c
        == '&' || c == '-' || c == '~'
}

/// `s` with every regex meta character preceded by a backslash.
pub open spec fn regex_escaped(s: Seq<char>) -> Seq<char>
    decreases s.len(),
{
    if s.len() == 0 {
        seq![]
    } else if is_regex_meta(s.last()) {
        regex_escaped(s.drop_last()) + seq!['\\', s.last()]
    } else {
        regex_escaped(s.drop_last()).push(s.last())
    }
}

/// `regex::escape`: each character in turn, a meta character preceded by `\`
/// (the loop of `regex_syntax::escape_into`).
#[verifier::external_body]
pub(crate) fn regex_escape(s: &str) -> (r: String)
    ensures
        r@ == regex_escaped(s@),
{
    regex::escape(s)
}

/// Whether `regex::Regex::new` accepts `pattern`.
pub uninterp spec fn regex_valid(pattern: Seq<char>) -> bool;

/// Whether the regex `pattern` matches somewhere in `text` (`Regex::is_match`).
pub uninterp spec fn regex_matches(pattern: Seq<char>, text: Seq<char>) -> bool;

/// The text of capture group 1 of the leftmost-first match of `pattern` in
/// `text`, if there is a match and the group took part in it.
pub uninterp spec fn regex_first_capture(pattern: Seq<char>, text: Seq<char>) -> Option<
    Seq<char>,
>;

/// A compiled regular expression together with the pattern it was compiled
/// from. Only `compile_regex` builds one.
pub struct CompiledRegex {
    re: regex::Regex,
    source: String,
}

impl CompiledRegex {
    /// The pattern this regex was compiled from.
    pub closed spec fn pattern(&self) -> Seq<char> {
        self.source@
    }
}

/// `regex::Regex::new(pattern)`: succeeds exactly on valid patterns.
#[verifier::external_body]
pub(crate) fn compile_regex(pattern: &str) -> (r: Option<CompiledRegex>)
    ensures
        r is Some <==> regex_valid(pattern@),
        r matches Some(c) ==> c.pattern() == pattern@,
{
    match regex::Regex::new(pattern) {
        Ok(re) => Some(CompiledRegex { re, source: pattern.to_string() }),
        Err(_) => None,
    }
}

/// `Regex::is_match`.
#[verifier::external_body]
pub(crate) fn regex_is_match(re: &CompiledRegex, text: &str) -> (r: bool)
    ensures
        r == regex_matches(re.pattern(), text@),
{
    re.re.is_match(text)
}

/// `Regex::captures`, then group 1 as a string.
#[verifier::external_body]
pub(crate) fn regex_capture(re: &CompiledRegex, text: &str) -> (r: Option<String>)
    ensures
        crate::text::opt_view(r) == regex_first_capture(re.pattern(), text@),
{
    re.re.captures(text).and_then(|c| c.get(1)).map(|m| m.as_str().to_string())
}

// ───────────────────────────── fuzzy matching ─────────────────────────────

/// The score that `SkimMatcherV2::default()` gives `choice` for `pattern`,
/// or `None` when the pattern's characters do not occur in order.
pub uninterp spec fn skim_score(choice: Seq<char>, pattern: Seq<char>) -> Option<i64>;

/// The character positions in `choice` that `SkimMatcherV2::default()`
/// matches against `pattern`, when it matches.
pub uninterp spec fn skim_positions(choice: Seq<char>, pattern: Seq<char>) -> Option<Seq<usize>>;

/// `SkimMatcherV2::default()`.
#[verifier::external_body]
pub(crate) fn new_skim_matcher() -> (m: SkimMatcherV2) {
    SkimMatcherV2::default()
}

/// `FuzzyMatcher::fuzzy_match` of a matcher made by `new_skim_matcher`; an
/// empty pattern scores 0 (the first test of `SkimMatcherV2::fuzzy`).
#[verifier::external_body]
pub(crate) fn skim_fuzzy_match(m: &SkimMatcherV2, choice: &str, pattern: &str) -> (r: Option<i64>)
    ensures
        r == skim_score(choice@, pattern@),
        pattern@.len() == 0 ==> r == Some(0i64),
{
    FuzzyMatcher::fuzzy_match(m, choice, pattern)
}

/// The view of an optional vector of positions.
pub open spec fn opt_positions(r: Option<Vec<usize>>) -> Option<Seq<usize>> {
    match r {
        Some(v) => Some(v@),
        None => None,
    }
}

/// `FuzzyMatcher::fuzzy_indices` of a matcher made by `new_skim_matcher`,
/// keeping the positions; an empty pattern matches at no position.
#[verifier::external_body]
pub(crate) fn skim_fuzzy_indices(m: &SkimMatcherV2, choice: &str, pattern: &str) -> (r: Option<Vec<usize>>)
    ensures
        opt_positions(r) == skim_positions(choice@, pattern@),
        pattern@.len() == 0 ==> opt_positions(r) == Some(Seq::<usize>::empty()),
{
    FuzzyMatcher::fuzzy_indices(m, choice, pattern).map(|(_, idx)| idx)
}

// ───────────────────────────── IP addresses ─────────────────────────────

/// Whether `s` parses as a `core::net::IpAddr`.
pub uninterp spec fn ip_addr_valid(s: Seq<char>) -> bool;

/// Whether `s` parses as an `ipnet::IpNet` (address `/` prefix length).
pub uninterp spec fn ip_net_valid(s: Seq<char>) -> bool;

/// Whether the network written `net` contains the address written `ip`.
pub uninterp spec fn ip_net_contains(net: Seq<char>, ip: Seq<char>) -> bool;

/// A parsed IP address and the text it was parsed from.
pub struct ParsedIp {
    addr: core::net::IpAddr,
    source: String,
}

impl ParsedIp {
    pub closed spec fn text(&self) -> Seq<char> {
        self.source@
    }
}

/// A parsed IP network and the text it was parsed from.
pub struct ParsedNet {
    net: ipnet::IpNet,
    source: String,
}

impl ParsedNet {
    pub closed spec fn text(&self) -> Seq<char> {
        self.source@
    }
}

/// `s.parse::<core::net::IpAddr>()`.
#[verifier::external_body]
pub(crate) fn parse_ip_addr(s: &str) -> (r: Option<ParsedIp>)
    ensures
        r is Some <==> ip_addr_valid(s@),
        r matches Some(p) ==> p.text() == s@,
{
    match s.parse::<core::net::IpAddr>() {
        Ok(addr) => Some(ParsedIp { addr, source: s.to_string() }),
        Err(_) => None,
    }
}

/// `s.parse::<ipnet::IpNet>()`.
#[verifier::external_body]
pub(crate) fn parse_ip_net(s: &str) -> (r: Option<ParsedNet>)
    ensures
        r is Some <==> ip_net_valid(s@),
        r matches Some(p) ==> p.text() == s@,
{
    match s.parse::<ipnet::IpNet>() {
        Ok(net) => Some(ParsedNet { net, source: s.to_string() }),
        Err(_) => None,
    }
}

/// `IpNet::contains(&IpAddr)`.
#[verifier::external_body]
pub(crate) fn ip_net_contains_addr(net: &ParsedNet, ip: &ParsedIp) -> (r: bool)
    ensures
        r == ip_net_contains(net.text(), ip.text()),
{
    net.net.contains(&ip.addr)
}

// ───────────────────────────── paths and characters ─────────────────────────────

/// `Path::parent` of the path written `p`, as text.
pub uninterp spec fn path_parent(p: Seq<char>) -> Option<Seq<char>>;

/// `Path::file_name` of the path written `p`, as text.
pub uninterp spec fn path_file_name(p: Seq<char>) -> Option<Seq<char>>;

/// `std::path::Path::new(p).parent()`, displayed.
#[verifier::external_body]
pub(crate) fn parent_of_path(p: &str) -> (r: Option<String>)
    ensures
        crate::text::opt_view(r) == path_parent(p@),
{
    std::path::Path::new(p).parent().map(|q| q.display().to_string())
}

/// `std::path::Path::new(p).file_name()`, as text (a name taken from a `&str`
/// is always valid Unicode).
#[verifier::external_body]
pub(crate) fn file_name_of_path(p: &str) -> (r: Option<String>)
    ensures
        crate::text::opt_view(r) == path_file_name(p@),
{
    std::path::Path::new(p).file_name().map(|n| n.to_string_lossy().to_string())
}

// ───────────────────────────── tsh JSON ─────────────────────────────

/// Whether `json` parses as a JSON array (`serde_json::from_str` into a
/// `Vec<serde_json::Value>`).
pub uninterp spec fn tsh_json_valid(json: Seq<char>) -> bool;

/// The nodes of a JSON array as `tsh_json_nodes` picks them.
pub uninterp spec fn tsh_json_nodes_of(json: Seq<char>) -> Seq<TshNodeModel>;

/// `serde_json::from_str::<Vec<serde_json::Value>>(json)`, each element
/// read as a node: `spec.hostname`, `metadata.name`, `spec.addr` when they
/// are strings, and the entries of the object `metadata.labels` with their
/// string values. The keys of a JSON object as serde_json holds it (a map)
/// are distinct.
#[verifier::external_body]
pub(crate) fn tsh_json_nodes(json: &str) -> (r: Option<Vec<TshNode>>)
    ensures
        r is Some <==> tsh_json_valid(json@),
        r matches Some(ns) ==> nodes_view(ns@) == tsh_json_nodes_of(json@),
        r matches Some(ns) ==> forall|i: int| 0 <= i < ns@.len() ==> keys_distinct(#[trigger] ns@[i]@.labels),
{
    let vs: Vec<serde_json::Value> = serde_json::from_str(json).ok()?;
    let s = |v: &serde_json::Value| v.as_str().map(String::from);
    Some(vs.iter().map(|n| TshNode {
        spec_hostname: s(&n["spec"]["hostname"]),
        metadata_name: s(&n["metadata"]["name"]),
        addr: s(&n["spec"]["addr"]),
        labels: n["metadata"]["labels"].as_object()
            .map(|m| m.iter().map(|(k, v)| (k.clone(), s(v))).collect()).unwrap_or_default(),
    }).collect())
}

/// `std::path::Path::new(p).exists()`. What is on disk can change between
/// two calls, so nothing is stated of the result.
#[verifier::external_body]
pub(crate) fn path_exists(p: &str) -> (r: bool) {
    std::path::Path::new(p).exists()
}

/// Unicode `Alphabetic` or `Numeric` (std `char::is_alphanumeric`).
pub uninterp spec fn unicode_alphanumeric(c: char) -> bool;

/// Whether `c` is an ASCII letter or digit.
pub open spec fn is_ascii_alnum(c: char) -> bool {
    ('a' <= c && c <= 'z') || ('A' <= c && c <= 'Z') || ('0' <= c && c <= '9')
}

/// `char::is_alphanumeric`; on ASCII it holds exactly for letters and digits.
#[verifier::external_body]
pub(crate) fn char_is_alphanumeric(c: char) -> (r: bool)
    ensures
        r == unicode_alphanumeric(c),
        (c as u32) < 128 ==> (r <==> is_ascii_alnum(c)),
{
    c.is_alphanumeric()
}

} // verus!
