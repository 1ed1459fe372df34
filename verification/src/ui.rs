//! What the picker's screen shows: truncated names, highlighted match
//! segments, column widths, the address and location columns, shortened
//! source paths and the status and search bar texts.

use vstd::prelude::*;
use crate::app::{Mode, SourceFilter};
use crate::config::{Config, first_label_from};
use crate::external::{home_dir, tilde_expansion, tilde_with_home};
use crate::inventory::{Host, connect_target_of};
use crate::text::{
    chars_before, chars_of, concat, decimal, decimal_usize, is_char_boundary, opt_view, skip_bytes,
    slice_of, string_from, string_of, utf8_len, utf8_len_of,
};

verus! {

// ───────────────────────────── truncation ─────────────────────────────

/// `s` cut to at most `max` characters; a cut string ends in `…`.
pub open spec fn truncated(s: Seq<char>, max: nat) -> Seq<char> {
    if max == 0 {
        seq![]
    } else if s.len() <= max {
        s
    } else if max > 1 {
        s.take(max - 1).push('…')
    } else {
        s.take(1)
    }
}

/// Truncate a string to `max_chars` Unicode scalar values,
/// appending `…` if truncation occurred.
pub fn truncate_str(s: &str, max_chars: usize) -> (r: String)
    ensures
        r@ == truncated(s@, max_chars as nat),
{
    if max_chars == 0 {
        return String::new();
    }
    let chars = chars_of(s);
    if chars.len() <= max_chars {
        string_from(s)
    } else if max_chars > 1 {
        let mut t = slice_of(&chars, 0, max_chars - 1);
        t.push('…');
        assert(t@ =~= s@.take(max_chars - 1).push('…'));
        string_of(&t)
    } else {
        let t = slice_of(&chars, 0, 1);
        assert(t@ =~= s@.take(1));
        string_of(&t)
    }
}

// ───────────────────────────── match highlighting ─────────────────────────────

/// A run of a host name drawn in one style: plain, or a matched character.
pub struct HighlightSegment {
    pub text: String,
    pub highlighted: bool,
}

pub open spec fn segments_view(v: Seq<HighlightSegment>) -> Seq<(Seq<char>, bool)> {
    v.map_values(|s: HighlightSegment| (s.text@, s.highlighted))
}

/// `segs` with the pending plain run `cur` appended when it is nonempty.
pub open spec fn flushed(segs: Seq<(Seq<char>, bool)>, cur: Seq<char>) -> Seq<(Seq<char>, bool)> {
    if cur.len() > 0 {
        segs.push((cur, false))
    } else {
        segs
    }
}

/// The segments of the first `n` characters of `t`, and the plain run not
/// yet closed: each position in `idx` is a one-character highlighted
/// segment, the characters between them plain runs.
pub open spec fn highlight_scan(t: Seq<char>, idx: Seq<usize>, n: nat) -> (Seq<(Seq<char>, bool)>, Seq<char>)
    decreases n,
{
    if n == 0 {
        (seq![], seq![])
    } else {
        let (segs, cur) = highlight_scan(t, idx, (n - 1) as nat);
        if idx.contains((n - 1) as usize) {
            (flushed(segs, cur).push((seq![t[n - 1]], true)), seq![])
        } else {
            (segs, cur.push(t[n - 1]))
        }
    }
}

/// The segments of `t` for the matched positions `idx`; with no positions,
/// the whole text as one plain segment.
pub open spec fn highlighted(t: Seq<char>, idx: Seq<usize>) -> Seq<(Seq<char>, bool)> {
    if idx.len() == 0 {
        seq![(t, false)]
    } else {
        let (segs, cur) = highlight_scan(t, idx, t.len());
        flushed(segs, cur)
    }
}

fn contains_index(v: &Vec<usize>, i: usize) -> (b: bool)
    ensures
        b == v@.contains(i),
{
    let mut j: usize = 0;
    while j < v.len()
        invariant
            j <= v.len(),
            forall|k: int| 0 <= k < j ==> v@[k] != i,
        decreases v.len() - j,
    {
        if v[j] == i {
            return true;
        }
        j += 1;
    }
    false
}

/// Split `text` into plain runs and highlighted characters, the positions of
/// the fuzzy match (as `SearchEngine::highlight_indices` gives them) being
/// highlighted.
pub fn highlight_segments(text: &str, indices: &Vec<usize>) -> (r: Vec<HighlightSegment>)
    ensures
        segments_view(r@) == highlighted(text@, indices@),
{
    let mut segs: Vec<HighlightSegment> = Vec::new();
    if indices.len() == 0 {
        segs.push(HighlightSegment { text: string_from(text), highlighted: false });
        assert(segments_view(segs@) =~= seq![(text@, false)]);
        return segs;
    }
    let t = chars_of(text);
    let mut cur: Vec<char> = Vec::new();
    let mut i: usize = 0;
    while i < t.len()
        invariant
            i <= t.len(),
            t@ == text@,
            (segments_view(segs@), cur@) == highlight_scan(t@, indices@, i as nat),
        decreases t.len() - i,
    {
        let c = t[i];
        let ghost before = segments_view(segs@);
        if contains_index(indices, i) {
            if cur.len() > 0 {
                segs.push(HighlightSegment { text: string_of(&cur), highlighted: false });
                assert(segments_view(segs@) =~= flushed(before, cur@));
                cur = Vec::new();
            } else {
                assert(segments_view(segs@) =~= flushed(before, cur@));
            }
            let ghost mid = segments_view(segs@);
            let mut one: Vec<char> = Vec::new();
            one.push(c);
            segs.push(HighlightSegment { text: string_of(&one), highlighted: true });
            assert(one@ =~= seq![t@[i as int]]);
            assert(segments_view(segs@) =~= mid.push((seq![t@[i as int]], true)));
            assert(cur@ =~= Seq::<char>::empty());
        } else {
            cur.push(c);
        }
        i += 1;
    }
    let ghost before = segments_view(segs@);
    if cur.len() > 0 {
        segs.push(HighlightSegment { text: string_of(&cur), highlighted: false });
    }
    assert(segments_view(segs@) =~= flushed(before, cur@));
    segs
}

/// The text of a run of segments, one after another.
pub open spec fn segments_text(segs: Seq<(Seq<char>, bool)>) -> Seq<char>
    decreases segs.len(),
{
    if segs.len() == 0 {
        seq![]
    } else {
        segments_text(segs.drop_last()) + segs.last().0
    }
}

proof fn lemma_segments_text_push(segs: Seq<(Seq<char>, bool)>, x: (Seq<char>, bool))
    ensures
        segments_text(segs.push(x)) == segments_text(segs) + x.0,
{
    assert(segs.push(x).drop_last() =~= segs);
}

proof fn lemma_scan_text(t: Seq<char>, idx: Seq<usize>, n: nat)
    requires
        n <= t.len(),
    ensures
        segments_text(flushed(highlight_scan(t, idx, n).0, highlight_scan(t, idx, n).1)) == t.take(n as int),
        segments_text(highlight_scan(t, idx, n).0) + highlight_scan(t, idx, n).1 == t.take(n as int),
    decreases n,
{
    let (segs, cur) = highlight_scan(t, idx, n);
    if n == 0 {
        assert(t.take(0) =~= Seq::<char>::empty());
        assert(segments_text(segs) + cur =~= t.take(0));
    } else {
        lemma_scan_text(t, idx, (n - 1) as nat);
        let (s0, c0) = highlight_scan(t, idx, (n - 1) as nat);
        assert(t.take(n as int) =~= t.take(n - 1).push(t[n - 1]));
        if idx.contains((n - 1) as usize) {
            if c0.len() > 0 {
                lemma_segments_text_push(s0, (c0, false));
            }
            lemma_segments_text_push(flushed(s0, c0), (seq![t[n - 1]], true));
            assert(segments_text(segs) =~= t.take(n as int));
            assert(segments_text(segs) + cur =~= t.take(n as int));
        } else {
            assert(segments_text(segs) + cur =~= t.take(n as int));
        }
    }
    if cur.len() > 0 {
        lemma_segments_text_push(segs, (cur, false));
    }
    assert(segments_text(flushed(segs, cur)) =~= t.take(n as int));
}

/// The segments spell out the whole text: highlighting only splits it.
pub proof fn lemma_highlight_covers_text(t: Seq<char>, idx: Seq<usize>)
    ensures
        segments_text(highlighted(t, idx)) == t,
{
    if idx.len() == 0 {
        lemma_segments_text_push(seq![], (t, false));
        assert(seq![(t, false)] =~= Seq::<(Seq<char>, bool)>::empty().push((t, false)));
        assert(segments_text(highlighted(t, idx)) =~= t);
    } else {
        lemma_scan_text(t, idx, t.len());
        assert(t.take(t.len() as int) =~= t);
    }
}

/// A truncated string has at most the allowed number of characters, and a
/// string that fits is left as it is.
pub proof fn lemma_truncated_fits(s: Seq<char>, max: nat)
    ensures
        truncated(s, max).len() <= max,
        s.len() <= max ==> truncated(s, max) == s,
{
}

// ───────────────────────────── host list columns ─────────────────────────────

pub open spec fn at_least(x: int, lo: int) -> int {
    if x < lo {
        lo
    } else {
        x
    }
}

/// The widths of the name and address columns of a host list `width`
/// columns wide: 44% and 22% of it, at least 8 each.
pub fn list_columns(width: u16) -> (r: (usize, usize))
    ensures
        r.0 == at_least(width * 44 / 100, 8),
        r.1 == at_least(width * 22 / 100, 8),
{
    let w = width as usize;
    let name = (w * 44) / 100;
    let addr = (w * 22) / 100;
    (if name < 8 { 8 } else { name }, if addr < 8 { 8 } else { addr })
}

/// The address column: the alias, else the IP, else a dash.
pub open spec fn address_of(h: Host) -> Seq<char> {
    match h.alias {
        Some(a) => a@,
        None => match h.ip {
            Some(ip) => ip@,
            None => "—"@,
        },
    }
}

pub fn address_text(h: &Host) -> (r: String)
    ensures
        r@ == address_of(*h),
{
    match &h.alias {
        Some(a) => a.clone(),
        None => match &h.ip {
            Some(ip) => ip.clone(),
            None => string_from("—"),
        },
    }
}

/// The location column: the label of the first IP label that matches the
/// host's IP, if any.
pub open spec fn location_of(h: Host, c: Config) -> Option<Seq<char>> {
    match h.ip {
        Some(ip) => match first_label_from(c.ip_labels@, ip@, 0) {
            Some(k) => Some(c.ip_labels@[k].label@),
            None => None,
        },
        None => None,
    }
}

pub fn location_text(h: &Host, c: &Config) -> (r: Option<String>)
    ensures
        opt_view(r) == location_of(*h, *c),
{
    match &h.ip {
        Some(ip) => match c.label_for_ip(ip.as_str()) {
            Some(l) => Some(l.label.clone()),
            None => None,
        },
        None => None,
    }
}

/// The command the details pane shows for connecting to the host.
pub fn connect_command(h: &Host) -> (r: String)
    ensures
        r@ == "ssh "@ + connect_target_of(h@),
{
    let t = h.connect_target();
    string_of(&concat(&chars_of("ssh "), &chars_of(t.as_str())))
}

// ───────────────────────────── shortened source paths ─────────────────────────────

/// What the details pane shows of a source path given `max` bytes: the path
/// if it fits, else its `~`-expanded form if that fits, else `...` and the
/// expanded form's last `max - 3` bytes. `None` where that cut would fall
/// inside a character, or `max` is under 3.
pub open spec fn shown_path(path: Seq<char>, max: int, expanded: Seq<char>) -> Option<Seq<char>> {
    if utf8_len(path) <= max {
        Some(path)
    } else if utf8_len(expanded) <= max {
        Some(expanded)
    } else if max < 3 {
        None
    } else {
        let start = utf8_len(expanded) - (max - 3);
        if is_char_boundary(expanded, start) {
            Some("..."@ + expanded.skip(chars_before(expanded, start)))
        } else {
            None
        }
    }
}

/// Shortens a source path to `max_len` bytes for the details pane, `~`
/// expanded with `home`.
pub fn shorten_display_path_with_home(path: &str, max_len: usize, home: &Option<String>) -> (r: Option<String>)
    ensures
        match r {
            Some(s) => shown_path(path@, max_len as int, tilde_expansion(path@, opt_view(*home))) == Some(s@),
            None => shown_path(path@, max_len as int, tilde_expansion(path@, opt_view(*home))) is None,
        },
{
    let pv = chars_of(path);
    if utf8_len_of(&pv) <= max_len as u128 {
        return Some(string_from(path));
    }
    let shortened = tilde_with_home(path, home);
    let sv = chars_of(shortened.as_str());
    let total = utf8_len_of(&sv);
    if total <= max_len as u128 {
        return Some(shortened);
    }
    if max_len < 3 {
        return None;
    }
    let start = total - (max_len - 3) as u128;
    match skip_bytes(&sv, start) {
        Some(rest) => Some(string_of(&concat(&chars_of("..."), &rest))),
        None => None,
    }
}

/// Shortens a source path to `max_len` bytes for the details pane, `~`
/// expanded with the current home directory.
pub fn shorten_display_path(path: &str, max_len: usize) -> (r: Option<String>)
    ensures
        exists|home: Option<Seq<char>>|
            #[trigger] shown_path(path@, max_len as int, tilde_expansion(path@, home)) == match r {
                Some(s) => Some(s@),
                None => None,
            },
{
    let home = home_dir();
    let r = shorten_display_path_with_home(path, max_len, &home);
    assert(shown_path(path@, max_len as int, tilde_expansion(path@, opt_view(home))) == match r {
        Some(s) => Some(s@),
        None => None::<Seq<char>>,
    });
    r
}

// ───────────────────────────── bars ─────────────────────────────

/// `shown/total`, the count in the search bar.
pub fn count_text(shown: usize, total: usize) -> (r: String)
    ensures
        r@ == decimal(shown as nat) + "/"@ + decimal(total as nat),
{
    string_of(&concat(&concat(&decimal_usize(shown), &chars_of("/")), &decimal_usize(total)))
}

/// Blank columns between the query and the count in a search bar `inner_w`
/// columns wide: what is left after the fixed text (16 columns), the query,
/// the cursor (one column while searching), the count and 4 columns.
pub open spec fn search_pad(inner_w: int, query_len: int, active: bool, count_len: int) -> int {
    let fixed = 16 + query_len + (if active { 1int } else { 0int }) + count_len + 4;
    if inner_w > fixed {
        inner_w - fixed
    } else {
        0
    }
}

pub fn search_padding(inner_w: u16, query: &str, active: bool, count: &str) -> (r: usize)
    requires
        query@.len() + count@.len() + 21 <= usize::MAX,
    ensures
        r == search_pad(inner_w as int, query@.len() as int, active, count@.len() as int),
{
    let q = chars_of(query);
    let c = chars_of(count);
    let fixed = 16 + q.len() + (if active { 1 } else { 0 }) + c.len() + 4;
    let w = inner_w as usize;
    if w > fixed {
        w - fixed
    } else {
        0
    }
}

/// The tag of the active source filter in the status bar.
pub open spec fn filter_tag(f: SourceFilter) -> Seq<char> {
    match f {
        SourceFilter::All => seq![],
        SourceFilter::Ssh => " [ssh]"@,
        SourceFilter::Teleport => " [teleport]"@,
    }
}

/// The left part of the status bar: the active source filter's tag, then
/// the status message, else how many hosts are selected, else nothing.
pub open spec fn status_left(status: Option<Seq<char>>, multi: nat, filter: SourceFilter) -> Seq<char> {
    filter_tag(filter) + match status {
        Some(s) => " "@ + s,
        None => if multi > 0 {
            " "@ + decimal(multi) + " selected"@
        } else {
            seq![]
        },
    }
}

pub fn status_text(status: &Option<String>, multi: usize, filter: SourceFilter) -> (r: String)
    ensures
        r@ == status_left(opt_view(*status), multi as nat, filter),
{
    let tag = match filter {
        SourceFilter::All => String::new(),
        SourceFilter::Ssh => string_from(" [ssh]"),
        SourceFilter::Teleport => string_from(" [teleport]"),
    };
    let rest = match status {
        Some(s) => concat(&chars_of(" "), &chars_of(s.as_str())),
        None => if multi > 0 {
            concat(&concat(&chars_of(" "), &decimal_usize(multi)), &chars_of(" selected"))
        } else {
            Vec::new()
        },
    };
    let r = string_of(&concat(&chars_of(tag.as_str()), &rest));
    assert(r@ =~= status_left(opt_view(*status), multi as nat, filter));
    r
}

/// The key hints of the status bar in each mode.
pub open spec fn hints_of(m: Mode) -> Seq<char> {
    match m {
        Mode::Search => " ↑↓ move  ·  Enter connect  ·  Esc clear  ·  Tab list "@,
        Mode::Navigate => " ↑↓/jk move  ·  Enter connect  ·  e edit  ·  / search  ·  ? help  ·  q quit "@,
        Mode::EditHost => " Tab next  ·  Enter save  ·  Esc cancel "@,
        Mode::Help => " ? / Esc  close "@,
    }
}

pub fn mode_hints(m: Mode) -> (r: String)
    ensures
        r@ == hints_of(m),
{
    match m {
        Mode::Search => string_from(" ↑↓ move  ·  Enter connect  ·  Esc clear  ·  Tab list "),
        Mode::Navigate => string_from(" ↑↓/jk move  ·  Enter connect  ·  e edit  ·  / search  ·  ? help  ·  q quit "),
        Mode::EditHost => string_from(" Tab next  ·  Enter save  ·  Esc cancel "),
        Mode::Help => string_from(" ? / Esc  close "),
    }
}

} // verus!
