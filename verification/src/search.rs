//! Fuzzy search over hosts and the orders in which the host list is shown.

use vstd::prelude::*;
use fuzzy_matcher::skim::SkimMatcherV2;
use crate::external::{new_skim_matcher, skim_fuzzy_indices, skim_fuzzy_match, skim_positions, skim_score};
use crate::inventory::{Host, HostModel, hosts_view, join, search_parts};
use crate::text::{chars_of, contains_seq, seq_le, seq_le_vec, lemma_seq_le_total, lemma_seq_le_trans};

verus! {

/// Fuzzy matcher over hosts (skim's V2 algorithm with its default settings).
pub struct SearchEngine {
    matcher: SkimMatcherV2,
}

/// The text a host is fuzzy-matched against.
pub open spec fn search_text(h: HostModel) -> Seq<char> {
    join(search_parts(h), seq![' '])
}

proof fn lemma_contains_in_longer(a: Seq<char>, b: Seq<char>, p: Seq<char>)
    requires
        contains_seq(a, p),
    ensures
        contains_seq(a + b, p),
{
    let i = choose|i: int| 0 <= i <= a.len() - p.len() && #[trigger] a.subrange(i, i + p.len()) == p;
    assert((a + b).subrange(i, i + p.len()) =~= a.subrange(i, i + p.len()));
}

proof fn lemma_contains_at_end(a: Seq<char>, p: Seq<char>)
    ensures
        contains_seq(a + p, p),
{
    let i = a.len() as int;
    assert((a + p).subrange(i, i + p.len()) =~= p);
}

/// Each part is found in the joined text.
proof fn lemma_join_contains(parts: Seq<Seq<char>>, sep: Seq<char>, k: int)
    requires
        0 <= k < parts.len(),
    ensures
        contains_seq(join(parts, sep), parts[k]),
    decreases parts.len(),
{
    if parts.len() == 1 {
        let p = parts[k];
        assert(p.subrange(0, 0 + p.len() as int) =~= p);
        assert(join(parts, sep) == p);
    } else {
        let front = join(parts.drop_last(), sep);
        assert(join(parts, sep) == front + sep + parts.last());
        if k == parts.len() - 1 {
            lemma_contains_at_end(front + sep, parts.last());
        } else {
            lemma_join_contains(parts.drop_last(), sep, k);
            assert(parts.drop_last()[k] == parts[k]);
            lemma_contains_in_longer(front, sep + parts.last(), parts[k]);
            assert(front + sep + parts.last() =~= front + (sep + parts.last()));
        }
    }
}

/// The text a host is searched by holds its hostname, its IP, each of its
/// groups and each tag written `key:value`.
pub proof fn lemma_search_text_covers(h: HostModel)
    ensures
        contains_seq(search_text(h), h.hostname),
        h.ip matches Some(ip) ==> contains_seq(search_text(h), ip),
        forall|g: int| 0 <= g < h.groups.len() ==> contains_seq(search_text(h), #[trigger] h.groups[g]),
        forall|t: int| 0 <= t < h.tags.len() ==> contains_seq(search_text(h), #[trigger] h.tags[t].0 + seq![':'] + h.tags[t].1),
{
    let parts = search_parts(h);
    let a = seq![h.hostname];
    let b = match h.ip {
        Some(ip) => a.push(ip),
        None => a,
    };
    let c = match h.label {
        Some(l) => b.push(l),
        None => b,
    };
    let tags = h.tags.map_values(|t: (Seq<char>, Seq<char>)| t.0 + seq![':'] + t.1);
    assert(parts == c + h.groups + tags);
    assert(parts[0] == h.hostname);
    lemma_join_contains(parts, seq![' '], 0);
    if let Some(ip) = h.ip {
        assert(parts[1] == ip);
        lemma_join_contains(parts, seq![' '], 1);
    }
    assert forall|g: int| 0 <= g < h.groups.len() implies contains_seq(search_text(h), #[trigger] h.groups[g]) by {
        assert(parts[c.len() + g] == h.groups[g]);
        lemma_join_contains(parts, seq![' '], c.len() + g);
    }
    assert forall|t: int| 0 <= t < h.tags.len() implies contains_seq(search_text(h), #[trigger] h.tags[t].0 + seq![':'] + h.tags[t].1) by {
        assert(parts[c.len() + h.groups.len() + t] == tags[t]);
        lemma_join_contains(parts, seq![' '], c.len() + h.groups.len() + t);
    }
}

/// The hosts among the first `n` that match `query`, as (index, score), in
/// index order.
pub open spec fn scored(hs: Seq<HostModel>, query: Seq<char>, n: int) -> Seq<(usize, i64)>
    decreases n,
{
    if n <= 0 {
        seq![]
    } else {
        let prev = scored(hs, query, n - 1);
        match skim_score(search_text(hs[n - 1]), query) {
            Some(s) => prev.push(((n - 1) as usize, s)),
            None => prev,
        }
    }
}

/// `a` comes before `b` in search results: higher score first, equal
/// scores in host order.
pub open spec fn ranked_before(a: (usize, i64), b: (usize, i64)) -> bool {
    a.1 > b.1 || (a.1 == b.1 && a.0 < b.0)
}

pub open spec fn strictly_ranked(r: Seq<(usize, i64)>) -> bool {
    forall|a: int, b: int| 0 <= a < b < r.len() ==> ranked_before(#[trigger] r[a], #[trigger] r[b])
}

/// `r` holds exactly the elements of `s`, each once, best first.
pub open spec fn is_ranking_of(r: Seq<(usize, i64)>, s: Seq<(usize, i64)>) -> bool {
    &&& r.len() == s.len()
    &&& forall|x: (usize, i64)| r.contains(x) <==> s.contains(x)
    &&& strictly_ranked(r)
}

/// The result of a search: every matching host once, by descending score,
/// equal scores in host order (a stable sort of the matches by score).
pub open spec fn search_result(hs: Seq<HostModel>, query: Seq<char>, r: Seq<(usize, i64)>) -> bool {
    is_ranking_of(r, scored(hs, query, hs.len() as int))
}

fn insert_ranked(r: &mut Vec<(usize, i64)>, x: (usize, i64))
    requires
        strictly_ranked(old(r)@),
        forall|k: int| 0 <= k < old(r)@.len() ==> (#[trigger] old(r)@[k]).0 < x.0,
    ensures
        strictly_ranked(final(r)@),
        final(r)@.len() == old(r)@.len() + 1,
        forall|y: (usize, i64)| final(r)@.contains(y) <==> (old(r)@.contains(y) || y == x),
{
    let ghost r0 = r@;
    let mut p: usize = 0;
    while p < r.len() && r[p].1 >= x.1
        invariant
            p <= r.len(),
            r@ == r0,
            forall|k: int| 0 <= k < p ==> (#[trigger] r@[k]).1 >= x.1,
        decreases r.len() - p,
    {
        p += 1;
    }
    proof {
        r0.insert_ensures(p as int, x);
    }
    r.insert(p, x);
    let ghost r1 = r@;
    assert(r1 == r0.insert(p as int, x));
    assert forall|a: int, b: int| 0 <= a < b < r1.len() implies ranked_before(
        #[trigger] r1[a],
        #[trigger] r1[b],
    ) by {
        if b < p {
            assert(r1[a] == r0[a] && r1[b] == r0[b]);
        } else if b == p {
            assert(r1[a] == r0[a]);
            assert(r0[a].0 < x.0);
        } else if a < p {
            assert(r1[a] == r0[a] && r1[b] == r0[b - 1]);
            if a < b - 1 {
                assert(ranked_before(r0[a], r0[b - 1]));
            }
        } else if a == p {
            assert(r1[b] == r0[b - 1]);
            assert(r0[p as int].1 < x.1);
            if b - 1 > p {
                assert(ranked_before(r0[p as int], r0[b - 1]));
            }
        } else {
            assert(r1[a] == r0[a - 1] && r1[b] == r0[b - 1]);
        }
    }
    assert forall|y: (usize, i64)| r1.contains(y) <==> (r0.contains(y) || y == x) by {
        if r1.contains(y) {
            let j = choose|j: int| 0 <= j < r1.len() && r1[j] == y;
            if j < p {
                assert(r0[j] == y);
            } else if j > p {
                assert(r0[j - 1] == y);
            }
        }
        if r0.contains(y) {
            let j = choose|j: int| 0 <= j < r0.len() && r0[j] == y;
            if j < p {
                assert(r1[j] == y);
            } else {
                assert(r1[j + 1] == y);
            }
        }
        if y == x {
            assert(r1[p as int] == x);
        }
    }
}

impl SearchEngine {
    pub fn new() -> (e: SearchEngine) {
        SearchEngine { matcher: new_skim_matcher() }
    }

    /// The hosts matching `query`, as (index into `hosts`, score), best first,
    /// equal scores in host order.
    pub fn search(&self, query: &str, hosts: &Vec<Host>) -> (r: Vec<(usize, i64)>)
        ensures
            search_result(hosts_view(hosts@), query@, r@),
            forall|k: int| 0 <= k < r@.len() ==> (#[trigger] r@[k]).0 < hosts@.len(),
    {
        let ghost hs = hosts_view(hosts@);
        let mut r: Vec<(usize, i64)> = Vec::new();
        let mut i: usize = 0;
        while i < hosts.len()
            invariant
                i <= hosts.len(),
                hs == hosts_view(hosts@),
                is_ranking_of(r@, scored(hs, query@, i as int)),
                forall|k: int| 0 <= k < r@.len() ==> (#[trigger] r@[k]).0 < i,
            decreases hosts.len() - i,
        {
            let text = hosts[i].search_string();
            assert(text@ == search_text(hs[i as int]));
            match skim_fuzzy_match(&self.matcher, text.as_str(), query) {
                Some(score) => {
                    let ghost before = r@;
                    insert_ranked(&mut r, (i, score));
                    assert(scored(hs, query@, i + 1) == scored(hs, query@, i as int).push((i, score)));
                    assert forall|y: (usize, i64)| r@.contains(y) <==> scored(hs, query@, i + 1).contains(y) by {
                        let s0 = scored(hs, query@, i as int);
                        if s0.push((i, score)).contains(y) {
                            let j = choose|j: int| 0 <= j < s0.len() + 1 && s0.push((i, score))[j] == y;
                            if j < s0.len() {
                                assert(s0[j] == y);
                            }
                        }
                        if s0.contains(y) {
                            let j = choose|j: int| 0 <= j < s0.len() && s0[j] == y;
                            assert(s0.push((i, score))[j] == y);
                        }
                        if y == (i, score) {
                            assert(s0.push((i, score))[s0.len() as int] == y);
                        }
                    }
                    assert forall|k: int| 0 <= k < r@.len() implies (#[trigger] r@[k]).0 < i + 1 by {
                        assert(r@.contains(r@[k]));
                        if before.contains(r@[k]) {
                            let j = choose|j: int| 0 <= j < before.len() && before[j] == r@[k];
                            assert(before[j].0 < i);
                        }
                    }
                },
                None => {},
            }
            i += 1;
        }
        r
    }

    /// The positions in `text` that the query matches, for highlighting;
    /// none when it does not match.
    pub fn highlight_indices(&self, text: &str, query: &str) -> (r: Vec<usize>)
        ensures
            match skim_positions(text@, query@) {
                Some(p) => r@ == p,
                None => r@.len() == 0,
            },
    {
        match skim_fuzzy_indices(&self.matcher, text, query) {
            Some(v) => v,
            None => Vec::new(),
        }
    }
}

// ───────────────────────────── order by hostname ─────────────────────────────

/// `a` comes before `b` when listing all hosts: hostname order, equal
/// hostnames in host order.
pub open spec fn name_before(hs: Seq<HostModel>, a: usize, b: usize) -> bool {
    seq_le(hs[a as int].hostname, hs[b as int].hostname) && (seq_le(
        hs[b as int].hostname,
        hs[a as int].hostname,
    ) ==> a < b)
}

/// `r` holds the entry `(i, 0)`.
pub open spec fn lists_index(r: Seq<(usize, i64)>, i: int) -> bool {
    r.contains((i as usize, 0i64))
}

/// `r` lists every host index once with score 0, by hostname (a stable sort
/// of the hosts by hostname).
pub open spec fn name_ordered(hs: Seq<HostModel>, r: Seq<(usize, i64)>) -> bool {
    &&& r.len() == hs.len()
    &&& forall|k: int| 0 <= k < r.len() ==> (#[trigger] r[k]).0 < hs.len() && r[k].1 == 0
    &&& forall|i: int| 0 <= i < hs.len() ==> #[trigger] lists_index(r, i)
    &&& forall|a: int, b: int| 0 <= a < b < r.len() ==> name_before(hs, #[trigger] r[a].0, #[trigger] r[b].0)
}

fn insert_by_name(r: &mut Vec<(usize, i64)>, hosts: &Vec<Host>, x: usize, Ghost(hs): Ghost<Seq<HostModel>>)
    requires
        hs == hosts_view(hosts@),
        x < hosts@.len(),
        forall|k: int| 0 <= k < old(r)@.len() ==> (#[trigger] old(r)@[k]).0 < x && old(r)@[k].1 == 0,
        forall|a: int, b: int|
            0 <= a < b < old(r)@.len() ==> name_before(hs, #[trigger] old(r)@[a].0, #[trigger] old(r)@[b].0),
    ensures
        final(r)@.len() == old(r)@.len() + 1,
        forall|k: int| 0 <= k < final(r)@.len() ==> (#[trigger] final(r)@[k]).0 <= x && final(r)@[k].1 == 0,
        forall|y: (usize, i64)| final(r)@.contains(y) <==> (old(r)@.contains(y) || y == (x, 0i64)),
        forall|a: int, b: int|
            0 <= a < b < final(r)@.len() ==> name_before(hs, #[trigger] final(r)@[a].0, #[trigger] final(r)@[b].0),
{
    let ghost r0 = r@;
    let key = chars_of(hosts[x].hostname.as_str());
    let mut p: usize = 0;
    while p < r.len() && seq_le_vec(&chars_of(hosts[r[p].0].hostname.as_str()), &key)
        invariant
            p <= r.len(),
            r@ == r0,
            hs == hosts_view(hosts@),
            key@ == hs[x as int].hostname,
            x < hosts@.len(),
            forall|k: int| 0 <= k < r0.len() ==> (#[trigger] r0[k]).0 < x,
            forall|k: int| 0 <= k < p ==> seq_le(hs[(#[trigger] r0[k]).0 as int].hostname, hs[x as int].hostname),
        decreases r.len() - p,
    {
        assert(hs[r0[p as int].0 as int].hostname == hosts@[r0[p as int].0 as int].hostname@);
        p += 1;
    }
    if p < r.len() {
        assert(hs[r0[p as int].0 as int].hostname == hosts@[r0[p as int].0 as int].hostname@);
    }
    proof {
        r0.insert_ensures(p as int, (x, 0i64));
    }
    r.insert(p, (x, 0i64));
    let ghost r1 = r@;
    let ghost kx = hs[x as int].hostname;
    assert forall|a: int, b: int| 0 <= a < b < r1.len() implies name_before(hs, #[trigger] r1[a].0, #[trigger] r1[b].0) by {
        if b < p {
            assert(r1[a] == r0[a] && r1[b] == r0[b]);
        } else if b == p {
            assert(r1[a] == r0[a]);
            assert(seq_le(hs[r0[a].0 as int].hostname, kx));
            assert(r0[a].0 < x);
        } else if a < p {
            assert(r1[a] == r0[a] && r1[b] == r0[b - 1]);
            if a < b - 1 {
                assert(name_before(hs, r0[a].0, r0[b - 1].0));
            }
        } else if a == p {
            assert(r1[b] == r0[b - 1]);
            let kp = hs[r0[p as int].0 as int].hostname;
            let kb = hs[r0[b - 1].0 as int].hostname;
            assert(!seq_le(kp, kx));
            lemma_seq_le_total(kp, kx);
            if b - 1 > p {
                assert(name_before(hs, r0[p as int].0, r0[b - 1].0));
                assert(seq_le(kp, kb));
            }
            if seq_le(kb, kx) {
                lemma_seq_le_trans(kp, kb, kx);
            }
            lemma_seq_le_total(kb, kx);
            if b - 1 > p {
                lemma_seq_le_trans(kx, kp, kb);
            }
        } else {
            assert(r1[a] == r0[a - 1] && r1[b] == r0[b - 1]);
        }
    }
    assert forall|y: (usize, i64)| r1.contains(y) <==> (r0.contains(y) || y == (x, 0i64)) by {
        if r1.contains(y) {
            let j = choose|j: int| 0 <= j < r1.len() && r1[j] == y;
            if j < p {
                assert(r0[j] == y);
            } else if j > p {
                assert(r0[j - 1] == y);
            }
        }
        if r0.contains(y) {
            let j = choose|j: int| 0 <= j < r0.len() && r0[j] == y;
            if j < p {
                assert(r1[j] == y);
            } else {
                assert(r1[j + 1] == y);
            }
        }
        if y == (x, 0i64) {
            assert(r1[p as int] == y);
        }
    }
    assert forall|k: int| 0 <= k < r1.len() implies (#[trigger] r1[k]).0 <= x && r1[k].1 == 0 by {
        if k < p {
            assert(r1[k] == r0[k]);
        } else if k > p {
            assert(r1[k] == r0[k - 1]);
        }
    }
}

/// All hosts, as (index, 0), in hostname order (equal names in host order).
pub fn all_by_name(hosts: &Vec<Host>) -> (r: Vec<(usize, i64)>)
    ensures
        name_ordered(hosts_view(hosts@), r@),
{
    let ghost hs = hosts_view(hosts@);
    let mut r: Vec<(usize, i64)> = Vec::new();
    let mut i: usize = 0;
    while i < hosts.len()
        invariant
            i <= hosts.len(),
            hs == hosts_view(hosts@),
            r@.len() == i,
            forall|k: int| 0 <= k < r@.len() ==> (#[trigger] r@[k]).0 < i && r@[k].1 == 0,
            forall|j: int| 0 <= j < i ==> #[trigger] lists_index(r@, j),
            forall|a: int, b: int| 0 <= a < b < r@.len() ==> name_before(hs, #[trigger] r@[a].0, #[trigger] r@[b].0),
        decreases hosts.len() - i,
    {
        let ghost before = r@;
        insert_by_name(&mut r, hosts, i, Ghost(hs));
        assert forall|j: int| 0 <= j < i + 1 implies #[trigger] lists_index(r@, j) by {
            if j < i {
                assert(lists_index(before, j));
            }
        }
        i += 1;
    }
    r
}

} // verus!
