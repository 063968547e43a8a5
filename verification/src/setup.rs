//! First-time setup: which report files name characters, and the list of
//! characters found in them.

use vstd::prelude::*;
use crate::text::{chars_of, ends_with, eq_str, starts_with, starts_with_str, ends_with_str};
use crate::player_events::{clone_ostr, ostr};
use crate::order::{
    lemma_lt_asymmetric, lemma_lt_irreflexive, lemma_lt_total, lemma_lt_transitive, seq_less,
    seq_lt,
};

verus! {

/// What a candidate game data folder holds.
#[derive(Debug, Clone, Copy, PartialEq, Eq, Structural)]
pub struct GameDataPathValidation {
    pub path_exists: bool,
    pub player_log_found: bool,
    pub chat_logs_found: bool,
    pub reports_found: bool,
}

/// A character found in the Reports folder.
#[derive(Debug, Clone)]
pub struct DiscoveredCharacter {
    pub character_name: String,
    pub server_name: String,
    /// Character sheets found for it.
    pub report_count: usize,
    /// The latest sheet timestamp, if any sheet had one.
    pub latest_report_time: Option<String>,
}

/// A character of the user.
#[derive(Debug, Clone)]
pub struct UserCharacter {
    pub id: i64,
    pub character_name: String,
    pub server_name: String,
    pub source: String,
    pub is_active: bool,
    pub latest_report_time: Option<String>,
    pub last_login_time: Option<String>,
}

/// The header fields of a report file.
#[derive(Debug, Clone)]
pub struct ReportHeader {
    pub character: String,
    pub server_name: String,
    pub timestamp: Option<String>,
    pub report: Option<String>,
}

pub type HeaderV = (Seq<char>, Seq<char>, Option<Seq<char>>, Option<Seq<char>>);

impl ReportHeader {
    pub open spec fn hv(self) -> HeaderV {
        (self.character@, self.server_name@, ostr(self.timestamp), ostr(self.report))
    }
}

pub open spec fn headers_view(v: Seq<ReportHeader>) -> Seq<HeaderV> {
    v.map_values(|h: ReportHeader| h.hv())
}

pub type FoundV = (Seq<char>, Seq<char>, nat, Option<Seq<char>>);

impl DiscoveredCharacter {
    pub open spec fn fv(self) -> FoundV {
        (self.character_name@, self.server_name@, self.report_count as nat, ostr(self.latest_report_time))
    }
}

pub open spec fn found_view(v: Seq<DiscoveredCharacter>) -> Seq<FoundV> {
    v.map_values(|d: DiscoveredCharacter| d.fv())
}

/// `Character_*.json` files are character reports.
pub open spec fn report_file(name: Seq<char>) -> bool {
    starts_with(name, "Character_"@) && ends_with(name, ".json"@)
}

pub fn is_character_report_file(file_name: &str) -> (r: bool)
    ensures
        r == report_file(file_name@),
{
    let c = chars_of(file_name);
    starts_with_str(c.as_slice(), "Character_") && ends_with_str(c.as_slice(), ".json")
}

/// Only character sheets count.
pub open spec fn is_sheet(h: HeaderV) -> bool {
    h.3 == Some("CharacterSheet"@)
}

pub open spec fn same_key(h: HeaderV, name: Seq<char>, server: Seq<char>) -> bool {
    h.0 == name && h.1 == server
}

/// Character sheets of a character on a server.
pub open spec fn sheet_count(hs: Seq<HeaderV>, name: Seq<char>, server: Seq<char>) -> nat
    decreases hs.len(),
{
    if hs.len() == 0 {
        0
    } else {
        sheet_count(hs.drop_last(), name, server) + if is_sheet(hs.last()) && same_key(
            hs.last(),
            name,
            server,
        ) {
            1nat
        } else {
            0nat
        }
    }
}

/// The later of two optional timestamps; the first wins ties.
pub open spec fn later(a: Option<Seq<char>>, b: Option<Seq<char>>) -> Option<Seq<char>> {
    match (a, b) {
        (Some(x), Some(y)) => if seq_lt(x, y) {
            Some(y)
        } else {
            Some(x)
        },
        (None, y) => y,
        (x, None) => x,
    }
}

/// The latest sheet timestamp of a character on a server.
pub open spec fn sheet_latest(hs: Seq<HeaderV>, name: Seq<char>, server: Seq<char>) -> Option<
    Seq<char>,
>
    decreases hs.len(),
{
    if hs.len() == 0 {
        None
    } else {
        let prev = sheet_latest(hs.drop_last(), name, server);
        if is_sheet(hs.last()) && same_key(hs.last(), name, server) {
            later(prev, hs.last().2)
        } else {
            prev
        }
    }
}

/// `a` comes after `b` in the `Option` order (`None` first).
pub open spec fn opt_gt(a: Option<Seq<char>>, b: Option<Seq<char>>) -> bool {
    match (a, b) {
        (Some(x), Some(y)) => seq_lt(y, x),
        (Some(_), None) => true,
        _ => false,
    }
}

/// Latest report first, then by character name.
pub open spec fn listed_before(x: FoundV, y: FoundV) -> bool {
    opt_gt(x.3, y.3) || (x.3 == y.3 && seq_lt(x.0, y.0))
}

/// The characters of a set of report headers: one entry per character and
/// server with at least one character sheet, with the number of sheets and
/// the latest sheet timestamp, latest first, then by name.
pub open spec fn tallied(hs: Seq<HeaderV>, out: Seq<FoundV>) -> bool {
    &&& forall|i: int|
        0 <= i < out.len() ==> (#[trigger] out[i]).2 == sheet_count(hs, out[i].0, out[i].1)
            && out[i].3 == sheet_latest(hs, out[i].0, out[i].1) && out[i].2 >= 1
    &&& forall|k: int|
        0 <= k < hs.len() && is_sheet(#[trigger] hs[k]) ==> exists|i: int|
            0 <= i < out.len() && out[i].0 == hs[k].0 && out[i].1 == hs[k].1
    &&& forall|i: int, j: int|
        0 <= i < j < out.len() ==> !(out[i].0 == out[j].0 && out[i].1 == out[j].1)
    &&& forall|i: int, j: int| 0 <= i < j < out.len() ==> !listed_before(out[j], out[i])
}

proof fn lemma_listed_strict(x: FoundV, y: FoundV, z: FoundV)
    ensures
        !listed_before(x, x),
        listed_before(x, y) ==> !listed_before(y, x),
        listed_before(x, y) && listed_before(y, z) ==> listed_before(x, z),
{
    lemma_lt_irreflexive(x.0);
    if let Some(a) = x.3 {
        lemma_lt_irreflexive(a);
    }
    lemma_lt_asymmetric(x.0, y.0);
    lemma_lt_transitive(x.0, y.0, z.0);
    match (x.3, y.3, z.3) {
        (Some(a), Some(b), Some(c)) => {
            lemma_lt_asymmetric(a, b);
            lemma_lt_transitive(c, b, a);
        },
        (Some(a), Some(b), None) => {
            lemma_lt_asymmetric(a, b);
        },
        _ => {},
    }
}

fn copy_found(d: &DiscoveredCharacter) -> (r: DiscoveredCharacter)
    ensures
        r.fv() == d.fv(),
{
    DiscoveredCharacter {
        character_name: d.character_name.clone(),
        server_name: d.server_name.clone(),
        report_count: d.report_count,
        latest_report_time: clone_ostr(&d.latest_report_time),
    }
}

fn eq_string(a: &String, b: &String) -> (r: bool)
    ensures
        r == (a@ == b@),
{
    let x = chars_of(a.as_str());
    let y = chars_of(b.as_str());
    crate::text::eq_chars(x.as_slice(), y.as_slice())
}

fn opt_later(a: &Option<String>, b: &Option<String>) -> (r: Option<String>)
    ensures
        ostr(r) == later(ostr(*a), ostr(*b)),
{
    match (a, b) {
        (Some(x), Some(y)) => {
            let xs = chars_of(x.as_str());
            let ys = chars_of(y.as_str());
            if seq_less(xs.as_slice(), ys.as_slice()) {
                Some(y.clone())
            } else {
                Some(x.clone())
            }
        },
        (None, y) => clone_ostr(y),
        (x, None) => clone_ostr(x),
    }
}

/// The groups of the first `i` headers, in first-seen order.
fn accumulate(headers: &Vec<ReportHeader>) -> (r: Vec<DiscoveredCharacter>)
    ensures
        ({
            let hs = headers_view(headers@);
            let out = found_view(r@);
            &&& forall|i: int|
                0 <= i < out.len() ==> (#[trigger] out[i]).2 == sheet_count(hs, out[i].0, out[i].1)
                    && out[i].3 == sheet_latest(hs, out[i].0, out[i].1) && out[i].2 >= 1
            &&& forall|k: int|
                0 <= k < hs.len() && is_sheet(#[trigger] hs[k]) ==> exists|i: int|
                    0 <= i < out.len() && out[i].0 == hs[k].0 && out[i].1 == hs[k].1
            &&& forall|i: int, j: int|
                0 <= i < j < out.len() ==> !(out[i].0 == out[j].0 && out[i].1 == out[j].1)
        }),
{
    let ghost hs = headers_view(headers@);
    let mut groups: Vec<DiscoveredCharacter> = Vec::new();
    let sheet = chars_of("CharacterSheet");
    let mut n: usize = 0;
    while n < headers.len()
        invariant
            n <= headers@.len(),
            hs == headers_view(headers@),
            sheet@ == "CharacterSheet"@,
            ({
                let pre = hs.take(n as int);
                let out = found_view(groups@);
                &&& forall|i: int|
                    0 <= i < out.len() ==> (#[trigger] out[i]).2 == sheet_count(pre, out[i].0, out[i].1)
                        && out[i].3 == sheet_latest(pre, out[i].0, out[i].1) && out[i].2 >= 1
                        && out[i].2 <= n
                &&& forall|k: int|
                    0 <= k < pre.len() && is_sheet(#[trigger] pre[k]) ==> exists|i: int|
                        0 <= i < out.len() && out[i].0 == pre[k].0 && out[i].1 == pre[k].1
                &&& forall|i: int, j: int|
                    0 <= i < j < out.len() ==> !(out[i].0 == out[j].0 && out[i].1 == out[j].1)
            }),
        decreases headers.len() - n,
    {
        let h = &headers[n];
        let ghost pre = hs.take(n as int);
        let ghost post = hs.take(n + 1);
        assert(post.drop_last() =~= pre);
        assert(post.last() == h.hv());
        assert(hs[n as int] == h.hv());
        let is_sheet_hdr = match &h.report {
            Some(r) => {
                let rc = chars_of(r.as_str());
                crate::text::eq_chars(rc.as_slice(), sheet.as_slice())
            },
            None => false,
        };
        assert(is_sheet_hdr == is_sheet(h.hv()));
        if is_sheet_hdr {
            let mut i: usize = 0;
            while i < groups.len()
                invariant
                    i <= groups@.len(),
                    forall|j: int|
                        0 <= j < i ==> !((#[trigger] groups@[j]).character_name@ == h.character@
                            && groups@[j].server_name@ == h.server_name@),
                ensures
                    i <= groups@.len(),
                    forall|j: int|
                        0 <= j < i ==> !((#[trigger] groups@[j]).character_name@ == h.character@
                            && groups@[j].server_name@ == h.server_name@),
                    i < groups@.len() ==> (groups@[i as int].character_name@ == h.character@
                        && groups@[i as int].server_name@ == h.server_name@),
                decreases groups.len() - i,
            {
                if eq_string(&groups[i].character_name, &h.character) && eq_string(
                    &groups[i].server_name,
                    &h.server_name,
                ) {
                    break;
                }
                i += 1;
            }
            let ghost old_out = found_view(groups@);
            if i < groups.len() {
                let g = &groups[i];
                assert(old_out[i as int] == g.fv());
                assert(g.report_count <= n);
                let updated = DiscoveredCharacter {
                    character_name: g.character_name.clone(),
                    server_name: g.server_name.clone(),
                    report_count: g.report_count + 1,
                    latest_report_time: opt_later(&g.latest_report_time, &h.timestamp),
                };
                groups.set(i, updated);
                proof {
                    let out = found_view(groups@);
                    assert forall|k: int| 0 <= k < out.len() implies (#[trigger] out[k]).2
                        == sheet_count(post, out[k].0, out[k].1) && out[k].3 == sheet_latest(
                        post,
                        out[k].0,
                        out[k].1,
                    ) && out[k].2 >= 1 && out[k].2 <= n + 1 by {
                        if k != i {
                            assert(out[k] == old_out[k]);
                            assert(!same_key(post.last(), out[k].0, out[k].1));
                        } else {
                            assert(same_key(post.last(), out[k].0, out[k].1));
                        }
                        assert(sheet_count(post, out[k].0, out[k].1) == sheet_count(pre, out[k].0, out[k].1)
                            + if is_sheet(post.last()) && same_key(post.last(), out[k].0, out[k].1) { 1nat } else { 0nat });
                    }
                    assert forall|k: int|
                        0 <= k < post.len() && is_sheet(#[trigger] post[k]) implies exists|j: int|
                        0 <= j < out.len() && out[j].0 == post[k].0 && out[j].1 == post[k].1 by {
                        if k < n {
                            assert(post[k] == pre[k]);
                            let j = choose|j: int|
                                0 <= j < old_out.len() && old_out[j].0 == pre[k].0 && old_out[j].1
                                    == pre[k].1;
                            assert(out[j].0 == old_out[j].0 && out[j].1 == old_out[j].1);
                        } else {
                            assert(out[i as int].0 == post[k].0 && out[i as int].1 == post[k].1);
                        }
                    }
                    assert forall|a: int, b: int| 0 <= a < b < out.len() implies !(out[a].0
                        == out[b].0 && out[a].1 == out[b].1) by {
                        assert(out[a].0 == old_out[a].0 && out[a].1 == old_out[a].1);
                        assert(out[b].0 == old_out[b].0 && out[b].1 == old_out[b].1);
                    }
                }
            } else {
                groups.push(
                    DiscoveredCharacter {
                        character_name: h.character.clone(),
                        server_name: h.server_name.clone(),
                        report_count: 1,
                        latest_report_time: clone_ostr(&h.timestamp),
                    },
                );
                proof {
                    let out = found_view(groups@);
                    assert forall|k: int| 0 <= k < old_out.len() implies !(old_out[k].0
                        == h.character@ && old_out[k].1 == h.server_name@) by {
                        assert(old_out[k] == groups@[k].fv());
                    }
                    assert(sheet_count(pre, h.character@, h.server_name@) == 0) by {
                        lemma_count_zero(pre, h.character@, h.server_name@);
                    }
                    assert(sheet_latest(pre, h.character@, h.server_name@) is None) by {
                        lemma_count_zero(pre, h.character@, h.server_name@);
                    }
                    assert forall|k: int| 0 <= k < out.len() implies (#[trigger] out[k]).2
                        == sheet_count(post, out[k].0, out[k].1) && out[k].3 == sheet_latest(
                        post,
                        out[k].0,
                        out[k].1,
                    ) && out[k].2 >= 1 && out[k].2 <= n + 1 by {
                        if k < old_out.len() {
                            assert(out[k] == old_out[k]);
                        }
                    }
                    assert forall|k: int|
                        0 <= k < post.len() && is_sheet(#[trigger] post[k]) implies exists|j: int|
                        0 <= j < out.len() && out[j].0 == post[k].0 && out[j].1 == post[k].1 by {
                        if k < n {
                            assert(post[k] == pre[k]);
                            let j = choose|j: int|
                                0 <= j < old_out.len() && old_out[j].0 == pre[k].0 && old_out[j].1
                                    == pre[k].1;
                            assert(out[j] == old_out[j]);
                        } else {
                            assert(out[old_out.len() as int].0 == post[k].0);
                        }
                    }
                    assert forall|a: int, b: int| 0 <= a < b < out.len() implies !(out[a].0
                        == out[b].0 && out[a].1 == out[b].1) by {
                        if b < old_out.len() {
                            assert(out[a] == old_out[a] && out[b] == old_out[b]);
                        } else {
                            assert(out[a] == old_out[a]);
                        }
                    }
                }
            }
        } else {
            proof {
                let out = found_view(groups@);
                assert forall|k: int|
                    0 <= k < post.len() && is_sheet(#[trigger] post[k]) implies exists|j: int|
                    0 <= j < out.len() && out[j].0 == post[k].0 && out[j].1 == post[k].1 by {
                    if k < n {
                        assert(post[k] == pre[k]);
                    }
                }
            }
        }
        n += 1;
    }
    assert(hs.take(headers@.len() as int) =~= hs);
    groups
}

proof fn lemma_count_zero(hs: Seq<HeaderV>, name: Seq<char>, server: Seq<char>)
    requires
        forall|k: int| 0 <= k < hs.len() && is_sheet(#[trigger] hs[k]) ==> !same_key(hs[k], name, server),
    ensures
        sheet_count(hs, name, server) == 0,
        sheet_latest(hs, name, server) is None,
    decreases hs.len(),
{
    if hs.len() > 0 {
        assert forall|k: int| 0 <= k < hs.drop_last().len() && is_sheet(
            #[trigger] hs.drop_last()[k],
        ) implies !same_key(hs.drop_last()[k], name, server) by {
            assert(hs.drop_last()[k] == hs[k]);
        }
        lemma_count_zero(hs.drop_last(), name, server);
        assert(is_sheet(hs[hs.len() - 1]) ==> !same_key(hs[hs.len() - 1], name, server));
    }
}

#[verifier::opaque]
spec fn distinct_keys(v: Seq<FoundV>) -> bool {
    forall|i: int, j: int| 0 <= i < j < v.len() ==> !(v[i].0 == v[j].0 && v[i].1 == v[j].1)
}

#[verifier::opaque]
spec fn in_listing_order(v: Seq<FoundV>) -> bool {
    forall|i: int, j: int| 0 <= i < j < v.len() ==> !listed_before(v[j], v[i])
}

/// `v` holds exactly the first `k` groups of `gs`.
#[verifier::opaque]
spec fn holds_prefix(v: Seq<FoundV>, gs: Seq<FoundV>, k: int) -> bool {
    &&& forall|i: int| 0 <= i < v.len() ==> exists|j: int| 0 <= j < k && #[trigger] v[i] == gs[j]
    &&& forall|j: int| 0 <= j < k ==> exists|i: int| 0 <= i < v.len() && v[i] == #[trigger] gs[j]
}

proof fn lemma_insert_order(old_v: Seq<FoundV>, gv: FoundV, p: int)
    requires
        0 <= p <= old_v.len(),
        in_listing_order(old_v),
        forall|i: int| 0 <= i < p ==> !listed_before(gv, #[trigger] old_v[i]),
        p < old_v.len() ==> listed_before(gv, old_v[p]),
    ensures
        in_listing_order(old_v.insert(p, gv)),
{
    reveal(in_listing_order);
    let v = old_v.insert(p, gv);
    assert forall|i: int, j: int| 0 <= i < j < v.len() implies !listed_before(v[j], v[i]) by {
        if i == p {
            let w = old_v[j - 1];
            assert(v[j] == w);
            if listed_before(w, gv) {
                lemma_listed_strict(w, gv, old_v[p]);
                lemma_listed_strict(gv, old_v[p], gv);
            }
        } else if j == p {
            assert(v[i] == old_v[i]);
        } else if j < p {
            assert(v[i] == old_v[i] && v[j] == old_v[j]);
        } else if i < p {
            assert(v[i] == old_v[i] && v[j] == old_v[j - 1]);
        } else {
            assert(v[i] == old_v[i - 1] && v[j] == old_v[j - 1]);
        }
    }
}

proof fn lemma_insert_prefix(old_v: Seq<FoundV>, gs: Seq<FoundV>, k: int, p: int)
    requires
        0 <= k < gs.len(),
        0 <= p <= old_v.len(),
        holds_prefix(old_v, gs, k),
    ensures
        holds_prefix(old_v.insert(p, gs[k]), gs, k + 1),
{
    reveal(holds_prefix);
    let v = old_v.insert(p, gs[k]);
    assert forall|i: int| 0 <= i < v.len() implies exists|j: int|
        0 <= j < k + 1 && #[trigger] v[i] == gs[j] by {
        if i < p {
            assert(v[i] == old_v[i]);
        } else if i > p {
            assert(v[i] == old_v[i - 1]);
        } else {
            assert(v[i] == gs[k]);
        }
    }
    assert forall|j: int| 0 <= j < k + 1 implies exists|i: int|
        0 <= i < v.len() && v[i] == #[trigger] gs[j] by {
        if j < k {
            let i0 = choose|i: int| 0 <= i < old_v.len() && old_v[i] == gs[j];
            if i0 < p {
                assert(v[i0] == old_v[i0]);
            } else {
                assert(v[i0 + 1] == old_v[i0]);
            }
        } else {
            assert(v[p] == gs[j]);
        }
    }
}

proof fn lemma_insert_distinct(old_v: Seq<FoundV>, gs: Seq<FoundV>, k: int, p: int)
    requires
        0 <= k < gs.len(),
        0 <= p <= old_v.len(),
        distinct_keys(gs),
        distinct_keys(old_v),
        holds_prefix(old_v, gs, k),
    ensures
        distinct_keys(old_v.insert(p, gs[k])),
{
    reveal(distinct_keys);
    reveal(holds_prefix);
    let v = old_v.insert(p, gs[k]);
    assert forall|i: int, j: int| 0 <= i < j < v.len() implies !(v[i].0 == v[j].0 && v[i].1
        == v[j].1) by {
        if i == p || j == p {
            let other = if i == p {
                j
            } else {
                i
            };
            let oi = if other < p {
                other
            } else {
                other - 1
            };
            assert(v[other] == old_v[oi]);
            let jj = choose|jj: int| 0 <= jj < k && old_v[oi] == gs[jj];
            assert(!(gs[jj].0 == gs[k].0 && gs[jj].1 == gs[k].1));
        } else {
            let a = if i < p {
                i
            } else {
                i - 1
            };
            let b = if j < p {
                j
            } else {
                j - 1
            };
            assert(v[i] == old_v[a] && v[j] == old_v[b]);
        }
    }
}

/// Characters found in the headers of the character report files, latest
/// report first, then by name.
pub fn tally_characters(headers: &Vec<ReportHeader>) -> (r: Vec<DiscoveredCharacter>)
    ensures
        tallied(headers_view(headers@), found_view(r@)),
{
    let groups = accumulate(headers);
    let ghost gs = found_view(groups@);
    let mut out: Vec<DiscoveredCharacter> = Vec::new();
    proof {
        reveal(distinct_keys);
        reveal(in_listing_order);
        reveal(holds_prefix);
    }
    let mut k: usize = 0;
    while k < groups.len()
        invariant
            k <= groups@.len(),
            gs == found_view(groups@),
            distinct_keys(gs),
            distinct_keys(found_view(out@)),
            in_listing_order(found_view(out@)),
            holds_prefix(found_view(out@), gs, k as int),
        decreases groups.len() - k,
    {
        let g = &groups[k];
        assert(gs[k as int] == g.fv());
        let mut p: usize = 0;
        while p < out.len()
            invariant
                p <= out@.len(),
                forall|i: int|
                    0 <= i < p ==> !listed_before(g.fv(), #[trigger] found_view(out@)[i]),
            ensures
                p <= out@.len(),
                forall|i: int|
                    0 <= i < p ==> !listed_before(g.fv(), #[trigger] found_view(out@)[i]),
                p < out@.len() ==> listed_before(g.fv(), found_view(out@)[p as int]),
            decreases out.len() - p,
        {
            if before(g, &out[p]) {
                break;
            }
            p += 1;
        }
        let ghost old_v = found_view(out@);
        let c = copy_found(g);
        out.insert(p, c);
        proof {
            assert(found_view(out@) =~= old_v.insert(p as int, gs[k as int]));
            lemma_insert_order(old_v, gs[k as int], p as int);
            lemma_insert_prefix(old_v, gs, k as int, p as int);
            lemma_insert_distinct(old_v, gs, k as int, p as int);
        }
        k += 1;
    }
    proof {
        reveal(distinct_keys);
        reveal(in_listing_order);
        reveal(holds_prefix);
        let v = found_view(out@);
        let hs = headers_view(headers@);
        assert forall|i: int| 0 <= i < v.len() implies (#[trigger] v[i]).2 == sheet_count(
            hs,
            v[i].0,
            v[i].1,
        ) && v[i].3 == sheet_latest(hs, v[i].0, v[i].1) && v[i].2 >= 1 by {
            let j = choose|j: int| 0 <= j < gs.len() && v[i] == gs[j];
        }
        assert forall|kk: int| 0 <= kk < hs.len() && is_sheet(#[trigger] hs[kk]) implies exists|
            i: int,
        | 0 <= i < v.len() && v[i].0 == hs[kk].0 && v[i].1 == hs[kk].1 by {
            let j = choose|j: int| 0 <= j < gs.len() && gs[j].0 == hs[kk].0 && gs[j].1 == hs[kk].1;
            let i = choose|i: int| 0 <= i < v.len() && v[i] == gs[j];
        }
    }
    out
}

fn before(x: &DiscoveredCharacter, y: &DiscoveredCharacter) -> (r: bool)
    ensures
        r == listed_before(x.fv(), y.fv()),
{
    let gt = match (&x.latest_report_time, &y.latest_report_time) {
        (Some(a), Some(b)) => {
            let ac = chars_of(a.as_str());
            let bc = chars_of(b.as_str());
            seq_less(bc.as_slice(), ac.as_slice())
        },
        (Some(_), None) => true,
        _ => false,
    };
    if gt {
        return true;
    }
    let same = match (&x.latest_report_time, &y.latest_report_time) {
        (Some(a), Some(b)) => eq_string(a, b),
        (None, None) => true,
        _ => false,
    };
    if !same {
        return false;
    }
    let xn = chars_of(x.character_name.as_str());
    let yn = chars_of(y.character_name.as_str());
    seq_less(xn.as_slice(), yn.as_slice())
}

// ============================================================
// Choosing the report to import
// ============================================================

/// A header is a report of kind `kind` by `character`, on `server` where one
/// is given, with a timestamp.
pub open spec fn eligible(h: HeaderV, kind: Seq<char>, character: Option<Seq<char>>, server: Option<Seq<char>>) -> bool {
    &&& h.3 == Some(kind)
    &&& (character matches Some(c) ==> h.0 == c)
    &&& (server matches Some(sv) ==> h.1 == sv)
    &&& h.2 is Some
}

/// `i` is the latest eligible header: no eligible header has a later
/// timestamp, and every earlier eligible header has an earlier one (the
/// first of equal timestamps wins).
pub open spec fn latest_at(hs: Seq<HeaderV>, i: int, kind: Seq<char>, character: Option<Seq<char>>, server: Option<Seq<char>>) -> bool {
    &&& 0 <= i < hs.len()
    &&& eligible(hs[i], kind, character, server)
    &&& forall|j: int|
        0 <= j < hs.len() && eligible(#[trigger] hs[j], kind, character, server) ==> !seq_lt(
            hs[i].2->0,
            hs[j].2->0,
        ) && (j < i ==> seq_lt(hs[j].2->0, hs[i].2->0))
}

fn header_eligible(h: &ReportHeader, kind: &str, character: Option<&str>, server: Option<&str>) -> (r: bool)
    ensures
        r == eligible(
            h.hv(),
            kind@,
            match character {
                Some(c) => Some(c@),
                None => None,
            },
            match server {
                Some(sv) => Some(sv@),
                None => None,
            },
        ),
{
    let is_kind = match &h.report {
        Some(rep) => {
            let a = chars_of(rep.as_str());
            let b = chars_of(kind);
            crate::text::eq_chars(a.as_slice(), b.as_slice())
        },
        None => false,
    };
    let name_ok = match character {
        Some(c) => {
            let a = chars_of(h.character.as_str());
            let b = chars_of(c);
            crate::text::eq_chars(a.as_slice(), b.as_slice())
        },
        None => true,
    };
    let server_ok = match server {
        Some(sv) => {
            let a = chars_of(h.server_name.as_str());
            let b = chars_of(sv);
            crate::text::eq_chars(a.as_slice(), b.as_slice())
        },
        None => true,
    };
    is_kind && name_ok && server_ok && h.timestamp.is_some()
}

/// The header of the latest report of kind `kind` by `character` (on
/// `server` where one is given), among those with a timestamp; the first of
/// equal timestamps wins.
pub fn latest_report_index(
    headers: &Vec<ReportHeader>,
    kind: &str,
    character: Option<&str>,
    server: Option<&str>,
) -> (r: Option<usize>)
    ensures
        ({
            let hs = headers_view(headers@);
            let cv = match character {
                Some(c) => Some(c@),
                None => None,
            };
            let sv = match server {
                Some(x) => Some(x@),
                None => None,
            };
            match r {
                Some(i) => latest_at(hs, i as int, kind@, cv, sv),
                None => forall|j: int| 0 <= j < hs.len() ==> !eligible(#[trigger] hs[j], kind@, cv, sv),
            }
        }),
{
    let ghost hs = headers_view(headers@);
    let ghost cv = match character {
        Some(c) => Some(c@),
        None => None,
    };
    let ghost sv = match server {
        Some(x) => Some(x@),
        None => None,
    };
    let mut best: Option<usize> = None;
    let mut n: usize = 0;
    while n < headers.len()
        invariant
            n <= headers@.len(),
            hs == headers_view(headers@),
            cv == match character {
                Some(c) => Some(c@),
                None => None,
            },
            sv == match server {
                Some(x) => Some(x@),
                None => None,
            },
            match best {
                Some(i) => latest_at(hs.take(n as int), i as int, kind@, cv, sv),
                None => forall|j: int| 0 <= j < n ==> !eligible(#[trigger] hs[j], kind@, cv, sv),
            },
        decreases headers.len() - n,
    {
        let h = &headers[n];
        assert(hs[n as int] == h.hv());
        let ghost pre = hs.take(n as int);
        let ghost post = hs.take(n + 1);
        if header_eligible(h, kind, character, server) {
            let take = match best {
                None => true,
                Some(b) => {
                    let ts_new = chars_of(h.timestamp.as_ref().unwrap().as_str());
                    let ts_old = chars_of(headers[b].timestamp.as_ref().unwrap().as_str());
                    proof {
                        assert(pre[b as int] == hs[b as int]);
                        assert(hs[b as int] == headers@[b as int].hv());
                    }
                    seq_less(ts_old.as_slice(), ts_new.as_slice())
                },
            };
            proof {
                match best {
                    None => {
                        assert forall|j: int|
                            0 <= j < post.len() && eligible(#[trigger] post[j], kind@, cv, sv) implies !seq_lt(
                            post[n as int].2->0,
                            post[j].2->0,
                        ) && (j < n ==> seq_lt(post[j].2->0, post[n as int].2->0)) by {
                            if j < n {
                                assert(post[j] == hs[j]);
                            } else {
                                lemma_lt_irreflexive(post[j].2->0);
                            }
                        }
                    },
                    Some(b) => {
                        let tb = hs[b as int].2->0;
                        let tn = hs[n as int].2->0;
                        assert(pre[b as int] == hs[b as int]);
                        lemma_lt_irreflexive(tn);
                        lemma_lt_asymmetric(tb, tn);
                        lemma_lt_total(tb, tn);
                        if take {
                            assert forall|j: int|
                                0 <= j < post.len() && eligible(#[trigger] post[j], kind@, cv, sv) implies !seq_lt(
                                tn,
                                post[j].2->0,
                            ) && (j < n ==> seq_lt(post[j].2->0, tn)) by {
                                if j < n {
                                    assert(post[j] == pre[j]);
                                    let tj = post[j].2->0;
                                    lemma_lt_transitive(tn, tj, tb);
                                    lemma_lt_total(tj, tb);
                                    lemma_lt_transitive(tj, tb, tn);
                                    lemma_lt_asymmetric(tj, tn);
                                }
                            }
                        } else {
                            assert forall|j: int|
                                0 <= j < post.len() && eligible(#[trigger] post[j], kind@, cv, sv) implies !seq_lt(
                                tb,
                                post[j].2->0,
                            ) && (j < b ==> seq_lt(post[j].2->0, tb)) by {
                                if j < n {
                                    assert(post[j] == pre[j]);
                                }
                            }
                            assert(post[b as int] == hs[b as int]);
                        }
                    },
                }
            }
            if take {
                best = Some(n);
            }
        } else {
            proof {
                match best {
                    Some(b) => {
                        assert(post[b as int] == pre[b as int]);
                        assert forall|j: int|
                            0 <= j < post.len() && eligible(#[trigger] post[j], kind@, cv, sv) implies !seq_lt(
                            post[b as int].2->0,
                            post[j].2->0,
                        ) && (j < b ==> seq_lt(post[j].2->0, post[b as int].2->0)) by {
                            if j < n {
                                assert(post[j] == pre[j]);
                            }
                        }
                    },
                    None => {},
                }
            }
        }
        n += 1;
    }
    proof {
        assert(hs.take(headers@.len() as int) =~= hs);
    }
    best
}

/// Whether one of the headers at `names` is by `name`.
fn named_in(headers: &Vec<ReportHeader>, names: &Vec<usize>, name: &String) -> (r: bool)
    requires
        forall|q: int| 0 <= q < names@.len() ==> (#[trigger] names@[q]) < headers@.len(),
    ensures
        r == exists|q: int| 0 <= q < names@.len() && headers_view(headers@)[names@[q] as int].0 == name@,
{
    let ghost hs = headers_view(headers@);
    let mut k: usize = 0;
    while k < names.len()
        invariant
            k <= names@.len(),
            hs == headers_view(headers@),
            forall|q: int| 0 <= q < names@.len() ==> (#[trigger] names@[q]) < headers@.len(),
            forall|q: int| 0 <= q < k ==> hs[(#[trigger] names@[q]) as int].0 != name@,
        decreases names.len() - k,
    {
        let other = &headers[names[k]];
        assert(hs[names@[k as int] as int] == other.hv());
        if eq_string(&other.character, name) {
            return true;
        }
        k += 1;
    }
    false
}

/// The first eligible header of each character, in order of appearance.
fn first_by_character(headers: &Vec<ReportHeader>, kind: &str, server: &str) -> (r: Vec<usize>)
    ensures
        ({
            let hs = headers_view(headers@);
            &&& forall|q: int| 0 <= q < r@.len() ==> (#[trigger] r@[q]) < headers@.len() && eligible(
                hs[r@[q] as int],
                kind@,
                None,
                Some(server@),
            )
            &&& forall|a: int, b: int| 0 <= a < b < r@.len() ==> hs[r@[a] as int].0 != hs[r@[b] as int].0
            &&& forall|j: int|
                0 <= j < hs.len() && eligible(#[trigger] hs[j], kind@, None, Some(server@)) ==> exists|k: int|
                    0 <= k < r@.len() && hs[r@[k] as int].0 == hs[j].0
        }),
{
    let ghost hs = headers_view(headers@);
    let mut names: Vec<usize> = Vec::new();
    let mut n: usize = 0;
    while n < headers.len()
        invariant
            n <= headers@.len(),
            hs == headers_view(headers@),
            forall|k: int| 0 <= k < names@.len() ==> (#[trigger] names@[k]) < n && eligible(
                hs[names@[k] as int],
                kind@,
                None,
                Some(server@),
            ),
            forall|a: int, b: int|
                0 <= a < b < names@.len() ==> hs[names@[a] as int].0 != hs[names@[b] as int].0,
            forall|j: int|
                0 <= j < n && eligible(#[trigger] hs[j], kind@, None, Some(server@)) ==> exists|k: int|
                    0 <= k < names@.len() && hs[names@[k] as int].0 == hs[j].0,
        decreases headers.len() - n,
    {
        let h = &headers[n];
        assert(hs[n as int] == h.hv());
        let ghost before = names@;
        if header_eligible(h, kind, None, Some(server)) && !named_in(headers, &names, &h.character) {
            names.push(n);
            proof {
                assert forall|a: int, b: int|
                    0 <= a < b < names@.len() implies hs[names@[a] as int].0 != hs[names@[b] as int].0 by {
                    if b < before.len() {
                        assert(names@[a] == before[a] && names@[b] == before[b]);
                    } else {
                        assert(names@[a] == before[a]);
                    }
                }
                assert forall|j: int|
                    0 <= j < n + 1 && eligible(#[trigger] hs[j], kind@, None, Some(server@)) implies exists|k: int|
                    0 <= k < names@.len() && hs[names@[k] as int].0 == hs[j].0 by {
                    if j < n {
                        let k = choose|k: int| 0 <= k < before.len() && hs[before[k] as int].0 == hs[j].0;
                        assert(names@[k] == before[k]);
                    } else {
                        assert(names@[before.len() as int] == n);
                    }
                }
            }
        }
        n += 1;
    }
    names
}

/// For each character with an eligible report of kind `kind` on `server`,
/// the header of its latest one, in order of first appearance.
pub fn latest_reports_by_character(headers: &Vec<ReportHeader>, kind: &str, server: &str) -> (r: Vec<usize>)
    ensures
        ({
            let hs = headers_view(headers@);
            &&& forall|k: int|
                0 <= k < r@.len() ==> latest_at(
                    hs,
                    #[trigger] r@[k] as int,
                    kind@,
                    Some(hs[r@[k] as int].0),
                    Some(server@),
                )
            &&& forall|a: int, b: int|
                0 <= a < b < r@.len() ==> hs[r@[a] as int].0 != hs[r@[b] as int].0
            &&& forall|j: int|
                0 <= j < hs.len() && eligible(#[trigger] hs[j], kind@, None, Some(server@)) ==> exists|k: int|
                    0 <= k < r@.len() && hs[r@[k] as int].0 == hs[j].0
        }),
{
    let ghost hs = headers_view(headers@);
    let names = first_by_character(headers, kind, server);
    let mut out: Vec<usize> = Vec::new();
    let mut k: usize = 0;
    while k < names.len()
        invariant
            k <= names@.len(),
            hs == headers_view(headers@),
            out@.len() == k,
            forall|q: int| 0 <= q < names@.len() ==> (#[trigger] names@[q]) < headers@.len() && eligible(
                hs[names@[q] as int],
                kind@,
                None,
                Some(server@),
            ),
            forall|q: int| 0 <= q < k ==> hs[(#[trigger] out@[q]) as int].0 == hs[names@[q] as int].0
                && latest_at(hs, out@[q] as int, kind@, Some(hs[out@[q] as int].0), Some(server@)),
        decreases names.len() - k,
    {
        let first = names[k];
        let h = &headers[first];
        assert(hs[first as int] == h.hv());
        assert(eligible(hs[first as int], kind@, None, Some(server@)));
        let best = latest_report_index(headers, kind, Some(h.character.as_str()), Some(server));
        match best {
            Some(b) => {
                out.push(b);
            },
            None => {
                proof {
                    assert(eligible(hs[first as int], kind@, Some(h.character@), Some(server@)));
                }
                out.push(first);
            },
        }
        k += 1;
    }
    proof {
        assert forall|a: int, b: int| 0 <= a < b < out@.len() implies hs[out@[a] as int].0 != hs[out@[b] as int].0 by {
            assert(hs[out@[a] as int].0 == hs[names@[a] as int].0);
            assert(hs[out@[b] as int].0 == hs[names@[b] as int].0);
        }
        assert forall|j: int|
            0 <= j < hs.len() && eligible(#[trigger] hs[j], kind@, None, Some(server@)) implies exists|k: int|
            0 <= k < out@.len() && hs[out@[k] as int].0 == hs[j].0 by {
            let k = choose|k: int| 0 <= k < names@.len() && hs[names@[k] as int].0 == hs[j].0;
            assert(hs[out@[k] as int].0 == hs[names@[k] as int].0);
        }
    }
    out
}

// ============================================================
// Laws
// ============================================================

/// The number of character sheets among the headers.
pub open spec fn sheets_total(hs: Seq<HeaderV>) -> int
    decreases hs.len(),
{
    if hs.len() == 0 {
        0
    } else {
        sheets_total(hs.drop_last()) + if is_sheet(hs.last()) {
            1int
        } else {
            0
        }
    }
}

/// The sum of the report counts of a character list.
pub open spec fn counts_sum(out: Seq<FoundV>) -> int
    decreases out.len(),
{
    if out.len() == 0 {
        0
    } else {
        counts_sum(out.drop_last()) + out.last().2
    }
}

spec fn key_sheet_sum(hs: Seq<HeaderV>, out: Seq<FoundV>) -> int
    decreases out.len(),
{
    if out.len() == 0 {
        0
    } else {
        key_sheet_sum(hs, out.drop_last()) + sheet_count(hs, out.last().0, out.last().1)
    }
}

spec fn key_hits(out: Seq<FoundV>, h: HeaderV) -> int
    decreases out.len(),
{
    if out.len() == 0 {
        0
    } else {
        key_hits(out.drop_last(), h) + if same_key(h, out.last().0, out.last().1) {
            1int
        } else {
            0
        }
    }
}

proof fn lemma_key_sheet_sum_push(hs: Seq<HeaderV>, h: HeaderV, out: Seq<FoundV>)
    ensures
        key_sheet_sum(hs.push(h), out) == key_sheet_sum(hs, out) + if is_sheet(h) {
            key_hits(out, h)
        } else {
            0
        },
    decreases out.len(),
{
    assert(hs.push(h).drop_last() =~= hs);
    if out.len() > 0 {
        lemma_key_sheet_sum_push(hs, h, out.drop_last());
    }
}

proof fn lemma_key_sheet_sum_empty(out: Seq<FoundV>)
    ensures
        key_sheet_sum(Seq::<HeaderV>::empty(), out) == 0,
    decreases out.len(),
{
    if out.len() > 0 {
        lemma_key_sheet_sum_empty(out.drop_last());
    }
}

proof fn lemma_key_hits_distinct(out: Seq<FoundV>, h: HeaderV)
    requires
        forall|i: int, j: int| 0 <= i < j < out.len() ==> !(out[i].0 == out[j].0 && out[i].1 == out[j].1),
    ensures
        key_hits(out, h) == if exists|i: int| 0 <= i < out.len() && same_key(h, out[i].0, out[i].1) {
            1int
        } else {
            0
        },
    decreases out.len(),
{
    if out.len() > 0 {
        let d = out.drop_last();
        assert forall|i: int, j: int| 0 <= i < j < d.len() implies !(d[i].0 == d[j].0 && d[i].1
            == d[j].1) by {
            assert(d[i] == out[i] && d[j] == out[j]);
        }
        lemma_key_hits_distinct(d, h);
        if exists|i: int| 0 <= i < d.len() && same_key(h, d[i].0, d[i].1) {
            let i = choose|i: int| 0 <= i < d.len() && same_key(h, d[i].0, d[i].1);
            assert(out[i] == d[i]);
            assert(!same_key(h, out.last().0, out.last().1));
        }
        if exists|i: int| 0 <= i < out.len() && same_key(h, out[i].0, out[i].1) {
            let i = choose|i: int| 0 <= i < out.len() && same_key(h, out[i].0, out[i].1);
            if i < d.len() {
                assert(d[i] == out[i]);
            }
        }
    }
}

proof fn lemma_key_sheet_sum_total(hs: Seq<HeaderV>, out: Seq<FoundV>)
    requires
        forall|i: int, j: int| 0 <= i < j < out.len() ==> !(out[i].0 == out[j].0 && out[i].1 == out[j].1),
        forall|k: int|
            0 <= k < hs.len() && is_sheet(#[trigger] hs[k]) ==> exists|i: int|
                0 <= i < out.len() && out[i].0 == hs[k].0 && out[i].1 == hs[k].1,
    ensures
        key_sheet_sum(hs, out) == sheets_total(hs),
    decreases hs.len(),
{
    if hs.len() == 0 {
        assert(hs =~= Seq::<HeaderV>::empty());
        lemma_key_sheet_sum_empty(out);
    } else {
        let pre = hs.drop_last();
        let h = hs.last();
        assert(hs =~= pre.push(h));
        assert forall|k: int| 0 <= k < pre.len() && is_sheet(#[trigger] pre[k]) implies exists|i: int|
            0 <= i < out.len() && out[i].0 == pre[k].0 && out[i].1 == pre[k].1 by {
            assert(pre[k] == hs[k]);
            assert(is_sheet(hs[k]));
        }
        lemma_key_sheet_sum_total(pre, out);
        lemma_key_sheet_sum_push(pre, h, out);
        lemma_key_hits_distinct(out, h);
        if is_sheet(h) {
            assert(hs[hs.len() - 1] == h);
            assert(is_sheet(hs[hs.len() - 1]));
            let i = choose|i: int|
                0 <= i < out.len() && out[i].0 == hs[hs.len() - 1].0 && out[i].1 == hs[hs.len() - 1].1;
            assert(same_key(h, out[i].0, out[i].1));
        }
    }
}

proof fn lemma_counts_are_key_sums(hs: Seq<HeaderV>, out: Seq<FoundV>)
    requires
        forall|i: int| 0 <= i < out.len() ==> (#[trigger] out[i]).2 == sheet_count(hs, out[i].0, out[i].1),
    ensures
        counts_sum(out) == key_sheet_sum(hs, out),
    decreases out.len(),
{
    if out.len() > 0 {
        let d = out.drop_last();
        assert forall|i: int| 0 <= i < d.len() implies (#[trigger] d[i]).2 == sheet_count(hs, d[i].0, d[i].1) by {
            assert(d[i] == out[i]);
        }
        lemma_counts_are_key_sums(hs, d);
        assert(out.last() == out[out.len() - 1]);
    }
}

/// Every character sheet is counted once: the report counts of the
/// discovered characters add up to the number of character sheets.
pub proof fn law_sheets_counted_once(hs: Seq<HeaderV>, out: Seq<FoundV>)
    requires
        tallied(hs, out),
    ensures
        counts_sum(out) == sheets_total(hs),
{
    lemma_counts_are_key_sums(hs, out);
    lemma_key_sheet_sum_total(hs, out);
}

} // verus!
