//! Parse structured stats from PlayerAge and Behavior Report (HelpScreen)
//! books. Both reports use simple HTML-like markup; this module extracts
//! key-value stats from them.

use vstd::prelude::*;
use crate::text::{
    CharClass, chars_of, contains, contains_str, copy_range, ends_with_str, eq_str, find,
    find_from, find_seq, lemma_find_from_facts, lines, lines_of, occurs_at, replace, replace_chars,
    starts_with, starts_with_str, string_of,
    strip_prefix, strip_prefix_str, strip_suffix, strip_suffix_str, trim, trim_by, trim_class,
    trim_end_by, trim_end_class, trim_ws,
};

verus! {

/// A single parsed stat.
pub struct ParsedStat {
    pub category: String,
    pub name: String,
    pub value: String,
}

/// A stat as three character sequences: category, name, value.
pub type StatView = (Seq<char>, Seq<char>, Seq<char>);

impl ParsedStat {
    pub open spec fn view3(self) -> StatView {
        (self.category@, self.name@, self.value@)
    }
}

pub open spec fn stats_view(v: Seq<ParsedStat>) -> Seq<StatView> {
    v.map_values(|p: ParsedStat| p.view3())
}

fn stat(category: &str, name: &str, value: &[char]) -> (r: ParsedStat)
    ensures
        r.view3() == (category@, name@, value@),
{
    ParsedStat { category: category.to_owned(), name: name.to_owned(), value: string_of(value) }
}

// ============================================================
// Lowercasing (std)
// ============================================================

/// What `str::to_lowercase` gives for a string with these characters.
pub uninterp spec fn lowercase(s: Seq<char>) -> Seq<char>;

pub open spec fn is_ascii_seq(s: Seq<char>) -> bool {
    forall|i: int| 0 <= i < s.len() ==> (s[i] as u32) < 128
}

pub open spec fn ascii_lower_char(c: char) -> char {
    if 'A' <= c <= 'Z' {
        ((c as u32) + 32) as char
    } else {
        c
    }
}

pub open spec fn ascii_lower(s: Seq<char>) -> Seq<char> {
    s.map_values(|c: char| ascii_lower_char(c))
}

/// std: `str::to_lowercase`. The result is named `lowercase`; for ASCII
/// input it is the ASCII lowercase mapping ('A'..='Z' to 'a'..='z'), which is
/// what the Unicode lowercase mapping does on that range.
#[verifier::external_body]
pub(crate) fn to_lowercase(s: &[char]) -> (r: Vec<char>)
    ensures
        r@ == lowercase(s@),
        is_ascii_seq(s@) ==> r@ == ascii_lower(s@),
{
    let st: String = s.iter().collect();
    st.to_lowercase().chars().collect()
}

// ============================================================
// Shared helpers
// ============================================================

/// Book content from `ProcessBook` carries literal `\n` and `\t` escapes.
pub open spec fn unescape(content: Seq<char>) -> Seq<char> {
    replace(replace(content, "\\n"@, "\n"@), "\\t"@, "\t"@)
}

fn unescape_chars(content: &[char]) -> (r: Vec<char>)
    ensures
        r@ == unescape(content@),
{
    let a = chars_of("\\n");
    let b = chars_of("\n");
    let c = chars_of("\\t");
    let d = chars_of("\t");
    proof {
        reveal_strlit("\\n");
        reveal_strlit("\\t");
    }
    let x = replace_chars(content, a.as_slice(), b.as_slice());
    replace_chars(x.as_slice(), c.as_slice(), d.as_slice())
}

/// Commas removed (`"61,453"` → `"61453"`).
pub open spec fn no_commas(s: Seq<char>) -> Seq<char> {
    replace(s, ","@, ""@)
}

fn no_commas_chars(s: &[char]) -> (r: Vec<char>)
    ensures
        r@ == no_commas(s@),
{
    let a = chars_of(",");
    let b = chars_of("");
    proof {
        reveal_strlit(",");
    }
    replace_chars(s, a.as_slice(), b.as_slice())
}

// ============================================================
// PlayerAge
// ============================================================

/// `extract_bold` does not slice backwards: when both tags are present, the
/// closing tag does not start before the end of the opening tag.
pub open spec fn bold_ok(line: Seq<char>) -> bool {
    match (find(line, "<b>"@), find(line, "</b>"@)) {
        (Some(s), Some(e)) => s + 3 <= e,
        _ => true,
    }
}

/// Text between `<b>` and `</b>`.
pub open spec fn extract_bold(line: Seq<char>) -> Option<Seq<char>> {
    match (find(line, "<b>"@), find(line, "</b>"@)) {
        (Some(s), Some(e)) => Some(line.subrange(s + 3, e)),
        _ => None,
    }
}

fn extract_bold_chars(line: &[char]) -> (r: Option<Vec<char>>)
    requires
        bold_ok(line@),
    ensures
        r matches Some(v) ==> extract_bold(line@) == Some(v@),
        r is None ==> extract_bold(line@) is None,
{
    let open = chars_of("<b>");
    let close = chars_of("</b>");
    proof {
        reveal_strlit("<b>");
        crate::text::lemma_find_facts(line@, "<b>"@);
        crate::text::lemma_find_facts(line@, "</b>"@);
    }
    let s = match find_seq(line, open.as_slice()) {
        Some(s) => s,
        None => return None,
    };
    let e = match find_seq(line, close.as_slice()) {
        Some(e) => e,
        None => return None,
    };
    Some(copy_range(line, s + 3, e))
}

/// The stat a PlayerAge line with bold value `value` yields.
pub open spec fn age_stat(line: Seq<char>, value: Seq<char>) -> Option<StatView> {
    if contains(line, "was created on"@) {
        Some(("age"@, "created_on"@, value))
    } else if contains(line, "logged into the game"@) {
        Some(("age"@, "time_played"@, value))
    } else if contains(line, "died"@) && contains(line, "times"@) {
        Some(("age"@, "deaths"@, no_commas(value)))
    } else if contains(line, "attacks"@) {
        Some(("age"@, "attacks_made"@, no_commas(value)))
    } else if contains(line, "killed"@) && contains(line, "monsters"@) {
        Some(("age"@, "kills"@, no_commas(value)))
    } else if contains(line, "dealt"@) && contains(line, "damage"@) {
        Some(("age"@, "damage_dealt"@, no_commas(value)))
    } else if contains(line, "taken"@) && contains(line, "damage"@) {
        Some(("age"@, "damage_taken"@, no_commas(value)))
    } else if contains(line, "VIP"@) {
        Some(("age"@, "vip_days"@, value))
    } else {
        None
    }
}

/// Stats from a sequence of raw PlayerAge lines, in order.
pub open spec fn age_stats(ls: Seq<Seq<char>>) -> Seq<StatView>
    decreases ls.len(),
{
    if ls.len() == 0 {
        seq![]
    } else {
        let line = trim(ls[0]);
        let here = match extract_bold(line) {
            None => seq![],
            Some(v) => match age_stat(line, v) {
                Some(st) => seq![st],
                None => seq![],
            },
        };
        here + age_stats(ls.drop_first())
    }
}

/// The lines of the unescaped content.
pub open spec fn report_lines(content: Seq<char>) -> Seq<Seq<char>> {
    lines(unescape(content))
}

/// Every trimmed line of the PlayerAge content is safe for `extract_bold`.
pub open spec fn player_age_ok(content: Seq<char>) -> bool {
    forall|i: int|
        0 <= i < report_lines(content).len() ==> bold_ok(trim(#[trigger] report_lines(content)[i]))
}

fn age_stat_chars(line: &[char], value: Vec<char>) -> (r: Option<ParsedStat>)
    ensures
        r matches Some(p) ==> age_stat(line@, value@) == Some(p.view3()),
        r is None ==> age_stat(line@, value@) is None,
{
    if contains_str(line, "was created on") {
        Some(stat("age", "created_on", value.as_slice()))
    } else if contains_str(line, "logged into the game") {
        Some(stat("age", "time_played", value.as_slice()))
    } else if contains_str(line, "died") && contains_str(line, "times") {
        Some(stat("age", "deaths", no_commas_chars(value.as_slice()).as_slice()))
    } else if contains_str(line, "attacks") {
        Some(stat("age", "attacks_made", no_commas_chars(value.as_slice()).as_slice()))
    } else if contains_str(line, "killed") && contains_str(line, "monsters") {
        Some(stat("age", "kills", no_commas_chars(value.as_slice()).as_slice()))
    } else if contains_str(line, "dealt") && contains_str(line, "damage") {
        Some(stat("age", "damage_dealt", no_commas_chars(value.as_slice()).as_slice()))
    } else if contains_str(line, "taken") && contains_str(line, "damage") {
        Some(stat("age", "damage_taken", no_commas_chars(value.as_slice()).as_slice()))
    } else if contains_str(line, "VIP") {
        Some(stat("age", "vip_days", value.as_slice()))
    } else {
        None
    }
}

/// Parse the PlayerAge report content.
///
/// Each line holds one `<b>VALUE</b>`; the surrounding words decide the
/// stat: `created_on`, `time_played` and `vip_days` keep the value as
/// written, the counters (`deaths`, `attacks_made`, `kills`,
/// `damage_dealt`, `damage_taken`) drop thousands separators. Lines without a
/// bold value or without a known phrase are skipped.
pub fn parse_player_age(content: &str) -> (r: Vec<ParsedStat>)
    requires
        player_age_ok(content@),
    ensures
        stats_view(r@) == age_stats(report_lines(content@)),
{
    let c = chars_of(content);
    let normalized = unescape_chars(c.as_slice());
    let ls = lines_of(normalized.as_slice());
    let ghost lv = ls@.map_values(|v: Vec<char>| v@);
    let mut stats: Vec<ParsedStat> = Vec::new();
    let mut i: usize = 0;
    assert(lv.skip(0) =~= lv);
    assert(stats_view(stats@) + age_stats(lv) =~= age_stats(lv));
    while i < ls.len()
        invariant
            i <= ls@.len() == lv.len(),
            lv == ls@.map_values(|v: Vec<char>| v@),
            lv == report_lines(content@),
            player_age_ok(content@),
            age_stats(lv) == stats_view(stats@) + age_stats(lv.skip(i as int)),
        decreases ls.len() - i,
    {
        assert(lv.skip(i as int).drop_first() =~= lv.skip(i + 1));
        assert(lv.skip(i as int)[0] == ls@[i as int]@);
        let line = trim_ws(ls[i].as_slice());
        assert(bold_ok(trim(lv[i as int])));
        let ghost before = stats_view(stats@);
        if let Some(value) = extract_bold_chars(line.as_slice()) {
            if let Some(st) = age_stat_chars(line.as_slice(), value) {
                stats.push(st);
                assert(stats_view(stats@) =~= before + seq![st.view3()]);
            }
        }
        proof {
            let here = stats_view(stats@).skip(before.len() as int);
            assert(stats_view(stats@) =~= before + here);
            assert(age_stats(lv.skip(i as int)) == here + age_stats(lv.skip(i + 1)));
            assert(before + (here + age_stats(lv.skip(i + 1))) =~= (before + here) + age_stats(
                lv.skip(i + 1),
            ));
        }
        i += 1;
    }
    assert(lv.skip(ls@.len() as int) =~= seq![]);
    assert(stats_view(stats@) + seq![] =~= stats_view(stats@));
    stats
}

// ============================================================
// Behavior Report
// ============================================================

/// Section name from `<b><color=#hex>Name</color></b>`: the text after the
/// `<color...>` tag up to `</color>` (or the next `<`, or the end), trimmed;
/// `None` when that text is empty.
pub open spec fn color_header(line: Seq<char>) -> Option<Seq<char>> {
    match find(line, "<color"@) {
        None => None,
        Some(cs) => match find(line.skip(cs), ">"@) {
            None => None,
            Some(gt) => {
                let rest = line.skip(cs + gt + 1);
                let end = match find(rest, "</color>"@) {
                    Some(e) => e,
                    None => match find(rest, "<"@) {
                        Some(e) => e,
                        None => rest.len() as int,
                    },
                };
                let name = trim(rest.take(end));
                if name.len() == 0 {
                    None
                } else {
                    Some(name)
                }
            },
        },
    }
}

fn color_header_chars(line: &[char]) -> (r: Option<Vec<char>>)
    ensures
        r matches Some(v) ==> color_header(line@) == Some(v@),
        r is None ==> color_header(line@) is None,
{
    let pc = chars_of("<color");
    let cs = match find_seq(line, pc.as_slice()) {
        Some(cs) => cs,
        None => return None,
    };
    proof {
        crate::text::lemma_find_facts(line@, "<color"@);
    }
    let after = copy_range(line, cs, line.len());
    assert(after@ =~= line@.skip(cs as int));
    let gtc = chars_of(">");
    let gt = match find_seq(after.as_slice(), gtc.as_slice()) {
        Some(g) => g,
        None => return None,
    };
    proof {
        crate::text::lemma_find_facts(after@, ">"@);
        reveal_strlit(">");
    }
    let rest = copy_range(line, cs + gt + 1, line.len());
    assert(rest@ =~= line@.skip(cs + gt + 1));
    let endc = chars_of("</color>");
    let ltc = chars_of("<");
    let end = match find_seq(rest.as_slice(), endc.as_slice()) {
        Some(e) => e,
        None => match find_seq(rest.as_slice(), ltc.as_slice()) {
            Some(e) => e,
            None => rest.len(),
        },
    };
    proof {
        crate::text::lemma_find_facts(rest@, "</color>"@);
        crate::text::lemma_find_facts(rest@, "<"@);
    }
    let head = copy_range(rest.as_slice(), 0, end);
    assert(head@ =~= rest@.take(end as int));
    let name = trim_ws(head.as_slice());
    if name.len() == 0 {
        None
    } else {
        Some(name)
    }
}

/// Category key of a section header: fixed keys for the known sections,
/// otherwise the lowercased header with spaces as underscores.
pub open spec fn categorize_section(header: Seq<char>) -> Seq<char> {
    let lower = lowercase(header);
    if contains(lower, "challenge"@) {
        "challenges"@
    } else if contains(lower, "badge"@) {
        "badges"@
    } else if contains(lower, "food"@) {
        "food_stats"@
    } else if contains(lower, "killing"@) {
        "killing_stats"@
    } else if contains(lower, "misc"@) {
        "misc_stats"@
    } else {
        replace(lower, " "@, "_"@)
    }
}

fn categorize_section_chars(header: &[char]) -> (r: Vec<char>)
    ensures
        r@ == categorize_section(header@),
{
    let lower = to_lowercase(header);
    if contains_str(lower.as_slice(), "challenge") {
        chars_of("challenges")
    } else if contains_str(lower.as_slice(), "badge") {
        chars_of("badges")
    } else if contains_str(lower.as_slice(), "food") {
        chars_of("food_stats")
    } else if contains_str(lower.as_slice(), "killing") {
        chars_of("killing_stats")
    } else if contains_str(lower.as_slice(), "misc") {
        chars_of("misc_stats")
    } else {
        let a = chars_of(" ");
        let b = chars_of("_");
        proof {
            reveal_strlit(" ");
        }
        replace_chars(lower.as_slice(), a.as_slice(), b.as_slice())
    }
}

/// `extract_italic_stat` does not slice backwards.
pub open spec fn italic_ok(line: Seq<char>) -> bool {
    match (find(line, "<i>"@), find(line, "</i>"@)) {
        (Some(s), Some(e)) => s + 3 <= e,
        _ => true,
    }
}

/// `(label, value)` from `Label  <i>VALUE</i>`: the value is the text
/// between the tags, the label is the text before `<i>` trimmed, with
/// trailing `'?'` removed and trimmed again; `None` for an empty label.
pub open spec fn italic_stat(line: Seq<char>) -> Option<(Seq<char>, Seq<char>)> {
    match (find(line, "<i>"@), find(line, "</i>"@)) {
        (Some(s), Some(e)) => {
            let value = line.subrange(s + 3, e);
            let label = trim(trim_end_by(trim(line.take(s)), CharClass::Only('?')));
            if label.len() == 0 {
                None
            } else {
                Some((label, value))
            }
        },
        _ => None,
    }
}

fn italic_stat_chars(line: &[char]) -> (r: Option<(Vec<char>, Vec<char>)>)
    requires
        italic_ok(line@),
    ensures
        r matches Some(p) ==> italic_stat(line@) == Some((p.0@, p.1@)),
        r is None ==> italic_stat(line@) is None,
{
    let open = chars_of("<i>");
    let close = chars_of("</i>");
    proof {
        reveal_strlit("<i>");
        crate::text::lemma_find_facts(line@, "<i>"@);
        crate::text::lemma_find_facts(line@, "</i>"@);
    }
    let s = match find_seq(line, open.as_slice()) {
        Some(s) => s,
        None => return None,
    };
    let e = match find_seq(line, close.as_slice()) {
        Some(e) => e,
        None => return None,
    };
    let value = copy_range(line, s + 3, e);
    let before = copy_range(line, 0, s);
    assert(before@ =~= line@.take(s as int));
    let t1 = trim_ws(before.as_slice());
    let t2 = trim_end_class(t1.as_slice(), CharClass::Only('?'));
    let label = trim_ws(t2.as_slice());
    if label.len() == 0 {
        None
    } else {
        Some((label, value))
    }
}

/// Clean a stat value: `"YES (1,315)"` → `"1315"`, `"YES"` → `"yes"`,
/// `"NO"` → `"no"`, otherwise thousands separators dropped.
pub open spec fn clean_stat(value: Seq<char>) -> Seq<char> {
    let v = trim(value);
    if v.len() == 0 {
        seq![]
    } else {
        match strip_prefix(v, "YES ("@) {
            Some(rest) => match strip_suffix(rest, ")"@) {
                Some(num) => no_commas(num),
                None => "yes"@,
            },
            None => if v == "YES"@ {
                "yes"@
            } else if v == "NO"@ {
                "no"@
            } else {
                no_commas(v)
            },
        }
    }
}

fn clean_stat_chars(value: &[char]) -> (r: Vec<char>)
    ensures
        r@ == clean_stat(value@),
{
    let v = trim_ws(value);
    if v.len() == 0 {
        return Vec::new();
    }
    match strip_prefix_str(v.as_slice(), "YES (") {
        Some(rest) => match strip_suffix_str(rest.as_slice(), ")") {
            Some(num) => no_commas_chars(num.as_slice()),
            None => chars_of("yes"),
        },
        None => {
            if eq_str(v.as_slice(), "YES") {
                chars_of("yes")
            } else if eq_str(v.as_slice(), "NO") {
                chars_of("no")
            } else {
                no_commas_chars(v.as_slice())
            }
        },
    }
}

/// Clean a stat value: strip the "YES " prefix, remove commas from numbers.
pub fn clean_stat_value(value: &str) -> (r: String)
    ensures
        r@ == clean_stat(value@),
{
    let v = chars_of(value);
    string_of(clean_stat_chars(v.as_slice()).as_slice())
}

/// Normalize a stat label to a snake_case key: lowercased, spaces and
/// dashes to underscores, apostrophes and parentheses removed.
pub open spec fn normalize_stat(label: Seq<char>) -> Seq<char> {
    replace(
        replace(
            replace(replace(replace(lowercase(label), " "@, "_"@), "-"@, "_"@), "'"@, ""@),
            "("@,
            ""@,
        ),
        ")"@,
        ""@,
    )
}

fn replace_str(s: &[char], a: &str, b: &str) -> (r: Vec<char>)
    requires
        a@.len() > 0,
    ensures
        r@ == replace(s@, a@, b@),
{
    let ac = chars_of(a);
    let bc = chars_of(b);
    replace_chars(s, ac.as_slice(), bc.as_slice())
}

fn normalize_stat_chars(label: &[char]) -> (r: Vec<char>)
    ensures
        r@ == normalize_stat(label@),
{
    proof {
        reveal_strlit(" ");
        reveal_strlit("-");
        reveal_strlit("'");
        reveal_strlit("(");
        reveal_strlit(")");
    }
    let l = to_lowercase(label);
    let a = replace_str(l.as_slice(), " ", "_");
    let b = replace_str(a.as_slice(), "-", "_");
    let c = replace_str(b.as_slice(), "'", "");
    let d = replace_str(c.as_slice(), "(", "");
    replace_str(d.as_slice(), ")", "")
}

/// The date after `"was created on "` on a section-less line.
pub open spec fn created_on_stat(line: Seq<char>) -> Seq<StatView> {
    if contains(line, "was created on"@) {
        match find(line, "was created on "@) {
            Some(pos) => seq![("age"@, "created_on"@, line.skip(pos + 15))],
            None => seq![],
        }
    } else {
        seq![]
    }
}

/// Stats from raw Behavior Report lines, given the current section key.
pub open spec fn behavior_stats(ls: Seq<Seq<char>>, section: Seq<char>) -> Seq<StatView>
    decreases ls.len(),
{
    if ls.len() == 0 {
        seq![]
    } else {
        let line = trim(ls[0]);
        let rest = ls.drop_first();
        if contains(line, "<color="@) {
            let next = match color_header(line) {
                Some(h) => categorize_section(h),
                None => section,
            };
            behavior_stats(rest, next)
        } else if section.len() == 0 || line.len() == 0 || starts_with(line, "*"@) {
            created_on_stat(line) + behavior_stats(rest, section)
        } else {
            let here = match italic_stat(line) {
                None => seq![],
                Some(lv) => if section == "badges"@ {
                    seq![("badges"@, lv.0, "true"@)]
                } else {
                    let clean = clean_stat(lv.1);
                    if clean.len() > 0 {
                        seq![(section, normalize_stat(lv.0), clean)]
                    } else {
                        seq![]
                    }
                },
            };
            here + behavior_stats(rest, section)
        }
    }
}

/// The section key in force after the given lines.
pub open spec fn section_after(ls: Seq<Seq<char>>, section: Seq<char>) -> Seq<char>
    decreases ls.len(),
{
    if ls.len() == 0 {
        section
    } else {
        let line = trim(ls[0]);
        let next = if contains(line, "<color="@) {
            match color_header(line) {
                Some(h) => categorize_section(h),
                None => section,
            }
        } else {
            section
        };
        section_after(ls.drop_first(), next)
    }
}

/// The lines that reach `extract_italic_stat` are safe for it.
pub open spec fn behavior_ok(ls: Seq<Seq<char>>, section: Seq<char>) -> bool
    decreases ls.len(),
{
    if ls.len() == 0 {
        true
    } else {
        let line = trim(ls[0]);
        let rest = ls.drop_first();
        if contains(line, "<color="@) {
            let next = match color_header(line) {
                Some(h) => categorize_section(h),
                None => section,
            };
            behavior_ok(rest, next)
        } else if section.len() == 0 || line.len() == 0 || starts_with(line, "*"@) {
            behavior_ok(rest, section)
        } else {
            italic_ok(line) && behavior_ok(rest, section)
        }
    }
}

/// Parse the Behavior Report (HelpScreen) content.
///
/// `<color>` headers open sections (mapped to category keys); before the
/// first section only the "was created on" line yields a stat. Inside a
/// section, `Label  <i>VALUE</i>` lines yield a stat: badges record
/// `"true"`, other sections record the cleaned value under the normalized
/// label (skipped when the cleaned value is empty).
pub fn parse_behavior_report(content: &str) -> (r: Vec<ParsedStat>)
    requires
        behavior_ok(report_lines(content@), seq![]),
    ensures
        stats_view(r@) == behavior_stats(report_lines(content@), seq![]),
{
    let c = chars_of(content);
    let normalized = unescape_chars(c.as_slice());
    let ls = lines_of(normalized.as_slice());
    let ghost lv = ls@.map_values(|v: Vec<char>| v@);
    let mut stats: Vec<ParsedStat> = Vec::new();
    let mut current_section: Vec<char> = Vec::new();
    let mut i: usize = 0;
    assert(lv.skip(0) =~= lv);
    assert(current_section@ =~= seq![]);
    assert(stats_view(stats@) + behavior_stats(lv, seq![]) =~= behavior_stats(lv, seq![]));
    while i < ls.len()
        invariant
            i <= ls@.len() == lv.len(),
            lv == ls@.map_values(|v: Vec<char>| v@),
            lv == report_lines(content@),
            behavior_ok(lv.skip(i as int), current_section@),
            behavior_stats(lv, seq![]) == stats_view(stats@) + behavior_stats(
                lv.skip(i as int),
                current_section@,
            ),
        decreases ls.len() - i,
    {
        let ghost rest = lv.skip(i as int);
        assert(rest.drop_first() =~= lv.skip(i + 1));
        assert(rest[0] == ls@[i as int]@);
        let line = trim_ws(ls[i].as_slice());
        let ghost before = stats_view(stats@);
        let ghost sec = current_section@;
        if contains_str(line.as_slice(), "<color=") {
            if let Some(section) = color_header_chars(line.as_slice()) {
                current_section = categorize_section_chars(section.as_slice());
            }
        } else if current_section.len() == 0 || line.len() == 0 || starts_with_str(
            line.as_slice(),
            "*",
        ) {
            if contains_str(line.as_slice(), "was created on") {
                let pat = chars_of("was created on ");
                proof {
                    reveal_strlit("was created on ");
                    crate::text::lemma_find_facts(line@, "was created on "@);
                }
                assert(pat@.len() == 15);
                if let Some(pos) = find_seq(line.as_slice(), pat.as_slice()) {
                    assert(find(line@, pat@) == Some(pos as int));
                    let n = line.len();
                    assert(pos + 15 <= n);
                    let date = copy_range(line.as_slice(), pos + 15, n);
                    assert(date@ =~= line@.skip(pos + 15));
                    stats.push(stat("age", "created_on", date.as_slice()));
                }
            }
            assert(stats_view(stats@) =~= before + created_on_stat(line@));
        } else {
            if let Some((label, value)) = italic_stat_chars(line.as_slice()) {
                if eq_str(current_section.as_slice(), "badges") {
                    let st = ParsedStat {
                        category: "badges".to_owned(),
                        name: string_of(label.as_slice()),
                        value: "true".to_owned(),
                    };
                    stats.push(st);
                    assert(stats_view(stats@) =~= before + seq![st.view3()]);
                } else {
                    let clean = clean_stat_chars(value.as_slice());
                    if clean.len() > 0 {
                        let st = ParsedStat {
                            category: string_of(current_section.as_slice()),
                            name: string_of(normalize_stat_chars(label.as_slice()).as_slice()),
                            value: string_of(clean.as_slice()),
                        };
                        stats.push(st);
                        assert(stats_view(stats@) =~= before + seq![st.view3()]);
                    }
                }
            }
        }
        proof {
            let here = stats_view(stats@).skip(before.len() as int);
            assert(stats_view(stats@) =~= before + here);
            assert(behavior_stats(rest, sec) == here + behavior_stats(
                lv.skip(i + 1),
                current_section@,
            ));
            assert(before + (here + behavior_stats(lv.skip(i + 1), current_section@)) =~= (before
                + here) + behavior_stats(lv.skip(i + 1), current_section@));
        }
        i += 1;
    }
    assert(lv.skip(ls@.len() as int) =~= seq![]);
    assert(stats_view(stats@) + seq![] =~= stats_view(stats@));
    stats
}

// ============================================================
// Real and escaped line breaks
// ============================================================

/// Each `r` written as the escape `\` followed by `x`.
pub open spec fn escape_char(s: Seq<char>, x: char, r: char) -> Seq<char>
    decreases s.len(),
{
    if s.len() == 0 {
        s
    } else {
        (if s[0] == r {
            seq!['\\', x]
        } else {
            seq![s[0]]
        }) + escape_char(s.skip(1), x, r)
    }
}

/// The content with every newline written `\n` and every tab `\t`.
pub open spec fn escape_breaks(s: Seq<char>) -> Seq<char> {
    escape_char(escape_char(s, 't', '\t'), 'n', '\n')
}

/// The escape `\x` read as `r`, left to right.
pub open spec fn unescape_char(s: Seq<char>, x: char, r: char) -> Seq<char>
    decreases s.len(),
{
    if s.len() == 0 {
        s
    } else if s.len() >= 2 && s[0] == '\\' && s[1] == x {
        seq![r] + unescape_char(s.skip(2), x, r)
    } else {
        seq![s[0]] + unescape_char(s.skip(1), x, r)
    }
}

proof fn lemma_replace_is_scan(s: Seq<char>, x: char, r: char)
    requires
        x != '\\',
    ensures
        replace(s, seq!['\\', x], seq![r]) == unescape_char(s, x, r),
    decreases s.len(),
{
    let pat = seq!['\\', x];
    lemma_find_from_facts(s, pat, 0);
    if s.len() == 0 {
    } else if s.len() >= 2 && s[0] == '\\' && s[1] == x {
        assert(s.subrange(0, 2) =~= pat);
        assert(occurs_at(s, pat, 0));
        lemma_replace_is_scan(s.skip(2), x, r);
        assert(s.take(0) + seq![r] + replace(s.skip(2), pat, seq![r]) =~= seq![r] + replace(
            s.skip(2),
            pat,
            seq![r],
        ));
    } else {
        let t = s.skip(1);
        lemma_replace_is_scan(t, x, r);
        lemma_find_from_facts(t, pat, 0);
        assert(!occurs_at(s, pat, 0)) by {
            if occurs_at(s, pat, 0) {
                assert(s.subrange(0, 2)[0] == s[0] && s.subrange(0, 2)[1] == s[1]);
            }
        }
        assert forall|j: int| 0 <= j implies occurs_at(t, pat, j) == occurs_at(s, pat, j + 1) by {
            if 0 <= j && j + 2 <= t.len() {
                assert(t.subrange(j, j + 2) =~= s.subrange(j + 1, j + 3));
            }
        }
        match find(s, pat) {
            Some(k) => {
                assert(k >= 1);
                assert(occurs_at(t, pat, k - 1));
                match find(t, pat) {
                    Some(k2) => {
                        assert(occurs_at(s, pat, k2 + 1));
                        assert(k2 == k - 1);
                    },
                    None => {},
                }
                assert(s.take(k) =~= seq![s[0]] + t.take(k - 1));
                assert(s.skip(k + 2) =~= t.skip(k - 1 + 2));
                assert(replace(s, pat, seq![r]) =~= seq![s[0]] + replace(t, pat, seq![r]));
            },
            None => {
                match find(t, pat) {
                    Some(k2) => {
                        assert(occurs_at(s, pat, k2 + 1));
                    },
                    None => {},
                }
                assert(s =~= seq![s[0]] + t);
            },
        }
    }
}

proof fn lemma_unescape_escape(s: Seq<char>, x: char, r: char)
    requires
        x != '\\',
        r != '\\',
        r != x,
    ensures
        unescape_char(escape_char(s, x, r), x, r) == unescape_char(s, x, r),
    decreases s.len(),
{
    if s.len() > 0 {
        let t = s.skip(1);
        let e = escape_char(s, x, r);
        let et = escape_char(t, x, r);
        lemma_unescape_escape(t, x, r);
        if s[0] == r {
            assert(e =~= seq!['\\', x] + et);
            assert(e.skip(2) =~= et);
        } else if s[0] == '\\' {
            assert(e =~= seq!['\\'] + et);
            assert(e.skip(1) =~= et);
            if t.len() > 0 {
                let u = t.skip(1);
                assert(et =~= (if t[0] == r {
                    seq!['\\', x]
                } else {
                    seq![t[0]]
                }) + escape_char(u, x, r));
                if t[0] == x {
                    lemma_unescape_escape(u, x, r);
                    assert(e.skip(2) =~= escape_char(u, x, r));
                    assert(s.skip(2) =~= u);
                }
            }
        } else {
            assert(e =~= seq![s[0]] + et);
            assert(e.skip(1) =~= et);
        }
    }
}

proof fn lemma_escape_commutes(s: Seq<char>)
    ensures
        unescape_char(escape_char(s, 't', '\t'), 'n', '\n') == escape_char(
            unescape_char(s, 'n', '\n'),
            't',
            '\t',
        ),
    decreases s.len(),
{
    if s.len() > 0 {
        let t = s.skip(1);
        let e = escape_char(s, 't', '\t');
        let et = escape_char(t, 't', '\t');
        let rn = unescape_char(s, 'n', '\n');
        lemma_escape_commutes(t);
        if s[0] == '\t' {
            assert(e =~= seq!['\\', 't'] + et);
            let e1 = e.skip(1);
            assert(e1 =~= seq!['t'] + et);
            assert(e1.skip(1) =~= et);
            assert(unescape_char(e1, 'n', '\n') == seq!['t'] + unescape_char(et, 'n', '\n'));
            assert(unescape_char(e, 'n', '\n') == seq!['\\'] + unescape_char(e1, 'n', '\n'));
            assert(rn == seq!['\t'] + unescape_char(t, 'n', '\n'));
            assert(rn.skip(1) =~= unescape_char(t, 'n', '\n'));
            assert(escape_char(rn, 't', '\t') =~= seq!['\\', 't'] + escape_char(
                unescape_char(t, 'n', '\n'),
                't',
                '\t',
            ));
            assert(unescape_char(e, 'n', '\n') =~= escape_char(rn, 't', '\t'));
        } else if s[0] == '\\' && s.len() >= 2 && s[1] == 'n' {
            let u = s.skip(2);
            lemma_escape_commutes(u);
            assert(t.skip(1) =~= u);
            assert(et =~= seq!['n'] + escape_char(u, 't', '\t'));
            assert(e =~= seq!['\\', 'n'] + escape_char(u, 't', '\t'));
            assert(e.skip(2) =~= escape_char(u, 't', '\t'));
            assert(rn == seq!['\n'] + unescape_char(u, 'n', '\n'));
            assert(rn.skip(1) =~= unescape_char(u, 'n', '\n'));
            assert(escape_char(rn, 't', '\t') =~= seq!['\n'] + escape_char(
                unescape_char(u, 'n', '\n'),
                't',
                '\t',
            ));
            assert(unescape_char(e, 'n', '\n') =~= escape_char(rn, 't', '\t'));
        } else {
            assert(e =~= seq![s[0]] + et);
            assert(e.skip(1) =~= et);
            if s[0] == '\\' && t.len() > 0 {
                assert(et =~= (if t[0] == '\t' {
                    seq!['\\', 't']
                } else {
                    seq![t[0]]
                }) + escape_char(t.skip(1), 't', '\t'));
            }
            assert(unescape_char(e, 'n', '\n') == seq![s[0]] + unescape_char(et, 'n', '\n'));
            assert(rn == seq![s[0]] + unescape_char(t, 'n', '\n'));
            assert(rn.skip(1) =~= unescape_char(t, 'n', '\n'));
            assert(escape_char(rn, 't', '\t') =~= seq![s[0]] + escape_char(
                unescape_char(t, 'n', '\n'),
                't',
                '\t',
            ));
        }
    }
}

/// Writing the content's line breaks and tabs as the escapes `\n` and `\t`
/// changes nothing read from it: real and escaped breaks read alike.
pub proof fn law_escaped_breaks_read_alike(content: Seq<char>)
    ensures
        report_lines(escape_breaks(content)) == report_lines(content),
        age_stats(report_lines(escape_breaks(content))) == age_stats(report_lines(content)),
{
    let et = escape_char(content, 't', '\t');
    lemma_replace_is_scan(escape_breaks(content), 'n', '\n');
    lemma_replace_is_scan(content, 'n', '\n');
    lemma_unescape_escape(et, 'n', '\n');
    lemma_escape_commutes(content);
    let rn = unescape_char(content, 'n', '\n');
    lemma_unescape_escape(rn, 't', '\t');
    lemma_replace_is_scan(escape_char(rn, 't', '\t'), 't', '\t');
    lemma_replace_is_scan(rn, 't', '\t');
    reveal_strlit("\\n");
    reveal_strlit("\n");
    reveal_strlit("\\t");
    reveal_strlit("\t");
    assert("\\n"@ =~= seq!['\\', 'n']);
    assert("\n"@ =~= seq!['\n']);
    assert("\\t"@ =~= seq!['\\', 't']);
    assert("\t"@ =~= seq!['\t']);
    assert(unescape(escape_breaks(content)) == unescape(content));
}

/// A stat value reads `NO` as `no` and `YES` as `yes`, whatever spaces
/// surround them; `YES (n)` reads as the count `n` without thousands
/// separators, and `YES (` without a closing parenthesis as `yes`. A value
/// reads as `yes` only when it begins with `YES`, or when it is `yes`
/// itself once its commas are dropped (plain values pass through).
pub proof fn law_yes_no_values(value: Seq<char>)
    ensures
        trim(value) == seq!['N', 'O'] ==> clean_stat(value) == seq!['n', 'o'],
        trim(value) == seq!['Y', 'E', 'S'] ==> clean_stat(value) == seq!['y', 'e', 's'],
        (trim(value).len() >= 5 && trim(value).take(5) == seq!['Y', 'E', 'S', ' ', '(']) ==> clean_stat(value)
            == if trim(value).last() == ')' {
            no_commas(trim(value).subrange(5, trim(value).len() - 1))
        } else {
            seq!['y', 'e', 's']
        },
        clean_stat(value) == seq!['y', 'e', 's'] ==> (trim(value).len() >= 3 && trim(value).take(3)
            == seq!['Y', 'E', 'S']) || no_commas(trim(value)) == seq!['y', 'e', 's'],
{
    reveal_strlit("YES (");
    reveal_strlit(")");
    reveal_strlit("YES");
    reveal_strlit("NO");
    reveal_strlit("yes");
    reveal_strlit("no");
    let v = trim(value);
    assert("YES ("@ =~= seq!['Y', 'E', 'S', ' ', '(']);
    assert(")"@ =~= seq![')']);
    assert("YES"@ =~= seq!['Y', 'E', 'S']);
    assert("NO"@ =~= seq!['N', 'O']);
    assert("yes"@ =~= seq!['y', 'e', 's']);
    assert("no"@ =~= seq!['n', 'o']);
    if v.len() >= 5 && v.take(5) == seq!['Y', 'E', 'S', ' ', '('] {
        assert(v.subrange(0, 5) =~= v.take(5));
        assert(v.take(3) =~= seq!['Y', 'E', 'S']);
        let rest = v.skip(5);
        if v.last() == ')' {
            assert(rest.subrange(rest.len() - 1, rest.len() as int) =~= seq![')']);
            assert(rest.take(rest.len() - 1) =~= v.subrange(5, v.len() - 1));
        } else if rest.len() >= 1 {
            assert(rest.subrange(rest.len() - 1, rest.len() as int)[0] == v.last());
        }
    } else if v.len() >= 5 {
        assert(v.subrange(0, 5) =~= v.take(5));
    }
    if v == seq!['Y', 'E', 'S'] {
        assert(v.take(3) =~= v);
    }
    if v.len() >= 5 && starts_with(v, "YES ("@) {
        assert(v.take(3) =~= v.subrange(0, 5).take(3));
    }
}

} // verus!
