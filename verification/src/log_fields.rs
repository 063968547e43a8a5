//! Field extraction for Player.log `LocalPlayer: ProcessXxx(...)` lines:
//! timestamps, argument lists, quoted strings, numbers and decimal
//! literals, and the events of the lines that need no parser state.

use vstd::prelude::*;
use crate::text::{
    CharClass, all_digits, chars_of, copy_range, digits_value, eq_str, find, find_char,
    find_seq, is_digit, parse_i32, parse_signed, parse_u32, parse_u64, parse_unsigned,
    split, split_char, string_of, trim, trim_by, trim_class, trim_end_by, trim_end_class,
    trim_start_by, trim_start_class, trim_ws,
};
use crate::player_events::{
    EventV, PlayerEvent, SkillSnapshot, SkillV, skills_view,
};

verus! {

// ============================================================
// Basic pieces
// ============================================================

/// The `HH:MM:SS` inside a line's leading `[HH:MM:SS]` stamp.
pub open spec fn line_timestamp(line: Seq<char>) -> Option<Seq<char>> {
    if line.len() >= 10 && line[0] == '[' && is_digit(line[1]) && is_digit(line[2]) && line[3]
        == ':' && is_digit(line[4]) && is_digit(line[5]) && line[6] == ':' && is_digit(line[7])
        && is_digit(line[8]) && line[9] == ']' {
        Some(line.subrange(1, 9))
    } else {
        None
    }
}

/// The `HH:MM:SS` of a line stamped `[HH:MM:SS]`.
pub fn parse_timestamp(line: &[char]) -> (r: Option<Vec<char>>)
    ensures
        r matches Some(v) ==> line_timestamp(line@) == Some(v@),
        r is None ==> line_timestamp(line@) is None,
{
    if line.len() >= 10 && line[0] == '[' && ('0' <= line[1] && line[1] <= '9') && ('0'
        <= line[2] && line[2] <= '9') && line[3] == ':' && ('0' <= line[4] && line[4] <= '9')
        && ('0' <= line[5] && line[5] <= '9') && line[6] == ':' && ('0' <= line[7] && line[7]
        <= '9') && ('0' <= line[8] && line[8] <= '9') && line[9] == ']' {
        Some(copy_range(line, 1, 9))
    } else {
        None
    }
}

/// The number at `parts[k]`, or zero when absent or not a `u32`.
pub open spec fn num_or_zero(parts: Seq<Seq<char>>, k: int) -> int {
    if 0 <= k < parts.len() {
        match parse_unsigned(parts[k], u32::MAX as nat) {
            Some(v) => v as int,
            None => 0,
        }
    } else {
        0
    }
}

/// Seconds of day of `"HH:MM:SS"`; a missing or malformed field counts as
/// zero.
pub open spec fn hms_secs(ts: Seq<char>) -> int {
    let parts = split(ts, ':');
    num_or_zero(parts, 0) * 3600 + num_or_zero(parts, 1) * 60 + num_or_zero(parts, 2)
}

fn num_or_zero_exec(parts: &Vec<Vec<char>>, k: usize) -> (r: u32)
    ensures
        r as int == num_or_zero(parts@.map_values(|v: Vec<char>| v@), k as int),
{
    if k < parts.len() {
        assert(parts@.map_values(|v: Vec<char>| v@)[k as int] == parts@[k as int]@);
        match parse_u32(parts[k].as_slice()) {
            Some(v) => v,
            None => 0,
        }
    } else {
        0
    }
}

/// Convert `"HH:MM:SS"` to seconds of day (malformed fields count as zero).
pub fn timestamp_to_secs(ts: &[char]) -> (r: u32)
    requires
        hms_secs(ts@) <= u32::MAX,
    ensures
        r as int == hms_secs(ts@),
{
    let parts = split_char(ts, ':');
    let h = num_or_zero_exec(&parts, 0);
    let m = num_or_zero_exec(&parts, 1);
    let s = num_or_zero_exec(&parts, 2);
    (h as u64 * 3600 + m as u64 * 60 + s as u64) as u32
}

/// A stamped line's seconds of day fit comfortably in `u32`.
pub proof fn lemma_line_timestamp_secs(line: Seq<char>)
    requires
        line_timestamp(line) is Some,
    ensures
        0 <= hms_secs(line_timestamp(line)->0) < 400000,
{
    let ts = line_timestamp(line)->0;
    let parts = split(ts, ':');
    lemma_small_fields(ts);
}

proof fn lemma_digits_value_two(s: Seq<char>)
    requires
        s.len() <= 2,
        all_digits(s),
    ensures
        digits_value(s) <= 99,
        s.len() <= 1 ==> digits_value(s) <= 9,
    decreases s.len(),
{
    if s.len() > 0 {
        lemma_digits_value_two(s.drop_last());
        assert(is_digit(s[s.len() - 1]));
        assert(s.last() == s[s.len() - 1]);
        assert((s.last() as u32) - ('0' as u32) <= 9);
        assert(s.drop_last().len() <= 1);
    }
}

proof fn lemma_small_fields(ts: Seq<char>)
    requires
        ts.len() == 8,
        is_digit(ts[0]) && is_digit(ts[1]) && ts[2] == ':' && is_digit(ts[3]) && is_digit(ts[4])
            && ts[5] == ':' && is_digit(ts[6]) && is_digit(ts[7]),
    ensures
        0 <= hms_secs(ts) < 400000,
{
    let parts = split(ts, ':');
    crate::text::lemma_split_len(ts, ':');
    assert forall|k: int| 0 <= k < 3 implies num_or_zero(parts, k) <= 99 by {
        if 0 <= k < parts.len() {
            let p = parts[k];
            assert(p.len() <= 8);
            if let Some(v) = parse_unsigned(p, u32::MAX as nat) {
                lemma_piece_digits(ts, k);
            }
        }
    }
}

proof fn lemma_piece_digits(ts: Seq<char>, k: int)
    requires
        ts.len() == 8,
        is_digit(ts[0]) && is_digit(ts[1]) && ts[2] == ':' && is_digit(ts[3]) && is_digit(ts[4])
            && ts[5] == ':' && is_digit(ts[6]) && is_digit(ts[7]),
        0 <= k < split(ts, ':').len(),
    ensures
        parse_unsigned(split(ts, ':')[k], u32::MAX as nat) matches Some(v) ==> v <= 99,
{
    let c = ':';
    crate::text::lemma_find_single_pub(ts, c);
    let i0 = 2int;
    assert(crate::text::find(ts, seq![c]) == Some(i0)) by {
        assert(ts[2] == c);
        assert(ts[0] != c && ts[1] != c);
    }
    let r1 = ts.skip(3);
    crate::text::lemma_find_single_pub(r1, c);
    assert(r1[2] == c);
    assert(r1[0] != c && r1[1] != c);
    assert(crate::text::find(r1, seq![c]) == Some(2int));
    let r2 = r1.skip(3);
    crate::text::lemma_find_single_pub(r2, c);
    assert(r2.len() == 2);
    assert(r2[0] != c && r2[1] != c);
    assert(crate::text::find(r2, seq![c]) is None);
    let p = split(ts, ':');
    assert(split(r2, c) == seq![r2]);
    assert(ts.skip(2int + 1) =~= r1);
    assert(r1.skip(2int + 1) =~= r2);
    assert(split(r1, c) == seq![r1.take(2)] + split(r2, c));
    assert(p == seq![ts.take(2)] + split(r1, c));
    assert(p == seq![ts.take(2)] + (seq![r1.take(2)] + seq![r2]));
    let piece = p[k];
    assert(piece.len() == 2);
    assert(all_digits(piece)) by {
        if k == 0 {
            assert(piece == ts.take(2));
        } else if k == 1 {
            assert(piece == r1.take(2));
        } else {
            assert(piece == r2);
        }
    }
    if let Some(v) = parse_unsigned(piece, u32::MAX as nat) {
        lemma_digits_value_two(piece);
        assert(piece[0] != '+');
    }
}

/// The text after the first occurrence of `pat`.
pub open spec fn after(s: Seq<char>, pat: Seq<char>) -> Option<Seq<char>> {
    match find(s, pat) {
        Some(i) => Some(s.skip(i + pat.len())),
        None => None,
    }
}

pub fn after_str(s: &[char], pat: &str) -> (r: Option<Vec<char>>)
    ensures
        r matches Some(v) ==> after(s@, pat@) == Some(v@),
        r is None ==> after(s@, pat@) is None,
{
    let p = chars_of(pat);
    match find_seq(s, p.as_slice()) {
        Some(i) => {
            proof {
                crate::text::lemma_find_facts(s@, pat@);
            }
            let n = s.len();
            assert(i + p@.len() <= n);
            let v = copy_range(s, i + p.len(), n);
            assert(v@ =~= s@.skip(i + pat@.len()));
            Some(v)
        },
        None => None,
    }
}

/// The text before the first occurrence of `c`.
pub open spec fn before_char(s: Seq<char>, c: char) -> Option<Seq<char>> {
    match find(s, seq![c]) {
        Some(i) => Some(s.take(i)),
        None => None,
    }
}

pub fn before_char_exec(s: &[char], c: char) -> (r: Option<Vec<char>>)
    ensures
        r matches Some(v) ==> before_char(s@, c) == Some(v@),
        r is None ==> before_char(s@, c) is None,
{
    match find_char(s, c) {
        Some(i) => {
            proof {
                crate::text::lemma_find_single_pub(s@, c);
            }
            let v = copy_range(s, 0, i);
            assert(v@ =~= s@.take(i as int));
            Some(v)
        },
        None => None,
    }
}

/// The text of `ProcessXxx(args)` up to the first `')'` after the marker.
pub open spec fn args_to_close(line: Seq<char>, marker: Seq<char>) -> Option<Seq<char>> {
    match after(line, marker) {
        Some(rest) => before_char(rest, ')'),
        None => None,
    }
}

pub fn args_to_close_exec(line: &[char], marker: &str) -> (r: Option<Vec<char>>)
    ensures
        r matches Some(v) ==> args_to_close(line@, marker@) == Some(v@),
        r is None ==> args_to_close(line@, marker@) is None,
{
    match after_str(line, marker) {
        Some(rest) => before_char_exec(rest.as_slice(), ')'),
        None => None,
    }
}

pub open spec fn views(v: Seq<Vec<char>>) -> Seq<Seq<char>> {
    v.map_values(|x: Vec<char>| x@)
}

/// `parts.get(k)`.
pub open spec fn part(parts: Seq<Seq<char>>, k: int) -> Option<Seq<char>> {
    if 0 <= k < parts.len() {
        Some(parts[k])
    } else {
        None
    }
}

pub open spec fn u32_of(o: Option<nat>) -> Option<u32> {
    match o {
        Some(v) => Some(v as u32),
        None => None,
    }
}

/// `s.trim().parse::<u32>()`.
pub open spec fn trimmed_u32(s: Seq<char>) -> Option<u32> {
    u32_of(parse_unsigned(trim(s), u32::MAX as nat))
}

/// `s.trim().parse::<u64>()`.
pub open spec fn trimmed_u64(s: Seq<char>) -> Option<u64> {
    match parse_unsigned(trim(s), u64::MAX as nat) {
        Some(v) => Some(v as u64),
        None => None,
    }
}

/// `s.trim().parse::<i32>()`.
pub open spec fn trimmed_i32(s: Seq<char>) -> Option<i32> {
    match parse_signed(trim(s), i32::MAX as nat) {
        Some(v) => Some(v as i32),
        None => None,
    }
}

/// `parts.get(k)?.trim().parse::<u32>()`.
pub open spec fn part_u32(parts: Seq<Seq<char>>, k: int) -> Option<u32> {
    match part(parts, k) {
        Some(p) => trimmed_u32(p),
        None => None,
    }
}

pub open spec fn part_u64(parts: Seq<Seq<char>>, k: int) -> Option<u64> {
    match part(parts, k) {
        Some(p) => trimmed_u64(p),
        None => None,
    }
}

pub open spec fn part_i32(parts: Seq<Seq<char>>, k: int) -> Option<i32> {
    match part(parts, k) {
        Some(p) => trimmed_i32(p),
        None => None,
    }
}

pub fn trimmed_u32_exec(s: &[char]) -> (r: Option<u32>)
    ensures
        r == trimmed_u32(s@),
{
    let t = trim_ws(s);
    parse_u32(t.as_slice())
}

pub fn trimmed_u64_exec(s: &[char]) -> (r: Option<u64>)
    ensures
        r == trimmed_u64(s@),
{
    let t = trim_ws(s);
    parse_u64(t.as_slice())
}

pub fn trimmed_i32_exec(s: &[char]) -> (r: Option<i32>)
    ensures
        r == trimmed_i32(s@),
{
    let t = trim_ws(s);
    parse_i32(t.as_slice())
}

pub fn part_u32_exec(parts: &Vec<Vec<char>>, k: usize) -> (r: Option<u32>)
    ensures
        r == part_u32(views(parts@), k as int),
{
    if k < parts.len() {
        assert(views(parts@)[k as int] == parts@[k as int]@);
        trimmed_u32_exec(parts[k].as_slice())
    } else {
        None
    }
}

pub fn part_u64_exec(parts: &Vec<Vec<char>>, k: usize) -> (r: Option<u64>)
    ensures
        r == part_u64(views(parts@), k as int),
{
    if k < parts.len() {
        assert(views(parts@)[k as int] == parts@[k as int]@);
        trimmed_u64_exec(parts[k].as_slice())
    } else {
        None
    }
}

pub fn part_i32_exec(parts: &Vec<Vec<char>>, k: usize) -> (r: Option<i32>)
    ensures
        r == part_i32(views(parts@), k as int),
{
    if k < parts.len() {
        assert(views(parts@)[k as int] == parts@[k as int]@);
        trimmed_i32_exec(parts[k].as_slice())
    } else {
        None
    }
}

/// `parts.get(k)?.trim()`.
pub open spec fn part_trim(parts: Seq<Seq<char>>, k: int) -> Option<Seq<char>> {
    match part(parts, k) {
        Some(p) => Some(trim(p)),
        None => None,
    }
}

pub fn part_trim_exec(parts: &Vec<Vec<char>>, k: usize) -> (r: Option<Vec<char>>)
    ensures
        r matches Some(v) ==> part_trim(views(parts@), k as int) == Some(v@),
        r is None ==> part_trim(views(parts@), k as int) is None,
{
    if k < parts.len() {
        assert(views(parts@)[k as int] == parts@[k as int]@);
        Some(trim_ws(parts[k].as_slice()))
    } else {
        None
    }
}

// ============================================================
// Quoted strings
// ============================================================

/// The `n`th (0-indexed) double-quoted string of `t`.
pub open spec fn quoted_nth(t: Seq<char>, n: nat) -> Option<Seq<char>>
    decreases t.len(),
{
    if t.len() == 0 {
        None
    } else {
        match find(t, seq!['"']) {
            None => None,
            Some(a) => if 0 <= a < t.len() {
                let rest = t.skip(a + 1);
                match find(rest, seq!['"']) {
                    None => None,
                    Some(b) => if 0 <= b < rest.len() {
                        if n == 0 {
                            Some(rest.take(b))
                        } else {
                            quoted_nth(rest.skip(b + 1), (n - 1) as nat)
                        }
                    } else {
                        None
                    },
                }
            } else {
                None
            },
        }
    }
}

fn quoted_from(t: &[char], pos: usize, n: usize) -> (r: Option<Vec<char>>)
    requires
        pos <= t@.len(),
    ensures
        r matches Some(v) ==> quoted_nth(t@.skip(pos as int), n as nat) == Some(v@),
        r is None ==> quoted_nth(t@.skip(pos as int), n as nat) is None,
    decreases t@.len() - pos,
{
    let ghost tt = t@.skip(pos as int);
    if pos == t.len() {
        return None;
    }
    let rest0 = copy_range(t, pos, t.len());
    assert(rest0@ =~= tt);
    let a = match find_char(rest0.as_slice(), '"') {
        Some(a) => a,
        None => return None,
    };
    proof {
        crate::text::lemma_find_single_pub(tt, '"');
    }
    let s1 = pos + a + 1;
    let rest1 = copy_range(t, s1, t.len());
    assert(rest1@ =~= tt.skip(a + 1));
    let b = match find_char(rest1.as_slice(), '"') {
        Some(b) => b,
        None => return None,
    };
    proof {
        crate::text::lemma_find_single_pub(rest1@, '"');
    }
    if n == 0 {
        let v = copy_range(t, s1, s1 + b);
        assert(v@ =~= rest1@.take(b as int));
        Some(v)
    } else {
        assert(rest1@.skip(b + 1) =~= t@.skip(s1 + b + 1));
        quoted_from(t, s1 + b + 1, n - 1)
    }
}

/// Extract the `n`th (0-indexed) quoted string from text.
pub fn extract_quoted_string(text: &[char], n: usize) -> (r: Option<Vec<char>>)
    ensures
        r matches Some(v) ==> quoted_nth(text@, n as nat) == Some(v@),
        r is None ==> quoted_nth(text@, n as nat) is None,
{
    assert(text@.skip(0) =~= text@);
    quoted_from(text, 0, n)
}

// ============================================================
// Skill blocks
// ============================================================

/// The value of `key` in a `{key=value,...}` block: the text after the
/// first occurrence of `key` up to the next `','` or `'}'`.
pub open spec fn block_field(block: Seq<char>, key: Seq<char>) -> Option<Seq<char>> {
    match after(block, key) {
        None => None,
        Some(rest) => Some(rest.take(field_end(rest) as int)),
    }
}

/// Position of the first `','` or `'}'` (or the length).
pub open spec fn field_end(s: Seq<char>) -> nat
    decreases s.len(),
{
    if s.len() == 0 {
        0
    } else if s[0] == ',' || s[0] == '}' {
        0
    } else {
        1 + field_end(s.drop_first())
    }
}

proof fn lemma_field_end(s: Seq<char>)
    ensures
        field_end(s) <= s.len(),
        forall|j: int| 0 <= j < field_end(s) ==> s[j] != ',' && s[j] != '}',
        field_end(s) < s.len() ==> (s[field_end(s) as int] == ',' || s[field_end(
            s,
        ) as int] == '}'),
    decreases s.len(),
{
    if s.len() > 0 && !(s[0] == ',' || s[0] == '}') {
        lemma_field_end(s.drop_first());
        assert forall|j: int| 0 <= j < field_end(s) implies s[j] != ',' && s[j] != '}' by {
            if j > 0 {
                assert(s[j] == s.drop_first()[j - 1]);
            }
        }
    }
}

pub fn extract_block_field(block: &[char], key: &str) -> (r: Option<Vec<char>>)
    ensures
        r matches Some(v) ==> block_field(block@, key@) == Some(v@),
        r is None ==> block_field(block@, key@) is None,
{
    let rest = match after_str(block, key) {
        Some(r) => r,
        None => return None,
    };
    let mut e: usize = 0;
    proof {
        lemma_field_end(rest@);
    }
    while e < rest.len() && rest[e] != ',' && rest[e] != '}'
        invariant
            e <= field_end(rest@),
            field_end(rest@) <= rest@.len(),
            forall|j: int| 0 <= j < field_end(rest@) ==> rest@[j] != ',' && rest@[j] != '}',
            field_end(rest@) < rest@.len() ==> (rest@[field_end(rest@) as int] == ','
                || rest@[field_end(rest@) as int] == '}'),
        decreases rest.len() - e,
    {
        e += 1;
    }
    let v = copy_range(rest.as_slice(), 0, e);
    assert(v@ =~= rest@.take(e as int));
    Some(v)
}

pub open spec fn block_u32(block: Seq<char>, key: Seq<char>) -> Option<u32> {
    match block_field(block, key) {
        Some(v) => u32_of(parse_unsigned(v, u32::MAX as nat)),
        None => None,
    }
}

/// One `{type=X,raw=R,bonus=B,xp=X,tnl=T,max=M}` block.
pub open spec fn skill_block(block: Seq<char>) -> Option<SkillV> {
    match (
        block_field(block, "type="@),
        block_u32(block, "raw="@),
        block_u32(block, "bonus="@),
        block_u32(block, "xp="@),
        block_field(block, "tnl="@),
        block_u32(block, "max="@),
    ) {
        (Some(t), Some(raw), Some(bonus), Some(xp), Some(tnl), Some(max)) => match parse_signed(
            tnl,
            i32::MAX as nat,
        ) {
            Some(tv) => Some(
                SkillV { skill_type: t, raw, bonus, xp, tnl: tv as i32, max },
            ),
            None => None,
        },
        _ => None,
    }
}

fn block_u32_exec(block: &[char], key: &str) -> (r: Option<u32>)
    ensures
        r == block_u32(block@, key@),
{
    match extract_block_field(block, key) {
        Some(v) => parse_u32(v.as_slice()),
        None => None,
    }
}

/// Parse a single `{type=X,raw=R,bonus=B,xp=X,tnl=T,max=M}` block.
pub fn parse_skill_block(block: &[char]) -> (r: Option<SkillSnapshot>)
    ensures
        r matches Some(s) ==> skill_block(block@) == Some(s.kv()),
        r is None ==> skill_block(block@) is None,
{
    let t = extract_block_field(block, "type=");
    let raw = block_u32_exec(block, "raw=");
    let bonus = block_u32_exec(block, "bonus=");
    let xp = block_u32_exec(block, "xp=");
    let tnl = extract_block_field(block, "tnl=");
    let max = block_u32_exec(block, "max=");
    match (t, raw, bonus, xp, tnl, max) {
        (Some(t), Some(raw), Some(bonus), Some(xp), Some(tnl), Some(max)) => {
            match parse_i32(tnl.as_slice()) {
                Some(tv) => Some(
                    SkillSnapshot {
                        skill_type: string_of(t.as_slice()),
                        raw,
                        bonus,
                        xp,
                        tnl: tv,
                        max,
                    },
                ),
                None => None,
            }
        },
        _ => None,
    }
}

} // verus!
