//! Data types of the survey tracker, their database text forms, and the
//! zone encoded in a survey map's internal name.

use vstd::prelude::*;
use crate::text::{
    CharClass, chars_of, eq_str, strip_prefix, strip_prefix_str, string_of, trim_end_by,
    trim_end_class,
};

verus! {

/// What started a session.
#[derive(Debug, Clone, Copy, PartialEq, Eq, Structural)]
pub enum SessionStartTrigger {
    /// The user started it.
    Manual,
    /// The first survey-map craft; ends when everything crafted is consumed.
    Crafting,
    /// The first survey-map use with no session active.
    FirstUse,
}

pub open spec fn trigger_text(t: SessionStartTrigger) -> Seq<char> {
    match t {
        SessionStartTrigger::Manual => "manual"@,
        SessionStartTrigger::Crafting => "crafting"@,
        SessionStartTrigger::FirstUse => "first_use"@,
    }
}

pub open spec fn trigger_of(s: Seq<char>) -> Option<SessionStartTrigger> {
    if s == "manual"@ {
        Some(SessionStartTrigger::Manual)
    } else if s == "crafting"@ {
        Some(SessionStartTrigger::Crafting)
    } else if s == "first_use"@ {
        Some(SessionStartTrigger::FirstUse)
    } else {
        None
    }
}

impl SessionStartTrigger {
    pub fn as_str(&self) -> (r: &'static str)
        ensures
            r@ == trigger_text(*self),
    {
        match self {
            SessionStartTrigger::Manual => "manual",
            SessionStartTrigger::Crafting => "crafting",
            SessionStartTrigger::FirstUse => "first_use",
        }
    }

    pub fn from_str(s: &str) -> (r: Option<Self>)
        ensures
            r == trigger_of(s@),
    {
        let c = chars_of(s);
        if eq_str(c.as_slice(), "manual") {
            Some(SessionStartTrigger::Manual)
        } else if eq_str(c.as_slice(), "crafting") {
            Some(SessionStartTrigger::Crafting)
        } else if eq_str(c.as_slice(), "first_use") {
            Some(SessionStartTrigger::FirstUse)
        } else {
            None
        }
    }
}

/// Behavioural kind of a survey map use.
#[derive(Debug, Clone, Copy, PartialEq, Eq, Structural)]
pub enum SurveyUseKind {
    Basic,
    Motherlode,
    Multihit,
}

pub open spec fn kind_text(k: SurveyUseKind) -> Seq<char> {
    match k {
        SurveyUseKind::Basic => "basic"@,
        SurveyUseKind::Motherlode => "motherlode"@,
        SurveyUseKind::Multihit => "multihit"@,
    }
}

pub open spec fn kind_of(s: Seq<char>) -> Option<SurveyUseKind> {
    if s == "basic"@ {
        Some(SurveyUseKind::Basic)
    } else if s == "motherlode"@ {
        Some(SurveyUseKind::Motherlode)
    } else if s == "multihit"@ {
        Some(SurveyUseKind::Multihit)
    } else {
        None
    }
}

impl SurveyUseKind {
    pub fn as_str(&self) -> (r: &'static str)
        ensures
            r@ == kind_text(*self),
    {
        match self {
            SurveyUseKind::Basic => "basic",
            SurveyUseKind::Motherlode => "motherlode",
            SurveyUseKind::Multihit => "multihit",
        }
    }

    pub fn from_str(s: &str) -> (r: Option<Self>)
        ensures
            r == kind_of(s@),
    {
        let c = chars_of(s);
        if eq_str(c.as_slice(), "basic") {
            Some(SurveyUseKind::Basic)
        } else if eq_str(c.as_slice(), "motherlode") {
            Some(SurveyUseKind::Motherlode)
        } else if eq_str(c.as_slice(), "multihit") {
            Some(SurveyUseKind::Multihit)
        } else {
            None
        }
    }
}

/// Lifecycle status of one survey use.
#[derive(Debug, Clone, Copy, PartialEq, Eq, Structural)]
pub enum SurveyUseStatus {
    /// Consumed; loot may still arrive.
    PendingLoot,
    /// Closed with loot.
    Completed,
    /// Closed without loot.
    Aborted,
    Unknown,
}

pub open spec fn status_text(s: SurveyUseStatus) -> Seq<char> {
    match s {
        SurveyUseStatus::PendingLoot => "pending_loot"@,
        SurveyUseStatus::Completed => "completed"@,
        SurveyUseStatus::Aborted => "aborted"@,
        SurveyUseStatus::Unknown => "unknown"@,
    }
}

pub open spec fn status_of(s: Seq<char>) -> Option<SurveyUseStatus> {
    if s == "pending_loot"@ {
        Some(SurveyUseStatus::PendingLoot)
    } else if s == "completed"@ {
        Some(SurveyUseStatus::Completed)
    } else if s == "aborted"@ {
        Some(SurveyUseStatus::Aborted)
    } else if s == "unknown"@ {
        Some(SurveyUseStatus::Unknown)
    } else {
        None
    }
}

impl SurveyUseStatus {
    pub fn as_str(&self) -> (r: &'static str)
        ensures
            r@ == status_text(*self),
    {
        match self {
            SurveyUseStatus::PendingLoot => "pending_loot",
            SurveyUseStatus::Completed => "completed",
            SurveyUseStatus::Aborted => "aborted",
            SurveyUseStatus::Unknown => "unknown",
        }
    }

    pub fn from_str(s: &str) -> (r: Option<Self>)
        ensures
            r == status_of(s@),
    {
        let c = chars_of(s);
        if eq_str(c.as_slice(), "pending_loot") {
            Some(SurveyUseStatus::PendingLoot)
        } else if eq_str(c.as_slice(), "completed") {
            Some(SurveyUseStatus::Completed)
        } else if eq_str(c.as_slice(), "aborted") {
            Some(SurveyUseStatus::Aborted)
        } else if eq_str(c.as_slice(), "unknown") {
            Some(SurveyUseStatus::Unknown)
        } else {
            None
        }
    }
}

/// The database text of a trigger reads back as that trigger, and no other
/// trigger has the same text.
pub proof fn law_trigger_text_roundtrip(t: SessionStartTrigger, u: SessionStartTrigger)
    ensures
        trigger_of(trigger_text(t)) == Some(t),
        trigger_text(t) == trigger_text(u) ==> t == u,
{
    reveal_strlit("manual");
    reveal_strlit("crafting");
    reveal_strlit("first_use");
    assert("manual"@.len() == 6 && "crafting"@.len() == 8 && "first_use"@.len() == 9);
}

/// The database text of a kind reads back as that kind, and no other kind
/// has the same text.
pub proof fn law_kind_text_roundtrip(k: SurveyUseKind, l: SurveyUseKind)
    ensures
        kind_of(kind_text(k)) == Some(k),
        kind_text(k) == kind_text(l) ==> k == l,
{
    reveal_strlit("basic");
    reveal_strlit("motherlode");
    reveal_strlit("multihit");
    assert("basic"@.len() == 5 && "motherlode"@.len() == 10 && "multihit"@.len() == 8);
}

/// The database text of a status reads back as that status, and no other
/// status has the same text.
pub proof fn law_status_text_roundtrip(s: SurveyUseStatus, t: SurveyUseStatus)
    ensures
        status_of(status_text(s)) == Some(s),
        status_text(s) == status_text(t) ==> s == t,
{
    reveal_strlit("pending_loot");
    reveal_strlit("completed");
    reveal_strlit("aborted");
    reveal_strlit("unknown");
    assert("pending_loot"@.len() == 12 && "completed"@.len() == 9 && "aborted"@.len() == 7
        && "unknown"@.len() == 7);
    assert("aborted"@[0] != "unknown"@[0]);
}

/// A survey session header (one `survey_sessions` row).
#[derive(Debug, Clone)]
pub struct SurveySession {
    pub id: i64,
    pub character_name: String,
    pub server_name: String,
    pub started_at: String,
    pub ended_at: Option<String>,
    pub start_trigger: SessionStartTrigger,
    /// Set only for crafting-triggered sessions.
    pub crafted_count: Option<u32>,
    pub consumed_count: u32,
    pub notes: Option<String>,
    pub name: Option<String>,
    pub user_started_at: Option<String>,
    pub user_ended_at: Option<String>,
    pub first_craft_at: Option<String>,
    pub last_craft_at: Option<String>,
    pub first_loot_at: Option<String>,
    pub last_loot_at: Option<String>,
}

/// One survey map use (one `survey_uses` row).
#[derive(Debug, Clone)]
pub struct SurveyUse {
    pub id: i64,
    /// Absent when its session was deleted.
    pub session_id: Option<i64>,
    pub character_name: String,
    pub server_name: String,
    pub used_at: String,
    pub map_internal_name: String,
    pub map_display_name: String,
    pub kind: SurveyUseKind,
    pub area: Option<String>,
    pub status: SurveyUseStatus,
    /// Total loot quantity attributed to this use.
    pub loot_qty: u32,
}

/// The zone of a survey map: its internal name after `GeologySurvey` or
/// `MiningSurvey`, with trailing digits and `X`s removed; nothing for other
/// names or when no zone is left.
pub open spec fn zone_of(name: Seq<char>) -> Option<Seq<char>> {
    let rest = match strip_prefix(name, "GeologySurvey"@) {
        Some(r) => Some(r),
        None => strip_prefix(name, "MiningSurvey"@),
    };
    match rest {
        Some(r) => if r.len() == 0 {
            None
        } else {
            let z = trim_end_by(r, CharClass::DigitOrX);
            if z.len() == 0 {
                None
            } else {
                Some(z)
            }
        },
        None => None,
    }
}

/// Parse the zone name out of a survey map's internal name
/// (`GeologySurveyEltibule2` → `Eltibule`).
pub fn parse_zone_from_internal_name(internal_name: &str) -> (r: Option<String>)
    ensures
        match r {
            Some(z) => zone_of(internal_name@) == Some(z@),
            None => zone_of(internal_name@) is None,
        },
{
    let c = chars_of(internal_name);
    let rest = match strip_prefix_str(c.as_slice(), "GeologySurvey") {
        Some(r) => r,
        None => match strip_prefix_str(c.as_slice(), "MiningSurvey") {
            Some(r) => r,
            None => {
                return None;
            },
        },
    };
    if rest.len() == 0 {
        return None;
    }
    let zone = trim_end_class(rest.as_slice(), CharClass::DigitOrX);
    if zone.len() == 0 {
        None
    } else {
        Some(string_of(zone.as_slice()))
    }
}

} // verus!
