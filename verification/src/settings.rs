//! Settings types that need no file system: chat watch rules, the defaults
//! of individual settings, and the list of known servers.

use vstd::prelude::*;

verus! {

/// How the conditions of a watch rule combine.
#[derive(Debug, Clone, Copy, PartialEq, Eq, Structural)]
pub enum ConditionMatch {
    /// All conditions must match.
    All,
    /// Any single condition is enough.
    Any,
}

impl Default for ConditionMatch {
    fn default() -> (r: Self)
        ensures
            r == ConditionMatch::Any,
    {
        ConditionMatch::Any
    }
}

/// A rule that fires when its conditions match an incoming chat message.
#[derive(Debug, Clone)]
pub struct WatchRule {
    pub id: u64,
    pub name: String,
    pub enabled: bool,
    /// Channels to match against; `None` means all channels.
    pub channels: Option<Vec<String>>,
    pub match_mode: ConditionMatch,
    pub conditions: Vec<WatchCondition>,
    pub notify: WatchNotifyConfig,
}

/// One condition of a watch rule.
#[derive(Debug, Clone)]
pub enum WatchCondition {
    /// Case-insensitive substring of the message body or item link names.
    ContainsText(String),
    /// Case-insensitive match on item link names only.
    ContainsItemLink(String),
    /// Case-insensitive exact match on the sender.
    FromSender(String),
}

/// How to notify the user when a watch rule fires.
#[derive(Debug, Clone, Copy, PartialEq, Eq, Structural)]
pub struct WatchNotifyConfig {
    pub sound: bool,
    pub toast: bool,
    pub highlight: bool,
}

pub open spec fn strings_view(v: Seq<String>) -> Seq<Seq<char>> {
    v.map_values(|s: String| s@)
}

/// The known Project Gorgon servers.
pub open spec fn known_servers() -> Seq<Seq<char>> {
    seq!["Dreva"@, "Arisetsu"@, "Laeth"@, "Miraverre"@, "Strekios"@]
}

/// The list of known Project Gorgon servers.
pub fn get_server_list() -> (r: Vec<String>)
    ensures
        strings_view(r@) == known_servers(),
{
    let r = vec![
        "Dreva".to_string(),
        "Arisetsu".to_string(),
        "Laeth".to_string(),
        "Miraverre".to_string(),
        "Strekios".to_string(),
    ];
    assert(strings_view(r@) =~= known_servers());
    r
}

/// Chat channels excluded from logging by default.
pub open spec fn default_excluded() -> Seq<Seq<char>> {
    seq!["System"@, "Error"@, "Emotes"@, "Action Emotes"@, "NPC Chatter"@, "Status"@, "Combat"@]
}

pub fn default_excluded_channels() -> (r: Vec<String>)
    ensures
        strings_view(r@) == default_excluded(),
{
    let r = vec![
        "System".to_string(),
        "Error".to_string(),
        "Emotes".to_string(),
        "Action Emotes".to_string(),
        "NPC Chatter".to_string(),
        "Status".to_string(),
        "Combat".to_string(),
    ];
    assert(strings_view(r@) =~= default_excluded());
    r
}

/// Chat retention has no default limit.
pub fn default_chat_retention_days() -> (r: Option<u32>)
    ensures
        r is None,
{
    None
}

pub fn default_true() -> (r: bool)
    ensures
        r,
{
    true
}

/// Seconds between checks of the Reports folder.
pub fn default_report_watch_interval() -> (r: u32)
    ensures
        r == 10,
{
    10
}

pub fn default_timestamp_display_mode() -> (r: String)
    ensures
        r@ == "local"@,
{
    "local".to_string()
}

pub fn default_market_price_mode() -> (r: String)
    ensures
        r@ == "universal"@,
{
    "universal".to_string()
}

pub fn default_item_valuation_mode() -> (r: String)
    ensures
        r@ == "highest_market_vendor"@,
{
    "highest_market_vendor".to_string()
}

} // verus!
