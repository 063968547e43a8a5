//! Verified core of a Project: Gorgon log companion: log-line parsing,
//! report parsing, survey bookkeeping types and timestamp resolution.

pub mod text;
pub mod calendar;
pub mod stall_year_resolver;
pub mod report_stats;
pub mod player_events;
pub mod log_fields;
pub mod decimal;
pub mod log_events;
pub mod activity;
pub mod player_event_parser;
pub mod parser_laws;
pub mod survey_types;
pub mod survey_logic;
pub mod survey_records;
pub mod settings;
pub mod replay;
pub mod order;
pub mod setup;
pub mod revenue;
pub mod shop;
pub mod inventory;
