//! AgentDictate's dictation logic: the stages of a dictation job and the
//! rules that move it, History paging and transcript search, usage totals,
//! the daemon's startup cleanup, schema migrations and socket protocol, and
//! the view models of its windows.

pub mod text;
pub mod job;
pub mod ports;
pub mod history;
pub mod history_search;
pub mod search_cursor;
pub mod usage;
pub mod retention;
pub mod pipeline;
pub mod startup_cleanup;
pub mod migrations;
pub mod observer;
pub mod maintenance;
pub mod external_dictation;
pub mod legacy_replacements;
pub mod replacement_rules;
pub mod settings_store;
pub mod ipc;
pub mod ui;
