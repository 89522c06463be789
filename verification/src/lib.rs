//! Core of a desktop application store: normalized application identifiers,
//! multi-backend catalog merging with deterministic source preference, a
//! generic weighted filter/sort search engine, and a rule-based
//! platform-compatibility classifier.

pub mod app_entry;
pub mod app_id;
pub mod app_info;
pub mod apps;
pub mod appstream;
pub mod category;
pub mod classify;
pub mod compat;
pub mod constants;
pub mod dispatch;
pub mod grid;
pub mod gstreamer;
pub mod pages;
pub mod scroll_context;
pub mod search;
pub mod source;
pub mod stats;
pub mod strutil;
pub mod textquery;
pub mod utils;
