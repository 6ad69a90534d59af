//! A STRIDE threat-modeling core: an in-memory model graph, an integrity
//! validator that gates every loaded document, and a rule-driven threat
//! deriver that suggests deduplicated, severity-adjusted candidate threats.

pub mod ai;
pub mod models;
pub mod prompt;
pub mod sse;
pub mod stride;
pub mod text;
pub mod validate;
