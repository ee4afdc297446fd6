//! Report browsing and deep-research report generation: the text
//! processing, configuration rules and orchestration decisions, verified.

pub mod text;
pub mod extract;
pub mod json;
pub mod agent;
pub mod ai_config;
pub mod search_config;
pub mod settings;
pub mod pattern;
pub mod reports;
pub mod detect;
pub mod search_tools;
