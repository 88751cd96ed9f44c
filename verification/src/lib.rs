//! Configuration resolution for a pluggable linter: a JSON configuration
//! document is parsed into a rule activation table and plugin settings, and
//! an override pass tunes or silences rules of a caller-owned active set.

pub mod config;
pub mod errors;
pub mod json;
pub mod overrides;
pub mod render;
pub mod rule_name;
pub mod settings;
pub mod severity;
pub mod strutil;
