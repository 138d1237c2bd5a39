//! Verified core of a word-count utility.
//!
//! Given the bytes of a text source, [`count`] measures it: lines, words,
//! bytes and decoded characters. [`resolve_config`] turns raw command-line
//! flags into a validated [`Config`], and [`run`] renders the report lines
//! for a whole batch of sources, including the aggregate total line that a
//! multi-source run ends with.
pub mod config;
pub mod decoding;
pub mod fields;
pub mod lines;
pub mod measure;
pub mod orchestrate;
pub mod words;

pub use config::Config;
pub use config::ConfigError;
pub use config::resolve_config;
pub use fields::format_field;
pub use measure::DecodingError;
pub use measure::FileInfo;
pub use measure::count;
pub use orchestrate::RunOutput;
pub use orchestrate::SourceOutcome;
pub use orchestrate::run;
