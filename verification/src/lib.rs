//! Verified core of the niri-tools scratchpad daemon.
pub mod text;
pub mod numbers;
pub mod seqs;
pub mod strmap;
pub mod config;
pub mod types;
pub mod mode;
pub mod geometry;
pub mod idmap;
pub mod state;
pub mod json;
pub mod error;
pub mod events;
pub mod protocol;
pub mod kdl_doc;
pub mod config_parser;
pub mod scratchpad;
pub mod server;
pub mod notify;
pub mod picker;
pub mod cli;
pub mod style;
pub mod percent;
