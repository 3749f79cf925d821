//! Verified core of gai, a git and LLM assisted commit tool: diff bookkeeping,
//! commit message parsing and rendering, request building and configuration.
pub mod text;
pub mod errors;
pub mod diffs;
pub mod status;
pub mod log;
pub mod consts;
pub mod provider;
pub mod config;
pub mod request;
pub mod rules;
pub mod graph;
pub mod assoc;
pub mod repo;
pub mod response;
pub mod print;
pub mod args;
pub mod cli;
pub mod tui;
pub mod find;
pub mod opts;
pub mod branch;
pub mod state;
pub mod gaigit;
pub mod gitdiff;
pub mod commit;
pub mod plan;
pub mod actions;
pub mod tabs;
pub mod rebase;
pub mod commitflow;
