//! A small deployment pipeline: sync, install and start a release whenever a
//! Git remote changes or a webhook arrives.

pub mod config;
pub mod daemon;
pub mod dashboard;
pub mod deployment;
pub mod digest;
pub mod dry_run;
pub mod env_table;
pub mod layout;
pub mod numbers;
pub mod order;
pub mod recipe;
pub mod releases;
pub mod screen;
pub mod server;
pub mod share;
pub mod source;
pub mod status;
pub mod text;
pub mod toml_text;
pub mod trial;
pub mod webhook;
pub mod wizard;
