//! Resolution of informal repository references into canonical identities,
//! transport URLs, local paths and configuration profiles.

pub mod application;
pub mod config;
pub mod exclude;
pub mod git;
pub mod grammar;
pub mod path;
pub mod platform;
pub mod profile;
pub mod pattern;
pub mod root;
pub mod rule;
pub mod search;
pub mod shell;
pub mod sync;
pub mod text;
pub mod url;
