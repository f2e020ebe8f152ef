//! Mirrors of remote repositories: how a locator names its mirror, how far a mirror has
//! moved from its upstream, and how a search over the mirrored trees reports its matches.

pub mod cache;
pub mod config;
pub mod git;
pub mod git_url;
pub mod github;
pub mod history;
pub mod grep;
pub mod infect;
pub mod mirror;
pub mod status;
pub mod text;
