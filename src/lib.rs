//! Renders version-controlled blog posts: header parsing, layered metadata
//! resolution, slug and description derivation, template substitution, post
//! and homepage rendering, and RSS feed assembly.

pub mod text;
pub mod config;
pub mod header;
pub mod derive;
pub mod dates;
pub mod template;
pub mod resolve;
pub mod render;
pub mod rss;
pub mod homepage;
pub mod git_log;
pub mod branches;
