//! Build-and-publish core of a static site generator.
//!
//! The crate turns compiled markup pages into link-consistent HTML, decides how
//! each embedded vector image is encoded, and lays out the tree that is
//! committed and pushed as the published site. Every function carries a
//! contract over a mathematical model of its data, checked by Verus.

pub mod cli;
pub mod config;
pub mod config_defaults;
pub mod content;
pub mod date;
pub mod diagnostics;
pub mod image;
pub mod init;
pub mod link;
pub mod log;
pub mod markup;
pub mod orchestrate;
pub mod padding;
pub mod page;
pub mod publish;
pub mod rewrite;
pub mod rss;
pub mod serve;
pub mod settings;
pub mod sitemap;
pub mod size;
pub mod slug;
pub mod snapshot;
pub mod stability;
pub mod text;
pub mod watch;
