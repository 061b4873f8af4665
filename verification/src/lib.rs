//! Verified core of the dodeca static site generator.

pub mod text;
pub mod types;
pub mod db;
pub mod links;
pub mod external_links;
pub mod tui;
pub mod logging;
pub mod self_update;
pub mod render;
pub mod image;
pub mod cas;
pub mod highlight;
pub mod theme_resolver;
pub mod rules;
pub mod init;
pub mod boot_state;
pub mod build_stats;
pub mod queries;
pub mod forwarding;
pub mod cells;
pub mod registry;
pub mod activity;
pub mod search;
pub mod static_site;
pub mod serve_control;
pub mod plugins;
pub mod inputs;
pub mod watch;
pub mod cli;
pub mod theme;
