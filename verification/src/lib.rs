//! Verified core of the Phylum command line client: risk filters, API
//! routes, extension manifests and permissions, sandbox exceptions, paths,
//! text formatting, and the decisions of its commands.

pub mod text;
pub mod filter;
pub mod api;
pub mod auth;
pub mod exit_code;
pub mod paths;
pub mod dirs;
pub mod permissions;
pub mod extension;
pub mod config;
pub mod markdown;
pub mod ninja;
pub mod uninstall;
pub mod format;
pub mod deno_error;
pub mod report;
pub mod fs_compare;
pub mod analyze;
pub mod exception;
pub mod project_update;
pub mod module_loader;
pub mod init;
pub mod lockfile;
pub mod tokens;
pub mod firewall;
pub mod groups;
