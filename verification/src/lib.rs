//! Discovery of virtual hosts (a domain served on a port) in the text of
//! nginx and Apache configuration files, and the preparation of the sites
//! found for a monitoring system: duplicates are dropped, unwanted domains
//! and ports are filtered out, and every remaining host gets a display name
//! and a URL.
//!
//! The library works on plain values. A configuration file is the list of
//! its lines, a directory is a snapshot of its entries, and a search pattern
//! is the text of a regular expression. Reading the file system, the command
//! line and the log are left to the caller.

use vstd::prelude::*;

pub mod text;
pub mod decimal;
pub mod pattern;
pub mod vhost;
pub mod nginx;
pub mod apache;
pub mod scan;
pub mod directory;
pub mod webserver;
pub mod filter;
pub mod site;
pub mod cli;
pub mod domain;

verus! {

/// The port of plain HTTP.
pub const DEFAULT_HTTP_PORT: i32 = 80;

/// The port of HTTP over TLS.
pub const DEFAULT_HTTPS_PORT: i32 = 443;

} // verus!
