//! The nginx dialect.

use vstd::prelude::*;
use crate::vhost::{copy_strings, Patterns, VhostDiscoveryConfig};

verus! {

/// Matches the line that opens a `server` block, unless a `#` stands before it.
pub const NGINX_SECTION_START: &'static str = "(?:^|^[^#]+)server[\\s\t]+\\{";

/// Matches a `return 301` to an `http` or `https` URL.
pub const NGINX_REDIRECT: &'static str = "^[\t\\s]*return[\\s\\t]+301[\\s\t]+http.*[\\s\t]*$";

/// Matches a `listen` directive: an optional IPv4 address and a colon, the
/// port in the group `port`, then optional `ssl` and `http2` flags.
pub const NGINX_PORT: &'static str =
    "^[\\s\t]*listen[\\s\t]+(\\d{1,3}\\.\\d{1,3}\\.\\d{1,3}\\.\\d{1,3}:)?(?P<port>\\d+)[\\s\t]*[ssl\\s|http2\\s]*;.*$";

/// Matches a `server_name` directive, unless a `#` stands before it; its
/// first group holds the names.
pub const NGINX_DOMAIN: &'static str = "(?:^|^[^#]+)server_name[\\s\t]+([a-z0-9.\\s\\-]+);";

/// The four patterns of the nginx dialect.
pub open spec fn nginx_patterns() -> Patterns {
    Patterns {
        section_start: NGINX_SECTION_START@,
        redirect_to_url: NGINX_REDIRECT@,
        port: NGINX_PORT@,
        domain: NGINX_DOMAIN@,
    }
}

/// The nginx dialect, reading the files with the given endings.
pub fn get_nginx_discovery_config(include_subdirs: bool, file_extensions: &Vec<String>) -> (config:
    VhostDiscoveryConfig)
    ensures
        config.patterns() == nginx_patterns(),
        config.include_subdirs == include_subdirs,
        config.file_extensions.deep_view() == file_extensions.deep_view(),
{
    VhostDiscoveryConfig {
        section_start: get_nginx_vhost_section_start_regex(),
        redirect_to_url: get_nginx_redirect_with_301_regex(),
        port: get_nginx_vhost_port_regex(),
        domain: get_domain_search_regex_for_nginx_vhost(),
        include_subdirs,
        file_extensions: copy_strings(file_extensions),
    }
}

/// The pattern for the `server_name` directive.
pub fn get_domain_search_regex_for_nginx_vhost() -> (pattern: String)
    ensures
        pattern@ == NGINX_DOMAIN@,
{
    NGINX_DOMAIN.to_owned()
}

/// The pattern for the line that opens a `server` block.
pub fn get_nginx_vhost_section_start_regex() -> (pattern: String)
    ensures
        pattern@ == NGINX_SECTION_START@,
{
    NGINX_SECTION_START.to_owned()
}

/// The pattern for a `return 301` redirect.
pub fn get_nginx_redirect_with_301_regex() -> (pattern: String)
    ensures
        pattern@ == NGINX_REDIRECT@,
{
    NGINX_REDIRECT.to_owned()
}

/// The pattern for the `listen` directive.
pub fn get_nginx_vhost_port_regex() -> (pattern: String)
    ensures
        pattern@ == NGINX_PORT@,
{
    NGINX_PORT.to_owned()
}

} // verus!
