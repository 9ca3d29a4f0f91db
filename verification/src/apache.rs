//! The Apache dialect.

use vstd::prelude::*;
use crate::vhost::{copy_strings, Patterns, VhostDiscoveryConfig};

verus! {

/// Matches the line that opens a `<VirtualHost ...:PORT>` block, unless a `#`
/// stands before it; the group `port` holds the port. The same line opens
/// the section and gives the port.
pub const APACHE_PORT: &'static str = "(?:^|^[^#]+)<VirtualHost[\\s\t]+.*:(?P<port>\\d+)>";

/// Matches a `Redirect /` to an `http` or `https` URL, unless a `#` stands
/// before it.
pub const APACHE_REDIRECT: &'static str = "(?:^|^[^#]+)Redirect[\\s\t]+/[\\s\t]+http";

/// Matches a `ServerName` directive that ends the line, unless a `#` stands
/// before it; its first group holds the name.
pub const APACHE_DOMAIN: &'static str = "(?:^|^[^#]+)ServerName[\\s\t]+([a-zA-Z0-9.-]+)$";

/// The four patterns of the Apache dialect.
pub open spec fn apache_patterns() -> Patterns {
    Patterns {
        section_start: APACHE_PORT@,
        redirect_to_url: APACHE_REDIRECT@,
        port: APACHE_PORT@,
        domain: APACHE_DOMAIN@,
    }
}

/// The Apache dialect, reading the files with the given endings.
pub fn get_apache_discovery_config(include_subdirs: bool, file_extensions: &Vec<String>) -> (config:
    VhostDiscoveryConfig)
    ensures
        config.patterns() == apache_patterns(),
        config.include_subdirs == include_subdirs,
        config.file_extensions.deep_view() == file_extensions.deep_view(),
{
    VhostDiscoveryConfig {
        section_start: get_apache_vhost_port_regex(),
        redirect_to_url: get_apache_redirect_to_http_regex(),
        port: get_apache_vhost_port_regex(),
        domain: get_domain_search_regex_for_apache_vhost(),
        include_subdirs,
        file_extensions: copy_strings(file_extensions),
    }
}

/// The pattern for the `ServerName` directive.
pub fn get_domain_search_regex_for_apache_vhost() -> (pattern: String)
    ensures
        pattern@ == APACHE_DOMAIN@,
{
    APACHE_DOMAIN.to_owned()
}

/// The pattern for a `Redirect /` directive.
pub fn get_apache_redirect_to_http_regex() -> (pattern: String)
    ensures
        pattern@ == APACHE_REDIRECT@,
{
    APACHE_REDIRECT.to_owned()
}

/// The pattern for the line that opens a `<VirtualHost>` block.
pub fn get_apache_vhost_port_regex() -> (pattern: String)
    ensures
        pattern@ == APACHE_PORT@,
{
    APACHE_PORT.to_owned()
}

} // verus!
