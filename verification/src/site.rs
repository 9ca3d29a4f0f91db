//! From a virtual host to the site that the monitoring system is told of.

use vstd::prelude::*;
use vstd::string::StringExecFns;
use crate::decimal::{decimal_string, decimal_text};
use crate::domain::{HostModel, Site, SiteModel, VirtualHost};
use crate::text::chars_of;
use crate::{DEFAULT_HTTPS_PORT, DEFAULT_HTTP_PORT};

verus! {

/// The URL under which a domain is reached on a port: `http://` and the
/// domain on port 80, `https://` and the domain on port 443, and on any
/// other port `http://`, the domain, a colon and the port.
pub open spec fn url_of(domain: Seq<char>, port: int) -> Seq<char> {
    if port == DEFAULT_HTTP_PORT {
        "http://"@ + domain
    } else if port == DEFAULT_HTTPS_PORT {
        "https://"@ + domain
    } else {
        "http://"@ + domain + ":"@ + decimal_text(port)
    }
}

/// The display name of a domain on a port: the domain and `_http` on port
/// 80, the bare domain on port 443, and on any other port the domain, a
/// colon and the port.
pub open spec fn site_name_of(domain: Seq<char>, port: int) -> Seq<char> {
    if port == DEFAULT_HTTP_PORT {
        domain + "_http"@
    } else if port == DEFAULT_HTTPS_PORT {
        domain
    } else {
        domain + ":"@ + decimal_text(port)
    }
}

/// The site of a host.
pub open spec fn site_of(host: HostModel) -> SiteModel {
    SiteModel { name: site_name_of(host.domain, host.port), url: url_of(host.domain, host.port) }
}

/// The domain begins with `www.`, its letters in either case.
pub open spec fn is_www_domain(domain: Seq<char>) -> bool {
    &&& domain.len() >= 4
    &&& (domain[0] == 'w' || domain[0] == 'W')
    &&& (domain[1] == 'w' || domain[1] == 'W')
    &&& (domain[2] == 'w' || domain[2] == 'W')
    &&& domain[3] == '.'
}

/// The test that a host passes where its domain is wanted: every domain
/// where those with `www.` are included, and otherwise those without it.
pub open spec fn is_wanted(include_domains_with_www: bool) -> spec_fn(HostModel) -> bool {
    |host: HostModel| include_domains_with_www || !is_www_domain(host.domain)
}

/// The sites of the hosts whose domain is wanted, in the order of the hosts.
pub open spec fn sites_of(hosts: Seq<HostModel>, include_domains_with_www: bool) -> Seq<SiteModel> {
    hosts.filter(is_wanted(include_domains_with_www)).map_values(|host: HostModel| site_of(host))
}

/// Where the domains with `www.` are included, every host has its site.
pub proof fn lemma_all_sites_with_www(hosts: Seq<HostModel>)
    ensures
        sites_of(hosts, true) == hosts.map_values(|host: HostModel| site_of(host)),
{
    lemma_filter_keeps_wanted(hosts);
}

/// Where the domains with `www.` are included, no host is left out.
pub proof fn lemma_filter_keeps_wanted(hosts: Seq<HostModel>)
    ensures
        hosts.filter(is_wanted(true)) == hosts,
    decreases hosts.len(),
{
    reveal(Seq::filter);
    if hosts.len() > 0 {
        lemma_filter_keeps_wanted(hosts.drop_last());
        assert(hosts.drop_last().push(hosts.last()) =~= hosts);
    }
}

/// Where the domains with `www.` are not included, no site of such a domain
/// is given, and the sites of all other hosts are.
pub proof fn lemma_sites_without_www(hosts: Seq<HostModel>, host: HostModel)
    ensures
        hosts.filter(is_wanted(false)).contains(host) <==> hosts.contains(host) && !is_www_domain(
            host.domain,
        ),
{
    let wanted = is_wanted(false);
    let kept = hosts.filter(wanted);
    if kept.contains(host) {
        let k = choose|k: int| 0 <= k < kept.len() && kept[k] == host;
        hosts.lemma_filter_pred(wanted, k);
        hosts.lemma_filter_contains_rev(wanted, host);
    }
    if hosts.contains(host) && !is_www_domain(host.domain) {
        let i = choose|i: int| 0 <= i < hosts.len() && hosts[i] == host;
        hosts.lemma_filter_contains(wanted, i);
    }
}

/// Tests whether the domain begins with `www.`, its letters in either case.
pub fn domain_starts_with_www(domain: &str) -> (found: bool)
    ensures
        found == is_www_domain(domain@),
{
    let chars = chars_of(domain);
    chars.len() >= 4 && (chars[0] == 'w' || chars[0] == 'W') && (chars[1] == 'w' || chars[1]
        == 'W') && (chars[2] == 'w' || chars[2] == 'W') && chars[3] == '.'
}

/// The URL under which `domain` is reached on `vhost_port`.
pub fn get_url(domain: &str, vhost_port: i32) -> (url: String)
    ensures
        url@ == url_of(domain@, vhost_port as int),
{
    if vhost_port == DEFAULT_HTTP_PORT {
        let mut url = String::from_str("http://");
        url.append(domain);
        url
    } else if vhost_port == DEFAULT_HTTPS_PORT {
        let mut url = String::from_str("https://");
        url.append(domain);
        url
    } else {
        let mut url = String::from_str("http://");
        url.append(domain);
        url.append(":");
        let port_text = decimal_string(vhost_port);
        url.append(port_text.as_str());
        url
    }
}

/// The site of `vhost`.
pub fn get_domain_from_vhost(vhost: &VirtualHost) -> (site: Site)
    ensures
        site@ == site_of(vhost@),
{
    let url = get_url(vhost.domain.as_str(), vhost.port);
    Site { name: get_site_name(vhost.domain.as_str(), vhost.port), url }
}

/// The display name of `domain` on `port`.
pub fn get_site_name(domain: &str, port: i32) -> (name: String)
    ensures
        name@ == site_name_of(domain@, port as int),
{
    if port == DEFAULT_HTTP_PORT {
        let mut name = String::from_str(domain);
        name.append("_http");
        name
    } else if port == DEFAULT_HTTPS_PORT {
        String::from_str(domain)
    } else {
        let mut name = String::from_str(domain);
        name.append(":");
        let port_text = decimal_string(port);
        name.append(port_text.as_str());
        name
    }
}

/// The sites of the hosts, in their order. Where `include_domains_with_www`
/// is not set, the hosts whose domain begins with `www.` are left out.
pub fn get_domains_from_vhosts(vhosts: Vec<VirtualHost>, include_domains_with_www: bool) -> (sites: Vec<
    Site,
>)
    ensures
        sites.deep_view() == sites_of(vhosts.deep_view(), include_domains_with_www),
{
    let ghost hosts = vhosts.deep_view();
    let ghost wanted = is_wanted(include_domains_with_www);
    let ghost to_site = |host: HostModel| site_of(host);
    let mut sites: Vec<Site> = Vec::new();
    let mut i: usize = 0;
    proof {
        reveal(Seq::filter);
    }
    while i < vhosts.len()
        invariant
            i <= vhosts.len(),
            hosts == vhosts.deep_view(),
            wanted == is_wanted(include_domains_with_www),
            to_site == (|host: HostModel| site_of(host)),
            sites.deep_view() == hosts.take(i as int).filter(wanted).map_values(to_site),
        decreases vhosts.len() - i,
    {
        let ghost kept = hosts.take(i as int).filter(wanted);
        proof {
            assert(hosts.take(i + 1) =~= hosts.take(i as int).push(hosts[i as int]));
            hosts.take(i as int).lemma_filter_push(hosts[i as int], wanted);
        }
        if include_domains_with_www || !domain_starts_with_www(vhosts[i].domain.as_str()) {
            let site = get_domain_from_vhost(&vhosts[i]);
            sites.push(site);
            assert(kept.push(hosts[i as int]).map_values(to_site) =~= kept.map_values(to_site).push(
                site_of(hosts[i as int]),
            ));
        }
        i += 1;
    }
    assert(hosts.take(i as int) =~= hosts);
    sites
}

} // verus!
