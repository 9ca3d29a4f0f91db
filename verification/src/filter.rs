//! What is left of the discovered hosts: none twice, none on an unwanted
//! port, none whose domain a mask excludes.

use vstd::prelude::*;
use crate::domain::{HostModel, VirtualHost};
use crate::pattern::{pattern_compiles, pattern_matches, regex_is_match};
use crate::{DEFAULT_HTTPS_PORT, DEFAULT_HTTP_PORT};

verus! {

/// A mask excludes a domain where it is not blank, is a regular expression
/// that the matcher accepts, and matches somewhere in the domain.
pub open spec fn mask_excludes(mask: Seq<char>, domain: Seq<char>) -> bool {
    &&& mask.len() > 0
    &&& pattern_compiles(mask)
    &&& pattern_matches(mask, domain)
}

/// One of the masks excludes the domain.
pub open spec fn is_masked(masks: Seq<Seq<char>>, domain: Seq<char>) -> bool {
    exists|i: int| 0 <= i < masks.len() && mask_excludes(#[trigger] masks[i], domain)
}

/// The test that a host passes where no mask excludes its domain.
pub open spec fn passes_masks(masks: Seq<Seq<char>>) -> spec_fn(HostModel) -> bool {
    |host: HostModel| !is_masked(masks, host.domain)
}

/// The hosts whose domain no mask excludes, in their order.
pub open spec fn unmasked(hosts: Seq<HostModel>, masks: Seq<Seq<char>>) -> Seq<HostModel> {
    hosts.filter(passes_masks(masks))
}

/// The hosts that are not marked, in their order. `marked` says of each
/// host, by its position, whether it is marked; a host without a mark of its
/// own counts as not marked.
pub open spec fn without_marked(hosts: Seq<HostModel>, marked: Seq<bool>) -> Seq<HostModel>
    decreases hosts.len(),
{
    if hosts.len() == 0 {
        hosts
    } else {
        let before = without_marked(hosts.drop_last(), marked);
        if hosts.len() <= marked.len() && marked[hosts.len() - 1] {
            before
        } else {
            before.push(hosts.last())
        }
    }
}

/// Port 80 and port 443 are the standard ports.
pub open spec fn is_standard_port(port: int) -> bool {
    port == DEFAULT_HTTP_PORT || port == DEFAULT_HTTPS_PORT
}

/// A host may join the hosts kept so far where it is not among them yet and,
/// unless custom ports are wanted too, stands on a standard port.
pub open spec fn add_permitted(host: HostModel, kept: Seq<HostModel>, include_custom_ports: bool) -> bool {
    &&& include_custom_ports || is_standard_port(host.port)
    &&& !kept.contains(host)
}

/// The hosts taken one by one, each kept where it may join those kept before
/// it: the first of equal hosts stays and the later ones go.
pub open spec fn deduplicated(hosts: Seq<HostModel>, include_custom_ports: bool) -> Seq<HostModel>
    decreases hosts.len(),
{
    if hosts.len() == 0 {
        hosts
    } else {
        let kept = deduplicated(hosts.drop_last(), include_custom_ports);
        if add_permitted(hosts.last(), kept, include_custom_ports) {
            kept.push(hosts.last())
        } else {
            kept
        }
    }
}

/// A host is kept exactly where it occurs among the hosts and its port is
/// wanted.
pub proof fn lemma_deduplicated_contains(
    hosts: Seq<HostModel>,
    include_custom_ports: bool,
    host: HostModel,
)
    ensures
        deduplicated(hosts, include_custom_ports).contains(host) <==> hosts.contains(host) && (
        include_custom_ports || is_standard_port(host.port)),
    decreases hosts.len(),
{
    if hosts.len() > 0 {
        let before = hosts.drop_last();
        let kept = deduplicated(before, include_custom_ports);
        lemma_deduplicated_contains(before, include_custom_ports, host);
        lemma_deduplicated_contains(before, include_custom_ports, hosts.last());
        if hosts.contains(host) {
            let i = choose|i: int| 0 <= i < hosts.len() && hosts[i] == host;
            if i < before.len() {
                assert(before[i] == host);
            }
        }
        if before.contains(host) {
            let i = choose|i: int| 0 <= i < before.len() && before[i] == host;
            assert(hosts[i] == host);
        }
        assert(hosts[hosts.len() - 1] == hosts.last());
        if add_permitted(hosts.last(), kept, include_custom_ports) {
            let grown = kept.push(hosts.last());
            assert(grown[kept.len() as int] == hosts.last());
            if kept.contains(host) {
                let i = choose|i: int| 0 <= i < kept.len() && kept[i] == host;
                assert(grown[i] == host);
            }
            if grown.contains(host) {
                let i = choose|i: int| 0 <= i < grown.len() && grown[i] == host;
                if i < kept.len() {
                    assert(kept[i] == host);
                }
            }
        }
    }
}

/// No host is kept twice.
pub proof fn lemma_deduplicated_no_duplicates(hosts: Seq<HostModel>, include_custom_ports: bool)
    ensures
        deduplicated(hosts, include_custom_ports).no_duplicates(),
    decreases hosts.len(),
{
    if hosts.len() > 0 {
        lemma_deduplicated_no_duplicates(hosts.drop_last(), include_custom_ports);
    }
}

/// A host that occurs among the hosts, once or many times, and whose port is
/// wanted is kept exactly once.
pub proof fn lemma_deduplicated_keeps_one(
    hosts: Seq<HostModel>,
    include_custom_ports: bool,
    host: HostModel,
)
    requires
        hosts.contains(host),
        include_custom_ports || is_standard_port(host.port),
    ensures
        exists|k: int|
            {
                &&& 0 <= k < deduplicated(hosts, include_custom_ports).len()
                &&& #[trigger] deduplicated(hosts, include_custom_ports)[k] == host
                &&& forall|j: int|
                    0 <= j < deduplicated(hosts, include_custom_ports).len() && deduplicated(
                        hosts,
                        include_custom_ports,
                    )[j] == host ==> j == k
            },
{
    let kept = deduplicated(hosts, include_custom_ports);
    lemma_deduplicated_contains(hosts, include_custom_ports, host);
    lemma_deduplicated_no_duplicates(hosts, include_custom_ports);
    let k = choose|k: int| 0 <= k < kept.len() && kept[k] == host;
    assert(kept[k] == host);
}

/// Where custom ports are not wanted, every host that is kept stands on
/// port 80 or on port 443.
pub proof fn lemma_deduplicated_standard_ports(hosts: Seq<HostModel>)
    ensures
        forall|i: int|
            0 <= i < deduplicated(hosts, false).len() ==> is_standard_port(
                (#[trigger] deduplicated(hosts, false)[i]).port,
            ),
    decreases hosts.len(),
{
    if hosts.len() > 0 {
        lemma_deduplicated_standard_ports(hosts.drop_last());
        let kept = deduplicated(hosts.drop_last(), false);
        let all = deduplicated(hosts, false);
        assert forall|i: int| 0 <= i < all.len() implies is_standard_port((#[trigger] all[i]).port) by {
            if i < kept.len() {
                assert(all[i] == kept[i]);
            }
        }
    }
}

/// The hosts that are kept stand in the order in which they first occur: of
/// two kept hosts, the earlier one occurs among the hosts before the first
/// occurrence of the later one.
pub proof fn lemma_deduplicated_order(
    hosts: Seq<HostModel>,
    include_custom_ports: bool,
    a: int,
    b: int,
)
    requires
        0 <= a < b < deduplicated(hosts, include_custom_ports).len(),
    ensures
        exists|i: int, j: int|
            {
                &&& 0 <= i < j < hosts.len()
                &&& #[trigger] hosts[i] == deduplicated(hosts, include_custom_ports)[a]
                &&& #[trigger] hosts[j] == deduplicated(hosts, include_custom_ports)[b]
                &&& forall|k: int|
                    0 <= k < j ==> hosts[k] != deduplicated(hosts, include_custom_ports)[b]
            },
    decreases hosts.len(),
{
    let before = hosts.drop_last();
    let kept = deduplicated(before, include_custom_ports);
    let all = deduplicated(hosts, include_custom_ports);
    if b < kept.len() {
        lemma_deduplicated_order(before, include_custom_ports, a, b);
        let (i, j) = choose|i: int, j: int|
            {
                &&& 0 <= i < j < before.len()
                &&& #[trigger] before[i] == kept[a]
                &&& #[trigger] before[j] == kept[b]
                &&& forall|k: int| 0 <= k < j ==> before[k] != kept[b]
            };
        assert(hosts[i] == all[a] && hosts[j] == all[b]);
        assert forall|k: int| 0 <= k < j implies hosts[k] != all[b] by {
            assert(hosts[k] == before[k]);
        }
    } else {
        let j = hosts.len() - 1;
        assert(all[b] == hosts[j]);
        assert(kept[a] == all[a]);
        assert(kept.contains(all[a]));
        lemma_deduplicated_contains(before, include_custom_ports, all[a]);
        let i = choose|i: int| 0 <= i < before.len() && before[i] == all[a];
        assert(hosts[i] == all[a]);
        assert forall|k: int| 0 <= k < j implies hosts[k] != all[b] by {
            if hosts[k] == all[b] {
                assert(before[k] == all[b]);
                assert(before.contains(all[b]));
                lemma_deduplicated_contains(before, include_custom_ports, all[b]);
            }
        }
    }
}

/// Hosts of which none occurs twice and all stand on wanted ports are kept
/// as they are.
pub proof fn lemma_deduplicated_keeps_clean_list(hosts: Seq<HostModel>, include_custom_ports: bool)
    requires
        hosts.no_duplicates(),
        forall|i: int|
            0 <= i < hosts.len() ==> include_custom_ports || is_standard_port(
                (#[trigger] hosts[i]).port,
            ),
    ensures
        deduplicated(hosts, include_custom_ports) == hosts,
    decreases hosts.len(),
{
    if hosts.len() > 0 {
        let before = hosts.drop_last();
        assert forall|i: int| 0 <= i < before.len() implies include_custom_ports
            || is_standard_port((#[trigger] before[i]).port) by {
            assert(before[i] == hosts[i]);
        }
        lemma_deduplicated_keeps_clean_list(before, include_custom_ports);
        assert(hosts.last() == hosts[hosts.len() - 1]);
        if before.contains(hosts.last()) {
            let i = choose|i: int| 0 <= i < before.len() && before[i] == hosts.last();
            assert(hosts[i] == hosts[hosts.len() - 1]);
        }
        assert(before.push(hosts.last()) =~= hosts);
    }
}

/// Dropping duplicates and unwanted ports a second time changes nothing.
pub proof fn lemma_deduplicated_twice(hosts: Seq<HostModel>, include_custom_ports: bool)
    ensures
        deduplicated(deduplicated(hosts, include_custom_ports), include_custom_ports)
            == deduplicated(hosts, include_custom_ports),
{
    let kept = deduplicated(hosts, include_custom_ports);
    lemma_deduplicated_no_duplicates(hosts, include_custom_ports);
    assert forall|i: int| 0 <= i < kept.len() implies include_custom_ports || is_standard_port(
        (#[trigger] kept[i]).port,
    ) by {
        assert(kept.contains(kept[i]));
        lemma_deduplicated_contains(hosts, include_custom_ports, kept[i]);
    }
    lemma_deduplicated_keeps_clean_list(kept, include_custom_ports);
}

/// A host stays exactly where it occurs among the hosts and no mask excludes
/// its domain.
pub proof fn lemma_unmasked_contains(hosts: Seq<HostModel>, masks: Seq<Seq<char>>, host: HostModel)
    ensures
        unmasked(hosts, masks).contains(host) <==> hosts.contains(host) && !is_masked(
            masks,
            host.domain,
        ),
{
    let passes = passes_masks(masks);
    let kept = hosts.filter(passes);
    if kept.contains(host) {
        let k = choose|k: int| 0 <= k < kept.len() && kept[k] == host;
        hosts.lemma_filter_pred(passes, k);
        hosts.lemma_filter_contains_rev(passes, host);
    }
    if hosts.contains(host) && !is_masked(masks, host.domain) {
        let i = choose|i: int| 0 <= i < hosts.len() && hosts[i] == host;
        hosts.lemma_filter_contains(passes, i);
    }
}

/// Where every mask is blank, no host is excluded.
pub proof fn lemma_blank_masks_exclude_nothing(hosts: Seq<HostModel>, masks: Seq<Seq<char>>)
    requires
        forall|i: int| 0 <= i < masks.len() ==> (#[trigger] masks[i]).len() == 0,
    ensures
        unmasked(hosts, masks) == hosts,
    decreases hosts.len(),
{
    reveal(Seq::filter);
    if hosts.len() > 0 {
        lemma_blank_masks_exclude_nothing(hosts.drop_last(), masks);
        assert(passes_masks(masks)(hosts.last()));
        assert(hosts.drop_last().push(hosts.last()) =~= hosts);
    }
}

/// Marking the hosts that a mask excludes and dropping the marked ones
/// leaves the hosts that no mask excludes.
pub proof fn lemma_without_masked(hosts: Seq<HostModel>, masks: Seq<Seq<char>>, marked: Seq<bool>)
    requires
        marked.len() == hosts.len(),
        forall|i: int| 0 <= i < hosts.len() ==> marked[i] == is_masked(masks, hosts[i].domain),
    ensures
        without_marked(hosts, marked) == unmasked(hosts, masks),
    decreases hosts.len(),
{
    reveal(Seq::filter);
    if hosts.len() > 0 {
        let before = hosts.drop_last();
        lemma_without_marked_ignores_rest(before, marked, marked.drop_last());
        lemma_without_masked(before, masks, marked.drop_last());
    }
}

/// The marks beyond the last host do not count.
pub proof fn lemma_without_marked_ignores_rest(
    hosts: Seq<HostModel>,
    marked: Seq<bool>,
    shorter: Seq<bool>,
)
    requires
        hosts.len() <= shorter.len() <= marked.len(),
        forall|i: int| 0 <= i < shorter.len() ==> shorter[i] == marked[i],
    ensures
        without_marked(hosts, marked) == without_marked(hosts, shorter),
    decreases hosts.len(),
{
    if hosts.len() > 0 {
        lemma_without_marked_ignores_rest(hosts.drop_last(), marked, shorter);
    }
}

/// Tests whether one of the masks excludes the domain. A blank mask, and one
/// that is no regular expression, excludes nothing.
pub fn domain_is_masked(domain: &str, mask_patterns: &Vec<&str>) -> (masked: bool)
    ensures
        masked == is_masked(mask_patterns.deep_view(), domain@),
{
    let ghost masks = mask_patterns.deep_view();
    let mut i: usize = 0;
    while i < mask_patterns.len()
        invariant
            i <= mask_patterns.len(),
            masks == mask_patterns.deep_view(),
            forall|j: int| 0 <= j < i ==> !mask_excludes(#[trigger] masks[j], domain@),
        decreases mask_patterns.len() - i,
    {
        let mask: &str = mask_patterns[i];
        assert(masks[i as int] == mask@);
        if !mask.is_empty() {
            match regex_is_match(mask, domain) {
                Ok(found) => {
                    if found {
                        return true;
                    }
                },
                Err(_) => {},
            }
        }
        i += 1;
    }
    false
}

/// The hosts that are not marked, in their order; `marked` says of each host,
/// by its position, whether it is marked.
pub fn retain_unmarked(vhosts: &Vec<VirtualHost>, marked: &Vec<bool>) -> (results: Vec<VirtualHost>)
    ensures
        results.deep_view() == without_marked(vhosts.deep_view(), marked@),
{
    let ghost hosts = vhosts.deep_view();
    let mut results: Vec<VirtualHost> = Vec::new();
    let mut i: usize = 0;
    while i < vhosts.len()
        invariant
            i <= vhosts.len(),
            hosts == vhosts.deep_view(),
            results.deep_view() == without_marked(hosts.take(i as int), marked@),
        decreases vhosts.len() - i,
    {
        assert(hosts.take(i + 1).drop_last() =~= hosts.take(i as int));
        if !(i < marked.len() && marked[i]) {
            results.push(vhosts[i].duplicate());
        }
        i += 1;
    }
    assert(hosts.take(i as int) =~= hosts);
    results
}

/// Drops the hosts whose domain one of the masks excludes.
///
/// A mask is a regular expression that is searched for in the domain. A
/// blank mask, and one that is no regular expression, excludes nothing. The
/// hosts that stay keep their order.
pub fn filter_by_domain_masks(vhosts: &Vec<VirtualHost>, mask_patterns: &Vec<&str>) -> (results: Vec<
    VirtualHost,
>)
    ensures
        results.deep_view() == unmasked(vhosts.deep_view(), mask_patterns.deep_view()),
{
    let mut marked: Vec<bool> = Vec::new();
    let mut i: usize = 0;
    while i < vhosts.len()
        invariant
            i <= vhosts.len(),
            marked.len() == i,
            forall|j: int|
                0 <= j < i ==> marked@[j] == is_masked(
                    mask_patterns.deep_view(),
                    (#[trigger] vhosts.deep_view()[j]).domain,
                ),
        decreases vhosts.len() - i,
    {
        let masked = domain_is_masked(vhosts[i].domain.as_str(), mask_patterns);
        marked.push(masked);
        i += 1;
    }
    proof {
        lemma_without_masked(vhosts.deep_view(), mask_patterns.deep_view(), marked@);
    }
    retain_unmarked(vhosts, &marked)
}

/// Tests whether `port` is port 80 or port 443.
pub fn vhost_has_standard_port(port: i32) -> (standard: bool)
    ensures
        standard == is_standard_port(port as int),
{
    port == DEFAULT_HTTP_PORT || port == DEFAULT_HTTPS_PORT
}

/// Tests whether a host with this domain and this port is among `vhosts`.
pub fn vec_contains_same_domain_with_port(vhosts: &Vec<VirtualHost>, domain: &String, port: i32) -> (found:
    bool)
    ensures
        found == vhosts.deep_view().contains(HostModel { domain: domain@, port: port as int }),
{
    let ghost hosts = vhosts.deep_view();
    let ghost wanted = HostModel { domain: domain@, port: port as int };
    let mut i: usize = 0;
    while i < vhosts.len()
        invariant
            i <= vhosts.len(),
            hosts == vhosts.deep_view(),
            wanted == (HostModel { domain: domain@, port: port as int }),
            forall|j: int| 0 <= j < i ==> hosts[j] != wanted,
        decreases vhosts.len() - i,
    {
        if vhosts[i].domain == *domain && vhosts[i].port == port {
            assert(hosts[i as int] == wanted);
            return true;
        }
        i += 1;
    }
    false
}

/// Tests whether `vhost` may join the hosts kept so far.
pub fn vhost_add_permitted(vhost: &VirtualHost, buffer: &Vec<VirtualHost>, include_custom_ports: bool) -> (permitted:
    bool)
    ensures
        permitted == add_permitted(vhost@, buffer.deep_view(), include_custom_ports),
{
    if include_custom_ports || vhost_has_standard_port(vhost.port) {
        !vec_contains_same_domain_with_port(buffer, &vhost.domain, vhost.port)
    } else {
        false
    }
}

/// Drops the hosts that occurred before and, unless custom ports are wanted
/// too, those that do not stand on port 80 or 443.
///
/// The hosts are taken in their order, and each is kept where it may join
/// those kept before it. So of equal hosts the first stays, no host is kept
/// twice, and the hosts that stay keep their order.
pub fn filter_vhosts(vhosts: &Vec<VirtualHost>, include_custom_domains: bool) -> (results: Vec<
    VirtualHost,
>)
    ensures
        results.deep_view() == deduplicated(vhosts.deep_view(), include_custom_domains),
        results.deep_view().no_duplicates(),
        !include_custom_domains ==> forall|i: int|
            0 <= i < results.len() ==> is_standard_port((#[trigger] results[i]).port as int),
{
    let ghost hosts = vhosts.deep_view();
    let mut results: Vec<VirtualHost> = Vec::new();
    let mut i: usize = 0;
    while i < vhosts.len()
        invariant
            i <= vhosts.len(),
            hosts == vhosts.deep_view(),
            results.deep_view() == deduplicated(hosts.take(i as int), include_custom_domains),
        decreases vhosts.len() - i,
    {
        assert(hosts.take(i + 1).drop_last() =~= hosts.take(i as int));
        if vhost_add_permitted(&vhosts[i], &results, include_custom_domains) {
            results.push(vhosts[i].duplicate());
        }
        i += 1;
    }
    proof {
        assert(hosts.take(i as int) =~= hosts);
        lemma_deduplicated_no_duplicates(hosts, include_custom_domains);
        if !include_custom_domains {
            lemma_deduplicated_standard_ports(hosts);
            assert forall|k: int| 0 <= k < results.len() implies is_standard_port(
                (#[trigger] results[k]).port as int,
            ) by {
                assert(deduplicated(hosts, false)[k].port == results[k].port);
            }
        }
    }
    results
}

} // verus!
