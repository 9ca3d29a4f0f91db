//! The records that discovery produces.

use vstd::prelude::*;
use vstd::string::StringExecFns;
use crate::decimal::{decimal_string, decimal_text};

verus! {

/// One reachable endpoint: a domain and the port on which it is served.
#[derive(Clone, Debug)]
pub struct VirtualHost {
    pub domain: String,
    pub port: i32,
}

/// What a [`VirtualHost`] stands for: the characters of its domain, and its
/// port as a number. Two hosts are the same host when their models are equal.
pub struct HostModel {
    pub domain: Seq<char>,
    pub port: int,
}

impl HostModel {
    /// A host that discovery may report: it has a domain, and its port is one
    /// that TCP can address.
    pub open spec fn is_reportable(self) -> bool {
        &&& self.domain.len() > 0
        &&& 1 <= self.port <= 65535
    }
}

impl View for VirtualHost {
    type V = HostModel;

    open spec fn view(&self) -> HostModel {
        HostModel { domain: self.domain@, port: self.port as int }
    }
}

impl DeepView for VirtualHost {
    type V = HostModel;

    open spec fn deep_view(&self) -> HostModel {
        self@
    }
}

/// A host written out for a reader: `domain: '` and the domain, then
/// `', port: ` and the port.
pub open spec fn host_text(host: HostModel) -> Seq<char> {
    "domain: '"@ + host.domain + "', port: "@ + decimal_text(host.port)
}

impl VirtualHost {
    /// This host written out for a reader.
    pub fn to_string(&self) -> (text: String)
        ensures
            text@ == host_text(self@),
    {
        let mut text = String::from_str("domain: '");
        text.append(self.domain.as_str());
        text.append("', port: ");
        let port_text = decimal_string(self.port);
        text.append(port_text.as_str());
        text
    }

    /// A copy of this host.
    pub fn duplicate(&self) -> (copy: VirtualHost)
        ensures
            copy@ == self@,
    {
        VirtualHost { domain: self.domain.clone(), port: self.port }
    }
}

/// A site as the monitoring system sees it: a display name and a URL.
#[derive(Clone)]
pub struct Site {
    pub name: String,
    pub url: String,
}

/// What a [`Site`] stands for: the characters of its name and of its URL.
pub struct SiteModel {
    pub name: Seq<char>,
    pub url: Seq<char>,
}

impl View for Site {
    type V = SiteModel;

    open spec fn view(&self) -> SiteModel {
        SiteModel { name: self.name@, url: self.url@ }
    }
}

impl DeepView for Site {
    type V = SiteModel;

    open spec fn deep_view(&self) -> SiteModel {
        self@
    }
}

} // verus!
