//! The scan of one configuration file: what is remembered from line to line,
//! and what each finding on a line does to it.
//!
//! The scan goes through the file once. It knows whether it stands inside a
//! section, whether that section was found to be a mere redirect, and which
//! port and which domain the section has shown so far. A section that has
//! shown both when it closes gives one virtual host.

use vstd::prelude::*;
use crate::decimal::{parse_port, port_number};
use crate::domain::{HostModel, VirtualHost};
use crate::text::{
    chars_of,
    contains,
    contains_text,
    occurs_at,
    occurs_at_index,
    replace_all,
    span_until,
    split_on,
};

verus! {

/// A redirect that follows a line with this text applies to one location
/// only, and leaves the section in place.
pub const LOCATION_MARKER: &'static str = "location /";

/// The name of the capture group that holds the port.
pub const PORT_GROUP: &'static str = "port";

/// The index of the capture group that holds the domains.
pub const DOMAIN_GROUP: usize = 1;

/// In a list of domains, this text stands for a single space.
pub const ALIAS_SPACING: &'static str = "[\\s\\t]{2}";

/// The domains that a captured list names: the list is cut at every single
/// space, after each [`ALIAS_SPACING`] in it was replaced by one.
pub open spec fn aliases(captured: Seq<char>) -> Seq<Seq<char>> {
    split_on(replace_all(captured, ALIAS_SPACING@, seq![' ']), ' ')
}

/// The port that the captures of a port line give: the one that the last
/// match holds, where it holds a port number.
pub open spec fn captured_port(captured: Seq<Option<Seq<char>>>) -> Option<i32> {
    if captured.len() == 0 {
        None
    } else {
        match captured.last() {
            Some(text) => port_number(text),
            None => None,
        }
    }
}

/// The domain that the capture of a domain line gives: the first of the
/// domains it names, unless that one is empty.
pub open spec fn captured_domain(captured: Option<Seq<char>>) -> Option<Seq<char>> {
    match captured {
        Some(text) => if aliases(text)[0].len() > 0 {
            Some(aliases(text)[0])
        } else {
            None
        },
        None => None,
    }
}

/// The list of hosts `hosts`, with `host` added at its end if there is one.
pub open spec fn with_host(hosts: Seq<HostModel>, host: Option<HostModel>) -> Seq<HostModel> {
    match host {
        Some(found) => hosts.push(found),
        None => hosts,
    }
}

/// What the scan remembers between two lines.
pub struct ScanModel {
    pub inside_section: bool,
    pub redirect_detected: bool,
    pub pending_port: Option<i32>,
    pub pending_domain: Option<Seq<char>>,
}

impl ScanModel {
    /// The scan before the first line: outside any section, nothing pending.
    pub open spec fn initial() -> ScanModel {
        ScanModel {
            inside_section: false,
            redirect_detected: false,
            pending_port: None,
            pending_domain: None,
        }
    }

    /// What holds of the scan at every line: a pending port is a port that
    /// TCP can address, a pending domain is not empty, and a section found
    /// to be a redirect has been left with nothing pending.
    pub open spec fn is_sound(self) -> bool {
        &&& self.pending_port matches Some(port) ==> 1 <= port <= 65535
        &&& self.pending_domain matches Some(domain) ==> domain.len() > 0
        &&& self.redirect_detected ==> {
            &&& !self.inside_section
            &&& self.pending_port is None
            &&& self.pending_domain is None
        }
    }

    /// The host that the section gives if it closes now: it has shown both a
    /// port and a domain, and is no redirect.
    pub open spec fn pending_host(self) -> Option<HostModel> {
        if self.pending_port is Some && self.pending_domain is Some && !self.redirect_detected {
            Some(
                HostModel {
                    domain: self.pending_domain->Some_0,
                    port: self.pending_port->Some_0 as int,
                },
            )
        } else {
            None
        }
    }

    /// The scan after a line that opens a section: inside it, with nothing
    /// pending. What the section before it had shown is gone.
    pub open spec fn opened(self) -> ScanModel {
        ScanModel {
            inside_section: true,
            redirect_detected: false,
            pending_port: None,
            pending_domain: None,
        }
    }

    /// The scan after a redirect line. Outside a section the line means
    /// nothing. Where the line before it names a location, the redirect is
    /// that location's own and nothing changes. Otherwise the whole section is a redirect: it is left at once, and
    /// what it had shown is dropped.
    pub open spec fn redirected(self, previous_line: Option<Seq<char>>) -> ScanModel {
        if !self.inside_section {
            self
        } else if previous_line matches Some(line) && contains_text(line, LOCATION_MARKER@) {
            self
        } else {
            ScanModel {
                inside_section: false,
                redirect_detected: true,
                pending_port: None,
                pending_domain: None,
            }
        }
    }

    /// The scan after a port line with the given captures. Outside a section
    /// the line means nothing, and a section keeps the first port it shows.
    pub open spec fn with_port(self, captured: Seq<Option<Seq<char>>>) -> ScanModel {
        if self.inside_section && self.pending_port is None {
            ScanModel { pending_port: captured_port(captured), ..self }
        } else {
            self
        }
    }

    /// The scan after a domain line with the given capture. Outside a section
    /// the line means nothing, and a section keeps the first domain it shows.
    pub open spec fn with_domain(self, captured: Option<Seq<char>>) -> ScanModel {
        if self.inside_section && self.pending_domain is None {
            ScanModel { pending_domain: captured_domain(captured), ..self }
        } else {
            self
        }
    }
}

/// Every step of the scan keeps it sound, and a host that a sound scan gives
/// is one that discovery may report.
pub proof fn lemma_steps_keep_scan_sound(
    scan: ScanModel,
    previous_line: Option<Seq<char>>,
    ports: Seq<Option<Seq<char>>>,
    domain: Option<Seq<char>>,
)
    requires
        scan.is_sound(),
    ensures
        ScanModel::initial().is_sound(),
        scan.opened().is_sound(),
        scan.redirected(previous_line).is_sound(),
        scan.with_port(ports).is_sound(),
        scan.with_domain(domain).is_sound(),
        scan.pending_host() matches Some(host) ==> host.is_reportable(),
{
}

/// A redirect that follows a line which names a location leaves the scan as
/// it is: the section keeps what it has shown.
pub proof fn lemma_scoped_redirect_keeps_section(scan: ScanModel, previous_line: Seq<char>)
    requires
        contains_text(previous_line, LOCATION_MARKER@),
    ensures
        scan.redirected(Some(previous_line)) == scan,
{
}

/// A redirect inside a section that follows no line, or a line which names
/// no location, ends the section: it gives no host, and no port or domain
/// line is read for it any more.
pub proof fn lemma_plain_redirect_drops_section(
    scan: ScanModel,
    previous_line: Option<Seq<char>>,
    ports: Seq<Option<Seq<char>>>,
    domain: Option<Seq<char>>,
)
    requires
        scan.inside_section,
        previous_line matches Some(line) ==> !contains_text(line, LOCATION_MARKER@),
    ensures
        scan.redirected(previous_line).pending_host() is None,
        scan.redirected(previous_line).with_port(ports) == scan.redirected(previous_line),
        scan.redirected(previous_line).with_domain(domain) == scan.redirected(previous_line),
        scan.redirected(previous_line).with_port(ports).with_domain(domain).pending_host() is None,
{
}

/// The scan of a file as it runs: the same as [`ScanModel`], with the domain
/// held as a string.
pub struct SectionScan {
    pub inside_section: bool,
    pub redirect_detected: bool,
    pub pending_port: Option<i32>,
    pub pending_domain: Option<String>,
}

impl View for SectionScan {
    type V = ScanModel;

    open spec fn view(&self) -> ScanModel {
        ScanModel {
            inside_section: self.inside_section,
            redirect_detected: self.redirect_detected,
            pending_port: self.pending_port,
            pending_domain: match self.pending_domain {
                Some(domain) => Some(domain@),
                None => None,
            },
        }
    }
}

/// The host with the given domain and port. Both must be there.
pub fn get_virtual_host(domain: Option<String>, port: Option<i32>) -> (host: VirtualHost)
    requires
        domain is Some,
        port is Some,
    ensures
        host@ == (HostModel { domain: domain->Some_0@, port: port->Some_0 as int }),
{
    let domain_name = domain.unwrap();
    VirtualHost { domain: domain_name, port: port.unwrap() }
}

/// The first piece of a text, cut at single spaces after each `mark` in it
/// was replaced by a space, is the text up to its first space or its first
/// `mark`, whichever comes first.
pub proof fn lemma_first_alias(row: Seq<char>, mark: Seq<char>, end: int)
    requires
        mark.len() > 0,
        0 <= end <= row.len(),
        forall|j: int| 0 <= j < end ==> row[j] != ' ',
        forall|j: int| 0 <= j < end ==> !occurs_at(row, mark, j),
        end == row.len() || row[end] == ' ' || occurs_at(row, mark, end),
    ensures
        split_on(replace_all(row, mark, seq![' ']), ' ')[0] == row.take(end),
    decreases row.len(),
{
    let replaced = replace_all(row, mark, seq![' ']);
    if row.len() == 0 {
        assert(row.take(end) =~= replaced);
    } else if mark.is_prefix_of(row) {
        assert(row.subrange(0, mark.len() as int) =~= mark);
        assert(occurs_at(row, mark, 0));
        assert(end == 0);
        assert(replaced[0] == ' ');
        assert(replaced.take(0) =~= row.take(0));
    } else {
        let rest = replace_all(row.skip(1), mark, seq![' ']);
        assert(replaced == seq![row[0]] + rest);
        assert(replaced.drop_first() =~= rest);
        if end == 0 {
            if occurs_at(row, mark, 0) {
                assert(row.subrange(0, mark.len() as int) =~= mark);
                assert(mark.is_prefix_of(row));
            }
            assert(replaced[0] == ' ');
            assert(replaced.take(0) =~= row.take(0));
        } else {
            let tail = row.skip(1);
            assert forall|j: int| 0 <= j < end - 1 implies tail[j] != ' ' by {
                assert(tail[j] == row[j + 1]);
            }
            assert forall|j: int| 0 <= j < end - 1 implies !occurs_at(tail, mark, j) by {
                if occurs_at(tail, mark, j) {
                    assert(row.subrange(j + 1, j + 1 + mark.len()) =~= tail.subrange(
                        j,
                        j + mark.len(),
                    ));
                    assert(occurs_at(row, mark, j + 1));
                }
            }
            if end < row.len() {
                assert(tail[end - 1] == row[end]);
                if occurs_at(row, mark, end) {
                    assert(tail.subrange(end - 1, end - 1 + mark.len()) =~= row.subrange(
                        end,
                        end + mark.len(),
                    ));
                    assert(occurs_at(tail, mark, end - 1));
                }
            }
            lemma_first_alias(tail, mark, end - 1);
            let n = span_until(rest, ' ') as int;
            crate::text::lemma_span_until_bounds(rest, ' ');
            assert(split_on(rest, ' ')[0] =~= rest.take(n));
            assert(span_until(replaced, ' ') == n + 1);
            assert(split_on(replaced, ' ')[0] =~= replaced.take(n + 1));
            assert(replaced.take(n + 1) =~= seq![row[0]] + rest.take(n));
            assert(row.take(end) =~= seq![row[0]] + tail.take(end - 1));
        }
    }
}

fn alias_end(chars: &Vec<char>, mark: &Vec<char>) -> (end: usize)
    ensures
        end <= chars.len(),
        forall|j: int| 0 <= j < end ==> chars@[j] != ' ',
        forall|j: int| 0 <= j < end ==> !occurs_at(chars@, mark@, j),
        end == chars.len() || chars@[end as int] == ' ' || occurs_at(chars@, mark@, end as int),
{
    let mut end: usize = 0;
    while end < chars.len()
        invariant
            end <= chars.len(),
            forall|j: int| 0 <= j < end ==> chars@[j] != ' ',
            forall|j: int| 0 <= j < end ==> !occurs_at(chars@, mark@, j),
        decreases chars.len() - end,
    {
        if chars[end] == ' ' || occurs_at_index(chars, mark, end) {
            return end;
        }
        end += 1;
    }
    end
}

/// The first of the domains that a captured list names.
pub fn first_alias(captured: &str) -> (alias: String)
    ensures
        alias@ == aliases(captured@)[0],
{
    let chars = chars_of(captured);
    let mark = chars_of(ALIAS_SPACING);
    let end = alias_end(&chars, &mark);
    proof {
        reveal_strlit("[\\s\\t]{2}");
        lemma_first_alias(chars@, mark@, end as int);
    }
    captured.substring_char(0, end).to_owned()
}

impl SectionScan {
    /// The scan before the first line.
    pub fn new() -> (scan: SectionScan)
        ensures
            scan@ == ScanModel::initial(),
    {
        SectionScan {
            inside_section: false,
            redirect_detected: false,
            pending_port: None,
            pending_domain: None,
        }
    }

    /// Takes the host that the section gives, if it gives one, and adds it
    /// to `hosts`. Nothing is pending afterwards.
    pub fn close_section(&mut self, hosts: &mut Vec<VirtualHost>)
        ensures
            final(hosts).deep_view() == with_host(old(hosts).deep_view(), old(self)@.pending_host()),
            final(self)@ == (ScanModel { pending_port: None, pending_domain: None, ..old(self)@ }),
    {
        let domain = self.pending_domain.take();
        let port = self.pending_port.take();
        if domain.is_some() && port.is_some() && !self.redirect_detected {
            let host = get_virtual_host(domain, port);
            hosts.push(host);
        }
    }

    /// A line opens a section: the section before it closes, and gives its
    /// host if it has one.
    pub fn open_section(&mut self, hosts: &mut Vec<VirtualHost>)
        ensures
            final(hosts).deep_view() == with_host(old(hosts).deep_view(), old(self)@.pending_host()),
            final(self)@ == old(self)@.opened(),
    {
        self.close_section(hosts);
        self.inside_section = true;
        self.redirect_detected = false;
    }

    /// A line redirects to another URL; `previous_line` is the line before it,
    /// if there is one.
    pub fn note_redirect(&mut self, previous_line: Option<&str>)
        ensures
            final(self)@ == old(self)@.redirected(
                match previous_line {
                    Some(line) => Some(line@),
                    None => None,
                },
            ),
    {
        if !self.inside_section {
            return;
        }
        let scoped = match previous_line {
            Some(line) => contains(line, LOCATION_MARKER),
            None => false,
        };
        if !scoped {
            self.redirect_detected = true;
            self.pending_domain = None;
            self.pending_port = None;
            self.inside_section = false;
        }
    }

    /// A line gives a port; `captured` holds what the port group captured in
    /// each match of the port pattern on the line.
    pub fn note_port(&mut self, captured: &Vec<Option<String>>)
        ensures
            final(self)@ == old(self)@.with_port(captured.deep_view()),
    {
        if self.inside_section && self.pending_port.is_none() && captured.len() > 0 {
            match &captured[captured.len() - 1] {
                Some(text) => {
                    self.pending_port = parse_port(text.as_str());
                },
                None => {},
            }
        }
    }

    /// A line gives domains; `captured` holds what the domain group captured
    /// in the first match of the domain pattern on the line.
    pub fn note_domain(&mut self, captured: &Option<String>)
        ensures
            final(self)@ == old(self)@.with_domain(captured.deep_view()),
    {
        if self.inside_section && self.pending_domain.is_none() {
            match captured {
                Some(text) => {
                    let alias = first_alias(text.as_str());
                    if !alias.as_str().is_empty() {
                        self.pending_domain = Some(alias);
                    }
                },
                None => {},
            }
        }
    }
}

} // verus!
