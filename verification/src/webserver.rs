//! From the lines of configuration files to the virtual hosts they declare.

use vstd::prelude::*;
use crate::directory::{collect_vhost_files, grown_by, paths_of, vhost_files, DirEntry, PathScan};
use crate::domain::{HostModel, VirtualHost};
use crate::pattern::{
    first_match_group,
    has_match,
    is_valid_pattern,
    named_group_of_matches,
    pattern_compiles,
    pattern_matches,
    regex_captures_get,
    regex_captures_iter_name,
    PatternError,
};
use crate::scan::{
    lemma_steps_keep_scan_sound,
    with_host,
    ScanModel,
    SectionScan,
    DOMAIN_GROUP,
    PORT_GROUP,
};
use crate::vhost::{Patterns, VhostDiscoveryConfig};

verus! {

/// What one line does to the scan, and the host that it completes, if any.
///
/// A line that opens a section closes the section before it. Then the line
/// is read as a redirect, as a port line and as a domain line, in this
/// order, each where its pattern matches.
pub open spec fn scan_line(
    patterns: Patterns,
    scan: ScanModel,
    previous_line: Option<Seq<char>>,
    line: Seq<char>,
) -> (ScanModel, Option<HostModel>) {
    let opens = pattern_matches(patterns.section_start, line);
    let completed = if opens {
        scan.pending_host()
    } else {
        None
    };
    let at_start = if opens {
        scan.opened()
    } else {
        scan
    };
    let after_redirect = if pattern_matches(patterns.redirect_to_url, line) {
        at_start.redirected(previous_line)
    } else {
        at_start
    };
    let after_port = if pattern_matches(patterns.port, line) {
        after_redirect.with_port(named_group_of_matches(patterns.port, line, PORT_GROUP@))
    } else {
        after_redirect
    };
    let after_domain = if pattern_matches(patterns.domain, line) {
        after_port.with_domain(first_match_group(patterns.domain, line, DOMAIN_GROUP as int))
    } else {
        after_port
    };
    (after_domain, completed)
}

/// The line before line `index` of `lines`, if there is one.
pub open spec fn line_before(lines: Seq<Seq<char>>, index: int) -> Option<Seq<char>> {
    if 0 < index <= lines.len() {
        Some(lines[index - 1])
    } else {
        None
    }
}

/// The scan after all of `lines`, and the hosts completed on the way.
pub open spec fn scan_lines(patterns: Patterns, lines: Seq<Seq<char>>) -> (ScanModel, Seq<HostModel>)
    decreases lines.len(),
{
    if lines.len() == 0 {
        (ScanModel::initial(), Seq::empty())
    } else {
        let (scan, hosts) = scan_lines(patterns, lines.drop_last());
        let (next, completed) = scan_line(
            patterns,
            scan,
            line_before(lines, lines.len() - 1),
            lines.last(),
        );
        (next, with_host(hosts, completed))
    }
}

/// The virtual hosts that a file with the given lines declares, in the order
/// in which their sections close. The end of the file closes the last one.
pub open spec fn hosts_in(patterns: Patterns, lines: Seq<Seq<char>>) -> Seq<HostModel> {
    let (scan, hosts) = scan_lines(patterns, lines);
    with_host(hosts, scan.pending_host())
}

/// Whatever the patterns and the lines are, the scan stays sound and
/// completes only hosts that discovery may report.
pub proof fn lemma_scan_lines_sound(patterns: Patterns, lines: Seq<Seq<char>>)
    ensures
        scan_lines(patterns, lines).0.is_sound(),
        forall|i: int|
            0 <= i < scan_lines(patterns, lines).1.len() ==> (#[trigger] scan_lines(
                patterns,
                lines,
            ).1[i]).is_reportable(),
    decreases lines.len(),
{
    if lines.len() > 0 {
        lemma_scan_lines_sound(patterns, lines.drop_last());
        let (scan, hosts) = scan_lines(patterns, lines.drop_last());
        let previous = line_before(lines, lines.len() - 1);
        let line = lines.last();
        let ports = named_group_of_matches(patterns.port, line, PORT_GROUP@);
        let domain = first_match_group(patterns.domain, line, DOMAIN_GROUP as int);
        lemma_steps_keep_scan_sound(scan, previous, ports, domain);
        let at_start = if pattern_matches(patterns.section_start, line) {
            scan.opened()
        } else {
            scan
        };
        lemma_steps_keep_scan_sound(at_start, previous, ports, domain);
        let after_redirect = if pattern_matches(patterns.redirect_to_url, line) {
            at_start.redirected(previous)
        } else {
            at_start
        };
        lemma_steps_keep_scan_sound(after_redirect, previous, ports, domain);
        let after_port = if pattern_matches(patterns.port, line) {
            after_redirect.with_port(ports)
        } else {
            after_redirect
        };
        lemma_steps_keep_scan_sound(after_port, previous, ports, domain);
    }
}

/// Every virtual host that a file declares has a domain and a port from 1 to
/// 65535, whatever the patterns and the lines are.
pub proof fn lemma_hosts_in_reportable(patterns: Patterns, lines: Seq<Seq<char>>)
    ensures
        forall|i: int|
            0 <= i < hosts_in(patterns, lines).len() ==> (#[trigger] hosts_in(
                patterns,
                lines,
            )[i]).is_reportable(),
{
    lemma_scan_lines_sound(patterns, lines);
    let (scan, hosts) = scan_lines(patterns, lines);
    lemma_steps_keep_scan_sound(scan, None, Seq::empty(), None);
}

/// A file in which no line opens a section declares no host: what stands
/// outside every section is not read.
pub proof fn lemma_no_section_no_hosts(patterns: Patterns, lines: Seq<Seq<char>>)
    requires
        forall|i: int|
            0 <= i < lines.len() ==> !pattern_matches(patterns.section_start, #[trigger] lines[i]),
    ensures
        scan_lines(patterns, lines) == (ScanModel::initial(), Seq::<HostModel>::empty()),
        hosts_in(patterns, lines) == Seq::<HostModel>::empty(),
    decreases lines.len(),
{
    if lines.len() > 0 {
        let before = lines.drop_last();
        assert forall|i: int| 0 <= i < before.len() implies !pattern_matches(
            patterns.section_start,
            #[trigger] before[i],
        ) by {
            assert(before[i] == lines[i]);
        }
        lemma_no_section_no_hosts(patterns, before);
        assert(lines.last() == lines[lines.len() - 1]);
    }
}

/// The four patterns, as texts.
pub open spec fn patterns_of(
    section_start: Seq<char>,
    redirect_to_url: Seq<char>,
    port: Seq<char>,
    domain: Seq<char>,
) -> Patterns {
    Patterns { section_start, redirect_to_url, port, domain }
}

/// What the first group captured in the first match of `pattern`, which
/// compiles, in `row`.
fn get_first_group_match_as_string(row: &str, pattern: &str) -> (group: Option<String>)
    requires
        pattern_compiles(pattern@),
    ensures
        group.deep_view() == first_match_group(pattern@, row@, DOMAIN_GROUP as int),
{
    match regex_captures_get(pattern, row, DOMAIN_GROUP) {
        Ok(group) => group,
        Err(_) => None,
    }
}

/// What the group `port` captured in each match of `pattern`, which
/// compiles, in `row`.
fn find_group_with_port_value(row: &str, pattern: &str) -> (groups: Vec<Option<String>>)
    requires
        pattern_compiles(pattern@),
    ensures
        groups.deep_view() == named_group_of_matches(pattern@, row@, PORT_GROUP@),
{
    match regex_captures_iter_name(pattern, row, PORT_GROUP) {
        Ok(groups) => groups,
        Err(_) => Vec::new(),
    }
}

/// Reads one line: what it does to the scan, and the host it completes.
fn scan_row(
    scan: &mut SectionScan,
    hosts: &mut Vec<VirtualHost>,
    previous_row: Option<&str>,
    row: &str,
    section_start_pattern: &str,
    redirect_with_301_pattern: &str,
    port_search_pattern: &str,
    domain_search_pattern: &str,
)
    requires
        patterns_of(
            section_start_pattern@,
            redirect_with_301_pattern@,
            port_search_pattern@,
            domain_search_pattern@,
        ).compile(),
    ensures
        final(scan)@ == scan_line(
            patterns_of(
                section_start_pattern@,
                redirect_with_301_pattern@,
                port_search_pattern@,
                domain_search_pattern@,
            ),
            old(scan)@,
            match previous_row {
                Some(line) => Some(line@),
                None => None,
            },
            row@,
        ).0,
        final(hosts).deep_view() == with_host(
            old(hosts).deep_view(),
            scan_line(
                patterns_of(
                    section_start_pattern@,
                    redirect_with_301_pattern@,
                    port_search_pattern@,
                    domain_search_pattern@,
                ),
                old(scan)@,
                match previous_row {
                    Some(line) => Some(line@),
                    None => None,
                },
                row@,
            ).1,
        ),
{
    if has_match(section_start_pattern, row) {
        scan.open_section(hosts);
    }
    if scan.inside_section {
        if has_match(redirect_with_301_pattern, row) {
            scan.note_redirect(previous_row);
        }
    }
    if scan.inside_section {
        if scan.pending_port.is_none() && has_match(port_search_pattern, row) {
            let captured = find_group_with_port_value(row, port_search_pattern);
            scan.note_port(&captured);
        }
        if scan.pending_domain.is_none() && has_match(domain_search_pattern, row) {
            let captured = get_first_group_match_as_string(row, domain_search_pattern);
            scan.note_domain(&captured);
        }
    }
}

/// Reads the virtual hosts that a configuration file declares.
///
/// `file_lines` holds the lines of the file, and the patterns are those of
/// its dialect. Where one of the patterns is no regular expression that the
/// matcher accepts, nothing is read and the call fails. Otherwise it gives
/// the hosts of the file, each with a domain and a port from 1 to 65535.
pub fn get_virtual_hosts_from_file(
    file_lines: &Vec<String>,
    section_start_pattern: &str,
    redirect_with_301_pattern: &str,
    port_search_pattern: &str,
    domain_search_pattern: &str,
) -> (outcome: Result<Vec<VirtualHost>, PatternError>)
    ensures
        outcome is Ok <==> patterns_of(
            section_start_pattern@,
            redirect_with_301_pattern@,
            port_search_pattern@,
            domain_search_pattern@,
        ).compile(),
        outcome matches Ok(hosts) ==> {
            &&& hosts.deep_view() == hosts_in(
                patterns_of(
                    section_start_pattern@,
                    redirect_with_301_pattern@,
                    port_search_pattern@,
                    domain_search_pattern@,
                ),
                file_lines.deep_view(),
            )
            &&& forall|i: int| 0 <= i < hosts.len() ==> (#[trigger] hosts[i])@.is_reportable()
        },
        outcome matches Err(error) ==> error == PatternError::Invalid,
{
    if !is_valid_pattern(section_start_pattern) || !is_valid_pattern(redirect_with_301_pattern)
        || !is_valid_pattern(port_search_pattern) || !is_valid_pattern(domain_search_pattern) {
        return Err(PatternError::Invalid);
    }
    let ghost patterns = patterns_of(
        section_start_pattern@,
        redirect_with_301_pattern@,
        port_search_pattern@,
        domain_search_pattern@,
    );
    let ghost lines = file_lines.deep_view();
    let mut hosts: Vec<VirtualHost> = Vec::new();
    let mut scan = SectionScan::new();
    let mut i: usize = 0;
    while i < file_lines.len()
        invariant
            i <= file_lines.len(),
            lines == file_lines.deep_view(),
            patterns == patterns_of(
                section_start_pattern@,
                redirect_with_301_pattern@,
                port_search_pattern@,
                domain_search_pattern@,
            ),
            patterns.compile(),
            (scan@, hosts.deep_view()) == scan_lines(patterns, lines.take(i as int)),
        decreases file_lines.len() - i,
    {
        let previous_row: Option<&str> = if i > 0 {
            Some(file_lines[i - 1].as_str())
        } else {
            None
        };
        proof {
            let upto = lines.take(i + 1);
            assert(upto.drop_last() =~= lines.take(i as int));
        }
        scan_row(
            &mut scan,
            &mut hosts,
            previous_row,
            file_lines[i].as_str(),
            section_start_pattern,
            redirect_with_301_pattern,
            port_search_pattern,
            domain_search_pattern,
        );
        i += 1;
    }
    assert(lines.take(i as int) =~= lines);
    scan.close_section(&mut hosts);
    proof {
        lemma_hosts_in_reportable(patterns, lines);
        assert forall|k: int| 0 <= k < hosts.len() implies (#[trigger] hosts[k])@.is_reportable() by {
            assert(hosts_in(patterns, lines)[k].is_reportable());
        }
    }
    Ok(hosts)
}

/// Why the configuration of a dialect could not be scanned.
#[derive(Clone, Copy, Debug, PartialEq, Eq, Structural)]
pub enum DiscoveryError {
    /// The path does not exist or is no directory.
    NotFound,
    /// The directory could not be read.
    Io,
}

/// The hosts that one configuration file gives, or `None` where it gives an
/// error: its lines were not read, or one of the patterns is no regular
/// expression.
pub open spec fn file_hosts(patterns: Patterns, file: DirEntry) -> Option<Seq<HostModel>> {
    match file.lines {
        Some(lines) => if patterns.compile() {
            Some(hosts_in(patterns, lines.deep_view()))
        } else {
            None
        },
        None => None,
    }
}

/// The hosts of the files taken one by one, and whether the scan has
/// stopped. A file that gives an error adds nothing; with
/// `fall_on_parse_errors` the scan stops at the first such file, and the
/// files after it are not looked at.
pub open spec fn gathered(patterns: Patterns, files: Seq<DirEntry>, fall_on_parse_errors: bool) -> (
    Seq<HostModel>,
    bool,
)
    decreases files.len(),
{
    if files.len() == 0 {
        (Seq::empty(), false)
    } else {
        let (hosts, stopped) = gathered(patterns, files.drop_last(), fall_on_parse_errors);
        if stopped {
            (hosts, true)
        } else {
            match file_hosts(patterns, files.last()) {
                Some(found) => (hosts + found, false),
                None => (hosts, fall_on_parse_errors),
            }
        }
    }
}

/// Every host that a scan gathers has a domain and a port from 1 to 65535.
pub proof fn lemma_gathered_reportable(
    patterns: Patterns,
    files: Seq<DirEntry>,
    fall_on_parse_errors: bool,
)
    ensures
        forall|i: int|
            0 <= i < gathered(patterns, files, fall_on_parse_errors).0.len() ==> (
            #[trigger] gathered(patterns, files, fall_on_parse_errors).0[i]).is_reportable(),
    decreases files.len(),
{
    if files.len() > 0 {
        let (hosts, stopped) = gathered(patterns, files.drop_last(), fall_on_parse_errors);
        lemma_gathered_reportable(patterns, files.drop_last(), fall_on_parse_errors);
        let all = gathered(patterns, files, fall_on_parse_errors).0;
        if !stopped {
            if let Some(found) = file_hosts(patterns, files.last()) {
                lemma_hosts_in_reportable(patterns, files.last().lines->Some_0.deep_view());
                assert forall|i: int| 0 <= i < all.len() implies (#[trigger] all[i]).is_reportable() by {
                    if i < hosts.len() {
                        assert(all[i] == hosts[i]);
                    } else {
                        assert(all[i] == found[i - hosts.len()]);
                    }
                }
            }
        }
    }
}

/// Lists the configuration files below the path at which a scan starts.
///
/// The call fails where there is no directory at the path, or its entries
/// could not be read. Otherwise it gives the paths of the regular files and
/// symbolic links whose names end with one of the endings; with `recursive`,
/// those of all readable directories below the path too.
pub fn get_vhost_config_file_list(
    vhost_root: &PathScan,
    file_extensions: &Vec<String>,
    recursive: bool,
) -> (outcome: Result<Vec<String>, DiscoveryError>)
    ensures
        match *vhost_root {
            PathScan::Directory(entries) => outcome matches Ok(paths) && paths.deep_view()
                == paths_of(vhost_files(entries@, file_extensions.deep_view(), recursive)),
            _ => outcome == Err::<Vec<String>, DiscoveryError>(DiscoveryError::Io),
        },
{
    match vhost_root {
        PathScan::Directory(entries) => {
            let mut found: Vec<&DirEntry> = Vec::new();
            collect_vhost_files(entries, file_extensions, recursive, &mut found);
            let ghost listed = vhost_files(entries@, file_extensions.deep_view(), recursive);
            let mut paths: Vec<String> = Vec::new();
            let mut i: usize = 0;
            while i < found.len()
                invariant
                    i <= found.len(),
                    grown_by(found@, Seq::empty(), listed),
                    paths.len() == i,
                    forall|j: int| 0 <= j < i ==> (#[trigger] paths@[j])@ == listed[j].path@,
                decreases found.len() - i,
            {
                paths.push(found[i].path.clone());
                i += 1;
            }
            Ok(paths)
        },
        _ => Err(DiscoveryError::Io),
    }
}

/// Reads the hosts of one configuration file into `results`, and says
/// whether the file gave an error.
fn gather_file(file: &DirEntry, config: &VhostDiscoveryConfig, results: &mut Vec<VirtualHost>) -> (failed:
    bool)
    ensures
        failed == file_hosts(config.patterns(), *file) is None,
        final(results).deep_view() == match file_hosts(config.patterns(), *file) {
            Some(found) => old(results).deep_view() + found,
            None => old(results).deep_view(),
        },
{
    match &file.lines {
        Some(lines) => {
            match get_virtual_hosts_from_file(
                lines,
                config.section_start.as_str(),
                config.redirect_to_url.as_str(),
                config.port.as_str(),
                config.domain.as_str(),
            ) {
                Ok(mut vhosts) => {
                    results.append(&mut vhosts);
                    false
                },
                Err(_) => true,
            }
        },
        None => true,
    }
}

/// Discovers the virtual hosts of one dialect.
///
/// The call fails with `NotFound` where there is no directory at the path,
/// and with `Io` where its entries could not be read. Otherwise it reads
/// the configuration files that the dialect names, in the order in which a
/// walk meets them, and gives their hosts one file after the other. A file
/// that gives an error adds nothing; with `fall_on_parse_errors` the first
/// such file ends the scan, and the hosts read before it are given.
pub fn get_vhosts(vhost_root: &PathScan, config: &VhostDiscoveryConfig, fall_on_parse_errors: bool) -> (outcome:
    Result<Vec<VirtualHost>, DiscoveryError>)
    ensures
        match *vhost_root {
            PathScan::Missing => outcome == Err::<Vec<VirtualHost>, DiscoveryError>(
                DiscoveryError::NotFound,
            ),
            PathScan::Unreadable => outcome == Err::<Vec<VirtualHost>, DiscoveryError>(
                DiscoveryError::Io,
            ),
            PathScan::Directory(entries) => {
                &&& outcome matches Ok(results)
                &&& results.deep_view() == gathered(
                    config.patterns(),
                    vhost_files(
                        entries@,
                        config.file_extensions.deep_view(),
                        config.include_subdirs,
                    ),
                    fall_on_parse_errors,
                ).0
                &&& forall|i: int|
                    0 <= i < results.len() ==> (#[trigger] results[i])@.is_reportable()
            },
        },
{
    match vhost_root {
        PathScan::Missing => Err(DiscoveryError::NotFound),
        PathScan::Unreadable => Err(DiscoveryError::Io),
        PathScan::Directory(entries) => {
            let mut found: Vec<&DirEntry> = Vec::new();
            collect_vhost_files(
                entries,
                &config.file_extensions,
                config.include_subdirs,
                &mut found,
            );
            let ghost files = vhost_files(
                entries@,
                config.file_extensions.deep_view(),
                config.include_subdirs,
            );
            let ghost patterns = config.patterns();
            let mut results: Vec<VirtualHost> = Vec::new();
            let mut stopped = false;
            let mut i: usize = 0;
            while i < found.len() && !stopped
                invariant
                    i <= found.len(),
                    grown_by(found@, Seq::empty(), files),
                    patterns == config.patterns(),
                    !stopped ==> (results.deep_view(), false) == gathered(
                        patterns,
                        files.take(i as int),
                        fall_on_parse_errors,
                    ),
                    stopped ==> (results.deep_view(), true) == gathered(
                        patterns,
                        files,
                        fall_on_parse_errors,
                    ),
                decreases found.len() - i,
            {
                proof {
                    assert(files.take(i + 1).drop_last() =~= files.take(i as int));
                }
                let failed = gather_file(found[i], config, &mut results);
                i += 1;
                if failed && fall_on_parse_errors {
                    proof {
                        lemma_gathered_stays_stopped(
                            patterns,
                            files,
                            fall_on_parse_errors,
                            i as int,
                        );
                    }
                    stopped = true;
                }
            }
            proof {
                if !stopped {
                    assert(files.take(i as int) =~= files);
                }
                lemma_gathered_reportable(patterns, files, fall_on_parse_errors);
                let all = gathered(patterns, files, fall_on_parse_errors).0;
                assert forall|k: int| 0 <= k < results.len() implies (
                #[trigger] results[k])@.is_reportable() by {
                    assert(results.deep_view()[k] == results[k]@);
                }
            }
            Ok(results)
        },
    }
}

/// Once a scan has stopped, the files after that point change nothing.
pub proof fn lemma_gathered_stays_stopped(
    patterns: Patterns,
    files: Seq<DirEntry>,
    fall_on_parse_errors: bool,
    upto: int,
)
    requires
        0 <= upto <= files.len(),
        gathered(patterns, files.take(upto), fall_on_parse_errors).1,
    ensures
        gathered(patterns, files, fall_on_parse_errors) == gathered(
            patterns,
            files.take(upto),
            fall_on_parse_errors,
        ),
    decreases files.len() - upto,
{
    if upto < files.len() {
        assert(files.take(upto + 1).drop_last() =~= files.take(upto));
        lemma_gathered_stays_stopped(patterns, files, fall_on_parse_errors, upto + 1);
    } else {
        assert(files.take(upto) =~= files);
    }
}

} // verus!
