//! How one web server writes its virtual hosts down.

use vstd::prelude::*;
use crate::pattern::pattern_compiles;

verus! {

/// The four search patterns of a dialect, as texts.
pub struct Patterns {
    pub section_start: Seq<char>,
    pub redirect_to_url: Seq<char>,
    pub port: Seq<char>,
    pub domain: Seq<char>,
}

impl Patterns {
    /// All four patterns are regular expressions that the matcher accepts.
    pub open spec fn compile(self) -> bool {
        &&& pattern_compiles(self.section_start)
        &&& pattern_compiles(self.redirect_to_url)
        &&& pattern_compiles(self.port)
        &&& pattern_compiles(self.domain)
    }
}

/// The dialect of one web server, and which files of its configuration
/// directory are read.
pub struct VhostDiscoveryConfig {
    /// Pattern for the line that opens a virtual host section, such as
    /// `server {` for nginx.
    pub section_start: String,
    /// Pattern for a line that redirects to another URL.
    pub redirect_to_url: String,
    /// Pattern for the line that gives the port, in its group named `port`.
    pub port: String,
    /// Pattern for the line that gives the domains, in its first group.
    pub domain: String,
    /// Whether the files of subdirectories are read too.
    pub include_subdirs: bool,
    /// The endings of the names of the files that are read.
    pub file_extensions: Vec<String>,
}

impl VhostDiscoveryConfig {
    /// The patterns of this dialect.
    pub open spec fn patterns(&self) -> Patterns {
        Patterns {
            section_start: self.section_start@,
            redirect_to_url: self.redirect_to_url@,
            port: self.port@,
            domain: self.domain@,
        }
    }
}

/// A copy of a list of strings.
pub fn copy_strings(items: &Vec<String>) -> (copy: Vec<String>)
    ensures
        copy.deep_view() == items.deep_view(),
{
    let mut copy: Vec<String> = Vec::new();
    let mut i: usize = 0;
    while i < items.len()
        invariant
            i <= items.len(),
            copy.len() == i,
            forall|j: int| 0 <= j < i ==> copy@[j]@ == items@[j]@,
        decreases items.len() - i,
    {
        copy.push(items[i].clone());
        i += 1;
    }
    copy
}

} // verus!
