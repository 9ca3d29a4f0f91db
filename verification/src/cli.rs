//! The settings of one run, as the command line gives them.

use vstd::prelude::*;
use crate::text::{split, split_on};

verus! {

/// The file endings that are read where the command line names none.
pub const VHOST_FILE_EXTENSIONS_DEFAULT_VALUE: &'static str = ".conf,.vhost";

/// The path that a path argument gives: the value of its long form where
/// that is present, else the value of its short form where that is present,
/// and the default path where the form that counts holds no value or neither
/// is present.
pub open spec fn argument_path(
    long_present: bool,
    long_value: Option<Seq<char>>,
    short_present: bool,
    short_value: Option<Seq<char>>,
    default_path: Seq<char>,
) -> Seq<char> {
    if long_present {
        match long_value {
            Some(value) => value,
            None => default_path,
        }
    } else if short_present {
        match short_value {
            Some(value) => value,
            None => default_path,
        }
    } else {
        default_path
    }
}

/// The settings of one run.
pub struct AppConfig {
    /// Whether the first file that cannot be read ends the scan of its
    /// dialect.
    pub fall_on_parse_errors: bool,
    /// Whether domains that begin with `www.` are reported.
    pub include_domains_with_www: bool,
    /// Whether hosts on other ports than 80 and 443 are reported.
    pub include_custom_domains: bool,
    /// Whether the files of subdirectories are read too.
    pub recursive_mode: bool,
    /// The masks; a domain that one of them matches is not reported.
    pub domain_ignore_masks: Vec<String>,
    /// The endings of the names of the files that are read.
    pub vhost_file_extensions: Vec<String>,
}

/// The items of a list that is written with commas between them.
pub fn get_string_args_separated_by_comma(input: &str) -> (items: Vec<String>)
    ensures
        items.deep_view() == split_on(input@, ','),
{
    split(input, ',')
}

/// The settings that the command line gives.
///
/// The four switches are taken as they are. `domain_ignore_masks_row` is the
/// list of masks, with commas between them, where the command line holds
/// one; without it there is one blank mask, which excludes nothing.
/// `vhost_file_extensions_row` is the list of file endings, where the command
/// line holds one; without it the endings are `.conf` and `.vhost`.
pub fn get_app_config(
    fall_on_parse_errors: bool,
    include_domains_with_www: bool,
    include_custom_domains: bool,
    recursive_mode: bool,
    domain_ignore_masks_row: Option<&str>,
    vhost_file_extensions_row: Option<&str>,
) -> (config: AppConfig)
    ensures
        config.fall_on_parse_errors == fall_on_parse_errors,
        config.include_domains_with_www == include_domains_with_www,
        config.include_custom_domains == include_custom_domains,
        config.recursive_mode == recursive_mode,
        config.domain_ignore_masks.deep_view() == split_on(
            match domain_ignore_masks_row {
                Some(row) => row@,
                None => Seq::empty(),
            },
            ',',
        ),
        config.vhost_file_extensions.deep_view() == split_on(
            match vhost_file_extensions_row {
                Some(row) => row@,
                None => VHOST_FILE_EXTENSIONS_DEFAULT_VALUE@,
            },
            ',',
        ),
{
    proof {
        reveal_strlit("");
    }
    let masks_row: &str = match domain_ignore_masks_row {
        Some(row) => row,
        None => "",
    };
    assert(masks_row@ =~= match domain_ignore_masks_row {
        Some(row) => row@,
        None => Seq::empty(),
    });
    let extensions_row: &str = match vhost_file_extensions_row {
        Some(row) => row,
        None => VHOST_FILE_EXTENSIONS_DEFAULT_VALUE,
    };
    AppConfig {
        fall_on_parse_errors,
        include_domains_with_www,
        include_custom_domains,
        recursive_mode,
        domain_ignore_masks: get_string_args_separated_by_comma(masks_row),
        vhost_file_extensions: get_string_args_separated_by_comma(extensions_row),
    }
}

/// The path that the command line gives for one of its path arguments.
///
/// The argument can be written with its long name or with its short one.
/// Of each form the caller says whether it is present and which value it
/// holds. The long form counts before the short one, and a form that is
/// present without a value gives the default path, as does the absence of
/// both.
pub fn get_argument_path_value<'a>(
    long_present: bool,
    long_value: Option<&'a str>,
    short_present: bool,
    short_value: Option<&'a str>,
    default_path: &'a str,
) -> (path: &'a str)
    ensures
        path@ == argument_path(
            long_present,
            match long_value {
                Some(value) => Some(value@),
                None => None,
            },
            short_present,
            match short_value {
                Some(value) => Some(value@),
                None => None,
            },
            default_path@,
        ),
{
    if long_present {
        match long_value {
            Some(value) => value,
            None => default_path,
        }
    } else if short_present {
        match short_value {
            Some(value) => value,
            None => default_path,
        }
    } else {
        default_path
    }
}

} // verus!
