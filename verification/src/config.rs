//! The scan configuration, as plain values, with the parsers for its
//! comma-separated options. Command-line parsing happens outside the
//! library and hands these fields over.

use vstd::prelude::*;
use crate::text::parse_code_list;
use crate::text::parse_codes_spec;
use crate::text::split_and_trim;
use crate::text::split_trim_spec;
use crate::text::views_of;

verus! {

pub struct Config {
    pub target: String,
    pub concurrency: usize,
    pub timeout: u64,
    pub wordlist: String,
    pub output: String,
    pub status_codes: Option<String>,
    pub hide_status_codes: Option<String>,
    pub extensions: Option<String>,
    pub user_agent: String,
    pub follow_redirects: bool,
    pub verbose: bool,
}

impl Config {
    /// The select filter: status codes parsed from the comma-separated
    /// option, entries that do not parse as a u16 dropped; `None` when
    /// the option is absent.
    pub fn get_status_codes_filter(&self) -> (codes: Option<Vec<u16>>)
        ensures
            match self.status_codes {
                Option::Some(s) => codes matches Option::Some(v) && v@ == parse_codes_spec(s@),
                Option::None => codes is None,
            },
    {
        match &self.status_codes {
            Option::Some(s) => Option::Some(parse_code_list(s.as_str())),
            Option::None => Option::None,
        }
    }

    /// The hide filter, parsed the same way as the select filter.
    pub fn get_hide_status_codes(&self) -> (codes: Option<Vec<u16>>)
        ensures
            match self.hide_status_codes {
                Option::Some(s) => codes matches Option::Some(v) && v@ == parse_codes_spec(s@),
                Option::None => codes is None,
            },
    {
        match &self.hide_status_codes {
            Option::Some(s) => Option::Some(parse_code_list(s.as_str())),
            Option::None => Option::None,
        }
    }

    /// The extension list: the comma-separated option split and trimmed,
    /// or empty when the option is absent. Empty entries are kept, as a
    /// list such as "a,,b" gives them.
    pub fn get_extensions(&self) -> (exts: Vec<String>)
        ensures
            match self.extensions {
                Option::Some(s) => views_of(exts@) == split_trim_spec(s@),
                Option::None => exts@ == Seq::<String>::empty(),
            },
    {
        match &self.extensions {
            Option::Some(s) => split_and_trim(s.as_str()),
            Option::None => Vec::new(),
        }
    }
}

} // verus!
