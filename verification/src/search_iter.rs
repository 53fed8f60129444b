//! A second face of the line search: the same searches, with a
//! configuration builder that consumes its argument list instead of
//! borrowing it.

use vstd::prelude::*;

verus! {

use crate::search::{matching_lines, matching_lines_ci};
use crate::text::split_lines;

/// Case-sensitive search: exactly the lines of `contents` that contain
/// `query`, in text order.
pub fn search<'a>(query: &str, contents: &'a str) -> (r: Vec<&'a str>)
    ensures
        r@.map_values(|t: &str| t@) == matching_lines(split_lines(contents@), query@),
{
    crate::search::search(query, contents)
}

/// Case-insensitive search: exactly the lines of `contents` whose lowercase
/// form contains the lowercase form of `query`, in text order.
pub fn search_case_insensitive<'a>(query: &str, contents: &'a str) -> (r: Vec<&'a str>)
    ensures
        r@.map_values(|t: &str| t@) == matching_lines_ci(split_lines(contents@), query@),
{
    crate::search::search_case_insensitive(query, contents)
}

/// What a search run needs to know, built by consuming the argument list.
pub struct Config {
    pub query: String,
    pub file_path: String,
    pub ignore_case: bool,
}

impl Config {
    /// Builds a configuration by taking the arguments one after another:
    /// the program name is skipped, then the query, then the file path.
    /// Each missing argument has its own error.
    pub fn build(args: Vec<String>, ignore_case: bool) -> (r: Result<Config, &'static str>)
        ensures
            r is Ok <==> args@.len() >= 3,
            match r {
                Ok(c) => {
                    &&& c.query@ == args@[1]@
                    &&& c.file_path@ == args@[2]@
                    &&& c.ignore_case == ignore_case
                },
                Err(e) => {
                    &&& args@.len() < 2 ==> e@ == "Didn't get a query string"@
                    &&& args@.len() == 2 ==> e@ == "Didn't get a file path"@
                },
            },
    {
        let mut args = args;
        if args.len() < 2 {
            return Err("Didn't get a query string");
        }
        if args.len() < 3 {
            return Err("Didn't get a file path");
        }
        let query = args.remove(1);
        let file_path = args.remove(1);
        Ok(Config { query, file_path, ignore_case })
    }
}

} // verus!
