//! Line search over a text: the lines containing a query, case-sensitively
//! or case-insensitively, in text order.

use vstd::prelude::*;

verus! {

use crate::text::{split_lines, seq_contains, lower_of, contains_sub, lines_of, lowercase};

/// The lines among `lines` that contain `q`, in order.
pub open spec fn matching_lines(lines: Seq<Seq<char>>, q: Seq<char>) -> Seq<Seq<char>>
    decreases lines.len(),
{
    if lines.len() == 0 {
        Seq::empty()
    } else {
        let rest = matching_lines(lines.drop_last(), q);
        if seq_contains(lines.last(), q) {
            rest.push(lines.last())
        } else {
            rest
        }
    }
}

/// The lines among `lines` whose lowercase form contains the lowercase form
/// of `q`, in order.
pub open spec fn matching_lines_ci(lines: Seq<Seq<char>>, q: Seq<char>) -> Seq<Seq<char>>
    decreases lines.len(),
{
    if lines.len() == 0 {
        Seq::empty()
    } else {
        let rest = matching_lines_ci(lines.drop_last(), q);
        if seq_contains(lower_of(lines.last()), lower_of(q)) {
            rest.push(lines.last())
        } else {
            rest
        }
    }
}

/// Case-sensitive search: exactly the lines of `contents` that contain
/// `query`, in text order.
pub fn search<'a>(query: &str, contents: &'a str) -> (r: Vec<&'a str>)
    ensures
        r@.map_values(|t: &str| t@) == matching_lines(split_lines(contents@), query@),
{
    let lines = lines_of(contents);
    let mut res: Vec<&'a str> = Vec::new();
    let mut i: usize = 0;
    let ghost lviews = lines@.map_values(|t: &str| t@);
    proof {
        assert(res@.map_values(|t: &str| t@) =~= matching_lines(lviews.take(0), query@));
    }
    while i < lines.len()
        invariant
            i <= lines@.len(),
            lviews == lines@.map_values(|t: &str| t@),
            lviews == split_lines(contents@),
            res@.map_values(|t: &str| t@) == matching_lines(lviews.take(i as int), query@),
        decreases lines@.len() - i,
    {
        let line = lines[i];
        let ghost before = res@;
        if contains_sub(line, query) {
            res.push(line);
        }
        proof {
            assert(lviews.take(i + 1).drop_last() =~= lviews.take(i as int));
            assert(lviews.take(i + 1).last() == line@);
            if seq_contains(line@, query@) {
                assert(res@.map_values(|t: &str| t@) =~= before.map_values(|t: &str| t@).push(
                    line@,
                ));
            }
        }
        i = i + 1;
    }
    proof {
        assert(lviews.take(lines@.len() as int) =~= lviews);
    }
    res
}

/// Case-insensitive search: exactly the lines of `contents` whose lowercase
/// form contains the lowercase form of `query`, in text order. The lines
/// come back as they stand in the text, not lowercased.
pub fn search_case_insensitive<'a>(query: &str, contents: &'a str) -> (r: Vec<&'a str>)
    ensures
        r@.map_values(|t: &str| t@) == matching_lines_ci(split_lines(contents@), query@),
{
    let query_lower = lowercase(query);
    let lines = lines_of(contents);
    let mut res: Vec<&'a str> = Vec::new();
    let mut i: usize = 0;
    let ghost lviews = lines@.map_values(|t: &str| t@);
    proof {
        assert(res@.map_values(|t: &str| t@) =~= matching_lines_ci(lviews.take(0), query@));
    }
    while i < lines.len()
        invariant
            i <= lines@.len(),
            lviews == lines@.map_values(|t: &str| t@),
            lviews == split_lines(contents@),
            query_lower@ == lower_of(query@),
            res@.map_values(|t: &str| t@) == matching_lines_ci(lviews.take(i as int), query@),
        decreases lines@.len() - i,
    {
        let line = lines[i];
        let line_lower = lowercase(line);
        let ghost before = res@;
        if contains_sub(line_lower.as_str(), query_lower.as_str()) {
            res.push(line);
        }
        proof {
            assert(lviews.take(i + 1).drop_last() =~= lviews.take(i as int));
            assert(lviews.take(i + 1).last() == line@);
            if seq_contains(lower_of(line@), lower_of(query@)) {
                assert(res@.map_values(|t: &str| t@) =~= before.map_values(|t: &str| t@).push(
                    line@,
                ));
            }
        }
        i = i + 1;
    }
    proof {
        assert(lviews.take(lines@.len() as int) =~= lviews);
    }
    res
}

/// What a search run needs to know: the query, where the text lives, and
/// whether case is ignored. Parsed from a command line; reading the
/// environment and the file stays with the embedding program.
pub struct Config {
    pub query: String,
    pub file_path: String,
    pub ignore_case: bool,
}

impl Config {
    /// Builds a configuration from the argument list: the program name, then
    /// the query, then the file path. Fails exactly when fewer than three
    /// arguments came.
    pub fn build(args: &Vec<String>, ignore_case: bool) -> (r: Result<Config, &'static str>)
        ensures
            r is Ok <==> args@.len() >= 3,
            match r {
                Ok(c) => {
                    &&& c.query@ == args@[1]@
                    &&& c.file_path@ == args@[2]@
                    &&& c.ignore_case == ignore_case
                },
                Err(e) => e@ == "not enough arguments"@,
            },
    {
        if args.len() < 3 {
            return Err("not enough arguments");
        }
        let query = args[1].clone();
        let file_path = args[2].clone();
        Ok(Config { query, file_path, ignore_case })
    }
}

} // verus!
