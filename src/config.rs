//! The search tool's settings, read from its arguments and from the value of
//! the `IGNORE_CASE` variable.
use crate::case_insensitive::{lower_of, search_case_insensitive};
use crate::search::{contains_seq, search, split_lines, views_of};
use vstd::prelude::*;
use vstd::string::StrSliceExecFns;

verus! {

/// What to search for, where, and whether case is ignored.
pub struct Config {
    pub query: String,
    pub file_path: String,
    pub ignore_case: bool,
}

/// The words that, as the fourth argument, ask for a case-insensitive search.
pub open spec fn is_ignore_word(w: Seq<char>) -> bool {
    ||| w == "ig"@
    ||| w == "igc"@
    ||| w == "ignore"@
    ||| w == "ignore_case"@
    ||| w == "IGNORE_CASE"@
}

/// Whether case is ignored: a set variable decides (any value but "0"
/// means yes); without it, the fourth argument does.
pub open spec fn ignore_case_of(var: Option<&str>, args: Seq<String>) -> bool {
    match var {
        Some(flag) => flag@ != "0"@,
        None => args.len() > 3 && is_ignore_word(args[3]@),
    }
}

/// The two texts hold the same characters.
fn same_text(a: &str, b: &str) -> (r: bool)
    ensures
        r == (a@ == b@),
{
    let n = a.unicode_len();
    if n != b.unicode_len() {
        return false;
    }
    let mut i: usize = 0;
    while i < n
        invariant
            n == a@.len(),
            n == b@.len(),
            i <= n,
            forall|j: int| 0 <= j < i ==> a@[j] == b@[j],
        decreases n - i,
    {
        if a.get_char(i) != b.get_char(i) {
            return false;
        }
        i = i + 1;
    }
    assert(a@ =~= b@);
    true
}

impl Config {
    /// Reads the query and the file path from the second and third
    /// arguments (the first is the program's name). `ignore_case_var` is the
    /// value of `IGNORE_CASE`, if it is set.
    pub fn build(args: &[String], ignore_case_var: Option<&str>) -> (r: Result<
        Config,
        &'static str,
    >)
        ensures
            args@.len() < 3 <==> r is Err,
            r is Err ==> r->Err_0@ == "not enough arguments"@,
            r is Ok ==> ({
                let c = r->Ok_0;
                &&& c.query@ == args@[1]@
                &&& c.file_path@ == args@[2]@
                &&& c.ignore_case == ignore_case_of(ignore_case_var, args@)
            }),
    {
        if args.len() < 3 {
            return Err("not enough arguments");
        }
        let query = args[1].clone();
        let file_path = args[2].clone();
        let ignore_case = match ignore_case_var {
            Some(flag) => !same_text(flag, "0"),
            None => {
                if args.len() > 3 {
                    let word = args[3].as_str();
                    same_text(word, "ig") || same_text(word, "igc") || same_text(word, "ignore")
                        || same_text(word, "ignore_case") || same_text(word, "IGNORE_CASE")
                } else {
                    false
                }
            },
        };
        Ok(Config { query, file_path, ignore_case })
    }
}

/// The lines of `contents` that match the configured query, in order: by
/// exact substring, or with both sides lowercased when case is ignored.
pub fn matching_lines<'a>(config: &Config, contents: &'a str) -> (r: Vec<&'a str>)
    ensures
        !config.ignore_case ==> views_of(r@) == split_lines(contents@).filter(
            |l: Seq<char>| contains_seq(l, config.query@),
        ),
        config.ignore_case ==> views_of(r@) == split_lines(contents@).filter(
            |l: Seq<char>| contains_seq(lower_of(l), lower_of(config.query@)),
        ),
{
    if config.ignore_case {
        search_case_insensitive(config.query.as_str(), contents)
    } else {
        search(config.query.as_str(), contents)
    }
}

} // verus!
