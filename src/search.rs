//! Line search over a text: exact and case-folded substring matches.
use vstd::prelude::*;

verus! {

/// `pat` occurs in `text` as a run of consecutive characters.
pub open spec fn contains_seq(text: Seq<char>, pat: Seq<char>) -> bool {
    exists|i: int|
        0 <= i <= text.len() - pat.len() && #[trigger] text.subrange(i, i + pat.len()) == pat
}

/// A line without the carriage return that ends it, if any.
pub open spec fn strip_cr(line: Seq<char>) -> Seq<char> {
    if line.len() > 0 && line.last() == '\r' {
        line.drop_last()
    } else {
        line
    }
}

/// The lines of `rest`, given that the current line has `cur` so far. A
/// line ends at "\n" (a "\r" just before it is dropped); a last line
/// without "\n" is kept as it is, and nothing follows a final "\n".
pub open spec fn lines_from(rest: Seq<char>, cur: Seq<char>) -> Seq<Seq<char>>
    decreases rest.len(),
{
    if rest.len() == 0 {
        if cur.len() == 0 {
            Seq::empty()
        } else {
            seq![cur]
        }
    } else if rest[0] == '\n' {
        seq![strip_cr(cur)] + lines_from(rest.drop_first(), Seq::empty())
    } else {
        lines_from(rest.drop_first(), cur.push(rest[0]))
    }
}

/// The lines of a text.
pub open spec fn split_lines(text: Seq<char>) -> Seq<Seq<char>> {
    lines_from(text, Seq::empty())
}

/// The characters of each string slice.
pub open spec fn views_of(v: Seq<&str>) -> Seq<Seq<char>> {
    v.map_values(|l: &str| l@)
}

/// The characters of each string.
pub open spec fn string_views_of(v: Seq<String>) -> Seq<Seq<char>> {
    v.map_values(|l: String| l@)
}

/// Relies on `str::lines`: the lines of `s`, split at "\n" or "\r\n" with
/// the terminators dropped, and no empty line after a final terminator.
#[verifier::external_body]
pub(crate) fn lines_of<'a>(s: &'a str) -> (r: Vec<&'a str>)
    ensures
        views_of(r@) == split_lines(s@),
{
    s.lines().collect()
}

/// Relies on `str::contains` with a string pattern: whether `pat` occurs in
/// `text`.
#[verifier::external_body]
pub(crate) fn text_contains(text: &str, pat: &str) -> (r: bool)
    ensures
        r == contains_seq(text@, pat@),
{
    text.contains(pat)
}

/// The lines of `contents` that contain `query`, in order.
pub fn search<'a>(query: &str, contents: &'a str) -> (r: Vec<&'a str>)
    ensures
        views_of(r@) == split_lines(contents@).filter(|l: Seq<char>| contains_seq(l, query@)),
{
    let lines = lines_of(contents);
    let ghost pred = |l: Seq<char>| contains_seq(l, query@);
    let mut results: Vec<&'a str> = Vec::new();
    let mut i: usize = 0;
    while i < lines.len()
        invariant
            i <= lines@.len(),
            pred == (|l: Seq<char>| contains_seq(l, query@)),
            views_of(results@) == views_of(lines@).take(i as int).filter(pred),
        decreases lines@.len() - i,
    {
        let line = lines[i];
        let hit = text_contains(line, query);
        proof {
            assert(views_of(lines@).take(i + 1) =~= views_of(lines@).take(i as int).push(line@));
            views_of(lines@).take(i as int).lemma_filter_push(line@, pred);
            assert(pred(line@) == hit);
        }
        let ghost prev = results@;
        if hit {
            results.push(line);
            proof {
                assert(views_of(results@) =~= views_of(prev).push(line@));
            }
        }
        i = i + 1;
    }
    proof {
        assert(views_of(lines@).take(lines@.len() as int) =~= views_of(lines@));
    }
    results
}

} // verus!
