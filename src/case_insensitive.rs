//! Line search that ignores case: both sides are lowercased before the
//! substring test.
use crate::search::{contains_seq, lines_of, split_lines, string_views_of, text_contains, views_of};
use vstd::prelude::*;

verus! {

/// What `str::to_lowercase` makes of a text.
pub uninterp spec fn lower_of(s: Seq<char>) -> Seq<char>;

/// Relies on `str::to_lowercase`: the result depends on the characters
/// alone.
#[verifier::external_body]
fn lowercase(s: &str) -> (r: String)
    ensures
        r@ == lower_of(s@),
{
    s.to_lowercase()
}

/// The lines of `lines` whose key, at the same position in `keys`, contains
/// `pat`, in order.
pub open spec fn select_by_key(lines: Seq<Seq<char>>, keys: Seq<Seq<char>>, pat: Seq<char>) -> Seq<
    Seq<char>,
>
    decreases lines.len(),
{
    if lines.len() == 0 {
        Seq::empty()
    } else {
        let rest = select_by_key(lines.drop_last(), keys.drop_last(), pat);
        if contains_seq(keys[lines.len() - 1], pat) {
            rest.push(lines.last())
        } else {
            rest
        }
    }
}

/// Selecting by the lowercased lines is filtering the lines by their
/// lowercased form.
proof fn lemma_select_by_lowered(lines: Seq<Seq<char>>, pat: Seq<char>)
    ensures
        select_by_key(lines, lines.map_values(|l: Seq<char>| lower_of(l)), pat) == lines.filter(
            |l: Seq<char>| contains_seq(lower_of(l), pat),
        ),
    decreases lines.len(),
{
    reveal(Seq::filter);
    if lines.len() > 0 {
        let keys = lines.map_values(|l: Seq<char>| lower_of(l));
        assert(keys.drop_last() =~= lines.drop_last().map_values(|l: Seq<char>| lower_of(l)));
        lemma_select_by_lowered(lines.drop_last(), pat);
    }
}

/// Keeps the lines whose key, at the same position, contains `pattern`.
pub fn select_matching<'a>(lines: &Vec<&'a str>, keys: &Vec<String>, pattern: &str) -> (r: Vec<
    &'a str,
>)
    requires
        lines@.len() == keys@.len(),
    ensures
        views_of(r@) == select_by_key(views_of(lines@), string_views_of(keys@), pattern@),
{
    let mut results: Vec<&'a str> = Vec::new();
    let mut i: usize = 0;
    while i < lines.len()
        invariant
            i <= lines@.len(),
            lines@.len() == keys@.len(),
            views_of(results@) == select_by_key(
                views_of(lines@).take(i as int),
                string_views_of(keys@).take(i as int),
                pattern@,
            ),
        decreases lines@.len() - i,
    {
        let line = lines[i];
        let hit = text_contains(keys[i].as_str(), pattern);
        proof {
            assert(views_of(lines@).take(i + 1).drop_last() =~= views_of(lines@).take(i as int));
            assert(string_views_of(keys@).take(i + 1).drop_last() =~= string_views_of(keys@).take(
                i as int,
            ));
        }
        let ghost prev = results@;
        if hit {
            results.push(line);
            proof {
                assert(views_of(results@) =~= views_of(prev).push(line@));
            }
        }
        i = i + 1;
    }
    proof {
        assert(views_of(lines@).take(lines@.len() as int) =~= views_of(lines@));
        assert(string_views_of(keys@).take(lines@.len() as int) =~= string_views_of(keys@));
    }
    results
}

/// The lines of `contents` that contain `query` once both are lowercased,
/// in order.
pub fn search_case_insensitive<'a>(query: &str, contents: &'a str) -> (r: Vec<&'a str>)
    ensures
        views_of(r@) == split_lines(contents@).filter(
            |l: Seq<char>| contains_seq(lower_of(l), lower_of(query@)),
        ),
{
    let folded_query = lowercase(query);
    let lines = lines_of(contents);
    let mut keys: Vec<String> = Vec::new();
    let mut i: usize = 0;
    while i < lines.len()
        invariant
            i <= lines@.len(),
            string_views_of(keys@) == views_of(lines@).take(i as int).map_values(
                |l: Seq<char>| lower_of(l),
            ),
        decreases lines@.len() - i,
    {
        let line = lines[i];
        let key = lowercase(line);
        let ghost prev = keys@;
        keys.push(key);
        proof {
            assert(string_views_of(keys@) =~= string_views_of(prev).push(lower_of(line@)));
            assert(views_of(lines@).take(i + 1) =~= views_of(lines@).take(i as int).push(line@));
            assert(string_views_of(keys@) =~= views_of(lines@).take(i + 1).map_values(
                |l: Seq<char>| lower_of(l),
            ));
        }
        i = i + 1;
    }
    proof {
        assert(views_of(lines@).take(lines@.len() as int) =~= views_of(lines@));
        lemma_select_by_lowered(views_of(lines@), lower_of(query@));
    }
    select_matching(&lines, &keys, folded_query.as_str())
}

} // verus!
