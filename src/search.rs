//! Line search: which lines of a text contain a query.
use vstd::prelude::*;
use crate::config::Config;
use crate::lines::{line_views, lines_of, split_lines};

verus! {

/// Whether `needle` occurs in `hay` as a run of consecutive characters.
pub open spec fn contains(hay: Seq<char>, needle: Seq<char>) -> bool {
    exists|i: int|
        0 <= i && i + needle.len() <= hay.len() && #[trigger] hay.subrange(i, i + needle.len())
            == needle
}

/// The lowercase form of a text, as `str::to_lowercase` gives it.
pub uninterp spec fn lower_of(s: Seq<char>) -> Seq<char>;

/// Relies on `str::contains` with a `&str` pattern: true exactly when the
/// pattern occurs in the string as a substring.
#[verifier::external_body]
fn str_contains(hay: &str, needle: &str) -> (r: bool)
    ensures
        r == contains(hay@, needle@),
{
    hay.contains(needle)
}

/// Relies on `str::to_lowercase`: the lowercase form depends on the
/// characters of the string alone.
#[verifier::external_body]
fn to_lower(s: &str) -> (r: String)
    ensures
        r@ == lower_of(s@),
{
    s.to_lowercase()
}

/// The entries of `ls`, in order, whose key (the entry of `keys` at the same
/// place) contains `q`.
pub open spec fn kept_by_keys(q: Seq<char>, ls: Seq<Seq<char>>, keys: Seq<Seq<char>>) -> Seq<
    Seq<char>,
>
    decreases ls.len(),
{
    if ls.len() == 0 || keys.len() == 0 {
        seq![]
    } else {
        let r = kept_by_keys(q, ls.drop_last(), keys.drop_last());
        if contains(keys.last(), q) {
            r.push(ls.last())
        } else {
            r
        }
    }
}

/// The lines of `ls`, in order, that contain `q`.
pub open spec fn matching_lines(q: Seq<char>, ls: Seq<Seq<char>>) -> Seq<Seq<char>> {
    kept_by_keys(q, ls, ls)
}

/// The lines of `ls`, in order, whose lowercase form contains `folded_query`.
pub open spec fn matching_folded(folded_query: Seq<char>, ls: Seq<Seq<char>>) -> Seq<Seq<char>> {
    kept_by_keys(folded_query, ls, folded(ls))
}

/// The lowercase form of each line of `ls`.
pub open spec fn folded(ls: Seq<Seq<char>>) -> Seq<Seq<char>> {
    ls.map_values(|l: Seq<char>| lower_of(l))
}

proof fn lemma_kept_step(q: Seq<char>, ls: Seq<Seq<char>>, keys: Seq<Seq<char>>, k: int)
    requires
        0 <= k < ls.len(),
        ls.len() == keys.len(),
    ensures
        kept_by_keys(q, ls.subrange(0, k + 1), keys.subrange(0, k + 1)) == if contains(
            keys[k],
            q,
        ) {
            kept_by_keys(q, ls.subrange(0, k), keys.subrange(0, k)).push(ls[k])
        } else {
            kept_by_keys(q, ls.subrange(0, k), keys.subrange(0, k))
        },
{
    assert(ls.subrange(0, k + 1).drop_last() =~= ls.subrange(0, k));
    assert(keys.subrange(0, k + 1).drop_last() =~= keys.subrange(0, k));
}

/// Keeps, in order, the lines whose key (the entry of `keys` at the same
/// place) contains `query`.
pub fn select_by_keys<'a>(query: &str, lines: &Vec<&'a str>, keys: &Vec<String>) -> (r: Vec<
    &'a str,
>)
    requires
        lines.len() == keys.len(),
    ensures
        line_views(r@) == kept_by_keys(query@, line_views(lines@), keys@.map_values(|k: String| k@)),
{
    let ghost ls = line_views(lines@);
    let ghost ks = keys@.map_values(|k: String| k@);
    let mut r: Vec<&'a str> = Vec::new();
    let mut k: usize = 0;
    while k < lines.len()
        invariant
            ls == line_views(lines@),
            ks == keys@.map_values(|k: String| k@),
            lines.len() == keys.len(),
            k <= lines.len(),
            line_views(r@) == kept_by_keys(query@, ls.subrange(0, k as int), ks.subrange(0, k as int)),
        decreases lines.len() - k,
    {
        proof {
            lemma_kept_step(query@, ls, ks, k as int);
        }
        if str_contains(keys[k].as_str(), query) {
            let line = lines[k];
            assert(line_views(r@.push(line)) =~= line_views(r@).push(line@));
            r.push(line);
        }
        k = k + 1;
    }
    assert(ls.subrange(0, k as int) =~= ls);
    assert(ks.subrange(0, k as int) =~= ks);
    r
}

/// The lines of `contents` that contain `query`, in order, each as it stands
/// in `contents`.
pub fn search<'a>(query: &str, contents: &'a str) -> (r: Vec<&'a str>)
    ensures
        line_views(r@) == matching_lines(query@, lines_of(contents@)),
{
    let lines = split_lines(contents);
    let ghost ls = line_views(lines@);
    let mut r: Vec<&'a str> = Vec::new();
    let mut k: usize = 0;
    while k < lines.len()
        invariant
            ls == line_views(lines@),
            ls == lines_of(contents@),
            k <= lines.len(),
            line_views(r@) == kept_by_keys(query@, ls.subrange(0, k as int), ls.subrange(0, k as int)),
        decreases lines.len() - k,
    {
        proof {
            lemma_kept_step(query@, ls, ls, k as int);
        }
        let line = lines[k];
        if str_contains(line, query) {
            assert(line_views(r@.push(line)) =~= line_views(r@).push(line@));
            r.push(line);
        }
        k = k + 1;
    }
    assert(ls.subrange(0, k as int) =~= ls);
    r
}

/// The lines of `contents` whose lowercase form contains the lowercase form
/// of `query`, in order, each as it stands in `contents`.
pub fn search_case_insensitive<'a>(query: &str, contents: &'a str) -> (r: Vec<&'a str>)
    ensures
        line_views(r@) == matching_folded(lower_of(query@), lines_of(contents@)),
{
    let folded_query = to_lower(query);
    let lines = split_lines(contents);
    let ghost ls = line_views(lines@);
    let mut keys: Vec<String> = Vec::new();
    let mut k: usize = 0;
    while k < lines.len()
        invariant
            ls == line_views(lines@),
            k <= lines.len(),
            keys.len() == k,
            forall|j: int| 0 <= j < k ==> #[trigger] keys@[j]@ == lower_of(ls[j]),
        decreases lines.len() - k,
    {
        keys.push(to_lower(lines[k]));
        k = k + 1;
    }
    let r = select_by_keys(folded_query.as_str(), &lines, &keys);
    assert(keys@.map_values(|k: String| k@) =~= folded(ls));
    r
}

/// What a search for `query` in `contents` returns: the matching lines,
/// compared as they stand when `case_sensitive`, else in lowercase form.
pub open spec fn search_result(query: Seq<char>, case_sensitive: bool, contents: Seq<char>) -> Seq<
    Seq<char>,
> {
    if case_sensitive {
        matching_lines(query, lines_of(contents))
    } else {
        matching_folded(lower_of(query), lines_of(contents))
    }
}

/// Searches `contents` as `config` asks: with or without regard to letter case.
pub fn search_with<'a>(config: &Config, contents: &'a str) -> (r: Vec<&'a str>)
    ensures
        line_views(r@) == search_result(config.query@, config.case_sensitive, contents@),
{
    if config.case_sensitive {
        search(config.query.as_str(), contents)
    } else {
        search_case_insensitive(config.query.as_str(), contents)
    }
}

} // verus!
