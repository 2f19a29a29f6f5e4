//! Properties that relate the search functions to the lines of a text.
use vstd::prelude::*;
use crate::lines::{line_views, lines_of, lemma_lines_unterminated};
use crate::search::{contains, folded, kept_by_keys, lower_of, matching_folded, matching_lines, search_result};

verus! {

/// `l` is an entry of `ls` whose key, at the same place in `keys`, contains `q`.
pub open spec fn has_key_with(q: Seq<char>, ls: Seq<Seq<char>>, keys: Seq<Seq<char>>, l: Seq<char>) -> bool {
    exists|j: int| 0 <= j < ls.len() && l == #[trigger] ls[j] && contains(keys[j], q)
}

/// Selecting by keys keeps only entries whose key contains the query, keeps
/// every such entry, and never grows the sequence.
pub proof fn lemma_kept_by_keys(q: Seq<char>, ls: Seq<Seq<char>>, keys: Seq<Seq<char>>)
    requires
        ls.len() == keys.len(),
    ensures
        kept_by_keys(q, ls, keys).len() <= ls.len(),
        forall|i: int|
            0 <= i < kept_by_keys(q, ls, keys).len() ==> has_key_with(
                q,
                ls,
                keys,
                #[trigger] kept_by_keys(q, ls, keys)[i],
            ),
        forall|j: int|
            0 <= j < ls.len() && contains(keys[j], q) ==> #[trigger] kept_by_keys(
                q,
                ls,
                keys,
            ).contains(ls[j]),
    decreases ls.len(),
{
    if ls.len() > 0 {
        let pl = ls.drop_last();
        let pk = keys.drop_last();
        lemma_kept_by_keys(q, pl, pk);
        let r0 = kept_by_keys(q, pl, pk);
        let r = kept_by_keys(q, ls, keys);
        let last = ls.len() - 1;
        assert forall|i: int| 0 <= i < r.len() implies has_key_with(q, ls, keys, #[trigger] r[i]) by {
            if i < r0.len() {
                assert(r[i] == r0[i]);
                let j = choose|j: int| 0 <= j < pl.len() && r0[i] == pl[j] && contains(pk[j], q);
                assert(ls[j] == pl[j] && keys[j] == pk[j]);
                assert(0 <= j < ls.len() && r[i] == ls[j] && contains(keys[j], q));
            } else {
                assert(r[i] == ls[last] && contains(keys[last], q));
                assert(0 <= last < ls.len() && r[i] == ls[last]);
            }
        }
        assert forall|j: int| 0 <= j < ls.len() && contains(keys[j], q) implies r.contains(
            ls[j],
        ) by {
            if j < last {
                assert(pl[j] == ls[j] && pk[j] == keys[j]);
                assert(r0.contains(pl[j]));
                let i = choose|i: int| 0 <= i < r0.len() && r0[i] == pl[j];
                if contains(keys[last], q) {
                    assert(r[i] == r0[i]);
                }
            } else {
                assert(r.last() == ls[j]);
            }
        }
    }
}

/// A case-sensitive search returns exactly the lines of the text that contain
/// the query: each line it returns is a line of the text containing the query,
/// and each line of the text containing the query is returned.
pub proof fn lemma_search_exact(q: Seq<char>, c: Seq<char>)
    ensures
        forall|i: int|
            0 <= i < search_result(q, true, c).len() ==> contains(
                #[trigger] search_result(q, true, c)[i],
                q,
            ) && lines_of(c).contains(search_result(q, true, c)[i]),
        forall|j: int|
            0 <= j < lines_of(c).len() && contains(lines_of(c)[j], q) ==> #[trigger] search_result(
                q,
                true,
                c,
            ).contains(lines_of(c)[j]),
{
    let ls = lines_of(c);
    lemma_kept_by_keys(q, ls, ls);
    let r = search_result(q, true, c);
    assert forall|i: int| 0 <= i < r.len() implies contains(#[trigger] r[i], q) && ls.contains(
        r[i],
    ) by {
        let j = choose|j: int| 0 <= j < ls.len() && r[i] == ls[j] && contains(ls[j], q);
    }
}

/// Where lowering letter case keeps each occurrence of the query in the lines
/// of the text, every line that the case-sensitive search returns is returned
/// by the case-insensitive search too.
pub proof fn lemma_insensitive_covers_sensitive(q: Seq<char>, c: Seq<char>)
    requires
        forall|j: int|
            0 <= j < lines_of(c).len() && contains(#[trigger] lines_of(c)[j], q) ==> contains(
                lower_of(lines_of(c)[j]),
                lower_of(q),
            ),
    ensures
        forall|l: Seq<char>|
            #[trigger] search_result(q, true, c).contains(l) ==> search_result(
                q,
                false,
                c,
            ).contains(l),
{
    let ls = lines_of(c);
    let fs = folded(ls);
    lemma_kept_by_keys(q, ls, ls);
    lemma_kept_by_keys(lower_of(q), ls, fs);
    assert forall|l: Seq<char>| #[trigger] search_result(q, true, c).contains(l) implies search_result(
        q,
        false,
        c,
    ).contains(l) by {
        let r = search_result(q, true, c);
        let i = choose|i: int| 0 <= i < r.len() && r[i] == l;
        let j = choose|j: int| 0 <= j < ls.len() && r[i] == ls[j] && contains(ls[j], q);
        assert(fs[j] == lower_of(ls[j]));
    }
}

/// A search gives the same lines each time it is run on the same query, mode
/// and text.
pub proof fn lemma_search_repeatable(
    q: Seq<char>,
    case_sensitive: bool,
    c: Seq<char>,
    first: Seq<&str>,
    second: Seq<&str>,
)
    requires
        line_views(first) == search_result(q, case_sensitive, c),
        line_views(second) == search_result(q, case_sensitive, c),
    ensures
        line_views(first) == line_views(second),
{
}

/// An empty text gives no lines, whatever the query and mode.
pub proof fn lemma_empty_text(q: Seq<char>, case_sensitive: bool)
    ensures
        search_result(q, case_sensitive, Seq::<char>::empty()) == Seq::<Seq<char>>::empty(),
{
    let ls = lines_of(Seq::<char>::empty());
    assert(ls == Seq::<Seq<char>>::empty());
    assert(folded(ls) =~= Seq::<Seq<char>>::empty());
}

/// A text that is one line, equal to the query, gives that line exactly once.
pub proof fn lemma_whole_line(q: Seq<char>)
    requires
        q.len() > 0,
        forall|j: int| 0 <= j < q.len() ==> q[j] != '\n',
    ensures
        search_result(q, true, q) == seq![q],
{
    lemma_lines_unterminated(q);
    let ls = lines_of(q);
    assert(q.subrange(0int, 0int + q.len()) =~= q);
    assert(contains(q, q));
    assert(ls.drop_last() =~= Seq::<Seq<char>>::empty());
    assert(kept_by_keys(q, ls.drop_last(), ls.drop_last()) == Seq::<Seq<char>>::empty());
    assert(matching_lines(q, ls) =~= seq![q]);
}

} // verus!
