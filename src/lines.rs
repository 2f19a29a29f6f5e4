//! Splitting a text into lines.
use vstd::prelude::*;
use vstd::string::StrSliceExecFns;

verus! {

/// Index of the first line feed in `s`, or the length of `s` when it holds none.
pub open spec fn lf_index(s: Seq<char>) -> nat
    decreases s.len(),
{
    if s.len() == 0 {
        0
    } else if s[0] == '\n' {
        0
    } else {
        1 + lf_index(s.drop_first())
    }
}

/// `s` without one carriage return at its end, if it has one.
pub open spec fn strip_cr(s: Seq<char>) -> Seq<char> {
    if s.len() > 0 && s.last() == '\r' {
        s.drop_last()
    } else {
        s
    }
}

/// The lines of `s`. A line runs up to the next line feed, which it does not
/// include, nor a carriage return just before that line feed. A final line feed
/// ends the last line rather than starting an empty one, and an empty text has
/// no lines.
pub open spec fn lines_of(s: Seq<char>) -> Seq<Seq<char>>
    decreases s.len(),
    via lines_of_decreases
{
    if s.len() == 0 {
        seq![]
    } else {
        let k = lf_index(s) as int;
        if k < s.len() {
            seq![strip_cr(s.subrange(0, k))] + lines_of(s.subrange(k + 1, s.len() as int))
        } else {
            seq![s]
        }
    }
}

#[via_fn]
proof fn lines_of_decreases(s: Seq<char>) {
    lemma_lf_index(s);
}

/// The characters that the line views of `v` hold.
pub open spec fn line_views(v: Seq<&str>) -> Seq<Seq<char>> {
    v.map_values(|l: &str| l@)
}

/// A text is closed when it is empty or ends with a line feed.
pub open spec fn closed(s: Seq<char>) -> bool {
    s.len() == 0 || s.last() == '\n'
}

pub proof fn lemma_lf_index(s: Seq<char>)
    ensures
        lf_index(s) <= s.len(),
        forall|j: int| 0 <= j < lf_index(s) ==> s[j] != '\n',
        lf_index(s) < s.len() ==> s[lf_index(s) as int] == '\n',
    decreases s.len(),
{
    if s.len() > 0 && s[0] != '\n' {
        lemma_lf_index(s.drop_first());
        assert forall|j: int| 0 <= j < lf_index(s) implies s[j] != '\n' by {
            if j > 0 {
                assert(s[j] == s.drop_first()[j - 1]);
            }
        }
    }
}

proof fn lemma_lf_index_at(s: Seq<char>, k: int)
    requires
        0 <= k <= s.len(),
        forall|j: int| 0 <= j < k ==> s[j] != '\n',
        k < s.len() ==> s[k] == '\n',
    ensures
        lf_index(s) == k,
{
    lemma_lf_index(s);
}

/// Lines of a closed text followed by more text are the lines of each part.
pub proof fn lemma_lines_append(p: Seq<char>, t: Seq<char>)
    requires
        closed(p),
    ensures
        lines_of(p + t) == lines_of(p) + lines_of(t),
    decreases p.len(),
{
    if p.len() == 0 {
        assert(p + t =~= t);
        assert(lines_of(p) + lines_of(t) =~= lines_of(t));
    } else {
        lemma_lf_index(p);
        let k = lf_index(p) as int;
        if k == p.len() {
            assert(p[p.len() - 1] == '\n');
        }
        assert(k < p.len());
        let pt = p + t;
        lemma_lf_index_at(pt, k);
        let rest = p.subrange(k + 1, p.len() as int);
        assert(pt.subrange(0, k) =~= p.subrange(0, k));
        assert(pt.subrange(k + 1, pt.len() as int) =~= rest + t);
        if rest.len() > 0 {
            assert(rest.last() == p.last());
        }
        lemma_lines_append(rest, t);
        assert(lines_of(pt) == seq![strip_cr(p.subrange(0, k))] + lines_of(rest + t));
        assert(lines_of(p) == seq![strip_cr(p.subrange(0, k))] + lines_of(rest));
        assert(lines_of(pt) =~= lines_of(p) + lines_of(t));
    }
}

/// A text without line feeds that ends with one is a single line.
pub proof fn lemma_lines_terminated(x: Seq<char>)
    requires
        forall|j: int| 0 <= j < x.len() ==> x[j] != '\n',
    ensures
        lines_of(x.push('\n')) == seq![strip_cr(x)],
{
    let s = x.push('\n');
    lemma_lf_index_at(s, x.len() as int);
    assert(s.subrange(0, x.len() as int) =~= x);
    let rest = s.subrange(x.len() as int + 1, s.len() as int);
    assert(rest =~= Seq::<char>::empty());
    assert(lines_of(rest) =~= Seq::<Seq<char>>::empty());
    assert(lines_of(s) =~= seq![strip_cr(x)]);
}

/// A non-empty text without line feeds is a single line.
pub proof fn lemma_lines_unterminated(x: Seq<char>)
    requires
        x.len() > 0,
        forall|j: int| 0 <= j < x.len() ==> x[j] != '\n',
    ensures
        lines_of(x) == seq![x],
{
    lemma_lf_index_at(x, x.len() as int);
}

/// Splits `contents` into its lines, each a slice of `contents`, in order.
pub fn split_lines<'a>(contents: &'a str) -> (r: Vec<&'a str>)
    ensures
        line_views(r@) == lines_of(contents@),
{
    let ghost s = contents@;
    let n = contents.unicode_len();
    let mut r: Vec<&'a str> = Vec::new();
    let mut start: usize = 0;
    let mut i: usize = 0;
    let mut prev_cr = false;
    for c in it: contents.chars()
        invariant
            s == contents@,
            n == s.len(),
            it.seq() == s,
            i == it.index(),
            start <= i <= n,
            closed(s.subrange(0, start as int)),
            forall|j: int| start <= j < i ==> s[j] != '\n',
            prev_cr == (start < i && s[i - 1] == '\r'),
            line_views(r@) == lines_of(s.subrange(0, start as int)),
    {
        if c == '\n' {
            let end: usize = if prev_cr { i - 1 } else { i };
            let line = contents.substring_char(start, end);
            proof {
                let x = s.subrange(start as int, i as int);
                let before = s.subrange(0, start as int);
                assert(s.subrange(0, i + 1) =~= before + x.push('\n'));
                lemma_lines_terminated(x);
                lemma_lines_append(before, x.push('\n'));
                assert(strip_cr(x) =~= line@);
                assert(line_views(r@.push(line)) =~= line_views(r@).push(line@));
            }
            r.push(line);
            assert(s.subrange(0, i + 1).last() == '\n');
            start = i + 1;
            prev_cr = false;
        } else {
            prev_cr = c == '\r';
        }
        i = i + 1;
    }
    if start < n {
        let line = contents.substring_char(start, n);
        proof {
            let x = s.subrange(start as int, n as int);
            let before = s.subrange(0, start as int);
            assert(s =~= before + x);
            lemma_lines_unterminated(x);
            lemma_lines_append(before, x);
            assert(line_views(r@.push(line)) =~= line_views(r@).push(line@));
        }
        r.push(line);
    } else {
        assert(s.subrange(0, start as int) =~= s);
    }
    r
}

} // verus!
