use vstd::prelude::*;
use crate::text::{lines_view, chars_eq};

verus! {

/// What `char::to_lowercase` yields for one character.
pub uninterp spec fn lower_of_char(c: char) -> Seq<char>;

/// Relies on `char::to_lowercase`: the lowercase form of a character, which
/// depends on that character alone.
#[verifier::external_body]
fn lowercase_char(c: char) -> (r: Vec<char>)
    ensures
        r@ == lower_of_char(c),
{
    c.to_lowercase().collect()
}

/// A text with each character replaced by its lowercase form; matching
/// compares these forms position by position, so columns stay those of the text.
pub open spec fn fold_seq(s: Seq<char>) -> Seq<Seq<char>> {
    s.map_values(|c: char| lower_of_char(c))
}

/// `q` occurs in `t` at column `j`.
pub open spec fn matches_at(t: Seq<Seq<char>>, q: Seq<Seq<char>>, j: int) -> bool {
    &&& 0 <= j
    &&& j + q.len() <= t.len()
    &&& forall|k: int| 0 <= k < q.len() ==> #[trigger] t[j + k] == q[k]
}

/// The columns, from `s` on, of the non-overlapping occurrences of a non-empty
/// `q` in `t` found left to right.
pub open spec fn scan(t: Seq<Seq<char>>, q: Seq<Seq<char>>, s: int) -> Seq<int>
    decreases t.len() - s,
{
    if q.len() == 0 || s < 0 || s + q.len() > t.len() {
        Seq::empty()
    } else if matches_at(t, q, s) {
        seq![s] + scan(t, q, s + q.len())
    } else {
        scan(t, q, s + 1)
    }
}

/// Columns of one row as `(row, col)` pairs.
pub open spec fn on_row(cols: Seq<int>, r: int) -> Seq<(int, int)> {
    cols.map_values(|c: int| (r, c))
}

/// The matches of `q` in the first `n` lines, as `(row, col)` pairs.
pub open spec fn matches_upto(lines: Seq<Seq<char>>, q: Seq<char>, n: int) -> Seq<(int, int)>
    decreases n,
{
    if n <= 0 {
        Seq::empty()
    } else {
        matches_upto(lines, q, n - 1) + on_row(scan(fold_seq(lines[n - 1]), fold_seq(q), 0), n - 1)
    }
}

/// Every case-insensitive, non-overlapping occurrence of `q` in `lines`, row
/// by row and left to right; none for an empty query.
pub open spec fn search_spec(lines: Seq<Seq<char>>, q: Seq<char>) -> Seq<(int, int)> {
    matches_upto(lines, q, lines.len() as int)
}

pub open spec fn cols_view(v: Seq<usize>) -> Seq<int> {
    v.map_values(|x: usize| x as int)
}

pub open spec fn pairs_view(v: Seq<(usize, usize)>) -> Seq<(int, int)> {
    v.map_values(|p: (usize, usize)| (p.0 as int, p.1 as int))
}

pub open spec fn folded_view(v: Seq<Vec<char>>) -> Seq<Seq<char>> {
    v.map_values(|l: Vec<char>| l@)
}

/// `(r1, c1)` comes strictly before `(r2, c2)` in row-major order.
pub open spec fn before(a: (int, int), b: (int, int)) -> bool {
    a.0 < b.0 || (a.0 == b.0 && a.1 < b.1)
}

/// Columns of a scan lie in the text, from `s` on, and each occurrence ends
/// at or before the next begins.
pub proof fn lemma_scan_bounds(t: Seq<Seq<char>>, q: Seq<Seq<char>>, s: int)
    ensures
        forall|i: int|
            0 <= i < scan(t, q, s).len() ==> s <= #[trigger] scan(t, q, s)[i] && scan(t, q, s)[i]
                + q.len() <= t.len() && matches_at(t, q, scan(t, q, s)[i]),
        forall|i: int, j: int|
            0 <= i < j < scan(t, q, s).len() ==> #[trigger] scan(t, q, s)[i] + q.len()
                <= #[trigger] scan(t, q, s)[j],
        scan(t, q, s).len() > 0 ==> q.len() > 0,
    decreases t.len() - s,
{
    if q.len() == 0 || s < 0 || s + q.len() > t.len() {
    } else if matches_at(t, q, s) {
        lemma_scan_bounds(t, q, s + q.len());
        let rest = scan(t, q, s + q.len());
        assert(scan(t, q, s) == seq![s] + rest);
        assert forall|i: int| 0 <= i < scan(t, q, s).len() implies s <= #[trigger] scan(t, q, s)[i]
            && scan(t, q, s)[i] + q.len() <= t.len() && matches_at(t, q, scan(t, q, s)[i]) by {
            if i > 0 {
                assert(scan(t, q, s)[i] == rest[i - 1]);
            }
        }
        assert forall|i: int, j: int|
            0 <= i < j < scan(t, q, s).len() implies #[trigger] scan(t, q, s)[i] + q.len()
                <= #[trigger] scan(t, q, s)[j] by {
            if i > 0 {
                assert(scan(t, q, s)[i] == rest[i - 1]);
            }
            assert(scan(t, q, s)[j] == rest[j - 1]);
        }
    } else {
        lemma_scan_bounds(t, q, s + 1);
        assert(scan(t, q, s) == scan(t, q, s + 1));
    }
}

/// Every match lies within its line and names a row of the buffer; matches
/// come in strictly increasing row-major order.
pub proof fn lemma_matches_upto(lines: Seq<Seq<char>>, q: Seq<char>, n: int)
    requires
        n <= lines.len(),
    ensures
        forall|i: int|
            0 <= i < matches_upto(lines, q, n).len() ==> 0 <= (#[trigger] matches_upto(lines, q, n)[i]).0
                < n && 0 <= matches_upto(lines, q, n)[i].1 && matches_upto(lines, q, n)[i].1 + q.len()
                <= lines[matches_upto(lines, q, n)[i].0].len(),
        forall|i: int, j: int|
            0 <= i < j < matches_upto(lines, q, n).len() ==> before(
                #[trigger] matches_upto(lines, q, n)[i],
                #[trigger] matches_upto(lines, q, n)[j],
            ),
        matches_upto(lines, q, n).len() > 0 ==> q.len() > 0,
    decreases n,
{
    if n > 0 {
        lemma_matches_upto(lines, q, n - 1);
        let t = fold_seq(lines[n - 1]);
        let fq = fold_seq(q);
        lemma_scan_bounds(t, fq, 0);
        let prev = matches_upto(lines, q, n - 1);
        let sc = scan(t, fq, 0);
        let last = on_row(sc, n - 1);
        let all = matches_upto(lines, q, n);
        assert(all == prev + last);
        assert forall|i: int| 0 <= i < all.len() implies 0 <= (#[trigger] all[i]).0 < n && 0
            <= all[i].1 && all[i].1 + q.len() <= lines[all[i].0].len() by {
            if i >= prev.len() {
                assert(all[i] == last[i - prev.len()]);
                assert(last[i - prev.len()] == (n - 1, sc[i - prev.len()]));
            }
        }
        assert forall|i: int, j: int| 0 <= i < j < all.len() implies before(
            #[trigger] all[i],
            #[trigger] all[j],
        ) by {
            if j >= prev.len() {
                assert(all[j] == last[j - prev.len()]);
                if i >= prev.len() {
                    assert(all[i] == last[i - prev.len()]);
                    assert(sc[i - prev.len()] + fq.len() <= sc[j - prev.len()]);
                } else {
                    assert(all[i] == prev[i]);
                }
            }
        }
    }
}

/// An empty query has no matches.
pub proof fn lemma_empty_query(lines: Seq<Seq<char>>)
    ensures
        search_spec(lines, Seq::empty()).len() == 0,
{
    lemma_matches_upto(lines, Seq::empty(), lines.len() as int);
}

/// Matches come row by row, and left to right within a row.
pub proof fn lemma_search_order(lines: Seq<Seq<char>>, q: Seq<char>)
    ensures
        forall|i: int, j: int|
            0 <= i < j < search_spec(lines, q).len() ==> before(
                #[trigger] search_spec(lines, q)[i],
                #[trigger] search_spec(lines, q)[j],
            ),
{
    lemma_matches_upto(lines, q, lines.len() as int);
}

/// Two queries whose characters have the same lowercase forms find the same
/// matches.
pub proof fn lemma_same_folded_query(lines: Seq<Seq<char>>, q1: Seq<char>, q2: Seq<char>)
    requires
        fold_seq(q1) == fold_seq(q2),
    ensures
        search_spec(lines, q1) == search_spec(lines, q2),
{
    lemma_matches_upto_folded(lines, q1, q2, lines.len() as int);
}

proof fn lemma_matches_upto_folded(lines: Seq<Seq<char>>, q1: Seq<char>, q2: Seq<char>, n: int)
    requires
        fold_seq(q1) == fold_seq(q2),
    ensures
        matches_upto(lines, q1, n) == matches_upto(lines, q2, n),
    decreases n,
{
    if n > 0 {
        lemma_matches_upto_folded(lines, q1, q2, n - 1);
    }
}

/// Whether the query's forms `q` occur in the text's forms `t` at column `j`.
fn matches_at_exec(t: &Vec<Vec<char>>, q: &Vec<Vec<char>>, j: usize) -> (r: bool)
    requires
        j + q.len() <= t.len(),
    ensures
        r == matches_at(folded_view(t@), folded_view(q@), j as int),
{
    let mut k: usize = 0;
    while k < q.len()
        invariant
            j + q.len() <= t.len(),
            k <= q.len(),
            forall|m: int| 0 <= m < k ==> t@[j + m]@ == q@[m]@,
        decreases q.len() - k,
    {
        if !chars_eq(&t[j + k], &q[k]) {
            assert(folded_view(t@)[j + k] != folded_view(q@)[k as int]);
            return false;
        }
        k += 1;
    }
    let ghost tv = folded_view(t@);
    let ghost qv = folded_view(q@);
    assert forall|m: int| 0 <= m < qv.len() implies #[trigger] tv[j + m] == qv[m] by {
        assert(t@[j + m]@ == q@[m]@);
    }
    true
}

/// The columns at which the lowercase forms `q` occur in the lowercase forms
/// `t`, left to right and without overlap; none for an empty `q`.
pub fn find_folded(t: &Vec<Vec<char>>, q: &Vec<Vec<char>>) -> (r: Vec<usize>)
    ensures
        cols_view(r@) == scan(folded_view(t@), folded_view(q@), 0),
{
    let ghost tv = folded_view(t@);
    let ghost qv = folded_view(q@);
    let mut r: Vec<usize> = Vec::new();
    if q.len() == 0 {
        assert(cols_view(r@) =~= Seq::<int>::empty());
        return r;
    }
    let mut s: usize = 0;
    while s <= t.len() && q.len() <= t.len() - s
        invariant
            q.len() > 0,
            s <= t.len() + 1,
            tv == folded_view(t@),
            qv == folded_view(q@),
            cols_view(r@) + scan(tv, qv, s as int) == scan(tv, qv, 0),
        decreases t.len() + 1 - s,
    {
        let ghost prev = r@;
        if matches_at_exec(t, q, s) {
            r.push(s);
            assert(cols_view(r@) =~= cols_view(prev).push(s as int));
            assert(scan(tv, qv, s as int) == seq![s as int] + scan(tv, qv, s + q.len()));
            assert(cols_view(r@) + scan(tv, qv, s + q.len()) =~= cols_view(prev) + scan(
                tv,
                qv,
                s as int,
            ));
            s = s + q.len();
        } else {
            s = s + 1;
        }
    }
    assert(scan(tv, qv, s as int) =~= Seq::<int>::empty());
    assert(cols_view(r@) =~= scan(tv, qv, 0));
    r
}

/// The lowercase form of each character of `s`.
fn fold_chars(s: &Vec<char>) -> (r: Vec<Vec<char>>)
    ensures
        folded_view(r@) == fold_seq(s@),
{
    let mut r: Vec<Vec<char>> = Vec::new();
    let mut i: usize = 0;
    while i < s.len()
        invariant
            i <= s.len(),
            folded_view(r@) == fold_seq(s@).subrange(0, i as int),
        decreases s.len() - i,
    {
        let l = lowercase_char(s[i]);
        let ghost prev = r@;
        r.push(l);
        assert(folded_view(r@) =~= folded_view(prev).push(lower_of_char(s@[i as int])));
        i += 1;
        assert(folded_view(r@) =~= fold_seq(s@).subrange(0, i as int));
    }
    assert(folded_view(r@) =~= fold_seq(s@));
    r
}

/// All case-insensitive occurrences of `q` in `lines`, as `(row, col)` pairs in
/// row-major order.
pub fn search_lines(lines: &Vec<Vec<char>>, q: &Vec<char>) -> (r: Vec<(usize, usize)>)
    ensures
        pairs_view(r@) == search_spec(lines_view(lines@), q@),
{
    let ghost lv = lines_view(lines@);
    let fq = fold_chars(q);
    let mut r: Vec<(usize, usize)> = Vec::new();
    let mut row: usize = 0;
    while row < lines.len()
        invariant
            row <= lines.len(),
            lv == lines_view(lines@),
            folded_view(fq@) == fold_seq(q@),
            pairs_view(r@) == matches_upto(lv, q@, row as int),
        decreases lines.len() - row,
    {
        let ft = fold_chars(&lines[row]);
        let cols = find_folded(&ft, &fq);
        assert(lv[row as int] == lines@[row as int]@);
        let ghost base = r@;
        let ghost added = scan(fold_seq(lv[row as int]), fold_seq(q@), 0);
        let mut k: usize = 0;
        while k < cols.len()
            invariant
                k <= cols.len(),
                cols_view(cols@) == added,
                pairs_view(r@) == pairs_view(base) + on_row(added.subrange(0, k as int), row as int),
            decreases cols.len() - k,
        {
            let ghost prev = r@;
            r.push((row, cols[k]));
            assert(added[k as int] == cols@[k as int] as int);
            assert(on_row(added.subrange(0, k + 1), row as int) =~= on_row(
                added.subrange(0, k as int),
                row as int,
            ).push((row as int, added[k as int])));
            assert(pairs_view(r@) =~= pairs_view(prev).push((row as int, added[k as int])));
            assert(pairs_view(r@) =~= pairs_view(base) + on_row(added.subrange(0, k + 1), row as int));
            k += 1;
        }
        assert(added.subrange(0, k as int) =~= added);
        row += 1;
        assert(pairs_view(r@) == matches_upto(lv, q@, row as int));
    }
    r
}

} // verus!
