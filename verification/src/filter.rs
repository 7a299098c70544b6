//! The search filter: the ordered subsequence of the catalog whose display
//! names contain the query, case-insensitively, plus the laws it obeys.

use vstd::prelude::*;
use crate::entry::{DesktopEntry, EntryView, entry_views};
use crate::text::{
    contains_chars, contains_substr, lemma_contains_empty, lemma_contains_substr_prefix,
    lemma_contains_substr_trans, lemma_upper_seq_add, to_upper_chars, upper_seq, upper_vec,
};

verus! {

/// An entry name matches a query when its uppercase fold contains the
/// query's uppercase fold as a substring.
pub open spec fn matches_query(name: Seq<char>, q: Seq<char>) -> bool {
    contains_substr(upper_seq(name), upper_seq(q))
}

/// The predicate a query imposes on catalog entries.
pub open spec fn query_pred(q: Seq<char>) -> spec_fn(EntryView) -> bool {
    |v: EntryView| matches_query(v.name, q)
}

/// The filtered catalog: the ordered subsequence of `c` whose names match `q`.
pub open spec fn filter_spec(c: Seq<EntryView>, q: Seq<char>) -> Seq<EntryView> {
    c.filter(query_pred(q))
}

/// `a` is a (not necessarily contiguous) subsequence of `b`, in order.
pub open spec fn is_subsequence_of<A>(a: Seq<A>, b: Seq<A>) -> bool
    decreases b.len(),
{
    if a.len() == 0 {
        true
    } else if b.len() == 0 {
        false
    } else if a.last() == b.last() {
        is_subsequence_of(a.drop_last(), b.drop_last())
    } else {
        is_subsequence_of(a, b.drop_last())
    }
}

/// Filtering a sequence extended by one element keeps or drops that element
/// according to the predicate.
proof fn lemma_filter_push<A>(s: Seq<A>, x: A, pred: spec_fn(A) -> bool)
    ensures
        s.push(x).filter(pred) == if pred(x) {
            s.filter(pred).push(x)
        } else {
            s.filter(pred)
        },
{
    reveal(Seq::filter);
    assert(s.push(x).drop_last() =~= s);
    assert(s.push(x).last() == x);
}

/// Filtering by a predicate that holds everywhere changes nothing.
proof fn lemma_filter_all<A>(s: Seq<A>, pred: spec_fn(A) -> bool)
    requires
        forall|i: int| 0 <= i < s.len() ==> pred(#[trigger] s[i]),
    ensures
        s.filter(pred) == s,
    decreases s.len(),
{
    reveal(Seq::filter);
    if s.len() > 0 {
        lemma_filter_all(s.drop_last(), pred);
        assert(s.filter(pred) =~= s);
    }
}

/// Dropping the last element of a subsequence leaves a subsequence.
proof fn lemma_subseq_drop_last<A>(a: Seq<A>, b: Seq<A>)
    requires
        is_subsequence_of(a, b),
        a.len() > 0,
    ensures
        is_subsequence_of(a.drop_last(), b),
    decreases b.len(),
{
    if a.last() == b.last() {
        if a.drop_last().len() > 0 {
            if a.drop_last().last() == b.last() {
                lemma_subseq_drop_last(a.drop_last(), b.drop_last());
            }
        }
    } else {
        lemma_subseq_drop_last(a, b.drop_last());
        if a.drop_last().len() > 0 {
            if a.drop_last().last() == b.last() {
                lemma_subseq_drop_last(a.drop_last(), b.drop_last());
            }
        }
    }
}

/// Extending the longer side preserves the subsequence relation.
pub proof fn lemma_subseq_push<A>(a: Seq<A>, b: Seq<A>, x: A)
    requires
        is_subsequence_of(a, b),
    ensures
        is_subsequence_of(a, b.push(x)),
{
    if a.len() > 0 {
        if a.last() == x {
            lemma_subseq_drop_last(a, b);
            assert(b.push(x).drop_last() =~= b);
        } else {
            assert(b.push(x).drop_last() =~= b);
        }
    }
}

/// Filtering by a pointwise-stronger predicate yields a subsequence of the
/// weaker filter.
proof fn lemma_filter_stronger_subseq<A>(s: Seq<A>, p1: spec_fn(A) -> bool, p2: spec_fn(A) -> bool)
    requires
        forall|i: int| 0 <= i < s.len() && p1(#[trigger] s[i]) ==> p2(s[i]),
    ensures
        is_subsequence_of(s.filter(p1), s.filter(p2)),
    decreases s.len(),
{
    reveal(Seq::filter);
    if s.len() > 0 {
        let t = s.drop_last();
        let l = s.last();
        lemma_filter_stronger_subseq(t, p1, p2);
        if p1(l) {
            assert(p2(l));
            assert(s.filter(p1) == t.filter(p1).push(l));
            assert(s.filter(p2) == t.filter(p2).push(l));
            assert(t.filter(p1).push(l).drop_last() =~= t.filter(p1));
            assert(t.filter(p2).push(l).drop_last() =~= t.filter(p2));
        } else if p2(l) {
            lemma_subseq_push(s.filter(p1), t.filter(p2), l);
        }
    }
}

/// Filtering twice, the second time by a pointwise-stronger predicate, is
/// filtering once by the stronger predicate.
proof fn lemma_filter_of_filter<A>(s: Seq<A>, p1: spec_fn(A) -> bool, p2: spec_fn(A) -> bool)
    requires
        forall|i: int| 0 <= i < s.len() && p2(#[trigger] s[i]) ==> p1(s[i]),
    ensures
        s.filter(p1).filter(p2) == s.filter(p2),
    decreases s.len(),
{
    reveal(Seq::filter);
    if s.len() > 0 {
        let t = s.drop_last();
        let l = s.last();
        lemma_filter_of_filter(t, p1, p2);
        if p1(l) {
            assert(s.filter(p1) == t.filter(p1).push(l));
            lemma_filter_push(t.filter(p1), l, p2);
        } else {
            assert(!p2(l));
        }
    }
}

/// A name that matches an extended query matches the original query:
/// containing a longer string is strictly harder.
pub proof fn lemma_matches_extend(name: Seq<char>, q: Seq<char>, ext: Seq<char>)
    requires
        matches_query(name, q + ext),
    ensures
        matches_query(name, q),
{
    lemma_upper_seq_add(q, ext);
    lemma_contains_substr_prefix(upper_seq(name), upper_seq(q), upper_seq(ext));
}

/// The filtered list preserves the catalog's relative order (it is a
/// subsequence of the catalog), every entry of it matches the query, and
/// every matching catalog entry appears in it.
pub proof fn lemma_filter_exact(c: Seq<EntryView>, q: Seq<char>)
    ensures
        is_subsequence_of(filter_spec(c, q), c),
        forall|i: int|
            0 <= i < filter_spec(c, q).len() ==> matches_query(
                #[trigger] filter_spec(c, q)[i].name,
                q,
            ),
        forall|i: int|
            0 <= i < c.len() && matches_query(c[i].name, q) ==> filter_spec(c, q).contains(
                #[trigger] c[i],
            ),
{
    let p = query_pred(q);
    let all = (|v: EntryView| true);
    assert forall|i: int| 0 <= i < filter_spec(c, q).len() implies matches_query(
        #[trigger] filter_spec(c, q)[i].name,
        q,
    ) by {
        Seq::lemma_filter_pred(c, p, i);
    }
    assert forall|i: int| 0 <= i < c.len() && matches_query(c[i].name, q) implies filter_spec(
        c,
        q,
    ).contains(#[trigger] c[i]) by {
        Seq::lemma_filter_contains(c, p, i);
    }
    lemma_filter_all(c, all);
    lemma_filter_stronger_subseq(c, p, all);
}

/// Filtering by the empty query returns the catalog unchanged.
pub proof fn lemma_filter_empty_query(c: Seq<EntryView>)
    ensures
        filter_spec(c, Seq::<char>::empty()) == c,
{
    let q = Seq::<char>::empty();
    assert(upper_seq(q) =~= Seq::<char>::empty());
    assert forall|i: int| 0 <= i < c.len() implies query_pred(q)(#[trigger] c[i]) by {
        lemma_contains_empty(upper_seq(c[i].name));
    }
    lemma_filter_all(c, query_pred(q));
}

/// Filtering is monotone in the query: appending characters to the query
/// yields a subsequence of the original filtered list.
pub proof fn lemma_filter_monotone(c: Seq<EntryView>, q: Seq<char>, ext: Seq<char>)
    ensures
        is_subsequence_of(filter_spec(c, q + ext), filter_spec(c, q)),
{
    assert forall|i: int|
        0 <= i < c.len() && query_pred(q + ext)(#[trigger] c[i]) implies query_pred(q)(c[i]) by {
        lemma_matches_extend(c[i].name, q, ext);
    }
    lemma_filter_stronger_subseq(c, query_pred(q + ext), query_pred(q));
}

/// Re-filtering an already filtered list by a query that contains the first
/// query is the same as filtering the catalog by the second query alone: on
/// every keystroke the filter may run over the previous result or over the
/// whole catalog, with one outcome.
pub proof fn lemma_filter_compose(c: Seq<EntryView>, q1: Seq<char>, q2: Seq<char>)
    requires
        contains_substr(upper_seq(q2), upper_seq(q1)),
    ensures
        filter_spec(filter_spec(c, q1), q2) == filter_spec(c, q2),
{
    assert forall|i: int|
        0 <= i < c.len() && query_pred(q2)(#[trigger] c[i]) implies query_pred(q1)(c[i]) by {
        lemma_contains_substr_trans(upper_seq(c[i].name), upper_seq(q2), upper_seq(q1));
    }
    lemma_filter_of_filter(c, query_pred(q1), query_pred(q2));
}

/// Whether one entry's display name matches the query, case-insensitively.
pub fn entry_matches(name: &str, query: &Vec<char>) -> (r: bool)
    ensures
        r == matches_query(name@, query@),
{
    let hay = to_upper_chars(name);
    let needle = upper_vec(query);
    contains_chars(&hay, &needle)
}

/// The ordered subsequence of `catalog` whose display names contain `query`
/// as a case-insensitive substring.
pub fn filter_catalog(catalog: &Vec<DesktopEntry>, query: &Vec<char>) -> (r: Vec<DesktopEntry>)
    ensures
        entry_views(r@) == filter_spec(entry_views(catalog@), query@),
{
    let mut r: Vec<DesktopEntry> = Vec::new();
    let mut i: usize = 0;
    while i < catalog.len()
        invariant
            0 <= i <= catalog@.len(),
            entry_views(r@) == filter_spec(entry_views(catalog@).take(i as int), query@),
        decreases catalog@.len() - i,
    {
        let ghost pre = entry_views(catalog@).take(i as int);
        let ghost v = catalog@[i as int]@;
        let e = &catalog[i];
        let matched = entry_matches(e.display_name.as_str(), query);
        proof {
            assert(entry_views(catalog@).take(i + 1) =~= pre.push(v));
            lemma_filter_push(pre, v, query_pred(query@));
        }
        if matched {
            r.push(e.clone());
            proof {
                assert(entry_views(r@) =~= filter_spec(pre, query@).push(v));
            }
        }
        i += 1;
    }
    proof {
        assert(entry_views(catalog@).take(catalog@.len() as int) =~= entry_views(catalog@));
    }
    r
}

} // verus!
