//! The query engine: a case-sensitive title substring test combined, by
//! conjunction, with optional equality filters on the attribute enumerations.

use vstd::prelude::*;
use vstd::string::StrSliceExecFns;

use crate::media::{Media, MediaType, MediaView, State, Status};

verus! {

/// The optional attribute predicates of a query. An unset field imposes no
/// restriction.
#[derive(Clone, Copy, Debug)]
pub struct Filter {
    pub media_type: Option<MediaType>,
    pub status: Option<Status>,
    pub state: Option<State>,
}

impl Filter {
    /// A filter with no predicate set restricts nothing.
    pub open spec fn vacuous(self) -> bool {
        self.media_type is None && self.status is None && self.state is None
    }
}

impl Default for Filter {
    /// The default filter has every predicate unset.
    fn default() -> (r: Filter)
        ensures
            r.vacuous(),
    {
        Filter { media_type: None, status: None, state: None }
    }
}

/// `needle` occurs in `hay` starting at position `i`.
pub open spec fn is_substring_at(hay: Seq<char>, needle: Seq<char>, i: int) -> bool {
    0 <= i && i + needle.len() <= hay.len() && hay.subrange(i, i + needle.len()) == needle
}

/// `needle` occurs somewhere in `hay` as a contiguous run of characters.
pub open spec fn is_substring(hay: Seq<char>, needle: Seq<char>) -> bool {
    exists|i: int| is_substring_at(hay, needle, i)
}

/// The title predicate: an empty query restricts nothing, any other query
/// must occur in the title, case-sensitively.
pub open spec fn title_matches(m: MediaView, q: Seq<char>) -> bool {
    q.len() == 0 || is_substring(m.title, q)
}

/// The whole query: the conjunction of the title predicate and each set
/// attribute predicate.
pub open spec fn query_matches(m: MediaView, q: Seq<char>, f: Filter) -> bool {
    &&& title_matches(m, q)
    &&& (f.media_type matches Some(t) ==> m.media_type == t)
    &&& (f.status matches Some(s) ==> m.status == s)
    &&& (f.state matches Some(s) ==> m.state == s)
}

/// The whole query, as a predicate on one record view.
pub open spec fn query_pred(q: Seq<char>, f: Filter) -> spec_fn(MediaView) -> bool {
    |mv: MediaView| query_matches(mv, q, f)
}

/// Whether `needle` occurs in `hay` starting exactly at `i`.
fn matches_at(hay: &str, needle: &str, i: usize) -> (b: bool)
    requires
        hay@.len() <= usize::MAX,
        i + needle@.len() <= hay@.len(),
    ensures
        b == is_substring_at(hay@, needle@, i as int),
{
    let n = needle.unicode_len();
    let mut j: usize = 0;
    while j < n
        invariant
            n == needle@.len(),
            hay@.len() <= usize::MAX,
            i + n <= hay@.len(),
            j <= n,
            forall|k: int| 0 <= k < j ==> hay@[i + k] == needle@[k],
        decreases n - j,
    {
        if hay.get_char(i + j) != needle.get_char(j) {
            proof {
                assert(hay@.subrange(i as int, i + needle@.len())[j as int] == hay@[i + j]);
            }
            return false;
        }
        j = j + 1;
    }
    proof {
        assert(hay@.subrange(i as int, i + needle@.len()) =~= needle@);
    }
    true
}

/// Whether `needle` occurs anywhere in `hay`, case-sensitively.
pub fn contains_substring(hay: &str, needle: &str) -> (b: bool)
    ensures
        b == is_substring(hay@, needle@),
{
    let hl = hay.unicode_len();
    let nl = needle.unicode_len();
    if nl > hl {
        proof {
            assert(forall|i: int| !is_substring_at(hay@, needle@, i));
        }
        return false;
    }
    if nl == 0 {
        proof {
            assert(hay@.subrange(0, 0) =~= needle@);
            assert(is_substring_at(hay@, needle@, 0));
        }
        return true;
    }
    let last = hl - nl;
    let mut i: usize = 0;
    while i <= last
        invariant
            hl == hay@.len(),
            nl == needle@.len(),
            0 < nl <= hl,
            last == hl - nl,
            i <= last + 1,
            forall|k: int| 0 <= k < i ==> !is_substring_at(hay@, needle@, k),
        decreases last + 1 - i,
    {
        if matches_at(hay, needle, i) {
            return true;
        }
        i = i + 1;
    }
    proof {
        assert(forall|k: int| is_substring_at(hay@, needle@, k) ==> 0 <= k <= last);
    }
    false
}

/// Whether `m` satisfies the query `query` under `filter`.
pub fn media_matches(m: &Media, query: &String, filter: &Filter) -> (b: bool)
    ensures
        b == query_matches(m@, query@, *filter),
{
    let title_ok = if query.as_str().is_empty() {
        true
    } else {
        contains_substring(m.title.as_str(), query.as_str())
    };
    let type_ok = match filter.media_type {
        Some(t) => m.media_type == t,
        None => true,
    };
    let status_ok = match filter.status {
        Some(s) => m.status == s,
        None => true,
    };
    let state_ok = match filter.state {
        Some(s) => m.state == s,
        None => true,
    };
    title_ok && type_ok && status_ok && state_ok
}

/// The views of a sequence of records.
pub open spec fn views(s: Seq<Media>) -> Seq<MediaView> {
    Seq::new(s.len(), |i: int| s[i]@)
}

/// Filtering a sequence grown by one record keeps the old result and appends
/// the new record exactly when it matches.
proof fn lemma_filter_push(s: Seq<MediaView>, m: MediaView, pred: spec_fn(MediaView) -> bool)
    ensures
        s.push(m).filter(pred) == if pred(m) {
            s.filter(pred).push(m)
        } else {
            s.filter(pred)
        },
{
    reveal_with_fuel(Seq::filter, 2);
    let t = s.push(m);
    assert(t.len() > 0);
    assert(t.drop_last() =~= s);
    assert(t.last() == m);
}

/// Filters `records` by the query: the result is exactly the subsequence of
/// matching records, in their original order, as fresh copies.
pub fn search(records: &Vec<Media>, query: &String, filter: &Filter) -> (r: Vec<Media>)
    ensures
        views(r@) == views(records@).filter(query_pred(query@, *filter)),
{
    let ghost pred = query_pred(query@, *filter);
    let mut out: Vec<Media> = Vec::new();
    let mut i: usize = 0;
    while i < records.len()
        invariant
            i <= records@.len(),
            pred == query_pred(query@, *filter),
            views(out@) == views(records@.take(i as int)).filter(pred),
        decreases records@.len() - i,
    {
        let ghost prev = views(records@.take(i as int));
        let ghost prev_out = views(out@);
        let matched = media_matches(&records[i], query, filter);
        if matched {
            out.push(records[i].clone());
        }
        i = i + 1;
        proof {
            let m = records@[i - 1]@;
            let cur = views(records@.take(i as int));
            assert(cur =~= prev.push(m));
            lemma_filter_push(prev, m, pred);
            if matched {
                assert(views(out@) =~= prev_out.push(m));
            } else {
                assert(views(out@) == prev_out);
            }
        }
    }
    proof {
        assert(records@.take(records@.len() as int) =~= records@);
    }
    out
}

/// The store positions of the matching records, in increasing order. In an
/// append-only store a position is a stable identity, so these positions
/// address records for mutation even while a filtered view is displayed.
pub fn search_indices(records: &Vec<Media>, query: &String, filter: &Filter) -> (r: Vec<usize>)
    ensures
        forall|k: int|
            0 <= k < r@.len() ==> #[trigger] r@[k] < records@.len() && query_matches(
                records@[r@[k] as int]@,
                query@,
                *filter,
            ),
        forall|k1: int, k2: int| 0 <= k1 < k2 < r@.len() ==> r@[k1] < r@[k2],
        forall|i: int|
            0 <= i < records@.len() && query_matches(#[trigger] records@[i]@, query@, *filter)
                ==> r@.contains(i as usize),
{
    let mut out: Vec<usize> = Vec::new();
    let mut i: usize = 0;
    while i < records.len()
        invariant
            i <= records@.len(),
            forall|k: int|
                0 <= k < out@.len() ==> #[trigger] out@[k] < i && query_matches(
                    records@[out@[k] as int]@,
                    query@,
                    *filter,
                ),
            forall|k1: int, k2: int| 0 <= k1 < k2 < out@.len() ==> out@[k1] < out@[k2],
            forall|j: int|
                0 <= j < i && query_matches(#[trigger] records@[j]@, query@, *filter)
                    ==> out@.contains(j as usize),
        decreases records@.len() - i,
    {
        let ghost prev_out = out@;
        let matched = media_matches(&records[i], query, filter);
        if matched {
            out.push(i);
        }
        i = i + 1;
        proof {
            if matched {
                assert(out@ == prev_out.push((i - 1) as usize));
                assert(out@.last() == (i - 1) as usize);
                assert(out@.contains((i - 1) as usize));
                assert forall|k: int| 0 <= k < out@.len() implies #[trigger] out@[k] < i
                    && query_matches(records@[out@[k] as int]@, query@, *filter) by {
                    if k < prev_out.len() {
                        assert(out@[k] == prev_out[k]);
                    } else {
                        assert(out@[k] == (i - 1) as usize);
                    }
                }
            }
            assert forall|j: int|
                0 <= j < i && query_matches(#[trigger] records@[j]@, query@, *filter)
                    implies out@.contains(j as usize) by {
                if j < i - 1 {
                    assert(prev_out.contains(j as usize));
                    let w = choose|w: int| 0 <= w < prev_out.len() && prev_out[w] == j as usize;
                    assert(out@[w] == j as usize);
                }
            }
        }
    }
    out
}

/// Law: with an empty query and every predicate unset, the query restricts
/// nothing, so filtering a library by it returns the library unchanged.
pub proof fn lemma_search_vacuous(lib: Seq<MediaView>, q: Seq<char>, f: Filter)
    requires
        q.len() == 0,
        f.vacuous(),
    ensures
        lib.filter(query_pred(q, f)) == lib,
    decreases lib.len(),
{
    let pred = query_pred(q, f);
    if lib.len() == 0 {
        assert(lib.filter(pred) == lib);
    } else {
        lemma_search_vacuous(lib.drop_last(), q, f);
        assert(pred(lib.last()));
        lemma_filter_push(lib.drop_last(), lib.last(), pred);
        assert(lib.drop_last().push(lib.last()) =~= lib);
    }
}

/// Law: a search result is exactly the matching subset: every returned record
/// matches the query, every matching record of the library appears in the
/// result, and the result is no longer than the library.
pub proof fn lemma_search_exact(lib: Seq<MediaView>, q: Seq<char>, f: Filter, out: Seq<MediaView>)
    requires
        out == lib.filter(query_pred(q, f)),
    ensures
        forall|k: int| 0 <= k < out.len() ==> query_matches(#[trigger] out[k], q, f),
        forall|i: int|
            0 <= i < lib.len() && query_matches(#[trigger] lib[i], q, f) ==> out.contains(lib[i]),
        out.len() <= lib.len(),
{
    broadcast use vstd::seq_lib::group_filter_ensures;

    assert(forall|k: int|
        0 <= k < out.len() ==> query_pred(q, f)(#[trigger] out[k]));
    assert(forall|i: int|
        0 <= i < lib.len() && query_matches(#[trigger] lib[i], q, f) ==> query_pred(q, f)(lib[i]));
}

/// Law: searching is idempotent: two searches with the same query and filter
/// over an unchanged library yield the same sequence of records.
pub proof fn lemma_search_idempotent(
    lib: Seq<MediaView>,
    q: Seq<char>,
    f: Filter,
    r1: Seq<MediaView>,
    r2: Seq<MediaView>,
)
    requires
        r1 == lib.filter(query_pred(q, f)),
        r2 == lib.filter(query_pred(q, f)),
    ensures
        r1 == r2,
{
}

/// Law: after appending a record, a search with an empty query and no
/// predicates set returns the grown library, with the new record last.
pub proof fn lemma_append_then_find(lib: Seq<MediaView>, m: MediaView, q: Seq<char>, f: Filter)
    requires
        q.len() == 0,
        f.vacuous(),
    ensures
        lib.push(m).filter(query_pred(q, f)) == lib.push(m),
        lib.push(m).filter(query_pred(q, f)).len() == lib.len() + 1,
        lib.push(m).filter(query_pred(q, f)).last() == m,
{
    lemma_search_vacuous(lib.push(m), q, f);
}

} // verus!
