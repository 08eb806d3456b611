//! The order of the repository list, and finding a record again by its path.
//!
//! Records of working copies that are present come before missing ones; within
//! each group records stand in dictionary order of their lowercase display
//! name. Records that the order does not tell apart keep their relative order.

use crate::git_repo::{GitRepo, RepoView};
use crate::text::{
    chars_of, comes_before, lemma_lex_lt_irreflexive, lemma_lex_lt_total,
    lemma_lex_lt_transitive, lemma_lex_lt_weak, lex_lt, lowercase_of, same_text, to_lowercase,
};
use vstd::prelude::*;

verus! {

/// The text by which records of one group are ordered.
pub open spec fn sort_key(r: RepoView) -> Seq<char> {
    lowercase_of(r.display_short())
}

/// `a` has to stand before `b`.
pub open spec fn precedes(a: RepoView, b: RepoView) -> bool {
    if a.missing != b.missing {
        !a.missing
    } else {
        lex_lt(sort_key(a), sort_key(b))
    }
}

/// The order of the list as a relation.
pub open spec fn repo_order() -> spec_fn(RepoView, RepoView) -> bool {
    |a: RepoView, b: RepoView| precedes(a, b)
}

/// `lt` is a strict order: nothing stands before itself, and the relation is
/// transitive.
pub open spec fn strict_order<T>(lt: spec_fn(T, T) -> bool) -> bool {
    &&& forall|a: T| !#[trigger] lt(a, a)
    &&& forall|a: T, b: T, c: T| #[trigger] lt(a, b) && #[trigger] lt(b, c) ==> lt(a, c)
}

/// No item of `s` stands behind one that it has to stand before.
pub open spec fn ordered_by<T>(s: Seq<T>, lt: spec_fn(T, T) -> bool) -> bool {
    forall|i: int, j: int| 0 <= i < j < s.len() ==> !lt(#[trigger] s[j], #[trigger] s[i])
}

/// Where `x` enters the ordered list `s`: before the first item that it has
/// to stand before, at the end where there is none. So `x` comes to stand
/// behind the items that the order does not tell apart from it.
pub open spec fn insert_position<T>(s: Seq<T>, x: T, lt: spec_fn(T, T) -> bool) -> int
    decreases s.len(),
{
    if s.len() == 0 || lt(x, s[0]) {
        0
    } else {
        1 + insert_position(s.drop_first(), x, lt)
    }
}

/// `s` put in order: each item in turn enters the ordered list of those
/// before it at its `insert_position`.
pub open spec fn sorted_by<T>(s: Seq<T>, lt: spec_fn(T, T) -> bool) -> Seq<T>
    decreases s.len(),
{
    if s.len() == 0 {
        s
    } else {
        let before = sorted_by(s.drop_last(), lt);
        before.insert(insert_position(before, s.last(), lt), s.last())
    }
}

/// The repository list in order.
pub open spec fn ordered(s: Seq<RepoView>) -> bool {
    ordered_by(s, repo_order())
}

/// The repository list put in order.
pub open spec fn sorted(s: Seq<RepoView>) -> Seq<RepoView> {
    sorted_by(s, repo_order())
}

/// `precedes` is a strict order: no record precedes itself.
pub proof fn lemma_precedes_irreflexive(a: RepoView)
    ensures
        !precedes(a, a),
{
    lemma_lex_lt_irreflexive(sort_key(a));
}

/// `precedes` is a strict order: it is transitive.
pub proof fn lemma_precedes_transitive(a: RepoView, b: RepoView, c: RepoView)
    requires
        precedes(a, b),
        precedes(b, c),
    ensures
        precedes(a, c),
{
    if a.missing == b.missing && b.missing == c.missing {
        lemma_lex_lt_transitive(sort_key(a), sort_key(b), sort_key(c));
    }
}

/// The order of the repository list is a strict order.
pub proof fn lemma_repo_order_strict()
    ensures
        strict_order(repo_order()),
{
    let lt = repo_order();
    assert forall|a: RepoView| !#[trigger] lt(a, a) by {
        lemma_precedes_irreflexive(a);
    }
    assert forall|a: RepoView, b: RepoView, c: RepoView| #[trigger]
        lt(a, b) && #[trigger] lt(b, c) implies lt(a, c) by {
        lemma_precedes_transitive(a, b, c);
    }
}

/// Where neither of two records precedes the other, they belong to the same
/// group and have the same lowercase display name.
pub proof fn lemma_precedes_ties(a: RepoView, b: RepoView)
    requires
        !precedes(a, b),
        !precedes(b, a),
    ensures
        a.missing == b.missing,
        sort_key(a) == sort_key(b),
{
    if sort_key(a) != sort_key(b) {
        lemma_lex_lt_total(sort_key(a), sort_key(b));
    }
}

/// `insert_position` is the one place `p` such that `x` stands before none
/// of the items before `p` and stands before the item at `p`, if there is one.
pub proof fn lemma_insert_position<T>(s: Seq<T>, x: T, lt: spec_fn(T, T) -> bool, p: int)
    requires
        0 <= p <= s.len(),
        forall|k: int| 0 <= k < p ==> !lt(x, #[trigger] s[k]),
        p < s.len() ==> lt(x, s[p]),
    ensures
        insert_position(s, x, lt) == p,
    decreases s.len(),
{
    if s.len() > 0 && p > 0 {
        let t = s.drop_first();
        assert(!lt(x, s[0]));
        assert forall|k: int| 0 <= k < p - 1 implies !lt(x, #[trigger] t[k]) by {
            assert(t[k] == s[k + 1]);
        }
        lemma_insert_position(t, x, lt, p - 1);
    }
}

/// `insert_position` lies within the list, `x` stands before none of the
/// items before it, and stands before the item at it, if there is one.
pub proof fn lemma_insert_position_bounds<T>(s: Seq<T>, x: T, lt: spec_fn(T, T) -> bool)
    ensures
        0 <= insert_position(s, x, lt) <= s.len(),
        forall|k: int| 0 <= k < insert_position(s, x, lt) ==> !lt(x, #[trigger] s[k]),
        insert_position(s, x, lt) < s.len() ==> lt(x, s[insert_position(s, x, lt)]),
    decreases s.len(),
{
    if s.len() > 0 && !lt(x, s[0]) {
        let t = s.drop_first();
        lemma_insert_position_bounds(t, x, lt);
        let p = insert_position(s, x, lt);
        assert forall|k: int| 0 <= k < p implies !lt(x, #[trigger] s[k]) by {
            if k > 0 {
                assert(s[k] == t[k - 1]);
            }
        }
        if p < s.len() {
            assert(s[p] == t[p - 1]);
        }
    }
}

/// Sorting keeps the number of items.
pub proof fn lemma_sorted_by_len<T>(s: Seq<T>, lt: spec_fn(T, T) -> bool)
    ensures
        sorted_by(s, lt).len() == s.len(),
    decreases s.len(),
{
    if s.len() > 0 {
        lemma_sorted_by_len(s.drop_last(), lt);
        lemma_insert_position_bounds(sorted_by(s.drop_last(), lt), s.last(), lt);
    }
}

/// Sorting rearranges: every item occurs in the sorted list as often as in
/// the list it was made from.
pub proof fn lemma_sorted_by_permutation<T>(s: Seq<T>, lt: spec_fn(T, T) -> bool)
    ensures
        sorted_by(s, lt).to_multiset() == s.to_multiset(),
    decreases s.len(),
{
    broadcast use vstd::seq_lib::group_to_multiset_ensures;

    if s.len() > 0 {
        let before = sorted_by(s.drop_last(), lt);
        lemma_sorted_by_permutation(s.drop_last(), lt);
        lemma_sorted_by_len(s.drop_last(), lt);
        lemma_insert_position_bounds(before, s.last(), lt);
        assert(s == s.drop_last().push(s.last()));
    }
}

/// Under a strict order the sorted list is in order.
pub proof fn lemma_sorted_by_ordered<T>(s: Seq<T>, lt: spec_fn(T, T) -> bool)
    requires
        strict_order(lt),
    ensures
        ordered_by(sorted_by(s, lt), lt),
    decreases s.len(),
{
    if s.len() > 0 {
        let before = sorted_by(s.drop_last(), lt);
        let x = s.last();
        let p = insert_position(before, x, lt);
        lemma_sorted_by_ordered(s.drop_last(), lt);
        lemma_insert_position_bounds(before, x, lt);
        let after = before.insert(p, x);
        assert forall|i: int, j: int| 0 <= i < j < after.len() implies !lt(
            #[trigger] after[j],
            #[trigger] after[i],
        ) by {
            if j == p {
                assert(after[i] == before[i]);
            } else if i == p {
                assert(after[j] == before[j - 1]);
                if j - 1 > p {
                    assert(!lt(before[j - 1], before[p]));
                }
                if lt(before[j - 1], x) {
                    assert(lt(x, before[p]));
                    assert(lt(before[j - 1], before[p]));
                    assert(!lt(before[p], before[p]));
                }
            } else {
                let i0 = if i < p {
                    i
                } else {
                    i - 1
                };
                let j0 = if j < p {
                    j
                } else {
                    j - 1
                };
                assert(after[i] == before[i0]);
                assert(after[j] == before[j0]);
            }
        }
    }
}

/// `lt` orders classes of items: it is a strict order, and an item that
/// stands neither before nor behind another stands to every third item as
/// that one does.
pub open spec fn weak_order<T>(lt: spec_fn(T, T) -> bool) -> bool {
    &&& strict_order(lt)
    &&& forall|a: T, b: T, c: T| #![trigger lt(a, b), lt(a, c)] lt(a, b) ==> lt(a, c) || lt(c, b)
}

/// The test for an item that the order does not tell apart from `x`.
pub open spec fn tied_with<T>(lt: spec_fn(T, T) -> bool, x: T) -> spec_fn(T) -> bool {
    |y: T| !lt(x, y) && !lt(y, x)
}

/// A list without an item that passes the test has nothing left after the
/// filter.
proof fn lemma_filter_none<T>(s: Seq<T>, pred: spec_fn(T) -> bool)
    requires
        forall|i: int| 0 <= i < s.len() ==> !pred(#[trigger] s[i]),
    ensures
        s.filter(pred) == Seq::<T>::empty(),
    decreases s.len(),
{
    reveal(Seq::filter);
    if s.len() > 0 {
        let front = s.drop_last();
        assert forall|i: int| 0 <= i < front.len() implies !pred(#[trigger] front[i]) by {
            assert(front[i] == s[i]);
        }
        lemma_filter_none(front, pred);
        assert(!pred(s[s.len() - 1]));
    }
}

/// Sorting is stable: the items that the order does not tell apart from `x`
/// stand in the sorted list as they stood in the list before.
pub proof fn lemma_sorted_by_stable<T>(s: Seq<T>, lt: spec_fn(T, T) -> bool, x: T)
    requires
        weak_order(lt),
    ensures
        sorted_by(s, lt).filter(tied_with(lt, x)) == s.filter(tied_with(lt, x)),
    decreases s.len(),
{
    let same = tied_with(lt, x);
    if s.len() == 0 {
    } else {
        let front = s.drop_last();
        let last = s.last();
        let before = sorted_by(front, lt);
        let p = insert_position(before, last, lt);
        lemma_sorted_by_stable(front, lt, x);
        lemma_sorted_by_ordered(front, lt);
        lemma_insert_position_bounds(before, last, lt);
        let head = before.take(p);
        let tail = before.skip(p);
        assert(before == head + tail);
        assert(before.insert(p, last) == head + seq![last] + tail);
        Seq::filter_distributes_over_add(head, tail, same);
        Seq::filter_distributes_over_add(head + seq![last], tail, same);
        Seq::filter_distributes_over_add(head, seq![last], same);
        assert(s == front.push(last));
        front.lemma_filter_push(last, same);
        assert(seq![last] == Seq::<T>::empty().push(last));
        Seq::<T>::empty().lemma_filter_push(last, same);
        lemma_filter_none(Seq::<T>::empty(), same);
        if same(last) {
            assert forall|k: int| 0 <= k < tail.len() implies !same(#[trigger] tail[k]) by {
                let item = before[p + k];
                assert(tail[k] == item);
                assert(lt(last, before[p]));
                if k > 0 {
                    assert(!lt(before[p + k], before[p]));
                }
                assert(!lt(before[p], before[p]));
                assert(lt(last, item) || lt(item, before[p]));
                assert(lt(last, item));
                assert(lt(last, x) || lt(x, item));
            }
            lemma_filter_none(tail, same);
            assert(head.filter(same) + Seq::<T>::empty() == head.filter(same));
            assert(seq![last].filter(same) == seq![last]);
            assert(head.filter(same) + seq![last] + Seq::<T>::empty() == head.filter(same).push(
                last,
            ));
        } else {
            assert(head.filter(same) + Seq::<T>::empty() == head.filter(same));
        }
    }
}

/// The order of the repository list orders classes of records: those of one
/// group with one lowercase display name form a class.
pub proof fn lemma_repo_order_weak()
    ensures
        weak_order(repo_order()),
{
    let lt = repo_order();
    lemma_repo_order_strict();
    assert forall|a: RepoView, b: RepoView, c: RepoView| #![trigger lt(a, b), lt(a, c)]
        lt(a, b) implies lt(a, c) || lt(c, b) by {
        if !lt(a, c) && !lt(c, b) {
            if a.missing == c.missing && c.missing == b.missing {
                lemma_lex_lt_weak(sort_key(a), sort_key(b), sort_key(c));
            }
        }
    }
}

/// Sorting the repository list is stable: records of one group with one
/// lowercase display name keep their relative order.
pub proof fn lemma_sorted_stable(s: Seq<RepoView>, x: RepoView)
    ensures
        sorted(s).filter(tied_with(repo_order(), x)) == s.filter(tied_with(repo_order(), x)),
{
    lemma_repo_order_weak();
    lemma_sorted_by_stable(s, repo_order(), x);
}

/// Sorting keeps the number of records.
pub proof fn lemma_sorted_len(s: Seq<RepoView>)
    ensures
        sorted(s).len() == s.len(),
{
    lemma_sorted_by_len(s, repo_order());
}

/// Sorting rearranges: every record occurs in the sorted list as often as
/// in the list it was made from.
pub proof fn lemma_sorted_permutation(s: Seq<RepoView>)
    ensures
        sorted(s).to_multiset() == s.to_multiset(),
{
    lemma_sorted_by_permutation(s, repo_order());
}

/// A record of the list is a record of the sorted list, and the other way
/// round.
pub proof fn lemma_sorted_contains(s: Seq<RepoView>, x: RepoView)
    ensures
        sorted(s).contains(x) == s.contains(x),
{
    lemma_sorted_permutation(s);
    vstd::seq_lib::to_multiset_contains(s, x);
    vstd::seq_lib::to_multiset_contains(sorted(s), x);
}

/// The sorted list is in order: the records of working copies that are
/// present come first, and each group stands in dictionary order of the
/// lowercase display names.
pub proof fn lemma_sorted_ordered(s: Seq<RepoView>)
    ensures
        ordered(sorted(s)),
{
    lemma_repo_order_strict();
    lemma_sorted_by_ordered(s, repo_order());
}

/// In an ordered list no missing record stands before a present one, and
/// within a group no record stands before one with a smaller lowercase
/// display name.
pub proof fn lemma_ordered_groups(s: Seq<RepoView>, i: int, j: int)
    requires
        ordered(s),
        0 <= i < j < s.len(),
    ensures
        s[i].missing ==> s[j].missing,
        s[i].missing == s[j].missing ==> !lex_lt(sort_key(s[j]), sort_key(s[i])),
{
    assert(!repo_order()(s[j], s[i]));
}

/// Whether `a` has to stand before `b`.
pub fn comes_first(a: &GitRepo, b: &GitRepo) -> (r: bool)
    ensures
        r == precedes(a@, b@),
{
    if a.is_missing() != b.is_missing() {
        !a.is_missing()
    } else {
        let ka = chars_of(to_lowercase(a.display_short().as_str()).as_str());
        let kb = chars_of(to_lowercase(b.display_short().as_str()).as_str());
        comes_before(&ka, &kb)
    }
}

/// Sort `items` by the order that `less` decides and `lt` states. Items that
/// the order does not tell apart keep their relative order.
pub(crate) fn sort_by<T: DeepView, F: Fn(&T, &T) -> bool>(
    items: &mut Vec<T>,
    less: F,
    Ghost(lt): Ghost<spec_fn(T::V, T::V) -> bool>,
)
    requires
        forall|a: &T, b: &T| less.requires((a, b)),
        forall|a: &T, b: &T, r: bool|
            less.ensures((a, b), r) ==> r == lt(a.deep_view(), b.deep_view()),
    ensures
        final(items).deep_view() == sorted_by(old(items).deep_view(), lt),
{
    let ghost start = items.deep_view();
    let n = items.len();
    let mut i: usize = 0;
    assert(start.take(0) + start.skip(0) == start);
    assert(sorted_by(start.take(0), lt) == start.take(0));
    while i < n
        invariant
            i <= n,
            n == items.len(),
            n == start.len(),
            forall|a: &T, b: &T| less.requires((a, b)),
            forall|a: &T, b: &T, r: bool|
                less.ensures((a, b), r) ==> r == lt(a.deep_view(), b.deep_view()),
            items.deep_view() == sorted_by(start.take(i as int), lt) + start.skip(i as int),
        decreases n - i,
    {
        let ghost before = sorted_by(start.take(i as int), lt);
        let ghost whole = items.deep_view();
        proof {
            lemma_sorted_by_len(start.take(i as int), lt);
        }
        let x = items.remove(i);
        assert(x.deep_view() == start[i as int]) by {
            assert(whole[i as int] == start.skip(i as int)[0]);
        }
        proof {
            assert forall|k: int| 0 <= k < i implies items@[k].deep_view()
                == #[trigger] before[k] by {
                assert(whole[k] == before[k]);
            }
        }
        let mut p: usize = 0;
        while p < i && !less(&x, &items[p])
            invariant
                p <= i,
                i < n,
                items.len() == n - 1,
                n == start.len(),
                before.len() == i,
                x.deep_view() == start[i as int],
                forall|a: &T, b: &T| less.requires((a, b)),
                forall|a: &T, b: &T, r: bool|
                    less.ensures((a, b), r) ==> r == lt(a.deep_view(), b.deep_view()),
                forall|k: int| 0 <= k < i ==> items@[k].deep_view() == #[trigger] before[k],
                forall|k: int| 0 <= k < p ==> !lt(x.deep_view(), #[trigger] before[k]),
            decreases i - p,
        {
            p += 1;
        }
        let ghost mid = items.deep_view();
        let ghost xv = x.deep_view();
        items.insert(p, x);
        proof {
            lemma_insert_position(before, xv, lt, p as int);
            let next = start.take(i + 1);
            assert(next.drop_last() == start.take(i as int));
            assert(next.last() == start[i as int]);
            assert(sorted_by(next, lt) == before.insert(p as int, xv));
            assert(mid =~= before + start.skip(i + 1)) by {
                assert forall|k: int| 0 <= k < mid.len() implies mid[k] == (before + start.skip(
                    i + 1,
                ))[k] by {
                    if k < i {
                        assert(whole[k] == before[k]);
                    } else {
                        assert(whole[k + 1] == start.skip(i as int)[k + 1 - i]);
                    }
                }
            }
            assert(items.deep_view() =~= mid.insert(p as int, xv));
            assert(mid.insert(p as int, xv) =~= before.insert(p as int, xv) + start.skip(i + 1));
        }
        i += 1;
    }
    proof {
        assert(start.take(n as int) == start);
        assert(sorted_by(start, lt) + start.skip(n as int) == sorted_by(start, lt));
    }
}

/// Sort the records: existing first (by name), then missing (by name).
pub fn sort_repos(repos: &mut Vec<GitRepo>)
    ensures
        final(repos).deep_view() == sorted(old(repos).deep_view()),
{
    sort_by(repos, comes_first, Ghost(repo_order()));
}

/// `i` is the first place of `s` that holds a record with the path `path`.
pub open spec fn is_first_with_path(s: Seq<RepoView>, path: Seq<char>, i: int) -> bool {
    &&& 0 <= i < s.len()
    &&& s[i].path == path
    &&& forall|k: int| 0 <= k < i ==> (#[trigger] s[k]).path != path
}

/// The first place of `s` that holds a record with the path `path`.
pub open spec fn index_of_path(s: Seq<RepoView>, path: Seq<char>) -> Option<int> {
    if exists|i: int| is_first_with_path(s, path, i) {
        Some(choose|i: int| is_first_with_path(s, path, i))
    } else {
        None
    }
}

/// A list that holds a record with the path `path` has a first such record.
pub proof fn lemma_index_of_path_found(s: Seq<RepoView>, path: Seq<char>, at: int)
    requires
        0 <= at < s.len(),
        s[at].path == path,
    ensures
        index_of_path(s, path) is Some,
        is_first_with_path(s, path, index_of_path(s, path).unwrap()),
        index_of_path(s, path).unwrap() <= at,
    decreases at,
{
    if exists|k: int| 0 <= k < at && (#[trigger] s[k]).path == path {
        let k = choose|k: int| 0 <= k < at && (#[trigger] s[k]).path == path;
        lemma_index_of_path_found(s, path, k);
    } else {
        assert(is_first_with_path(s, path, at));
        let c = choose|i: int| is_first_with_path(s, path, i);
        assert(is_first_with_path(s, path, c));
        if c > at {
            assert(s[at].path != path);
        }
    }
}

/// Find a record again by its path: the first place that holds one with
/// this path.
pub fn find_by_path(repos: &Vec<GitRepo>, path: &str) -> (r: Option<usize>)
    ensures
        match r {
            Some(i) => index_of_path(repos.deep_view(), path@) == Some(i as int),
            None => index_of_path(repos.deep_view(), path@) is None,
        },
{
    let ghost s = repos.deep_view();
    let mut i: usize = 0;
    while i < repos.len()
        invariant
            i <= repos.len(),
            s == repos.deep_view(),
            forall|k: int| 0 <= k < i ==> (#[trigger] s[k]).path != path@,
        decreases repos.len() - i,
    {
        if same_text(repos[i].path(), path) {
            proof {
                assert(s[i as int] == repos@[i as int]@);
                assert(is_first_with_path(s, path@, i as int));
                let c = choose|c: int| is_first_with_path(s, path@, c);
                assert(is_first_with_path(s, path@, c));
                if c < i {
                    assert(s[c].path != path@);
                }
                if c > i {
                    assert(s[i as int].path != path@);
                }
            }
            return Some(i);
        }
        assert(s[i as int] == repos@[i as int]@);
        i += 1;
    }
    proof {
        if exists|c: int| is_first_with_path(s, path@, c) {
            let c = choose|c: int| is_first_with_path(s, path@, c);
            assert(s[c].path != path@);
        }
    }
    None
}

} // verus!
