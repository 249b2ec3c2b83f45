//! Selecting, counting, sorting, changing and deleting rows of a table, over the sequence of the
//! rows' views.
use vstd::prelude::*;

verus! {

/// The rows of a table, each taken by its view.
pub open spec fn views<R: View>(rows: Seq<R>) -> Seq<R::V> {
    rows.map_values(|r: R| r@)
}

/// `test` can be called on every row and computes `p` of the row's view.
pub open spec fn tests<R: View, F: Fn(&R) -> bool>(test: F, p: spec_fn(R::V) -> bool) -> bool {
    &&& forall|r: &R| #[trigger] call_requires(test, (r,))
    &&& forall|r: &R, b: bool| #[trigger] call_ensures(test, (r,), b) ==> b == p(r@)
}

/// The negation of a row predicate.
pub open spec fn not<V>(p: spec_fn(V) -> bool) -> spec_fn(V) -> bool {
    |v: V| !p(v)
}

/// The rows, those that satisfy `p` changed by `f`.
pub open spec fn update_where<V>(
    rows: Seq<V>,
    p: spec_fn(V) -> bool,
    f: spec_fn(V) -> V,
) -> Seq<V> {
    rows.map_values(
        |v: V|
            if p(v) {
                f(v)
            } else {
                v
            },
    )
}

/// The rows without those that `p` names, and then `row`.
pub open spec fn replace_where<V>(rows: Seq<V>, p: spec_fn(V) -> bool, row: V) -> Seq<V> {
    rows.filter(not(p)).push(row)
}

/// The first row of `rows` that satisfies `p`.
pub open spec fn first_where<V>(rows: Seq<V>, p: spec_fn(V) -> bool) -> Option<V> {
    if rows.filter(p).len() > 0 {
        Some(rows.filter(p)[0])
    } else {
        None
    }
}

/// The last row of `rows` that satisfies `p`.
pub open spec fn last_where<V>(rows: Seq<V>, p: spec_fn(V) -> bool) -> Option<V> {
    if rows.filter(p).len() > 0 {
        Some(rows.filter(p).last())
    } else {
        None
    }
}

/// Every row stands in the relation `r` to every row after it.
pub open spec fn pairwise<V>(s: Seq<V>, r: spec_fn(V, V) -> bool) -> bool {
    forall|i: int, j: int|
        #![trigger s[i], s[j]]
        0 <= i < j < s.len() ==> r(s[i], s[j])
}

/// Some order of two rows puts one before the other.
pub open spec fn either_before<V>(lt: spec_fn(V, V) -> bool) -> spec_fn(V, V) -> bool {
    |a: V, b: V| lt(a, b) || lt(b, a)
}

/// `lt` is transitive.
pub open spec fn transitive<V>(lt: spec_fn(V, V) -> bool) -> bool {
    forall|a: V, b: V, c: V| #[trigger] lt(a, b) && #[trigger] lt(b, c) ==> lt(a, c)
}

/// `out` holds the rows of `s`, each before those that follow it.
pub open spec fn sorts<V>(out: Seq<V>, s: Seq<V>, lt: spec_fn(V, V) -> bool) -> bool {
    &&& out.to_multiset() == s.to_multiset()
    &&& pairwise(out, lt)
}

/// Filtering one more row.
pub proof fn filter_push<V>(s: Seq<V>, v: V, p: spec_fn(V) -> bool)
    ensures
        s.push(v).filter(p) == if p(v) {
            s.filter(p).push(v)
        } else {
            s.filter(p)
        },
{
    reveal(Seq::filter);
    assert(s.push(v).drop_last() =~= s);
}

/// Filtering a prefix that is one row longer.
pub proof fn filter_take<V>(s: Seq<V>, i: int, p: spec_fn(V) -> bool)
    requires
        0 <= i < s.len(),
    ensures
        s.take(i + 1).filter(p) == if p(s[i]) {
            s.take(i).filter(p).push(s[i])
        } else {
            s.take(i).filter(p)
        },
{
    assert(s.take(i + 1) =~= s.take(i).push(s[i]));
    filter_push(s.take(i), s[i], p);
}

/// A predicate that no row satisfies selects nothing.
pub proof fn filter_none<V>(s: Seq<V>, p: spec_fn(V) -> bool)
    requires
        forall|i: int| 0 <= i < s.len() ==> !p(#[trigger] s[i]),
    ensures
        s.filter(p) == Seq::<V>::empty(),
    decreases s.len(),
{
    reveal(Seq::filter);
    if s.len() > 0 {
        filter_none(s.drop_last(), p);
    } else {
        assert(s =~= Seq::<V>::empty());
    }
}

/// A predicate that every row satisfies selects all of them.
pub proof fn filter_all<V>(s: Seq<V>, p: spec_fn(V) -> bool)
    requires
        forall|i: int| 0 <= i < s.len() ==> p(#[trigger] s[i]),
    ensures
        s.filter(p) == s,
    decreases s.len(),
{
    reveal(Seq::filter);
    if s.len() > 0 {
        filter_all(s.drop_last(), p);
        assert(s =~= s.drop_last().push(s.last()));
    }
}

/// A predicate that holds up to `i` and from there on fails selects the rows up to `i`.
pub proof fn filter_head<V>(s: Seq<V>, i: int, p: spec_fn(V) -> bool)
    requires
        0 <= i <= s.len(),
        forall|j: int| 0 <= j < i ==> p(#[trigger] s[j]),
        forall|j: int| i <= j < s.len() ==> !p(#[trigger] s[j]),
    ensures
        s.filter(p) == s.take(i),
{
    assert(s =~= s.take(i) + s.skip(i));
    Seq::filter_distributes_over_add(s.take(i), s.skip(i), p);
    filter_all(s.take(i), p);
    filter_none(s.skip(i), p);
    assert(s.take(i) + Seq::<V>::empty() =~= s.take(i));
}

/// A predicate that fails up to `i` and from there on holds selects the rows from `i` on.
pub proof fn filter_tail<V>(s: Seq<V>, i: int, p: spec_fn(V) -> bool)
    requires
        0 <= i <= s.len(),
        forall|j: int| 0 <= j < i ==> !p(#[trigger] s[j]),
        forall|j: int| i <= j < s.len() ==> p(#[trigger] s[j]),
    ensures
        s.filter(p) == s.skip(i),
{
    assert(s =~= s.take(i) + s.skip(i));
    Seq::filter_distributes_over_add(s.take(i), s.skip(i), p);
    filter_none(s.take(i), p);
    filter_all(s.skip(i), p);
    assert(Seq::<V>::empty() + s.skip(i) =~= s.skip(i));
}

/// Where a row that satisfies `p` is the first to do so, it is what `first_where` gives.
pub proof fn first_where_at<V>(s: Seq<V>, i: int, p: spec_fn(V) -> bool)
    requires
        0 <= i < s.len(),
        p(s[i]),
        forall|j: int| 0 <= j < i ==> !p(#[trigger] s[j]),
    ensures
        first_where(s, p) == Some(s[i]),
{
    let head = s.take(i);
    let tail = s.skip(i + 1);
    assert(s =~= head.push(s[i]) + tail);
    Seq::filter_distributes_over_add(head.push(s[i]), tail, p);
    filter_push(head, s[i], p);
    filter_none(head, p);
}

/// Where no row satisfies `p`, `first_where` gives none.
pub proof fn first_where_none<V>(s: Seq<V>, p: spec_fn(V) -> bool)
    requires
        forall|j: int| 0 <= j < s.len() ==> !p(#[trigger] s[j]),
    ensures
        first_where(s, p) is None,
{
    filter_none(s, p);
}

/// Where a row that satisfies `p` is the last to do so, it is what `last_where` gives.
pub proof fn last_where_at<V>(s: Seq<V>, i: int, p: spec_fn(V) -> bool)
    requires
        0 <= i < s.len(),
        p(s[i]),
        forall|j: int| i < j < s.len() ==> !p(#[trigger] s[j]),
    ensures
        last_where(s, p) == Some(s[i]),
{
    let head = s.take(i);
    let tail = s.skip(i + 1);
    assert(s =~= head.push(s[i]) + tail);
    Seq::filter_distributes_over_add(head.push(s[i]), tail, p);
    filter_push(head, s[i], p);
    filter_none(tail, p);
    assert(s.filter(p) =~= head.filter(p).push(s[i]));
}

/// Filtering keeps what holds of every two rows.
pub proof fn filter_pairwise<V>(s: Seq<V>, p: spec_fn(V) -> bool, r: spec_fn(V, V) -> bool)
    requires
        pairwise(s, r),
    ensures
        pairwise(s.filter(p), r),
    decreases s.len(),
{
    reveal(Seq::filter);
    if s.len() > 0 {
        let rest = s.drop_last();
        filter_pairwise(rest, p, r);
        let out = rest.filter(p);
        assert forall|i: int| 0 <= i < out.len() implies r(#[trigger] out[i], s.last()) by {
            broadcast use Seq::lemma_filter_contains_rev;

            assert(out.contains(out[i]));
            let k = choose|k: int| 0 <= k < rest.len() && rest[k] == out[i];
            assert(s[k] == out[i]);
        }
    }
}

/// Changing rows in a way that keeps what holds of every two of them.
pub proof fn update_pairwise<V>(
    s: Seq<V>,
    p: spec_fn(V) -> bool,
    f: spec_fn(V) -> V,
    r: spec_fn(V, V) -> bool,
)
    requires
        pairwise(s, r),
        forall|a: V, b: V| #[trigger] r(a, b) ==> r(f(a), b) && r(a, f(b)) && r(f(a), f(b)),
    ensures
        pairwise(update_where(s, p, f), r),
{
}

/// Filtering by a weaker predicate first changes nothing.
pub proof fn filter_filter<V>(s: Seq<V>, q: spec_fn(V) -> bool, p: spec_fn(V) -> bool)
    requires
        forall|v: V| #[trigger] p(v) ==> q(v),
    ensures
        s.filter(q).filter(p) == s.filter(p),
    decreases s.len(),
{
    reveal(Seq::filter);
    if s.len() > 0 {
        let rest = s.drop_last();
        filter_filter(rest, q, p);
        filter_push(rest.filter(q), s.last(), p);
    }
}

/// Where a change does not concern the predicate, it may come before the filter or after it.
pub proof fn filter_update<V>(
    s: Seq<V>,
    q: spec_fn(V) -> bool,
    f: spec_fn(V) -> V,
    p: spec_fn(V) -> bool,
)
    requires
        forall|v: V| #[trigger] q(v) ==> p(f(v)) == p(v),
    ensures
        update_where(s, q, f).filter(p) == update_where(s.filter(p), q, f),
    decreases s.len(),
{
    reveal(Seq::filter);
    let new = update_where(s, q, f);
    if s.len() > 0 {
        let rest = s.drop_last();
        let last = s.last();
        filter_update(rest, q, f, p);
        assert(new.drop_last() =~= update_where(rest, q, f));
        assert(q(last) ==> p(f(last)) == p(last));
        assert(new.filter(p) =~= update_where(s.filter(p), q, f));
    } else {
        assert(new.filter(p) =~= update_where(s.filter(p), q, f));
    }
}

/// Where a change concerns only rows that the filter drops before and after, it changes nothing.
pub proof fn filter_update_apart<V>(
    s: Seq<V>,
    q: spec_fn(V) -> bool,
    f: spec_fn(V) -> V,
    p: spec_fn(V) -> bool,
)
    requires
        forall|v: V| #[trigger] q(v) ==> !p(v) && !p(f(v)),
    ensures
        update_where(s, q, f).filter(p) == s.filter(p),
    decreases s.len(),
{
    reveal(Seq::filter);
    let new = update_where(s, q, f);
    if s.len() > 0 {
        let rest = s.drop_last();
        filter_update_apart(rest, q, f, p);
        assert(new.drop_last() =~= update_where(rest, q, f));
    } else {
        assert(new =~= s);
    }
}

/// Looking up a row after the deletion of others.
pub proof fn first_where_filter<V>(s: Seq<V>, q: spec_fn(V) -> bool, p: spec_fn(V) -> bool)
    requires
        forall|v: V| #[trigger] p(v) ==> q(v),
    ensures
        first_where(s.filter(q), p) == first_where(s, p),
{
    filter_filter(s, q, p);
}

/// Looking up a row that there is once at most, after the deletion of some rows.
pub proof fn first_where_kept<V>(s: Seq<V>, q: spec_fn(V) -> bool, p: spec_fn(V) -> bool)
    requires
        forall|i: int, j: int|
            #![trigger s[i], s[j]]
            0 <= i < j < s.len() ==> !(p(s[i]) && p(s[j])),
    ensures
        first_where(s.filter(q), p) == match first_where(s, p) {
            Some(v) if q(v) => Some(v),
            _ => None,
        },
{
    let kept = s.filter(q);
    first_where_facts(s, p);
    first_where_facts(kept, p);
    match first_where(kept, p) {
        Some(b) => {
            filter_contains(s, q, b);
            assert(p(b));
            let v = first_where(s, p)->0;
            let i = choose|i: int| 0 <= i < s.len() && s[i] == b;
            let j = choose|j: int| 0 <= j < s.len() && s[j] == v;
            if i < j {
                assert(!(p(s[i]) && p(s[j])));
            } else if j < i {
                assert(!(p(s[j]) && p(s[i])));
            }
        },
        None => {
            if first_where(s, p) is Some && q(first_where(s, p)->0) {
                filter_contains(s, q, first_where(s, p)->0);
                assert(p(first_where(s, p)->0));
            }
        },
    }
}

/// Looking up a row among those that do not have it.
pub proof fn first_where_gone<V>(s: Seq<V>, p: spec_fn(V) -> bool)
    ensures
        first_where(s.filter(not(p)), p) is None,
{
    filter_holds(s, not(p));
    first_where_none(s.filter(not(p)), p);
}

/// Looking up the row that has replaced others.
pub proof fn first_where_replaced<V>(s: Seq<V>, q: spec_fn(V) -> bool, row: V)
    requires
        q(row),
    ensures
        first_where(replace_where(s, q, row), q) == Some(row),
{
    let kept = s.filter(not(q));
    filter_holds(s, not(q));
    assert(forall|j: int| 0 <= j < kept.len() ==> kept.push(row)[j] == kept[j]);
    first_where_at(kept.push(row), kept.len() as int, q);
}

/// Looking up another row than those that were replaced.
pub proof fn first_where_replaced_other<V>(
    s: Seq<V>,
    q: spec_fn(V) -> bool,
    row: V,
    p: spec_fn(V) -> bool,
)
    requires
        !p(row),
        forall|v: V| #[trigger] p(v) ==> !q(v),
    ensures
        first_where(replace_where(s, q, row), p) == first_where(s, p),
{
    assert(forall|v: V| #[trigger] p(v) ==> not(q)(v));
    filter_filter(s, not(q), p);
    filter_push(s.filter(not(q)), row, p);
}

/// Looking up a row after changes that do not concern the look-up.
pub proof fn first_where_updated<V>(
    s: Seq<V>,
    q: spec_fn(V) -> bool,
    f: spec_fn(V) -> V,
    p: spec_fn(V) -> bool,
)
    requires
        forall|v: V| #[trigger] q(v) ==> p(f(v)) == p(v),
    ensures
        first_where(update_where(s, q, f), p) == match first_where(s, p) {
            Some(v) => Some(
                if q(v) {
                    f(v)
                } else {
                    v
                },
            ),
            None => None,
        },
{
    filter_update(s, q, f, p);
}

/// What a row is worth is among what the rows are worth.
pub proof fn filter_map_has<V, W>(s: Seq<V>, f: spec_fn(V) -> Option<W>, i: int)
    requires
        0 <= i < s.len(),
        f(s[i]) is Some,
    ensures
        s.filter_map(f).contains(f(s[i])->0),
    decreases s.len(),
{
    let rest = s.drop_last();
    let out = s.filter_map(f);
    if i == s.len() - 1 {
        assert(out[out.len() - 1] == f(s[i])->0);
    } else {
        filter_map_has(rest, f, i);
        let k = choose|k: int|
            0 <= k < rest.filter_map(f).len() && rest.filter_map(f)[k] == f(rest[i])->0;
        assert(out[k] == f(s[i])->0);
    }
}

/// Two ways to sort the same rows give the same.
pub proof fn sorts_unique<V>(a: Seq<V>, b: Seq<V>, s: Seq<V>, lt: spec_fn(V, V) -> bool)
    requires
        sorts(a, s, lt),
        sorts(b, s, lt),
        forall|x: V, y: V| #[trigger] lt(x, y) ==> !lt(y, x),
    ensures
        a == b,
    decreases a.len(),
{
    broadcast use vstd::seq_lib::group_to_multiset_ensures;

    assert(a.len() == a.to_multiset().len() && b.len() == b.to_multiset().len());
    if a.len() > 0 {
        let (x, y) = (a.last(), b.last());
        assert(a.contains(x) && b.contains(y));
        assert(b.to_multiset().count(x) > 0 && a.to_multiset().count(y) > 0);
        assert(b.contains(x) && a.contains(y));
        let k = choose|k: int| 0 <= k < b.len() && b[k] == x;
        let m = choose|m: int| 0 <= m < a.len() && a[m] == y;
        assert(x == y) by {
            if k < b.len() - 1 && m < a.len() - 1 {
                assert(lt(b[k], b[b.len() - 1]));
                assert(lt(a[m], a[a.len() - 1]));
            }
        }
        let rest = a.drop_last();
        assert(a =~= rest.push(x));
        assert(b =~= b.drop_last().push(x));
        assert(rest.to_multiset() =~= a.to_multiset().remove(x));
        assert(b.drop_last().to_multiset() =~= b.to_multiset().remove(x));
        sorts_unique(rest, b.drop_last(), rest, lt);
    } else {
        assert(a =~= b);
    }
}

/// Every row that a filter selects satisfies the filter and is in the table.
pub proof fn filter_holds<V>(s: Seq<V>, p: spec_fn(V) -> bool)
    ensures
        forall|i: int|
            0 <= i < s.filter(p).len() ==> p(#[trigger] s.filter(p)[i]) && s.contains(
                s.filter(p)[i],
            ),
{
    broadcast use Seq::lemma_filter_pred, Seq::lemma_filter_contains_rev;

    assert forall|i: int| 0 <= i < s.filter(p).len() implies p(#[trigger] s.filter(p)[i])
        && s.contains(s.filter(p)[i]) by {
        assert(s.filter(p).contains(s.filter(p)[i]));
    }
}

/// A row of the table is selected exactly where it satisfies the filter.
pub proof fn filter_contains<V>(s: Seq<V>, p: spec_fn(V) -> bool, v: V)
    ensures
        s.filter(p).contains(v) <==> s.contains(v) && p(v),
{
    broadcast use Seq::lemma_filter_contains, Seq::lemma_filter_contains_rev;

    filter_holds(s, p);
    if s.contains(v) && p(v) {
        let i = choose|i: int| 0 <= i < s.len() && s[i] == v;
        assert(p(s[i]));
    }
    if s.filter(p).contains(v) {
        let i = choose|i: int| 0 <= i < s.filter(p).len() && s.filter(p)[i] == v;
        assert(p(s.filter(p)[i]));
    }
}

/// What `first_where` gives is a row of the table that satisfies the predicate, and it gives
/// one whenever there is one.
pub proof fn first_where_facts<V>(s: Seq<V>, p: spec_fn(V) -> bool)
    ensures
        first_where(s, p) matches Some(v) ==> s.contains(v) && p(v),
        first_where(s, p) is None ==> forall|v: V| s.contains(v) ==> !#[trigger] p(v),
{
    broadcast use Seq::lemma_filter_pred, Seq::lemma_filter_contains_rev, Seq::lemma_filter_contains;

    if first_where(s, p) is Some {
        assert(s.filter(p).contains(s.filter(p)[0]));
    } else {
        assert forall|v: V| s.contains(v) implies !#[trigger] p(v) by {
            let i = choose|i: int| 0 <= i < s.len() && s[i] == v;
            if p(s[i]) {
                assert(s.filter(p).contains(s[i]));
            }
        }
    }
}

/// Finds the first row that passes the test.
pub(crate) fn position_where<R: View, F: Fn(&R) -> bool>(
    rows: &Vec<R>,
    test: F,
    Ghost(p): Ghost<spec_fn(R::V) -> bool>,
) -> (res: Option<usize>)
    requires
        tests(test, p),
    ensures
        match res {
            Some(i) => {
                &&& i < rows@.len()
                &&& p(rows@[i as int]@)
                &&& forall|j: int| 0 <= j < i ==> !p(#[trigger] views(rows@)[j])
                &&& first_where(views(rows@), p) == Some(rows@[i as int]@)
            },
            None => {
                &&& forall|j: int| 0 <= j < rows@.len() ==> !p(#[trigger] views(rows@)[j])
                &&& first_where(views(rows@), p) is None
            },
        },
{
    let mut i: usize = 0;
    while i < rows.len()
        invariant
            tests(test, p),
            i <= rows@.len(),
            forall|j: int| 0 <= j < i ==> !p(#[trigger] views(rows@)[j]),
        decreases rows@.len() - i,
    {
        if test(&rows[i]) {
            proof {
                first_where_at(views(rows@), i as int, p);
            }
            return Some(i);
        }
        i += 1;
    }
    proof {
        first_where_none(views(rows@), p);
    }
    None
}

/// Finds the last row that passes the test.
pub(crate) fn last_position_where<R: View, F: Fn(&R) -> bool>(
    rows: &Vec<R>,
    test: F,
    Ghost(p): Ghost<spec_fn(R::V) -> bool>,
) -> (res: Option<usize>)
    requires
        tests(test, p),
    ensures
        match res {
            Some(i) => i < rows@.len() && last_where(views(rows@), p) == Some(rows@[i as int]@),
            None => last_where(views(rows@), p) is None,
        },
{
    let mut i: usize = rows.len();
    while i > 0
        invariant
            tests(test, p),
            i <= rows@.len(),
            forall|j: int| i <= j < rows@.len() ==> !p(#[trigger] views(rows@)[j]),
        decreases i,
    {
        i -= 1;
        if test(&rows[i]) {
            proof {
                last_where_at(views(rows@), i as int, p);
            }
            return Some(i);
        }
    }
    proof {
        filter_none(views(rows@), p);
    }
    None
}

/// Whether some row passes the test.
pub(crate) fn exists_where<R: View, F: Fn(&R) -> bool>(
    rows: &Vec<R>,
    test: F,
    Ghost(p): Ghost<spec_fn(R::V) -> bool>,
) -> (res: bool)
    requires
        tests(test, p),
    ensures
        res == (exists|v: R::V| views(rows@).contains(v) && #[trigger] p(v)),
        res == (first_where(views(rows@), p) is Some),
{
    proof {
        first_where_facts(views(rows@), p);
    }
    match position_where(rows, test, Ghost(p)) {
        Some(i) => {
            assert(views(rows@)[i as int] == rows@[i as int]@);
            true
        },
        None => false,
    }
}

/// Counts the rows that pass the test.
pub(crate) fn count_where<R: View, F: Fn(&R) -> bool>(
    rows: &Vec<R>,
    test: F,
    Ghost(p): Ghost<spec_fn(R::V) -> bool>,
) -> (count: u64)
    requires
        tests(test, p),
    ensures
        count == views(rows@).filter(p).len(),
{
    let mut i: usize = 0;
    let mut count: u64 = 0;
    proof {
        filter_none(views(rows@).take(0), p);
    }
    while i < rows.len()
        invariant
            tests(test, p),
            i <= rows@.len(),
            count <= i,
            count == views(rows@).take(i as int).filter(p).len(),
        decreases rows@.len() - i,
    {
        proof {
            filter_take(views(rows@), i as int, p);
        }
        if test(&rows[i]) {
            count += 1;
        }
        i += 1;
    }
    assert(views(rows@).take(rows@.len() as int) =~= views(rows@));
    count
}

/// Collects what `take` makes of each row that passes the test, in the order of the rows.
pub(crate) fn select_where<R: View, T: View, F: Fn(&R) -> bool, G: Fn(&R) -> T>(
    rows: &Vec<R>,
    test: F,
    take: G,
    Ghost(p): Ghost<spec_fn(R::V) -> bool>,
    Ghost(f): Ghost<spec_fn(R::V) -> T::V>,
) -> (res: Vec<T>)
    requires
        tests(test, p),
        forall|r: &R| #[trigger] call_requires(take, (r,)),
        forall|r: &R, t: T| #[trigger] call_ensures(take, (r,), t) ==> t@ == f(r@),
    ensures
        views(res@) == views(rows@).filter(p).map_values(f),
{
    let mut res: Vec<T> = Vec::new();
    let ghost s = views(rows@);
    proof {
        filter_none(s.take(0), p);
    }
    let mut i: usize = 0;
    while i < rows.len()
        invariant
            tests(test, p),
            forall|r: &R| #[trigger] call_requires(take, (r,)),
            forall|r: &R, t: T| #[trigger] call_ensures(take, (r,), t) ==> t@ == f(r@),
            s == views(rows@),
            i <= s.len(),
            views(res@) =~= s.take(i as int).filter(p).map_values(f),
        decreases s.len() - i,
    {
        proof {
            filter_take(s, i as int, p);
            assert(s[i as int] == rows@[i as int]@);
        }
        if test(&rows[i]) {
            let ghost sofar = res@;
            let t = take(&rows[i]);
            res.push(t);
            proof {
                let kept = s.take(i as int).filter(p);
                assert(views(res@) =~= views(sofar).push(t@));
                assert(kept.push(s[i as int]).map_values(f) =~= kept.map_values(f).push(
                    f(s[i as int]),
                ));
            }
        }
        i += 1;
    }
    assert(s.take(s.len() as int) =~= s);
    res
}

/// Collects what `take` makes of each row, where it makes something, in the order of the rows.
pub(crate) fn select_some<R: View, T: View, G: Fn(&R) -> Option<T>>(
    rows: &Vec<R>,
    take: G,
    Ghost(f): Ghost<spec_fn(R::V) -> Option<T::V>>,
) -> (res: Vec<T>)
    requires
        forall|r: &R| #[trigger] call_requires(take, (r,)),
        forall|r: &R, t: Option<T>| #[trigger]
            call_ensures(take, (r,), t) ==> match t {
                Some(v) => f(r@) == Some(v@),
                None => f(r@) is None,
            },
    ensures
        views(res@) == views(rows@).filter_map(f),
{
    let mut res: Vec<T> = Vec::new();
    let ghost s = views(rows@);
    assert(views(res@) =~= s.take(0).filter_map(f));
    let mut i: usize = 0;
    while i < rows.len()
        invariant
            forall|r: &R| #[trigger] call_requires(take, (r,)),
            forall|r: &R, t: Option<T>| #[trigger]
                call_ensures(take, (r,), t) ==> match t {
                    Some(v) => f(r@) == Some(v@),
                    None => f(r@) is None,
                },
            s == views(rows@),
            i <= s.len(),
            views(res@) =~= s.take(i as int).filter_map(f),
        decreases s.len() - i,
    {
        proof {
            s.lemma_filter_map_take_succ(f, i as int);
            assert(s[i as int] == rows@[i as int]@);
        }
        if let Some(t) = take(&rows[i]) {
            let ghost sofar = res@;
            res.push(t);
            assert(views(res@) =~= views(sofar).push(t@));
        }
        i += 1;
    }
    assert(s.take(s.len() as int) =~= s);
    res
}

/// Puts the rows in order.
pub(crate) fn sort_rows<R: View, F: Fn(&R, &R) -> bool>(
    rows: Vec<R>,
    less: F,
    Ghost(lt): Ghost<spec_fn(R::V, R::V) -> bool>,
) -> (out: Vec<R>)
    requires
        forall|a: &R, b: &R| #[trigger] call_requires(less, (a, b)),
        forall|a: &R, b: &R, r: bool| #[trigger] call_ensures(less, (a, b), r) ==> r == lt(a@, b@),
        transitive(lt),
        pairwise(views(rows@), either_before(lt)),
    ensures
        sorts(views(out@), views(rows@), lt),
{
    let ghost s = views(rows@);
    let mut rest = rows;
    let mut out: Vec<R> = Vec::new();
    assert(s.take(s.len() as int) =~= s);
    assert(views(out@) =~= Seq::<R::V>::empty());
    proof {
        vstd::seq_lib::to_multiset_len(Seq::<R::V>::empty());
        assert(s.to_multiset() =~= s.to_multiset().add(Seq::<R::V>::empty().to_multiset()));
    }
    while rest.len() > 0
        invariant
            forall|a: &R, b: &R| #[trigger] call_requires(less, (a, b)),
            forall|a: &R, b: &R, r: bool| #[trigger]
                call_ensures(less, (a, b), r) ==> r == lt(a@, b@),
            transitive(lt),
            pairwise(s, either_before(lt)),
            rest@.len() <= s.len(),
            views(rest@) == s.take(rest@.len() as int),
            pairwise(views(out@), lt),
            s.to_multiset() == views(rest@).to_multiset().add(views(out@).to_multiset()),
            forall|k: int|
                0 <= k < out@.len() ==> exists|j: int|
                    rest@.len() <= j < s.len() && s[j] == (#[trigger] views(out@)[k]),
        decreases rest@.len(),
    {
        let ghost before = views(out@);
        let ghost left = views(rest@);
        let n: usize = rest.len() - 1;
        let row = rest.pop().unwrap();
        assert(row@ == left[n as int] && left[n as int] == s[n as int]);
        assert(views(rest@) =~= left.drop_last());
        assert(views(rest@) =~= s.take(n as int));
        let mut i: usize = 0;
        while i < out.len() && less(&out[i], &row)
            invariant
                forall|a: &R, b: &R| #[trigger] call_requires(less, (a, b)),
                forall|a: &R, b: &R, r: bool| #[trigger]
                    call_ensures(less, (a, b), r) ==> r == lt(a@, b@),
                before == views(out@),
                i <= out@.len(),
                forall|k: int| 0 <= k < i ==> lt(#[trigger] before[k], row@),
            decreases out@.len() - i,
        {
            i += 1;
        }
        proof {
            if i < before.len() {
                let j = choose|j: int| n < j < s.len() && s[j] == before[i as int];
                assert(either_before(lt)(s[n as int], s[j]));
                assert(lt(row@, before[i as int]));
            }
            assert forall|k: int| i <= k < before.len() implies lt(row@, #[trigger] before[k]) by {
                if k > i {
                    assert(lt(before[i as int], before[k]));
                }
            }
        }
        out.insert(i, row);
        proof {
            assert(views(out@) =~= before.insert(i as int, row@));
            vstd::seq_lib::to_multiset_insert(before, i as int, row@);
            vstd::seq_lib::to_multiset_build(left.drop_last(), left.last());
            assert(left =~= left.drop_last().push(left.last()));
            assert(s.to_multiset() =~= views(rest@).to_multiset().add(views(out@).to_multiset()));
            assert forall|k: int| 0 <= k < out@.len() implies exists|j: int|
                rest@.len() <= j < s.len() && s[j] == (#[trigger] views(out@)[k]) by {
                if k < i {
                    assert(views(out@)[k] == before[k]);
                } else if k > i {
                    assert(views(out@)[k] == before[k - 1]);
                } else {
                    assert(s[n as int] == views(out@)[k]);
                }
            }
        }
    }
    proof {
        vstd::seq_lib::to_multiset_len(Seq::<R::V>::empty());
        assert(views(rest@) =~= Seq::<R::V>::empty());
        assert(s.to_multiset() =~= views(out@).to_multiset());
    }
    out
}

/// Whether every row stands in the relation to every row after it.
pub(crate) fn is_pairwise<R: View, F: Fn(&R, &R) -> bool>(
    rows: &Vec<R>,
    related: F,
    Ghost(rel): Ghost<spec_fn(R::V, R::V) -> bool>,
) -> (res: bool)
    requires
        forall|a: &R, b: &R| #[trigger] call_requires(related, (a, b)),
        forall|a: &R, b: &R, r: bool| #[trigger]
            call_ensures(related, (a, b), r) ==> r == rel(a@, b@),
    ensures
        res == pairwise(views(rows@), rel),
{
    let ghost s = views(rows@);
    let mut i: usize = 0;
    while i < rows.len()
        invariant
            forall|a: &R, b: &R| #[trigger] call_requires(related, (a, b)),
            forall|a: &R, b: &R, r: bool| #[trigger]
                call_ensures(related, (a, b), r) ==> r == rel(a@, b@),
            s == views(rows@),
            i <= s.len(),
            forall|a: int, b: int|
                #![trigger s[a], s[b]]
                0 <= a < b < s.len() && a < i ==> rel(s[a], s[b]),
        decreases s.len() - i,
    {
        let mut j: usize = i + 1;
        while j < rows.len()
            invariant
                forall|a: &R, b: &R| #[trigger] call_requires(related, (a, b)),
                forall|a: &R, b: &R, r: bool| #[trigger]
                    call_ensures(related, (a, b), r) ==> r == rel(a@, b@),
                s == views(rows@),
                i < j <= s.len(),
                forall|b: int| i < b < j ==> rel(s[i as int], #[trigger] s[b]),
            decreases s.len() - j,
        {
            if !related(&rows[i], &rows[j]) {
                assert(!rel(s[i as int], s[j as int]));
                return false;
            }
            j += 1;
        }
        i += 1;
    }
    true
}

/// Whether the rows are in order.
pub(crate) fn is_sorted<R: View, F: Fn(&R, &R) -> bool>(
    rows: &Vec<R>,
    less: F,
    Ghost(lt): Ghost<spec_fn(R::V, R::V) -> bool>,
) -> (res: bool)
    requires
        forall|a: &R, b: &R| #[trigger] call_requires(less, (a, b)),
        forall|a: &R, b: &R, r: bool| #[trigger] call_ensures(less, (a, b), r) ==> r == lt(a@, b@),
        transitive(lt),
    ensures
        res == pairwise(views(rows@), lt),
{
    let ghost s = views(rows@);
    if rows.len() == 0 {
        return true;
    }
    let mut i: usize = 1;
    while i < rows.len()
        invariant
            forall|a: &R, b: &R| #[trigger] call_requires(less, (a, b)),
            forall|a: &R, b: &R, r: bool| #[trigger]
                call_ensures(less, (a, b), r) ==> r == lt(a@, b@),
            transitive(lt),
            s == views(rows@),
            1 <= i <= s.len(),
            pairwise(s.take(i as int), lt),
        decreases s.len() - i,
    {
        if !less(&rows[i - 1], &rows[i]) {
            assert(!lt(s[i - 1], s[i as int]));
            return false;
        }
        proof {
            let shorter = s.take(i as int);
            let longer = s.take(i + 1);
            assert forall|a: int, b: int|
                #![trigger longer[a], longer[b]]
                0 <= a < b < longer.len() implies lt(longer[a], longer[b]) by {
                if b < i {
                    assert(lt(shorter[a], shorter[b]));
                } else if a < i - 1 {
                    assert(lt(shorter[a], shorter[i - 1]));
                    assert(lt(s[i - 1], s[i as int]));
                }
            }
        }
        i += 1;
    }
    assert(s.take(i as int) =~= s);
    true
}

/// What becomes of each row, in the order of the rows.
pub(crate) fn map_rows<R: View, T: View, G: Fn(&R) -> T>(
    rows: &Vec<R>,
    change: G,
    Ghost(f): Ghost<spec_fn(R::V) -> T::V>,
) -> (res: Vec<T>)
    requires
        forall|r: &R| #[trigger] call_requires(change, (r,)),
        forall|r: &R, t: T| #[trigger] call_ensures(change, (r,), t) ==> t@ == f(r@),
    ensures
        views(res@) == views(rows@).map_values(f),
{
    let mut res: Vec<T> = Vec::new();
    let mut i: usize = 0;
    while i < rows.len()
        invariant
            forall|r: &R| #[trigger] call_requires(change, (r,)),
            forall|r: &R, t: T| #[trigger] call_ensures(change, (r,), t) ==> t@ == f(r@),
            i == res@.len(),
            i <= rows@.len(),
            forall|j: int| 0 <= j < i ==> (#[trigger] res@[j])@ == f(rows@[j]@),
        decreases rows@.len() - i,
    {
        res.push(change(&rows[i]));
        i += 1;
    }
    assert(views(res@) =~= views(rows@).map_values(f));
    res
}

/// Changes each row that passes the test, and counts them.
pub(crate) fn update_rows<R: View, F: Fn(&R) -> bool, G: Fn(&R) -> R>(
    rows: &mut Vec<R>,
    test: F,
    change: G,
    Ghost(p): Ghost<spec_fn(R::V) -> bool>,
    Ghost(f): Ghost<spec_fn(R::V) -> R::V>,
) -> (count: u64)
    requires
        tests(test, p),
        forall|r: &R| #[trigger] call_requires(change, (r,)),
        forall|r: &R, t: R| #[trigger] call_ensures(change, (r,), t) ==> t@ == f(r@),
    ensures
        views(final(rows)@) == update_where(views(old(rows)@), p, f),
        count == views(old(rows)@).filter(p).len(),
{
    let ghost s = views(rows@);
    let mut count: u64 = 0;
    proof {
        filter_none(s.take(0), p);
    }
    let mut i: usize = 0;
    while i < rows.len()
        invariant
            tests(test, p),
            forall|r: &R| #[trigger] call_requires(change, (r,)),
            forall|r: &R, t: R| #[trigger] call_ensures(change, (r,), t) ==> t@ == f(r@),
            s.len() == rows@.len(),
            i <= s.len(),
            count <= i,
            count == s.take(i as int).filter(p).len(),
            forall|j: int|
                0 <= j < i ==> (#[trigger] rows@[j])@ == if p(s[j]) {
                    f(s[j])
                } else {
                    s[j]
                },
            forall|j: int| i <= j < s.len() ==> (#[trigger] rows@[j])@ == s[j],
        decreases s.len() - i,
    {
        proof {
            filter_take(s, i as int, p);
        }
        if test(&rows[i]) {
            let changed = change(&rows[i]);
            rows[i] = changed;
            count += 1;
        }
        i += 1;
    }
    proof {
        assert(s.take(s.len() as int) =~= s);
        assert(views(rows@) =~= update_where(s, p, f));
    }
    count
}

/// Deletes the rows that pass the test, keeps the others in their order, and counts what went.
pub(crate) fn delete_where<R: View, F: Fn(&R) -> bool>(
    rows: &mut Vec<R>,
    doomed: F,
    Ghost(p): Ghost<spec_fn(R::V) -> bool>,
) -> (count: u64)
    requires
        tests(doomed, p),
    ensures
        views(final(rows)@) == views(old(rows)@).filter(not(p)),
        count == old(rows)@.len() - final(rows)@.len(),
{
    let total: usize = rows.len();
    let ghost before = rows@;
    let ghost mut k: int = 0;
    let mut i: usize = 0;
    let mut count: u64 = 0;
    proof {
        filter_none(views(before).take(0), not(p));
    }
    while i < rows.len()
        invariant
            tests(doomed, p),
            0 <= i <= k <= before.len(),
            i <= rows@.len(),
            rows@.len() - i == before.len() - k,
            count == k - i,
            before.len() == total,
            forall|j: int| i <= j < rows@.len() ==> #[trigger] rows@[j] == before[j - i + k],
            views(rows@.take(i as int)) == views(before).take(k).filter(not(p)),
        decreases rows@.len() - i,
    {
        let ghost now = rows@;
        proof {
            filter_take(views(before), k, not(p));
            assert(views(before)[k] == before[k]@);
            assert(rows@[i as int] == before[k]);
        }
        if doomed(&rows[i]) {
            rows.remove(i);
            count += 1;
            assert(rows@.take(i as int) =~= now.take(i as int));
        } else {
            assert(views(now.take(i + 1)) =~= views(now.take(i as int)).push(now[i as int]@));
            i += 1;
        }
        proof {
            k = k + 1;
        }
    }
    assert(rows@.take(i as int) =~= rows@);
    assert(views(before).take(k) =~= views(before));
    count
}

} // verus!
