//! Rows kept in a `Vec`, with the statements that the store runs on them.
//!
//! A table is modelled by the sequence of its rows' views, in the order in
//! which the rows were added. Each statement is stated on that sequence:
//! selecting and deleting as `filter`, updating as `map_values`, adding as
//! `push`.

use vstd::prelude::*;

verus! {

/// A row that can be handed out: its copy has the same view.
pub trait Row: View + Sized {
    fn duplicate(&self) -> (copy: Self)
        ensures
            copy@ == self@,
    ;
}

impl Row for String {
    fn duplicate(&self) -> (copy: Self) {
        self.clone()
    }
}

impl Row for u32 {
    fn duplicate(&self) -> (copy: Self) {
        *self
    }
}

/// The views of the rows, in order.
pub open spec fn views<R: View>(rows: Seq<R>) -> Seq<R::V> {
    Seq::new(rows.len(), |i: int| rows[i]@)
}

/// At least one row satisfies `p`.
pub open spec fn some_row<V>(rows: Seq<V>, p: spec_fn(V) -> bool) -> bool {
    exists|i: int| 0 <= i < rows.len() && p(#[trigger] rows[i])
}

/// The first row that satisfies `p`.
pub open spec fn first_row<V>(rows: Seq<V>, p: spec_fn(V) -> bool) -> Option<V>
    decreases rows.len(),
{
    if rows.len() == 0 {
        None
    } else if p(rows[0]) {
        Some(rows[0])
    } else {
        first_row(rows.drop_first(), p)
    }
}

/// No two rows have the same key.
pub open spec fn unique<V, K>(rows: Seq<V>, key: spec_fn(V) -> K) -> bool {
    forall|i: int, j: int|
        0 <= i < j < rows.len() ==> key(#[trigger] rows[i]) != key(#[trigger] rows[j])
}

/// Every row satisfies `p`.
pub open spec fn every_row<V>(rows: Seq<V>, p: spec_fn(V) -> bool) -> bool {
    forall|i: int| 0 <= i < rows.len() ==> p(#[trigger] rows[i])
}

/// The rows with those that satisfy `p` replaced by `f` of them.
pub open spec fn updated<V>(rows: Seq<V>, p: spec_fn(V) -> bool, f: spec_fn(V) -> V) -> Seq<V> {
    rows.map_values(|row: V| if p(row) { f(row) } else { row })
}

/// The rows without those that satisfy `p`.
pub open spec fn without<V>(rows: Seq<V>, p: spec_fn(V) -> bool) -> Seq<V> {
    rows.filter(|row: V| !p(row))
}

/// Insert, or update on conflict: if some row satisfies `p`, those rows are
/// replaced by `f` of them, else `row` is added at the end.
pub open spec fn upserted<V>(
    rows: Seq<V>,
    p: spec_fn(V) -> bool,
    f: spec_fn(V) -> V,
    row: V,
) -> Seq<V> {
    if some_row(rows, p) {
        updated(rows, p, f)
    } else {
        rows.push(row)
    }
}

/// Neighbours never stand in the wrong order.
pub open spec fn sorted_by<V>(rows: Seq<V>, le: spec_fn(V, V) -> bool) -> bool {
    forall|i: int, j: int| 0 <= i < j < rows.len() ==> le(#[trigger] rows[i], #[trigger] rows[j])
}

/// `le` orders any two rows, and orders them consistently.
pub open spec fn total_preorder<V>(le: spec_fn(V, V) -> bool) -> bool {
    &&& forall|a: V, b: V| #[trigger] le(a, b) || le(b, a)
    &&& forall|a: V, b: V, c: V| #[trigger] le(a, b) && #[trigger] le(b, c) ==> le(a, c)
}

/// `rows` are the rows of `of`, each as often as there, ordered by `le`.
pub open spec fn ordered<V>(rows: Seq<V>, of: Seq<V>, le: spec_fn(V, V) -> bool) -> bool {
    &&& rows.to_multiset() == of.to_multiset()
    &&& sorted_by(rows, le)
}

/// A `LIMIT`: the first `limit` rows, or all of them when `limit` is negative.
pub open spec fn limited<V>(rows: Seq<V>, limit: int) -> Seq<V> {
    if 0 <= limit < rows.len() {
        rows.take(limit)
    } else {
        rows
    }
}

/// `rows` are the first `limit` rows of some ordering of `of` by `le`.
pub open spec fn ordered_limited<V>(
    rows: Seq<V>,
    of: Seq<V>,
    le: spec_fn(V, V) -> bool,
    limit: int,
) -> bool {
    exists|all: Seq<V>| #[trigger] ordered(all, of, le) && rows == limited(all, limit)
}

pub(crate) proof fn lemma_filter_step<V>(rows: Seq<V>, i: int, p: spec_fn(V) -> bool)
    requires
        0 <= i < rows.len(),
    ensures
        rows.take(i + 1).filter(p) == if p(rows[i]) {
            rows.take(i).filter(p).push(rows[i])
        } else {
            rows.take(i).filter(p)
        },
{
    reveal(Seq::filter);
    assert(rows.take(i + 1).drop_last() =~= rows.take(i));
}

pub(crate) proof fn lemma_first_row_skip<V>(rows: Seq<V>, i: int, p: spec_fn(V) -> bool)
    requires
        0 <= i <= rows.len(),
        forall|j: int| 0 <= j < i ==> !p(#[trigger] rows[j]),
    ensures
        first_row(rows, p) == first_row(rows.skip(i), p),
    decreases i,
{
    if i > 0 {
        lemma_first_row_skip(rows, i - 1, p);
        let rest = rows.skip(i - 1);
        assert(rest[0] == rows[i - 1]);
        assert(rest.drop_first() =~= rows.skip(i));
    } else {
        assert(rows.skip(0) =~= rows);
    }
}

/// `first_row` finds a row that satisfies the predicate, and finds one
/// whenever there is one.
pub proof fn lemma_first_row<V>(rows: Seq<V>, p: spec_fn(V) -> bool)
    ensures
        first_row(rows, p) is Some <==> some_row(rows, p),
        first_row(rows, p) matches Some(row) ==> p(row) && rows.contains(row),
    decreases rows.len(),
{
    if rows.len() > 0 {
        if p(rows[0]) {
        } else {
            let rest = rows.drop_first();
            lemma_first_row(rest, p);
            if some_row(rows, p) {
                let i: int = choose|i: int| 0 <= i < rows.len() && p(#[trigger] rows[i]);
                assert(rest[i - 1] == rows[i]);
            }
            if some_row(rest, p) {
                let i: int = choose|i: int| 0 <= i < rest.len() && p(#[trigger] rest[i]);
                assert(rows[i + 1] == rest[i]);
            }
            if first_row(rest, p) is Some {
                let row = first_row(rest, p)->0;
                let i: int = choose|i: int| 0 <= i < rest.len() && rest[i] == row;
                assert(rows[i + 1] == row);
            }
        }
    }
}

/// An update of the rows that satisfy `p`, which keeps them so, changes the first
/// of them like the others.
pub proof fn lemma_first_row_updated<V>(
    rows: Seq<V>,
    p: spec_fn(V) -> bool,
    f: spec_fn(V) -> V,
)
    requires
        forall|r: V| p(r) ==> p(#[trigger] f(r)),
    ensures
        first_row(updated(rows, p, f), p) == match first_row(rows, p) {
            Some(r) => Some(f(r)),
            None => None,
        },
    decreases rows.len(),
{
    let after = updated(rows, p, f);
    if rows.len() > 0 {
        assert(after[0] == if p(rows[0]) { f(rows[0]) } else { rows[0] });
        if !p(rows[0]) {
            lemma_first_row_updated(rows.drop_first(), p, f);
            assert(after.drop_first() =~= updated(rows.drop_first(), p, f));
        }
    }
}

/// An update changes nothing for rows of another kind.
pub proof fn lemma_first_row_kept<V>(
    rows: Seq<V>,
    changed: spec_fn(V) -> bool,
    f: spec_fn(V) -> V,
    p: spec_fn(V) -> bool,
)
    requires
        forall|r: V| #[trigger] changed(r) ==> !p(r) && !p(f(r)),
    ensures
        first_row(updated(rows, changed, f), p) == first_row(rows, p),
    decreases rows.len(),
{
    let after = updated(rows, changed, f);
    if rows.len() > 0 {
        assert(after[0] == if changed(rows[0]) { f(rows[0]) } else { rows[0] });
        lemma_first_row_kept(rows.drop_first(), changed, f, p);
        assert(after.drop_first() =~= updated(rows.drop_first(), changed, f));
    }
}

/// Taking rows away takes the first row of a kind away only where it is among them, if
/// there is one row of that kind at most.
pub proof fn lemma_first_row_pruned<V, K>(
    rows: Seq<V>,
    key: spec_fn(V) -> K,
    gone: spec_fn(V) -> bool,
    p: spec_fn(V) -> bool,
)
    requires
        unique(rows, key),
        forall|a: V, b: V| #[trigger] p(a) && #[trigger] p(b) ==> key(a) == key(b),
    ensures
        first_row(without(rows, gone), p) == match first_row(rows, p) {
            Some(row) => if gone(row) {
                None
            } else {
                Some(row)
            },
            None => None,
        },
    decreases rows.len(),
{
    reveal(Seq::filter);
    if rows.len() > 0 {
        let rest = rows.drop_last();
        let last = rows.last();
        assert(unique(rest, key)) by {
            assert forall|i: int, j: int| 0 <= i < j < rest.len() implies key(#[trigger] rest[i])
                != key(#[trigger] rest[j]) by {
                assert(rest[i] == rows[i] && rest[j] == rows[j]);
            }
        }
        lemma_first_row_pruned(rest, key, gone, p);
        assert(rest.push(last) =~= rows);
        lemma_first_row_pushed(rest, p, last);
        lemma_first_row_pushed(without(rest, gone), p, last);
        lemma_first_row(rest, p);
        if first_row(rest, p) is Some && p(last) {
            let e = first_row(rest, p)->0;
            let i: int = choose|i: int| 0 <= i < rest.len() && rest[i] == e;
            assert(rows[i] == e && rows[rows.len() - 1] == last);
            assert(key(rows[i]) != key(rows[rows.len() - 1]));
        }
    }
}

/// An ordering holds the same rows, and none twice if none was there twice.
pub proof fn lemma_ordered<V>(rows: Seq<V>, of: Seq<V>, le: spec_fn(V, V) -> bool)
    requires
        ordered(rows, of, le),
    ensures
        rows.len() == of.len(),
        forall|x: V| #[trigger] rows.contains(x) <==> of.contains(x),
        of.no_duplicates() ==> rows.no_duplicates(),
{
    rows.to_multiset_ensures();
    of.to_multiset_ensures();
    assert forall|x: V| #[trigger] rows.contains(x) <==> of.contains(x) by {
        assert(rows.to_multiset().count(x) == of.to_multiset().count(x));
    }
    if of.no_duplicates() {
        of.lemma_multiset_has_no_duplicates();
        rows.lemma_multiset_has_no_duplicates_conv();
    }
}

/// Taking rows away changes nothing for those of another kind.
pub proof fn lemma_first_row_without<V>(
    rows: Seq<V>,
    gone: spec_fn(V) -> bool,
    p: spec_fn(V) -> bool,
)
    requires
        forall|r: V| #[trigger] p(r) ==> !gone(r),
    ensures
        first_row(without(rows, gone), p) == first_row(rows, p),
    decreases rows.len(),
{
    reveal(Seq::filter);
    if rows.len() > 0 {
        let rest = rows.drop_last();
        let last = rows.last();
        lemma_first_row_without(rest, gone, p);
        assert(rest.push(last) =~= rows);
        lemma_first_row_pushed(rest, p, last);
        lemma_first_row_pushed(without(rest, gone), p, last);
    }
}

/// A row that is added at the end is the first of its kind where there was none.
pub proof fn lemma_first_row_pushed<V>(rows: Seq<V>, p: spec_fn(V) -> bool, row: V)
    ensures
        first_row(rows.push(row), p) == match first_row(rows, p) {
            Some(r) => Some(r),
            None => if p(row) {
                Some(row)
            } else {
                None
            },
        },
    decreases rows.len(),
{
    let after = rows.push(row);
    if rows.len() > 0 {
        assert(after[0] == rows[0]);
        assert(after.drop_first() =~= rows.drop_first().push(row));
        if !p(rows[0]) {
            lemma_first_row_pushed(rows.drop_first(), p, row);
        }
    } else {
        assert(after.drop_first() =~= Seq::<V>::empty());
        assert(first_row(after.drop_first(), p) is None);
    }
}

/// A filter keeps exactly the rows that satisfy it.
pub proof fn lemma_filter_rows<V>(rows: Seq<V>, keep: spec_fn(V) -> bool, p: spec_fn(V) -> bool)
    ensures
        some_row(rows.filter(keep), p) <==> some_row(rows, |r: V| keep(r) && p(r)),
    decreases rows.len(),
{
    reveal(Seq::filter);
    let both = |r: V| keep(r) && p(r);
    if rows.len() > 0 {
        let rest = rows.drop_last();
        lemma_filter_rows(rest, keep, p);
        if some_row(rows.filter(keep), p) {
            let i: int = choose|i: int|
                0 <= i < rows.filter(keep).len() && p(#[trigger] rows.filter(keep)[i]);
            if i < rest.filter(keep).len() {
                assert(rest.filter(keep)[i] == rows.filter(keep)[i]);
                let j: int = choose|j: int| 0 <= j < rest.len() && both(#[trigger] rest[j]);
                assert(rows[j] == rest[j]);
            } else {
                assert(both(rows[rows.len() - 1]));
            }
        }
        if some_row(rows, both) {
            let j: int = choose|j: int| 0 <= j < rows.len() && both(#[trigger] rows[j]);
            if j < rest.len() {
                assert(both(rest[j]));
                let i: int = choose|i: int|
                    0 <= i < rest.filter(keep).len() && p(#[trigger] rest.filter(keep)[i]);
                assert(rows.filter(keep)[i] == rest.filter(keep)[i]);
            } else {
                assert(p(rows.filter(keep).last()));
                assert(p(rows.filter(keep)[rows.filter(keep).len() - 1]));
            }
        }
    }
}

/// Where the rows that satisfy `p` were deleted, none is left.
pub proof fn lemma_without<V>(rows: Seq<V>, p: spec_fn(V) -> bool)
    ensures
        !some_row(without(rows, p), p),
        first_row(without(rows, p), p) is None,
{
    let keep = |r: V| !p(r);
    lemma_filter_rows(rows, keep, p);
    lemma_first_row(without(rows, p), p);
}

/// Rows that are left out do not make keys clash.
pub proof fn lemma_unique_filtered<V, K>(
    rows: Seq<V>,
    key: spec_fn(V) -> K,
    keep: spec_fn(V) -> bool,
)
    requires
        unique(rows, key),
    ensures
        unique(rows.filter(keep), key),
    decreases rows.len(),
{
    reveal(Seq::filter);
    if rows.len() > 0 {
        let rest = rows.drop_last();
        assert(unique(rest, key)) by {
            assert forall|i: int, j: int| 0 <= i < j < rest.len() implies key(#[trigger] rest[i])
                != key(#[trigger] rest[j]) by {
                assert(rest[i] == rows[i] && rest[j] == rows[j]);
            }
        }
        lemma_unique_filtered(rest, key, keep);
        let kept = rest.filter(keep);
        if keep(rows.last()) {
            let last = rows.last();
            assert forall|i: int| 0 <= i < kept.len() implies key(#[trigger] kept[i]) != key(
                last,
            ) by {
                let same = |r: V| key(r) == key(last);
                if same(kept[i]) {
                    assert(some_row(kept, same));
                    lemma_filter_rows(rest, keep, same);
                    let both = |r: V| keep(r) && same(r);
                    let k: int = choose|k: int| 0 <= k < rest.len() && both(#[trigger] rest[k]);
                    assert(rest[k] == rows[k]);
                    assert(rows[rows.len() - 1] == last);
                }
            }
            assert forall|i: int, j: int| 0 <= i < j < kept.push(last).len() implies key(
                #[trigger] kept.push(last)[i],
            ) != key(#[trigger] kept.push(last)[j]) by {
                if j < kept.len() {
                    assert(kept.push(last)[i] == kept[i] && kept.push(last)[j] == kept[j]);
                } else {
                    assert(kept.push(last)[i] == kept[i]);
                }
            }
        }
    }
}

/// An update that leaves the keys alone does not make them clash.
pub proof fn lemma_unique_updated<V, K>(
    rows: Seq<V>,
    key: spec_fn(V) -> K,
    p: spec_fn(V) -> bool,
    f: spec_fn(V) -> V,
)
    requires
        unique(rows, key),
        forall|r: V| key(#[trigger] f(r)) == key(r),
    ensures
        unique(updated(rows, p, f), key),
{
    let after = updated(rows, p, f);
    assert forall|i: int, j: int| 0 <= i < j < after.len() implies key(#[trigger] after[i]) != key(
        #[trigger] after[j],
    ) by {
        assert(key(after[i]) == key(rows[i]));
        assert(key(after[j]) == key(rows[j]));
    }
}

/// A row whose key is new does not make keys clash.
pub proof fn lemma_unique_pushed<V, K>(rows: Seq<V>, key: spec_fn(V) -> K, row: V)
    requires
        unique(rows, key),
        forall|i: int| 0 <= i < rows.len() ==> key(#[trigger] rows[i]) != key(row),
    ensures
        unique(rows.push(row), key),
{
    let after = rows.push(row);
    assert forall|i: int, j: int| 0 <= i < j < after.len() implies key(#[trigger] after[i]) != key(
        #[trigger] after[j],
    ) by {
        if j < rows.len() {
            assert(after[i] == rows[i] && after[j] == rows[j]);
        } else {
            assert(after[i] == rows[i]);
        }
    }
}

/// Whether some row satisfies `p`.
pub(crate) fn any_row<R: View, F: Fn(&R) -> bool>(
    rows: &Vec<R>,
    test: F,
    Ghost(p): Ghost<spec_fn(R::V) -> bool>,
) -> (found: bool)
    requires
        forall|r: &R| #[trigger] call_requires(test, (r,)),
        forall|r: &R, b: bool| #[trigger] call_ensures(test, (r,), b) ==> b == p(r@),
    ensures
        found == some_row(views(rows@), p),
{
    let mut i: usize = 0;
    while i < rows.len()
        invariant
            i <= rows.len(),
            forall|r: &R| #[trigger] call_requires(test, (r,)),
            forall|r: &R, b: bool| #[trigger] call_ensures(test, (r,), b) ==> b == p(r@),
            forall|j: int| 0 <= j < i ==> !p(#[trigger] views(rows@)[j]),
        decreases rows.len() - i,
    {
        if test(&rows[i]) {
            assert(p(views(rows@)[i as int]));
            return true;
        }
        i += 1;
    }
    false
}

/// The rows that satisfy `p`, in order.
pub(crate) fn select_rows<R: Row, F: Fn(&R) -> bool>(
    rows: &Vec<R>,
    test: F,
    Ghost(p): Ghost<spec_fn(R::V) -> bool>,
) -> (found: Vec<R>)
    requires
        forall|r: &R| #[trigger] call_requires(test, (r,)),
        forall|r: &R, b: bool| #[trigger] call_ensures(test, (r,), b) ==> b == p(r@),
    ensures
        views(found@) == views(rows@).filter(p),
{
    let mut found: Vec<R> = Vec::new();
    let mut i: usize = 0;
    let ghost all = views(rows@);
    proof {
        reveal(Seq::filter);
        assert(views(found@) =~= all.take(0).filter(p));
    }
    while i < rows.len()
        invariant
            i <= rows.len(),
            all == views(rows@),
            forall|r: &R| #[trigger] call_requires(test, (r,)),
            forall|r: &R, b: bool| #[trigger] call_ensures(test, (r,), b) ==> b == p(r@),
            views(found@) == all.take(i as int).filter(p),
        decreases rows.len() - i,
    {
        proof {
            lemma_filter_step(all, i as int, p);
        }
        if test(&rows[i]) {
            let ghost before = views(found@);
            found.push(rows[i].duplicate());
            assert(views(found@) =~= before.push(all[i as int]));
        }
        i += 1;
    }
    assert(all.take(i as int) =~= all);
    found
}

/// The first row that satisfies `p`.
pub(crate) fn find_row<'a, R: View, F: Fn(&R) -> bool>(
    rows: &'a Vec<R>,
    test: F,
    Ghost(p): Ghost<spec_fn(R::V) -> bool>,
) -> (found: Option<&'a R>)
    requires
        forall|r: &R| #[trigger] call_requires(test, (r,)),
        forall|r: &R, b: bool| #[trigger] call_ensures(test, (r,), b) ==> b == p(r@),
    ensures
        match found {
            Some(row) => first_row(views(rows@), p) == Some(row@),
            None => first_row(views(rows@), p) is None,
        },
{
    let mut i: usize = 0;
    let ghost all = views(rows@);
    while i < rows.len()
        invariant
            i <= rows.len(),
            all == views(rows@),
            forall|r: &R| #[trigger] call_requires(test, (r,)),
            forall|r: &R, b: bool| #[trigger] call_ensures(test, (r,), b) ==> b == p(r@),
            forall|j: int| 0 <= j < i ==> !p(#[trigger] all[j]),
        decreases rows.len() - i,
    {
        if test(&rows[i]) {
            proof {
                lemma_first_row_skip(all, i as int, p);
                assert(all.skip(i as int)[0] == all[i as int]);
            }
            return Some(&rows[i]);
        }
        i += 1;
    }
    proof {
        lemma_first_row_skip(all, i as int, p);
    }
    None
}

/// Removes the rows that satisfy `p` and says how many there were.
pub(crate) fn delete_rows<R: Row, F: Fn(&R) -> bool>(
    rows: &mut Vec<R>,
    test: F,
    Ghost(p): Ghost<spec_fn(R::V) -> bool>,
) -> (removed: usize)
    requires
        forall|r: &R| #[trigger] call_requires(test, (r,)),
        forall|r: &R, b: bool| #[trigger] call_ensures(test, (r,), b) ==> b == p(r@),
    ensures
        views(final(rows)@) == without(views(old(rows)@), p),
        removed == views(old(rows)@).filter(p).len(),
        (removed > 0) == some_row(views(old(rows)@), p),
{
    let ghost all = views(rows@);
    let ghost kept = |v: R::V| !p(v);
    let mut keep: Vec<R> = Vec::new();
    let mut removed: usize = 0;
    let mut i: usize = 0;
    proof {
        reveal(Seq::filter);
        assert(views(keep@) =~= all.take(0).filter(kept));
    }
    while i < rows.len()
        invariant
            i <= rows.len(),
            removed <= i,
            all == views(rows@),
            *rows == *old(rows),
            kept == (|v: R::V| !p(v)),
            forall|r: &R| #[trigger] call_requires(test, (r,)),
            forall|r: &R, b: bool| #[trigger] call_ensures(test, (r,), b) ==> b == p(r@),
            views(keep@) == all.take(i as int).filter(kept),
            removed == all.take(i as int).filter(p).len(),
            (removed > 0) == (exists|j: int| 0 <= j < i && p(#[trigger] all[j])),
        decreases rows.len() - i,
    {
        proof {
            lemma_filter_step(all, i as int, p);
            lemma_filter_step(all, i as int, kept);
        }
        if test(&rows[i]) {
            assert(p(all[i as int]));
            removed += 1;
        } else {
            let ghost before = views(keep@);
            keep.push(rows[i].duplicate());
            assert(views(keep@) =~= before.push(all[i as int]));
        }
        i += 1;
    }
    assert(all.take(i as int) =~= all);
    *rows = keep;
    removed
}

/// Replaces each row that satisfies `p` by `f` of it and says how many there
/// were.
pub(crate) fn update_rows<R: Row, F: Fn(&R) -> bool, G: Fn(&R) -> R>(
    rows: &mut Vec<R>,
    test: F,
    change: G,
    Ghost(p): Ghost<spec_fn(R::V) -> bool>,
    Ghost(f): Ghost<spec_fn(R::V) -> R::V>,
) -> (changed: usize)
    requires
        forall|r: &R| #[trigger] call_requires(test, (r,)),
        forall|r: &R, b: bool| #[trigger] call_ensures(test, (r,), b) ==> b == p(r@),
        forall|r: &R| #[trigger] call_requires(change, (r,)),
        forall|r: &R, n: R| #[trigger] call_ensures(change, (r,), n) ==> n@ == f(r@),
    ensures
        views(final(rows)@) == updated(views(old(rows)@), p, f),
        changed == views(old(rows)@).filter(p).len(),
        (changed > 0) == some_row(views(old(rows)@), p),
{
    let ghost all = views(rows@);
    let mut next: Vec<R> = Vec::new();
    let mut changed: usize = 0;
    let mut i: usize = 0;
    proof {
        reveal(Seq::filter);
    }
    while i < rows.len()
        invariant
            i <= rows.len(),
            changed <= i,
            all == views(rows@),
            *rows == *old(rows),
            next.len() == i,
            forall|r: &R| #[trigger] call_requires(test, (r,)),
            forall|r: &R, b: bool| #[trigger] call_ensures(test, (r,), b) ==> b == p(r@),
            forall|r: &R| #[trigger] call_requires(change, (r,)),
            forall|r: &R, n: R| #[trigger] call_ensures(change, (r,), n) ==> n@ == f(r@),
            forall|j: int|
                0 <= j < i ==> (#[trigger] next@[j])@ == if p(all[j]) {
                    f(all[j])
                } else {
                    all[j]
                },
            changed == all.take(i as int).filter(p).len(),
            (changed > 0) == (exists|j: int| 0 <= j < i && p(#[trigger] all[j])),
        decreases rows.len() - i,
    {
        proof {
            lemma_filter_step(all, i as int, p);
        }
        if test(&rows[i]) {
            assert(p(all[i as int]));
            changed += 1;
            next.push(change(&rows[i]));
        } else {
            next.push(rows[i].duplicate());
        }
        i += 1;
    }
    assert(all.take(i as int) =~= all);
    assert(views(next@) =~= updated(all, p, f));
    *rows = next;
    changed
}

/// Adds `row`, or replaces the rows that satisfy `p` by `f` of them.
pub(crate) fn upsert_row<R: Row, F: Fn(&R) -> bool, G: Fn(&R) -> R>(
    rows: &mut Vec<R>,
    test: F,
    change: G,
    row: R,
    Ghost(p): Ghost<spec_fn(R::V) -> bool>,
    Ghost(f): Ghost<spec_fn(R::V) -> R::V>,
)
    requires
        forall|r: &R| #[trigger] call_requires(test, (r,)),
        forall|r: &R, b: bool| #[trigger] call_ensures(test, (r,), b) ==> b == p(r@),
        forall|r: &R| #[trigger] call_requires(change, (r,)),
        forall|r: &R, n: R| #[trigger] call_ensures(change, (r,), n) ==> n@ == f(r@),
    ensures
        views(final(rows)@) == upserted(views(old(rows)@), p, f, row@),
{
    let ghost all = views(rows@);
    let changed: usize = update_rows(rows, test, change, Ghost(p), Ghost(f));
    if changed == 0 {
        assert forall|i: int| 0 <= i < all.len() implies !p(#[trigger] all[i]) by {
            assert(!some_row(all, p));
        }
        assert(updated(all, p, f) =~= all);
        rows.push(row);
        assert(views(rows@) =~= all.push(row@));
    }
}

/// The rows ordered by `le`; rows that `le` does not separate keep their order.
pub(crate) fn sort_rows<R: Row, F: Fn(&R, &R) -> bool>(
    rows: Vec<R>,
    at_most: F,
    Ghost(le): Ghost<spec_fn(R::V, R::V) -> bool>,
) -> (out: Vec<R>)
    requires
        total_preorder(le),
        forall|a: &R, b: &R| #[trigger] call_requires(at_most, (a, b)),
        forall|a: &R, b: &R, r: bool| #[trigger]
            call_ensures(at_most, (a, b), r) ==> r == le(a@, b@),
    ensures
        ordered(views(out@), views(rows@), le),
{
    let ghost all = views(rows@);
    let mut out: Vec<R> = Vec::new();
    let mut i: usize = 0;
    proof {
        assert(views(out@) =~= all.take(0));
    }
    while i < rows.len()
        invariant
            i <= rows.len(),
            all == views(rows@),
            out.len() == i,
            total_preorder(le),
            forall|a: &R, b: &R| #[trigger] call_requires(at_most, (a, b)),
            forall|a: &R, b: &R, r: bool| #[trigger]
                call_ensures(at_most, (a, b), r) ==> r == le(a@, b@),
            sorted_by(views(out@), le),
            views(out@).to_multiset() == all.take(i as int).to_multiset(),
        decreases rows.len() - i,
    {
        let mut at: usize = out.len();
        while at > 0 && !at_most(&out[at - 1], &rows[i])
            invariant
                at <= out.len(),
                i < rows.len(),
                total_preorder(le),
                sorted_by(views(out@), le),
                forall|a: &R, b: &R| #[trigger] call_requires(at_most, (a, b)),
                forall|a: &R, b: &R, r: bool| #[trigger]
                    call_ensures(at_most, (a, b), r) ==> r == le(a@, b@),
                forall|j: int| at <= j < out.len() ==> !le(#[trigger] views(out@)[j], rows[i as int]@),
            decreases at,
        {
            at -= 1;
            assert(!le(views(out@)[at as int], rows[i as int]@));
        }
        let ghost before = views(out@);
        let ghost new = rows[i as int]@;
        assert(at > 0 ==> le(before[at - 1], new));
        out.insert(at, rows[i].duplicate());
        proof {
            let after = views(out@);
            assert(after =~= before.insert(at as int, new));
            assert forall|x: int, y: int| 0 <= x < y < after.len() implies le(
                #[trigger] after[x],
                #[trigger] after[y],
            ) by {
                if x < at && y == at {
                    assert(le(before[x], before[at - 1]) || x == at - 1);
                } else if x == at {
                    assert(after[y] == before[y - 1]);
                    assert(!le(before[y - 1], new));
                } else if x < at && y < at {
                    assert(le(before[x], before[y]));
                } else if x < at {
                    assert(le(before[x], before[y - 1]));
                } else {
                    assert(le(before[x - 1], before[y - 1]));
                }
            }
            assert(after.remove(at as int) =~= before);
            after.to_multiset_ensures();
            assert(after[at as int] == new);
            assert(after.contains(new));
            assert(after.to_multiset() =~= before.to_multiset().insert(new));
            assert(all.take(i + 1) =~= all.take(i as int).push(all[i as int]));
            all.take(i as int).to_multiset_ensures();
        }
        i += 1;
    }
    assert(all.take(i as int) =~= all);
    out
}

/// The first `limit` rows, or all of them when `limit` is negative.
pub(crate) fn limit_rows<R: Row>(rows: Vec<R>, limit: i64) -> (out: Vec<R>)
    ensures
        views(out@) == limited(views(rows@), limit as int),
{
    let mut out: Vec<R> = rows;
    if limit >= 0 && (limit as u64) < out.len() as u64 {
        let ghost before = out@;
        out.truncate(limit as usize);
        assert(views(out@) =~= views(before).take(limit as int));
    }
    out
}

} // verus!
