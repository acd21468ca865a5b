//! Lists of rows: finding, picking, sorting and replacing them.
//!
//! A list is described by the views of its rows.

use vstd::prelude::*;

verus! {

/// A row that can be copied.
pub trait Row: View + Sized {
    /// A copy of the row.
    fn copied(&self) -> (r: Self)
        ensures
            r@ == self@,
    ;
}

/// The views of some rows.
pub open spec fn row_views<T: View>(rows: Seq<T>) -> Seq<T::V> {
    rows.map_values(|r: T| r@)
}

/// The position of the first row that meets a condition, or the number of rows.
pub open spec fn first_where<V>(rows: Seq<V>, meets: spec_fn(V) -> bool) -> int
    decreases rows.len(),
{
    if rows.len() == 0 || meets(rows[0]) {
        0
    } else {
        1 + first_where(rows.drop_first(), meets)
    }
}

/// The rows with one put in place of the row at a position, or added behind them.
pub open spec fn put_at<V>(rows: Seq<V>, at: int, row: V) -> Seq<V> {
    if at < rows.len() {
        rows.update(at, row)
    } else {
        rows.push(row)
    }
}

/// The first rows, at most so many.
pub open spec fn at_most<V>(rows: Seq<V>, limit: usize) -> Seq<V> {
    if limit < rows.len() {
        rows.take(limit as int)
    } else {
        rows
    }
}

/// Where a row goes among sorted rows: behind those that come no later.
pub open spec fn slot_in<V>(sorted: Seq<V>, row: V, no_later: spec_fn(V, V) -> bool) -> int
    decreases sorted.len(),
{
    if sorted.len() == 0 || !no_later(sorted[0], row) {
        0
    } else {
        1 + slot_in(sorted.drop_first(), row, no_later)
    }
}

/// Rows in a given order; rows of which each comes no later than the other stay in the
/// order they had.
pub open spec fn sorted_by<V>(rows: Seq<V>, no_later: spec_fn(V, V) -> bool) -> Seq<V>
    decreases rows.len(),
{
    if rows.len() == 0 {
        Seq::empty()
    } else {
        let sorted = sorted_by(rows.drop_last(), no_later);
        sorted.insert(slot_in(sorted, rows.last(), no_later), rows.last())
    }
}

/// Whether any two rows can be compared, and comparing them is transitive.
pub open spec fn is_order<V>(no_later: spec_fn(V, V) -> bool) -> bool {
    &&& forall|a: V, b: V| #[trigger] no_later(a, b) || no_later(b, a)
    &&& forall|a: V, b: V, c: V| #[trigger]
        no_later(a, b) && #[trigger] no_later(b, c) ==> no_later(a, c)
}

/// The first row that meets a condition meets it, and no row before it does.
pub proof fn lemma_first_where<V>(rows: Seq<V>, meets: spec_fn(V) -> bool)
    ensures
        0 <= first_where(rows, meets) <= rows.len(),
        first_where(rows, meets) < rows.len() ==> meets(rows[first_where(rows, meets)]),
        forall|i: int| 0 <= i < first_where(rows, meets) ==> !meets(#[trigger] rows[i]),
    decreases rows.len(),
{
    if rows.len() > 0 && !meets(rows[0]) {
        let rest = rows.drop_first();
        lemma_first_where(rest, meets);
        assert forall|i: int| 0 <= i < first_where(rows, meets) implies !meets(
            #[trigger] rows[i],
        ) by {
            if i > 0 {
                assert(rows[i] == rest[i - 1]);
            }
        }
    }
}

/// A row that meets a condition, with none before it, is the first one.
pub proof fn lemma_is_first_where<V>(rows: Seq<V>, meets: spec_fn(V) -> bool, at: int)
    requires
        0 <= at <= rows.len(),
        at < rows.len() ==> meets(rows[at]),
        forall|i: int| 0 <= i < at ==> !meets(#[trigger] rows[i]),
    ensures
        first_where(rows, meets) == at,
{
    lemma_first_where(rows, meets);
    let found = first_where(rows, meets);
    if found < at {
        assert(!meets(rows[found]));
    }
}

proof fn lemma_slot_in<V>(sorted: Seq<V>, row: V, no_later: spec_fn(V, V) -> bool)
    requires
        is_order(no_later),
        forall|i: int, j: int|
            0 <= i < j < sorted.len() ==> no_later(#[trigger] sorted[i], #[trigger] sorted[j]),
    ensures
        0 <= slot_in(sorted, row, no_later) <= sorted.len(),
        forall|i: int|
            0 <= i < slot_in(sorted, row, no_later) ==> no_later(#[trigger] sorted[i], row),
        forall|i: int|
            slot_in(sorted, row, no_later) <= i < sorted.len() ==> no_later(
                row,
                #[trigger] sorted[i],
            ),
    decreases sorted.len(),
{
    if sorted.len() > 0 {
        if no_later(sorted[0], row) {
            let rest = sorted.drop_first();
            lemma_slot_in(rest, row, no_later);
            assert forall|i: int| 0 <= i < slot_in(sorted, row, no_later) implies no_later(
                #[trigger] sorted[i],
                row,
            ) by {
                if i > 0 {
                    assert(sorted[i] == rest[i - 1]);
                }
            }
            assert forall|i: int|
                slot_in(sorted, row, no_later) <= i < sorted.len() implies no_later(
                row,
                #[trigger] sorted[i],
            ) by {
                assert(sorted[i] == rest[i - 1]);
            }
        } else {
            assert(no_later(row, sorted[0]));
            assert forall|i: int| 0 <= i < sorted.len() implies no_later(
                row,
                #[trigger] sorted[i],
            ) by {
                if i > 0 {
                    assert(no_later(sorted[0], sorted[i]));
                }
            }
        }
    }
}

/// Sorting puts no row before one that it comes later than, and neither adds nor loses a
/// row.
pub proof fn lemma_sorted_by<V>(rows: Seq<V>, no_later: spec_fn(V, V) -> bool)
    requires
        is_order(no_later),
    ensures
        sorted_by(rows, no_later).len() == rows.len(),
        sorted_by(rows, no_later).to_multiset() == rows.to_multiset(),
        forall|i: int, j: int|
            0 <= i < j < rows.len() ==> no_later(
                #[trigger] sorted_by(rows, no_later)[i],
                #[trigger] sorted_by(rows, no_later)[j],
            ),
    decreases rows.len(),
{
    if rows.len() > 0 {
        let before = rows.drop_last();
        let sorted = sorted_by(before, no_later);
        lemma_sorted_by(before, no_later);
        lemma_slot_in(sorted, rows.last(), no_later);
        let at = slot_in(sorted, rows.last(), no_later);
        let after = sorted_by(rows, no_later);
        assert forall|i: int, j: int| 0 <= i < j < rows.len() implies no_later(
            #[trigger] after[i],
            #[trigger] after[j],
        ) by {
            if i < at {
                assert(after[i] == sorted[i]);
            } else if i > at {
                assert(after[i] == sorted[i - 1]);
            }
            if j < at {
                assert(after[j] == sorted[j]);
            } else if j > at {
                assert(after[j] == sorted[j - 1]);
            }
        }
        assert(rows =~= before.push(rows.last()));
        broadcast use vstd::seq_lib::group_to_multiset_ensures;

        assert(after.to_multiset() =~= rows.to_multiset());
    } else {
        assert(sorted_by(rows, no_later) =~= rows);
    }
}

/// How many rows a sort returns does not depend on the order.
pub proof fn lemma_sorted_len<V>(rows: Seq<V>, no_later: spec_fn(V, V) -> bool)
    ensures
        sorted_by(rows, no_later).len() == rows.len(),
    decreases rows.len(),
{
    if rows.len() > 0 {
        lemma_sorted_len(rows.drop_last(), no_later);
        lemma_slot_range(sorted_by(rows.drop_last(), no_later), rows.last(), no_later);
    }
}

proof fn lemma_slot_range<V>(sorted: Seq<V>, row: V, no_later: spec_fn(V, V) -> bool)
    ensures
        0 <= slot_in(sorted, row, no_later) <= sorted.len(),
    decreases sorted.len(),
{
    if sorted.len() > 0 {
        lemma_slot_range(sorted.drop_first(), row, no_later);
    }
}

/// Whether no two rows have the same key.
pub open spec fn all_apart<V>(rows: Seq<V>, same: spec_fn(V, V) -> bool) -> bool {
    forall|i: int, j: int|
        0 <= i < rows.len() && 0 <= j < rows.len() && i != j ==> !same(
            #[trigger] rows[i],
            #[trigger] rows[j],
        )
}

/// Whether a relation on rows says that they have the same key.
pub open spec fn is_same_key<V>(same: spec_fn(V, V) -> bool) -> bool {
    &&& forall|a: V| #[trigger] same(a, a)
    &&& forall|a: V, b: V| #[trigger] same(a, b) ==> same(b, a)
    &&& forall|a: V, b: V, c: V| #[trigger] same(a, b) && #[trigger] same(b, c) ==> same(a, c)
}

/// The rows with one put in place of the one with its key.
pub open spec fn upserted<V>(rows: Seq<V>, same: spec_fn(V, V) -> bool, row: V) -> Seq<V> {
    put_at(rows, first_where(rows, |r: V| same(r, row)), row)
}

/// Putting a row in place of the one that is found by its key keeps the keys apart.
pub proof fn lemma_put_stays_apart<V>(
    rows: Seq<V>,
    same: spec_fn(V, V) -> bool,
    row: V,
    meets: spec_fn(V) -> bool,
)
    requires
        is_same_key(same),
        all_apart(rows, same),
        forall|r: V| #[trigger] meets(r) == same(r, row),
    ensures
        all_apart(put_at(rows, first_where(rows, meets), row), same),
{
    let by_same = |r: V| same(r, row);
    assert(meets =~= by_same);
    lemma_upserted(rows, same, row);
}

/// Removing a row keeps the keys apart.
pub proof fn lemma_removed_stays_apart<V>(rows: Seq<V>, same: spec_fn(V, V) -> bool, at: int)
    requires
        all_apart(rows, same),
        0 <= at < rows.len(),
    ensures
        all_apart(rows.remove(at), same),
{
    let after = rows.remove(at);
    assert forall|i: int, j: int| 0 <= i < after.len() && 0 <= j < after.len() && i != j implies
        !same(#[trigger] after[i], #[trigger] after[j]) by {
        let x = if i < at {
            i
        } else {
            i + 1
        };
        let y = if j < at {
            j
        } else {
            j + 1
        };
        assert(after[i] == rows[x] && after[j] == rows[y]);
    }
}

/// Keeping only some of the rows keeps the keys apart.
pub proof fn lemma_filtered_stays_apart<V>(
    rows: Seq<V>,
    same: spec_fn(V, V) -> bool,
    keep: spec_fn(V) -> bool,
)
    requires
        is_same_key(same),
        all_apart(rows, same),
    ensures
        all_apart(rows.filter(keep), same),
    decreases rows.len(),
{
    reveal(Seq::filter);
    if rows.len() > 0 {
        let before = rows.drop_last();
        lemma_filtered_stays_apart(before, same, keep);
        let kept = before.filter(keep);
        let after = rows.filter(keep);
        if keep(rows.last()) {
            assert forall|i: int, j: int|
                0 <= i < after.len() && 0 <= j < after.len() && i != j implies !same(
                #[trigger] after[i],
                #[trigger] after[j],
            ) by {
                let x = if i < j {
                    i
                } else {
                    j
                };
                assert(after[x] == kept[x]);
                assert(kept.contains(kept[x]));
                before.lemma_filter_contains_rev(keep, kept[x]);
                let k = choose|k: int| 0 <= k < before.len() && before[k] == kept[x];
                assert(rows[k] == after[x]);
                if i < kept.len() && j < kept.len() {
                    assert(!same(kept[i], kept[j]));
                } else {
                    assert(after[after.len() - 1] == rows[rows.len() - 1]);
                    assert(!same(rows[k], rows[rows.len() - 1]));
                }
            }
        }
    }
}

/// Putting a row keeps the keys apart, and the row is then found under its key.
pub proof fn lemma_upserted<V>(rows: Seq<V>, same: spec_fn(V, V) -> bool, row: V)
    requires
        is_same_key(same),
        all_apart(rows, same),
    ensures
        all_apart(upserted(rows, same, row), same),
        ({
            let after = upserted(rows, same, row);
            let at = first_where(after, |r: V| same(r, row));
            0 <= at < after.len() && after[at] == row
        }),
{
    let meets = |r: V| same(r, row);
    lemma_first_where(rows, meets);
    let at = first_where(rows, meets);
    let after = upserted(rows, same, row);
    assert(same(row, row));
    assert forall|i: int, j: int| 0 <= i < after.len() && 0 <= j < after.len() && i != j implies
        !same(#[trigger] after[i], #[trigger] after[j]) by {
        if at < rows.len() {
            assert(meets(rows[at]));
            if i == at && same(row, rows[j]) {
                assert(same(rows[at], rows[j]));
            } else if j == at && same(rows[i], row) {
                assert(same(row, rows[at]));
                assert(same(rows[i], rows[at]));
            } else if i != at && j != at {
                assert(!same(rows[i], rows[j]));
            }
        } else {
            if i < rows.len() {
                assert(!meets(rows[i]));
            }
            if j < rows.len() {
                assert(!meets(rows[j]));
            }
            if i < rows.len() && j < rows.len() {
                assert(!same(rows[i], rows[j]));
            } else if j < rows.len() {
                if same(row, rows[j]) {
                    assert(same(rows[j], row));
                }
            }
        }
    }
    assert(meets(after[at]));
    assert forall|i: int| 0 <= i < at implies !meets(#[trigger] after[i]) by {
        assert(after[i] == rows[i]);
    }
    lemma_is_first_where(after, meets, at);
}

/// Putting a row leaves what is found under every other key as it was.
pub proof fn lemma_upserted_others<V>(
    rows: Seq<V>,
    same: spec_fn(V, V) -> bool,
    row: V,
    other: spec_fn(V) -> bool,
)
    requires
        !other(row),
        forall|r: V| #[trigger] same(r, row) ==> !other(r),
    ensures
        ({
            let after = upserted(rows, same, row);
            let was = first_where(rows, other);
            let is = first_where(after, other);
            &&& was < rows.len() <==> is < after.len()
            &&& was < rows.len() ==> after[is] == rows[was]
        }),
{
    let meets = |r: V| same(r, row);
    lemma_first_where(rows, meets);
    lemma_first_where(rows, other);
    let at = first_where(rows, meets);
    let was = first_where(rows, other);
    let after = upserted(rows, same, row);
    if at < rows.len() {
        assert(meets(rows[at]));
        assert(same(rows[at], row));
        assert(!other(rows[at]));
    }
    lemma_first_where(after, other);
    let is = first_where(after, other);
    if was < rows.len() {
        assert(was != at);
        assert(after[was] == rows[was]);
        assert forall|i: int| 0 <= i < was implies !other(#[trigger] after[i]) by {
            if i != at {
                assert(after[i] == rows[i]);
            }
        }
        lemma_is_first_where(after, other, was);
    } else if is < after.len() {
        if is < rows.len() && is != at {
            assert(after[is] == rows[is]);
        }
    }
}

/// Removing the row with a key keeps the keys apart, leaves no row with the key, and leaves
/// what is found under every other key as it was.
pub proof fn lemma_removed<V>(
    rows: Seq<V>,
    same: spec_fn(V, V) -> bool,
    meets: spec_fn(V) -> bool,
    other: spec_fn(V) -> bool,
)
    requires
        all_apart(rows, same),
        first_where(rows, meets) < rows.len(),
        forall|a: V, b: V| meets(a) && meets(b) ==> #[trigger] same(a, b),
        forall|a: V| #[trigger] meets(a) ==> !other(a),
    ensures
        ({
            let after = rows.remove(first_where(rows, meets));
            let was = first_where(rows, other);
            let is = first_where(after, other);
            &&& all_apart(after, same)
            &&& first_where(after, meets) == after.len()
            &&& was < rows.len() <==> is < after.len()
            &&& was < rows.len() ==> after[is] == rows[was]
        }),
{
    lemma_first_where(rows, meets);
    lemma_first_where(rows, other);
    let at = first_where(rows, meets);
    let after = rows.remove(at);
    assert forall|i: int| 0 <= i < after.len() implies #[trigger] after[i] == rows[if i < at {
        i
    } else {
        i + 1
    }] by {}
    assert forall|i: int, j: int| 0 <= i < after.len() && 0 <= j < after.len() && i != j implies
        !same(#[trigger] after[i], #[trigger] after[j]) by {
        let x = if i < at {
            i
        } else {
            i + 1
        };
        let y = if j < at {
            j
        } else {
            j + 1
        };
        assert(!same(rows[x], rows[y]));
    }
    assert forall|i: int| 0 <= i < after.len() implies !meets(#[trigger] after[i]) by {
        let x = if i < at {
            i
        } else {
            i + 1
        };
        if meets(rows[x]) {
            assert(meets(rows[at]));
            assert(same(rows[x], rows[at]));
        }
    }
    lemma_is_first_where(after, meets, after.len() as int);
    let was = first_where(rows, other);
    lemma_first_where(after, other);
    let is = first_where(after, other);
    if was < rows.len() {
        assert(meets(rows[at]));
        assert(was != at);
        let to = if was < at {
            was
        } else {
            was - 1
        };
        assert(after[to] == rows[was]);
        assert forall|i: int| 0 <= i < to implies !other(#[trigger] after[i]) by {
            let x = if i < at {
                i
            } else {
                i + 1
            };
            assert(after[i] == rows[x]);
        }
        lemma_is_first_where(after, other, to);
    } else if is < after.len() {
        let x = if is < at {
            is
        } else {
            is + 1
        };
        assert(after[is] == rows[x]);
        assert(!other(rows[x]));
    }
}

/// A sorted row was there before.
pub proof fn lemma_sorted_from<V>(rows: Seq<V>, no_later: spec_fn(V, V) -> bool, row: V)
    requires
        sorted_by(rows, no_later).contains(row),
    ensures
        rows.contains(row),
    decreases rows.len(),
{
    let after = sorted_by(rows, no_later);
    if rows.len() > 0 {
        let before = rows.drop_last();
        let sorted = sorted_by(before, no_later);
        lemma_slot_range(sorted, rows.last(), no_later);
        let at = slot_in(sorted, rows.last(), no_later);
        let i = choose|i: int| 0 <= i < after.len() && after[i] == row;
        if i == at {
            assert(rows[rows.len() - 1] == row);
        } else {
            let k = if i < at {
                i
            } else {
                i - 1
            };
            assert(sorted[k] == row);
            assert(sorted.contains(row));
            lemma_sorted_from(before, no_later, row);
            let j = choose|j: int| 0 <= j < before.len() && before[j] == row;
            assert(rows[j] == row);
        }
    }
}

/// Sorting loses no row.
pub proof fn lemma_sorted_contains<V>(rows: Seq<V>, no_later: spec_fn(V, V) -> bool, row: V)
    requires
        rows.contains(row),
    ensures
        sorted_by(rows, no_later).contains(row),
    decreases rows.len(),
{
    let before = rows.drop_last();
    let sorted = sorted_by(before, no_later);
    lemma_slot_range(sorted, rows.last(), no_later);
    let at = slot_in(sorted, rows.last(), no_later);
    let after = sorted_by(rows, no_later);
    let i = choose|i: int| 0 <= i < rows.len() && rows[i] == row;
    if i < before.len() {
        assert(before[i] == row);
        lemma_sorted_contains(before, no_later, row);
        let k = choose|k: int| 0 <= k < sorted.len() && sorted[k] == row;
        if k < at {
            assert(after[k] == row);
        } else {
            assert(after[k + 1] == row);
        }
    } else {
        assert(after[at] == row);
    }
}

/// Adding a row adds its view.
pub proof fn lemma_row_views_push<T: View>(rows: Seq<T>, row: T)
    ensures
        row_views(rows.push(row)) == row_views(rows).push(row@),
{
    assert(row_views(rows.push(row)) =~= row_views(rows).push(row@));
}

/// A copy of some rows.
pub fn copy_rows<T: Row>(rows: &Vec<T>) -> (r: Vec<T>)
    ensures
        row_views(r@) == row_views(rows@),
{
    let mut copies: Vec<T> = Vec::new();
    let mut i: usize = 0;
    while i < rows.len()
        invariant
            i <= rows.len(),
            copies.len() == i,
            forall|j: int| 0 <= j < i ==> (#[trigger] copies@[j])@ == rows@[j]@,
        decreases rows.len() - i,
    {
        copies.push(rows[i].copied());
        i = i + 1;
    }
    assert(row_views(copies@) =~= row_views(rows@));
    copies
}

/// Copies of the rows that a condition keeps, in their order.
pub fn pick_rows<T: Row, F: Fn(&T) -> bool>(
    rows: &Vec<T>,
    keeps: F,
    Ghost(keep): Ghost<spec_fn(T::V) -> bool>,
) -> (r: Vec<T>)
    requires
        forall|row: &T| #[trigger] call_requires(keeps, (row,)),
        forall|row: &T, b: bool| #[trigger] call_ensures(keeps, (row,), b) ==> b == keep(row@),
    ensures
        row_views(r@) == row_views(rows@).filter(keep),
{
    let ghost all = row_views(rows@);
    let mut picked: Vec<T> = Vec::new();
    let mut i: usize = 0;
    proof {
        reveal(Seq::filter);
        assert(all.take(0) =~= Seq::empty());
        assert(row_views(picked@) =~= Seq::empty());
    }
    while i < rows.len()
        invariant
            i <= rows.len(),
            all == row_views(rows@),
            row_views(picked@) == all.take(i as int).filter(keep),
            forall|row: &T| #[trigger] call_requires(keeps, (row,)),
            forall|row: &T, b: bool| #[trigger]
                call_ensures(keeps, (row,), b) ==> b == keep(row@),
        decreases rows.len() - i,
    {
        proof {
            reveal(Seq::filter);
            assert(all.take(i as int + 1).drop_last() =~= all.take(i as int));
            assert(all.take(i as int + 1).last() == rows@[i as int]@);
        }
        if keeps(&rows[i]) {
            let row = rows[i].copied();
            proof {
                lemma_row_views_push(picked@, row);
            }
            picked.push(row);
        }
        i = i + 1;
    }
    assert(all.take(i as int) =~= all);
    picked
}

/// The position of the first row that meets a condition.
pub fn find_row<T: View, F: Fn(&T) -> bool>(
    rows: &Vec<T>,
    fits: F,
    Ghost(meets): Ghost<spec_fn(T::V) -> bool>,
) -> (r: Option<usize>)
    requires
        forall|row: &T| #[trigger] call_requires(fits, (row,)),
        forall|row: &T, b: bool| #[trigger] call_ensures(fits, (row,), b) ==> b == meets(row@),
    ensures
        match r {
            Some(i) => i < rows@.len() && i == first_where(row_views(rows@), meets),
            None => first_where(row_views(rows@), meets) == rows@.len(),
        },
{
    let ghost all = row_views(rows@);
    let mut i: usize = 0;
    while i < rows.len()
        invariant
            i <= rows.len(),
            all == row_views(rows@),
            forall|j: int| 0 <= j < i ==> !meets(#[trigger] all[j]),
            forall|row: &T| #[trigger] call_requires(fits, (row,)),
            forall|row: &T, b: bool| #[trigger]
                call_ensures(fits, (row,), b) ==> b == meets(row@),
        decreases rows.len() - i,
    {
        assert(all[i as int] == rows@[i as int]@);
        if fits(&rows[i]) {
            proof {
                lemma_is_first_where(all, meets, i as int);
            }
            return Some(i);
        }
        i = i + 1;
    }
    proof {
        lemma_is_first_where(all, meets, i as int);
    }
    None
}

/// Puts a row in place of the one at a position, or behind all rows.
pub fn put_row<T: View>(rows: &mut Vec<T>, at: Option<usize>, row: T)
    requires
        at is Some ==> at->0 < old(rows)@.len(),
    ensures
        row_views(final(rows)@) == put_at(
            row_views(old(rows)@),
            match at {
                Some(at) => at as int,
                None => old(rows)@.len() as int,
            },
            row@,
        ),
{
    let ghost before = row_views(rows@);
    match at {
        Some(at) => {
            rows.set(at, row);
            assert(row_views(rows@) =~= before.update(at as int, row@));
        },
        None => {
            proof {
                lemma_row_views_push(rows@, row);
            }
            rows.push(row);
        },
    }
}

/// Sorts rows; those of which each comes no later than the other stay in the order they
/// had.
pub fn sort_rows<T: View, F: Fn(&T, &T) -> bool>(
    rows: Vec<T>,
    precedes: F,
    Ghost(no_later): Ghost<spec_fn(T::V, T::V) -> bool>,
) -> (r: Vec<T>)
    requires
        forall|a: &T, b: &T| #[trigger] call_requires(precedes, (a, b)),
        forall|a: &T, b: &T, r: bool| #[trigger]
            call_ensures(precedes, (a, b), r) ==> r == no_later(a@, b@),
    ensures
        row_views(r@) == sorted_by(row_views(rows@), no_later),
{
    let ghost all = row_views(rows@);
    let mut rest = rows;
    let mut sorted: Vec<T> = Vec::new();
    let ghost mut done: int = 0;
    assert(row_views(sorted@) =~= Seq::empty());
    assert(all.take(0) =~= Seq::empty());
    assert(all.skip(0) =~= all);
    while rest.len() > 0
        invariant
            0 <= done <= all.len(),
            row_views(rest@) == all.skip(done),
            rest@.len() == all.len() - done,
            row_views(sorted@) == sorted_by(all.take(done), no_later),
            forall|a: &T, b: &T| #[trigger] call_requires(precedes, (a, b)),
            forall|a: &T, b: &T, r: bool| #[trigger]
                call_ensures(precedes, (a, b), r) ==> r == no_later(a@, b@),
        decreases rest@.len(),
    {
        let ghost before = rest@;
        let row = rest.remove(0);
        let ghost views = row_views(sorted@);
        proof {
            assert(row_views(before)[0] == all.skip(done)[0]);
            assert(row@ == all[done]);
            assert forall|j: int| 0 <= j < rest@.len() implies #[trigger] row_views(rest@)[j]
                == all.skip(done + 1)[j] by {
                assert(rest@[j] == before[j + 1]);
                assert(row_views(before)[j + 1] == all.skip(done)[j + 1]);
            }
            assert(row_views(rest@) =~= all.skip(done + 1));
            assert(all.take(done + 1).drop_last() =~= all.take(done));
            assert(views.skip(0) =~= views);
        }
        let mut at: usize = 0;
        while at < sorted.len() && precedes(&sorted[at], &row)
            invariant
                at <= sorted.len(),
                views == row_views(sorted@),
                slot_in(views, row@, no_later) == at + slot_in(
                    views.skip(at as int),
                    row@,
                    no_later,
                ),
                forall|a: &T, b: &T| #[trigger] call_requires(precedes, (a, b)),
                forall|a: &T, b: &T, r: bool| #[trigger]
                    call_ensures(precedes, (a, b), r) ==> r == no_later(a@, b@),
            decreases sorted.len() - at,
        {
            assert(views[at as int] == sorted@[at as int]@);
            assert(views.skip(at as int).drop_first() =~= views.skip(at as int + 1));
            at = at + 1;
        }
        assert(slot_in(views, row@, no_later) == at) by {
            if at < sorted.len() {
                assert(views[at as int] == sorted@[at as int]@);
            }
        }
        let ghost view = row@;
        sorted.insert(at, row);
        assert(row_views(sorted@) =~= views.insert(at as int, view));
        proof {
            done = done + 1;
        }
    }
    assert(all.take(done) =~= all);
    sorted
}

/// A limit keeps the first rows, as many as it allows, and loses none that it allows.
pub proof fn law_limits_keep_the_first_rows<V>(rows: Seq<V>, limit: usize)
    ensures
        at_most(rows, limit).is_prefix_of(rows),
        at_most(rows, limit).len() <= limit,
        at_most(rows, limit).len() < limit ==> at_most(rows, limit) == rows,
{
}

} // verus!
