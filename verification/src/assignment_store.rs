//! What the store of assignments holds after an assignment or a replacement.
//!
//! A store is taken to do what its calls say: `get_asset_assignments` gives the
//! rows of an asset, `delete_asset_assignments` takes out the rows of an asset in
//! a taxonomy, and `upsert_assignment` stores a row in place of any row with its
//! id. A call that fails leaves the rows as they were. No two rows of a store share
//! an id.
use crate::assignments::{kept_assignment, kept_assignments, ReplacementView, RestorationView};
use crate::models::{AssignmentView, NewAssignmentView};
use vstd::prelude::*;

verus! {

/// The row assigns this asset within this taxonomy.
pub open spec fn belongs_to(
    row: AssignmentView,
    asset_id: Seq<char>,
    taxonomy_id: Seq<char>,
) -> bool {
    row.asset_id == asset_id && row.taxonomy_id == taxonomy_id
}

/// The rows of an asset: what `get_asset_assignments` gives.
pub open spec fn rows_of_asset(rows: Seq<AssignmentView>, asset_id: Seq<char>) -> Seq<
    AssignmentView,
> {
    rows.filter(|row: AssignmentView| row.asset_id == asset_id)
}

/// The rows of an asset in a taxonomy.
pub open spec fn rows_of(
    rows: Seq<AssignmentView>,
    asset_id: Seq<char>,
    taxonomy_id: Seq<char>,
) -> Seq<AssignmentView> {
    rows.filter(|row: AssignmentView| belongs_to(row, asset_id, taxonomy_id))
}

/// All rows but those of an asset in a taxonomy: what is left after
/// `delete_asset_assignments`.
pub open spec fn rows_beside(
    rows: Seq<AssignmentView>,
    asset_id: Seq<char>,
    taxonomy_id: Seq<char>,
) -> Seq<AssignmentView> {
    rows.filter(|row: AssignmentView| !belongs_to(row, asset_id, taxonomy_id))
}

/// The rows after `upsert_assignment` stored one.
pub open spec fn with_row(rows: Seq<AssignmentView>, stored: AssignmentView) -> Seq<
    AssignmentView,
> {
    rows.filter(|row: AssignmentView| row.id != stored.id).push(stored)
}

/// The rows after `upsert_assignment` stored several, one by one.
pub open spec fn with_rows(rows: Seq<AssignmentView>, stored: Seq<AssignmentView>) -> Seq<
    AssignmentView,
>
    decreases stored.len(),
{
    if stored.len() == 0 {
        rows
    } else {
        with_row(with_rows(rows, stored.drop_last()), stored.last())
    }
}

/// A stored row holds what was asked for.
pub open spec fn stores_assignment(stored: AssignmentView, asked: NewAssignmentView) -> bool {
    &&& asked.id matches Some(id) ==> stored.id == id
    &&& stored.asset_id == asked.asset_id
    &&& stored.taxonomy_id == asked.taxonomy_id
    &&& stored.category_id == asked.category_id
    &&& stored.weight == asked.weight
    &&& stored.source == asked.source
}

/// No two rows share an id.
pub open spec fn row_ids_unique(rows: Seq<AssignmentView>) -> bool {
    forall|i: int, j: int|
        0 <= i < j < rows.len() ==> #[trigger] rows[i].id != #[trigger] rows[j].id
}

proof fn lemma_filter_all<A>(s: Seq<A>, keep: spec_fn(A) -> bool)
    requires
        forall|i: int| 0 <= i < s.len() ==> keep(#[trigger] s[i]),
    ensures
        s.filter(keep) == s,
    decreases s.len(),
{
    reveal(Seq::filter);
    if s.len() > 0 {
        lemma_filter_all(s.drop_last(), keep);
        assert(s =~= s.drop_last().push(s.last()));
    }
}

proof fn lemma_filter_none<A>(s: Seq<A>, keep: spec_fn(A) -> bool)
    requires
        forall|i: int| 0 <= i < s.len() ==> !keep(#[trigger] s[i]),
    ensures
        s.filter(keep) == Seq::<A>::empty(),
    decreases s.len(),
{
    reveal(Seq::filter);
    if s.len() > 0 {
        lemma_filter_none(s.drop_last(), keep);
    }
    assert(s.filter(keep) =~= Seq::<A>::empty());
}

/// Filtering twice is filtering once by both conditions.
pub proof fn lemma_filter_twice<A>(
    s: Seq<A>,
    first: spec_fn(A) -> bool,
    second: spec_fn(A) -> bool,
    both: spec_fn(A) -> bool,
)
    requires
        forall|a: A| #[trigger] both(a) <==> first(a) && second(a),
    ensures
        s.filter(first).filter(second) == s.filter(both),
    decreases s.len(),
{
    reveal(Seq::filter);
    if s.len() > 0 {
        let front = s.drop_last();
        let last = s.last();
        lemma_filter_twice(front, first, second, both);
        assert(both(last) <==> first(last) && second(last));
        if first(last) {
            let kept = front.filter(first).push(last);
            assert(kept.drop_last() =~= front.filter(first));
            assert(kept.last() == last);
        }
    }
}

/// A row with an id of its own is added behind the rows that are there.
proof fn lemma_fresh_row_is_appended(rows: Seq<AssignmentView>, stored: AssignmentView)
    requires
        forall|i: int| 0 <= i < rows.len() ==> (#[trigger] rows[i]).id != stored.id,
    ensures
        with_row(rows, stored) == rows.push(stored),
{
    lemma_filter_all(rows, |row: AssignmentView| row.id != stored.id);
}

/// Rows with ids of their own are added behind the rows that are there.
proof fn lemma_fresh_rows_are_appended(rows: Seq<AssignmentView>, stored: Seq<AssignmentView>)
    requires
        row_ids_unique(rows + stored),
    ensures
        with_rows(rows, stored) == rows + stored,
    decreases stored.len(),
{
    let all = rows + stored;
    if stored.len() == 0 {
        assert(all =~= rows);
    } else {
        let front = all.drop_last();
        assert(front == rows + stored.drop_last());
        assert forall|i: int, j: int| 0 <= i < j < front.len() implies #[trigger] front[i].id
            != #[trigger] front[j].id by {
            assert(all[i].id != all[j].id);
        }
        lemma_fresh_rows_are_appended(rows, stored.drop_last());
        assert forall|i: int| 0 <= i < front.len() implies (#[trigger] front[i]).id
            != stored.last().id by {
            assert(all[i].id != all[all.len() - 1].id);
        }
        lemma_fresh_row_is_appended(front, stored.last());
        assert(front.push(stored.last()) =~= all);
    }
}

/// A replacement replaces: once the rows of an asset in a taxonomy are cleared
/// and rows for that asset and taxonomy are stored under ids of their own, those
/// rows are all that the asset has in the taxonomy, and every other row is as it
/// was. `stored` may be a part of what is asked for: then the replacement is
/// still under way.
pub proof fn law_replacement_replaces(
    rows: Seq<AssignmentView>,
    asset_id: Seq<char>,
    taxonomy_id: Seq<char>,
    asked: Seq<NewAssignmentView>,
    stored: Seq<AssignmentView>,
)
    requires
        stored.len() <= asked.len(),
        forall|i: int|
            #![trigger stored[i]]
            0 <= i < stored.len() ==> stores_assignment(stored[i], asked[i]) && asked[i].asset_id
                == asset_id && asked[i].taxonomy_id == taxonomy_id,
        row_ids_unique(rows_beside(rows, asset_id, taxonomy_id) + stored),
    ensures
        ({
            let after = with_rows(rows_beside(rows, asset_id, taxonomy_id), stored);
            &&& rows_of(after, asset_id, taxonomy_id) == stored
            &&& rows_beside(after, asset_id, taxonomy_id) == rows_beside(
                rows,
                asset_id,
                taxonomy_id,
            )
        }),
{
    broadcast use Seq::lemma_filter_pred;

    let kept = rows_beside(rows, asset_id, taxonomy_id);
    let within = |row: AssignmentView| belongs_to(row, asset_id, taxonomy_id);
    let beside = |row: AssignmentView| !belongs_to(row, asset_id, taxonomy_id);
    lemma_fresh_rows_are_appended(kept, stored);
    Seq::filter_distributes_over_add(kept, stored, within);
    Seq::filter_distributes_over_add(kept, stored, beside);
    assert forall|i: int| 0 <= i < kept.len() implies beside(#[trigger] kept[i]) by {
        assert(beside(rows.filter(beside)[i]));
    }
    lemma_filter_none(kept, within);
    lemma_filter_all(kept, beside);
    lemma_filter_all(stored, within);
    lemma_filter_none(stored, beside);
    assert(Seq::<AssignmentView>::empty() + stored =~= stored);
    assert(kept + Seq::<AssignmentView>::empty() =~= kept);
}

/// What a replacement clears is gone: whatever the store answers, and whatever
/// ids it gives, each row that the asset has in the taxonomy afterwards is one
/// that the store answered.
pub proof fn law_cleared_rows_are_gone(
    rows: Seq<AssignmentView>,
    asset_id: Seq<char>,
    taxonomy_id: Seq<char>,
    stored: Seq<AssignmentView>,
)
    ensures
        ({
            let after = with_rows(rows_beside(rows, asset_id, taxonomy_id), stored);
            forall|i: int|
                0 <= i < after.len() && belongs_to(#[trigger] after[i], asset_id, taxonomy_id)
                    ==> stored.contains(after[i])
        }),
    decreases stored.len(),
{
    broadcast use Seq::lemma_filter_pred;

    let kept = rows_beside(rows, asset_id, taxonomy_id);
    let after = with_rows(kept, stored);
    if stored.len() == 0 {
        let beside = |row: AssignmentView| !belongs_to(row, asset_id, taxonomy_id);
        assert forall|i: int| 0 <= i < after.len() implies !belongs_to(
            #[trigger] after[i],
            asset_id,
            taxonomy_id,
        ) by {
            assert(beside(rows.filter(beside)[i]));
        }
    } else {
        let earlier = stored.drop_last();
        let before = with_rows(kept, earlier);
        let other = |row: AssignmentView| row.id != stored.last().id;
        law_cleared_rows_are_gone(rows, asset_id, taxonomy_id, earlier);
        assert forall|i: int|
            0 <= i < after.len() && belongs_to(
                #[trigger] after[i],
                asset_id,
                taxonomy_id,
            ) implies stored.contains(after[i]) by {
            if i == after.len() - 1 {
                assert(stored[stored.len() - 1] == after[i]);
            } else {
                before.lemma_filter_contains_rev(other, after[i]);
                let j = choose|j: int| 0 <= j < before.len() && before[j] == after[i];
                assert(earlier.contains(before[j]));
                let k = choose|k: int| 0 <= k < earlier.len() && earlier[k] == before[j];
                assert(stored[k] == after[i]);
            }
        }
    }
}

/// Filtering keeps ids apart.
proof fn lemma_filter_keeps_ids_unique(
    rows: Seq<AssignmentView>,
    keep: spec_fn(AssignmentView) -> bool,
)
    requires
        row_ids_unique(rows),
    ensures
        row_ids_unique(rows.filter(keep)),
    decreases rows.len(),
{
    reveal(Seq::filter);
    if rows.len() > 0 {
        let front = rows.drop_last();
        let kept = front.filter(keep);
        assert(row_ids_unique(front)) by {
            assert forall|i: int, j: int| 0 <= i < j < front.len() implies #[trigger] front[i].id
                != #[trigger] front[j].id by {
                assert(rows[i].id != rows[j].id);
            }
        }
        lemma_filter_keeps_ids_unique(front, keep);
        if keep(rows.last()) {
            assert forall|i: int| 0 <= i < kept.len() implies (#[trigger] kept[i]).id
                != rows.last().id by {
                front.lemma_filter_contains_rev(keep, kept[i]);
                let j = choose|j: int| 0 <= j < front.len() && front[j] == kept[i];
                assert(rows[j].id != rows[rows.len() - 1].id);
            }
        }
    }
}

/// Beside the other rows of a store, the rows of an asset in a taxonomy keep ids
/// of their own.
proof fn lemma_parts_have_unique_ids(
    rows: Seq<AssignmentView>,
    asset_id: Seq<char>,
    taxonomy_id: Seq<char>,
)
    requires
        row_ids_unique(rows),
    ensures
        row_ids_unique(rows_beside(rows, asset_id, taxonomy_id) + rows_of(
            rows,
            asset_id,
            taxonomy_id,
        )),
{
    broadcast use Seq::lemma_filter_pred;

    let within = |row: AssignmentView| belongs_to(row, asset_id, taxonomy_id);
    let beside = |row: AssignmentView| !belongs_to(row, asset_id, taxonomy_id);
    let kept = rows.filter(beside);
    let former = rows.filter(within);
    let all = kept + former;
    lemma_filter_keeps_ids_unique(rows, within);
    lemma_filter_keeps_ids_unique(rows, beside);
    assert forall|i: int, j: int| 0 <= i < j < all.len() implies #[trigger] all[i].id
        != #[trigger] all[j].id by {
        if j < kept.len() {
            assert(kept[i].id != kept[j].id);
        } else if i >= kept.len() {
            assert(former[i - kept.len()].id != former[j - kept.len()].id);
        } else {
            let row = former[j - kept.len()];
            assert(beside(rows.filter(beside)[i]));
            assert(within(rows.filter(within)[j - kept.len()]));
            rows.lemma_filter_contains_rev(beside, kept[i]);
            rows.lemma_filter_contains_rev(within, row);
            let a = choose|a: int| 0 <= a < rows.len() && rows[a] == kept[i];
            let b = choose|b: int| 0 <= b < rows.len() && rows[b] == row;
            if a < b {
                assert(rows[a].id != rows[b].id);
            } else {
                assert(rows[b].id != rows[a].id);
            }
        }
    }
}

/// A replacement that fails changes nothing: where some of the rows are stored
/// and the store refuses the next one, then once the stored rows are cleared and
/// the kept rows are stored again, the asset has in the taxonomy the rows that it
/// had, in order, with their ids, categories, weights and sources, and every other
/// row is as it was. The dates of the rows are the store's own.
pub proof fn law_failed_replacement_changes_nothing(
    rows: Seq<AssignmentView>,
    asset_id: Seq<char>,
    taxonomy_id: Seq<char>,
    asked: Seq<NewAssignmentView>,
    stored: Seq<AssignmentView>,
    restored: Seq<AssignmentView>,
)
    requires
        row_ids_unique(rows),
        stored.len() <= asked.len(),
        forall|i: int|
            #![trigger stored[i]]
            0 <= i < stored.len() ==> stores_assignment(stored[i], asked[i]) && asked[i].asset_id
                == asset_id && asked[i].taxonomy_id == taxonomy_id,
        row_ids_unique(rows_beside(rows, asset_id, taxonomy_id) + stored),
        restored.len() == rows_of(rows, asset_id, taxonomy_id).len(),
        forall|i: int|
            #![trigger restored[i]]
            0 <= i < restored.len() ==> stores_assignment(
                restored[i],
                kept_assignments(
                    rows_of(rows_of_asset(rows, asset_id), asset_id, taxonomy_id),
                )[i],
            ),
    ensures
        ({
            let half = with_rows(rows_beside(rows, asset_id, taxonomy_id), stored);
            let after = with_rows(rows_beside(half, asset_id, taxonomy_id), restored);
            &&& rows_of(after, asset_id, taxonomy_id) == restored
            &&& kept_assignments(restored) == kept_assignments(
                rows_of(rows, asset_id, taxonomy_id),
            )
            &&& forall|i: int|
                0 <= i < restored.len() ==> kept_assignment(#[trigger] restored[i])
                    == kept_assignment(rows_of(rows, asset_id, taxonomy_id)[i])
            &&& rows_beside(after, asset_id, taxonomy_id) == rows_beside(
                rows,
                asset_id,
                taxonomy_id,
            )
        }),
{
    broadcast use Seq::lemma_filter_pred;

    let within = |row: AssignmentView| belongs_to(row, asset_id, taxonomy_id);
    let former = rows_of(rows, asset_id, taxonomy_id);
    let kept = rows_beside(rows, asset_id, taxonomy_id);
    let half = with_rows(kept, stored);
    lemma_filter_twice(rows, |row: AssignmentView| row.asset_id == asset_id, within, within);
    assert forall|i: int| #![trigger restored[i]] 0 <= i < restored.len() implies kept_assignment(
        restored[i],
    ) == kept_assignment(former[i]) && kept_assignments(former)[i].asset_id == asset_id
        && kept_assignments(former)[i].taxonomy_id == taxonomy_id by {
        assert(within(rows.filter(within)[i]));
        assert(kept_assignments(former)[i] == kept_assignment(former[i]));
    }
    assert(kept_assignments(restored) =~= kept_assignments(former));
    law_replacement_replaces(rows, asset_id, taxonomy_id, asked, stored);
    lemma_parts_have_unique_ids(rows, asset_id, taxonomy_id);
    let all = kept + restored;
    assert forall|i: int, j: int| 0 <= i < j < all.len() implies #[trigger] all[i].id
        != #[trigger] all[j].id by {
        assert((kept + former)[i].id != (kept + former)[j].id);
        if i >= kept.len() {
            assert(kept_assignment(restored[i - kept.len()]) == kept_assignment(
                former[i - kept.len()],
            ));
        }
        if j >= kept.len() {
            assert(kept_assignment(restored[j - kept.len()]) == kept_assignment(
                former[j - kept.len()],
            ));
        }
    }
    law_replacement_replaces(half, asset_id, taxonomy_id, kept_assignments(former), restored);
}

/// In a single-select taxonomy, where the rows of the asset are cleared before
/// its new row is stored, the asset has that row and no other. Every other row is
/// as it was, where the new row has an id of its own.
pub proof fn law_single_select_keeps_one(
    rows: Seq<AssignmentView>,
    asked: NewAssignmentView,
    stored: AssignmentView,
)
    requires
        stores_assignment(stored, asked),
    ensures
        ({
            let kept = rows_beside(rows, asked.asset_id, asked.taxonomy_id);
            let after = with_row(kept, stored);
            &&& rows_of(after, asked.asset_id, asked.taxonomy_id) == seq![stored]
            &&& (forall|i: int| 0 <= i < kept.len() ==> (#[trigger] kept[i]).id != stored.id)
                ==> rows_beside(after, asked.asset_id, asked.taxonomy_id) == kept
        }),
{
    broadcast use Seq::lemma_filter_pred;

    let kept = rows_beside(rows, asked.asset_id, asked.taxonomy_id);
    let within = |row: AssignmentView| belongs_to(row, asked.asset_id, asked.taxonomy_id);
    let beside = |row: AssignmentView| !belongs_to(row, asked.asset_id, asked.taxonomy_id);
    let other = |row: AssignmentView| row.id != stored.id;
    let left = kept.filter(other);
    let single = seq![stored];
    assert forall|i: int| 0 <= i < kept.len() implies beside(#[trigger] kept[i]) by {
        assert(beside(rows.filter(beside)[i]));
    }
    assert forall|i: int| 0 <= i < left.len() implies beside(#[trigger] left[i]) by {
        kept.lemma_filter_contains_rev(other, left[i]);
        let j = choose|j: int| 0 <= j < kept.len() && kept[j] == left[i];
        assert(beside(kept[j]));
    }
    assert(left.push(stored) =~= left + single);
    Seq::filter_distributes_over_add(left, single, within);
    Seq::filter_distributes_over_add(left, single, beside);
    lemma_filter_none(left, within);
    lemma_filter_all(left, beside);
    lemma_filter_all(single, within);
    lemma_filter_none(single, beside);
    assert(Seq::<AssignmentView>::empty() + single =~= single);
    assert(left + Seq::<AssignmentView>::empty() =~= left);
    if forall|i: int| 0 <= i < kept.len() ==> (#[trigger] kept[i]).id != stored.id {
        lemma_filter_all(kept, other);
    }
}

/// A replacement after the store answered the calls so far.
pub open spec fn after_answers(
    start: ReplacementView,
    answers: Seq<AssignmentView>,
) -> ReplacementView
    decreases answers.len(),
{
    if answers.len() == 0 {
        start
    } else {
        let before = after_answers(start, answers.drop_last());
        ReplacementView {
            pending: before.pending.drop_first(),
            stored: before.stored.push(answers.last()),
            ..before
        }
    }
}

/// A replacement stores every assignment it was given, once and in order, and
/// its outcome is what the store answered, in that order. All the while it keeps
/// the former rows.
pub proof fn law_replacement_stores_in_order(start: ReplacementView, answers: Seq<AssignmentView>)
    requires
        start.stored.len() == 0,
        answers.len() <= start.pending.len(),
    ensures
        after_answers(start, answers) == (ReplacementView {
            pending: start.pending.skip(answers.len() as int),
            stored: answers,
            ..start
        }),
        answers.len() < start.pending.len() ==> after_answers(start, answers).pending.first()
            == start.pending[answers.len() as int],
        answers.len() == start.pending.len() ==> after_answers(start, answers).pending.len() == 0,
    decreases answers.len(),
{
    if answers.len() == 0 {
        assert(start.pending.skip(0) =~= start.pending);
        assert(start.stored =~= answers);
    } else {
        law_replacement_stores_in_order(start, answers.drop_last());
        let n = answers.len() as int;
        assert(start.pending.skip(n - 1).drop_first() =~= start.pending.skip(n));
        assert(answers.drop_last().push(answers.last()) =~= answers);
    }
}

/// A restoration after it cleared what was stored and stored `count` rows again.
pub open spec fn after_restoring(start: RestorationView, count: nat) -> RestorationView
    decreases count,
{
    if count == 0 {
        RestorationView { clears: false, ..start }
    } else {
        let before = after_restoring(start, (count - 1) as nat);
        RestorationView { pending: before.pending.drop_first(), ..before }
    }
}

/// A restoration stores every kept row again, once and in order, and ends with
/// the error that the replacement failed with.
pub proof fn law_restoration_stores_in_order(start: RestorationView, count: nat)
    requires
        count <= start.pending.len(),
    ensures
        after_restoring(start, count) == (RestorationView {
            clears: false,
            pending: start.pending.skip(count as int),
            ..start
        }),
        count < start.pending.len() ==> after_restoring(start, count).pending.first()
            == start.pending[count as int],
        count == start.pending.len() ==> after_restoring(start, count).pending.len() == 0,
        after_restoring(start, count).error == start.error,
    decreases count,
{
    if count == 0 {
        assert(start.pending.skip(0) =~= start.pending);
    } else {
        law_restoration_stores_in_order(start, (count - 1) as nat);
        assert(start.pending.skip(count - 1).drop_first() =~= start.pending.skip(count as int));
    }
}

/// The rows of an asset in a taxonomy are those with its id and the taxonomy's, the
/// rows beside are all others, and nothing else about a row matters to either.
pub proof fn law_rows_are_told_apart_by_their_ids(
    rows: Seq<AssignmentView>,
    asset_id: Seq<char>,
    taxonomy_id: Seq<char>,
)
    ensures
        rows_of(rows, asset_id, taxonomy_id) == rows.filter(
            |row: AssignmentView| row.asset_id == asset_id && row.taxonomy_id == taxonomy_id,
        ),
        rows_beside(rows, asset_id, taxonomy_id) == rows.filter(
            |row: AssignmentView| row.asset_id != asset_id || row.taxonomy_id != taxonomy_id,
        ),
        rows_of_asset(rows, asset_id) == rows.filter(
            |row: AssignmentView| row.asset_id == asset_id,
        ),
{
    let within = |row: AssignmentView| belongs_to(row, asset_id, taxonomy_id);
    let beside = |row: AssignmentView| !belongs_to(row, asset_id, taxonomy_id);
    assert(within =~= (|row: AssignmentView|
        row.asset_id == asset_id && row.taxonomy_id == taxonomy_id));
    assert(beside =~= (|row: AssignmentView|
        row.asset_id != asset_id || row.taxonomy_id != taxonomy_id));
}

/// A row that is stored again is asked for with its own id, asset, taxonomy,
/// category, weight and source, and rows are asked for one by one, in order.
pub proof fn law_kept_rows_hold_what_the_rows_held(rows: Seq<AssignmentView>)
    ensures
        kept_assignments(rows).len() == rows.len(),
        forall|i: int|
            #![trigger kept_assignments(rows)[i]]
            0 <= i < rows.len() ==> {
                let kept = kept_assignments(rows)[i];
                &&& kept.id == Some(rows[i].id)
                &&& kept.asset_id == rows[i].asset_id
                &&& kept.taxonomy_id == rows[i].taxonomy_id
                &&& kept.category_id == rows[i].category_id
                &&& kept.weight == rows[i].weight
                &&& kept.source == rows[i].source
            },
        forall|i: int|
            #![trigger rows[i]]
            0 <= i < rows.len() ==> kept_assignment(rows[i]) == kept_assignments(rows)[i],
{
}

/// Storing a row leaves it in the store, takes out no row but one with its id, and
/// adds no other.
pub proof fn law_storing_a_row(rows: Seq<AssignmentView>, stored: AssignmentView)
    ensures
        with_row(rows, stored).contains(stored),
        forall|row: AssignmentView|
            row.id != stored.id ==> (#[trigger] with_row(rows, stored).contains(row)
                <==> rows.contains(row)),
        forall|i: int|
            0 <= i < with_row(rows, stored).len() && (#[trigger] with_row(rows, stored)[i]).id
                == stored.id ==> with_row(rows, stored)[i] == stored,
{
    broadcast use Seq::lemma_filter_pred;

    let other = |row: AssignmentView| row.id != stored.id;
    let left = rows.filter(other);
    let after = left.push(stored);
    assert(after[after.len() - 1] == stored);
    assert forall|row: AssignmentView| row.id != stored.id implies (#[trigger] after.contains(row)
        <==> rows.contains(row)) by {
        if after.contains(row) {
            let i = choose|i: int| 0 <= i < after.len() && after[i] == row;
            assert(left[i] == row);
            rows.lemma_filter_contains_rev(other, row);
        }
        if rows.contains(row) {
            let i = choose|i: int| 0 <= i < rows.len() && rows[i] == row;
            rows.lemma_filter_contains(other, i);
            let j = choose|j: int| 0 <= j < left.len() && left[j] == row;
            assert(after[j] == row);
        }
    }
    assert forall|i: int|
        0 <= i < after.len() && (#[trigger] after[i]).id == stored.id implies after[i]
        == stored by {
        if i < left.len() {
            assert(other(rows.filter(other)[i]));
        }
    }
}

} // verus!
