//! What the tool that reads classifications shows after the tool that replaces
//! them was used.
use crate::assignment_store::{
    belongs_to, law_failed_replacement_changes_nothing, law_replacement_replaces,
    lemma_filter_twice, row_ids_unique, rows_beside, rows_of, rows_of_asset, stores_assignment,
    with_rows,
};
use crate::assignments::{kept_assignment, kept_assignments};
use crate::models::{AssignmentView, TaxonomyWithCategoriesView};
use crate::tools::asset_taxonomy_assignments::{
    named_assignment, selected, TaxonomyAssignmentDtoView,
};
use crate::tools::set_asset_taxonomy_assignments::{
    asked_row, asked_rows, law_accepted_weights_are_shares, validation, AssignmentInputView,
};
use vstd::prelude::*;

verus! {

/// What the reading tool shows, given what the store holds.
pub open spec fn shown(
    rows: Seq<AssignmentView>,
    asset_id: Seq<char>,
    taxonomy_id: Option<Seq<char>>,
    taxonomies: Seq<TaxonomyWithCategoriesView>,
) -> Seq<TaxonomyAssignmentDtoView> {
    selected(rows_of_asset(rows, asset_id), taxonomy_id).map_values(
        |row: AssignmentView| named_assignment(taxonomies, row),
    )
}

/// The rows that are asked for are those of the asset in the taxonomy, one for
/// each input.
proof fn lemma_asked_rows_belong(
    asset_id: Seq<char>,
    taxonomy_id: Seq<char>,
    inputs: Seq<AssignmentInputView>,
)
    ensures
        ({
            let asked = asked_rows(asset_id, taxonomy_id, inputs);
            &&& asked.len() == inputs.len()
            &&& forall|i: int|
                #![trigger asked[i]]
                0 <= i < asked.len() ==> asked[i] == asked_row(asset_id, taxonomy_id, inputs[i])
                    && asked[i].asset_id == asset_id && asked[i].taxonomy_id == taxonomy_id
        }),
{
}

/// To keep to one taxonomy is to leave out the rows of the others: the order and
/// the rows themselves are those of the unrestricted output.
pub proof fn law_filter_restricts_output(
    rows: Seq<AssignmentView>,
    taxonomy_id: Seq<char>,
    taxonomies: Seq<TaxonomyWithCategoriesView>,
)
    ensures
        selected(rows, Some(taxonomy_id)).map_values(
            |row: AssignmentView| named_assignment(taxonomies, row),
        ) == selected(rows, None).map_values(
            |row: AssignmentView| named_assignment(taxonomies, row),
        ).filter(|dto: TaxonomyAssignmentDtoView| dto.taxonomy_id == taxonomy_id),
    decreases rows.len(),
{
    let named = |row: AssignmentView| named_assignment(taxonomies, row);
    let of_row = |row: AssignmentView| row.taxonomy_id == taxonomy_id;
    let of_dto = |dto: TaxonomyAssignmentDtoView| dto.taxonomy_id == taxonomy_id;
    reveal(Seq::filter);
    if rows.len() == 0 {
        assert(rows.filter(of_row).map_values(named) =~= rows.map_values(named).filter(of_dto));
    } else {
        let front = rows.drop_last();
        law_filter_restricts_output(front, taxonomy_id, taxonomies);
        assert(rows.map_values(named).drop_last() =~= front.map_values(named));
        assert(rows.map_values(named).last() == named(rows.last()));
        if of_row(rows.last()) {
            assert(front.filter(of_row).push(rows.last()).map_values(named) =~= front.filter(
                of_row,
            ).map_values(named).push(named(rows.last())));
        }
    }
}

/// Reading gives back what was written: where the weights are accepted and the
/// store does what it is asked to, under ids of their own, the reading tool shows
/// for the asset and the taxonomy the assignments that were asked for, one for
/// one and in order, each with the source "ai".
pub proof fn law_reading_gives_back_writing(
    rows: Seq<AssignmentView>,
    asset_id: Seq<char>,
    taxonomy_id: Seq<char>,
    inputs: Seq<AssignmentInputView>,
    stored: Seq<AssignmentView>,
    taxonomies: Seq<TaxonomyWithCategoriesView>,
)
    requires
        validation(inputs) is Ok,
        stored.len() == inputs.len(),
        forall|i: int|
            #![trigger stored[i]]
            0 <= i < stored.len() ==> stores_assignment(
                stored[i],
                asked_rows(asset_id, taxonomy_id, inputs)[i],
            ),
        row_ids_unique(rows_beside(rows, asset_id, taxonomy_id) + stored),
    ensures
        ({
            let after = with_rows(rows_beside(rows, asset_id, taxonomy_id), stored);
            let read = shown(after, asset_id, Some(taxonomy_id), taxonomies);
            &&& read.len() == inputs.len()
            &&& forall|i: int|
                #![trigger read[i]]
                0 <= i < read.len() ==> read[i].taxonomy_id == taxonomy_id && read[i].category_id
                    == inputs[i].category_id && read[i].weight_basis_points == inputs[i].weight
                    && read[i].source == "ai"@
        }),
{
    let asked = asked_rows(asset_id, taxonomy_id, inputs);
    let after = with_rows(rows_beside(rows, asset_id, taxonomy_id), stored);
    lemma_asked_rows_belong(asset_id, taxonomy_id, inputs);
    law_replacement_replaces(rows, asset_id, taxonomy_id, asked, stored);
    law_accepted_weights_are_shares(inputs);
    lemma_filter_twice(
        after,
        |row: AssignmentView| row.asset_id == asset_id,
        |row: AssignmentView| row.taxonomy_id == taxonomy_id,
        |row: AssignmentView| belongs_to(row, asset_id, taxonomy_id),
    );
    assert(selected(rows_of_asset(after, asset_id), Some(taxonomy_id)) == rows_of(
        after,
        asset_id,
        taxonomy_id,
    ));
    let read = shown(after, asset_id, Some(taxonomy_id), taxonomies);
    assert forall|i: int| #![trigger read[i]] 0 <= i < read.len() implies read[i].taxonomy_id
        == taxonomy_id && read[i].category_id == inputs[i].category_id
        && read[i].weight_basis_points == inputs[i].weight && read[i].source == "ai"@ by {
        assert(read[i] == named_assignment(taxonomies, stored[i]));
        assert(asked[i] == asked_row(asset_id, taxonomy_id, inputs[i]));
    }
}

/// Writing disturbs nothing else: what the reading tool shows of the asset in
/// another taxonomy, and of another asset in any taxonomy, is as it was.
pub proof fn law_writing_disturbs_nothing_else(
    rows: Seq<AssignmentView>,
    asset_id: Seq<char>,
    taxonomy_id: Seq<char>,
    inputs: Seq<AssignmentInputView>,
    stored: Seq<AssignmentView>,
    taxonomies: Seq<TaxonomyWithCategoriesView>,
    other_asset_id: Seq<char>,
    other_taxonomy_id: Seq<char>,
)
    requires
        validation(inputs) is Ok,
        stored.len() == inputs.len(),
        forall|i: int|
            #![trigger stored[i]]
            0 <= i < stored.len() ==> stores_assignment(
                stored[i],
                asked_rows(asset_id, taxonomy_id, inputs)[i],
            ),
        row_ids_unique(rows_beside(rows, asset_id, taxonomy_id) + stored),
        other_asset_id != asset_id || other_taxonomy_id != taxonomy_id,
    ensures
        ({
            let after = with_rows(rows_beside(rows, asset_id, taxonomy_id), stored);
            &&& shown(after, other_asset_id, Some(other_taxonomy_id), taxonomies) == shown(
                rows,
                other_asset_id,
                Some(other_taxonomy_id),
                taxonomies,
            )
            &&& other_asset_id != asset_id ==> shown(after, other_asset_id, None, taxonomies)
                == shown(rows, other_asset_id, None, taxonomies)
        }),
{
    let asked = asked_rows(asset_id, taxonomy_id, inputs);
    let after = with_rows(rows_beside(rows, asset_id, taxonomy_id), stored);
    lemma_asked_rows_belong(asset_id, taxonomy_id, inputs);
    law_replacement_replaces(rows, asset_id, taxonomy_id, asked, stored);
    let of_asset = |row: AssignmentView| row.asset_id == other_asset_id;
    let of_taxonomy = |row: AssignmentView| row.taxonomy_id == other_taxonomy_id;
    let of_both = |row: AssignmentView| belongs_to(row, other_asset_id, other_taxonomy_id);
    let beside = |row: AssignmentView| !belongs_to(row, asset_id, taxonomy_id);
    lemma_filter_twice(rows, of_asset, of_taxonomy, of_both);
    lemma_filter_twice(after, of_asset, of_taxonomy, of_both);
    lemma_filter_twice(rows, beside, of_both, of_both);
    lemma_filter_twice(after, beside, of_both, of_both);
    if other_asset_id != asset_id {
        lemma_filter_twice(rows, beside, of_asset, of_asset);
        lemma_filter_twice(after, beside, of_asset, of_asset);
    }
}

/// A write that fails half-way changes nothing: where some of the rows are stored,
/// the store refuses the next one and the former rows are put back, the reading
/// tool shows of every asset in every taxonomy what it showed before.
pub proof fn law_failed_writing_changes_nothing(
    rows: Seq<AssignmentView>,
    asset_id: Seq<char>,
    taxonomy_id: Seq<char>,
    inputs: Seq<AssignmentInputView>,
    stored: Seq<AssignmentView>,
    restored: Seq<AssignmentView>,
    taxonomies: Seq<TaxonomyWithCategoriesView>,
    any_asset_id: Seq<char>,
    any_taxonomy_id: Seq<char>,
)
    requires
        row_ids_unique(rows),
        stored.len() <= inputs.len(),
        forall|i: int|
            #![trigger stored[i]]
            0 <= i < stored.len() ==> stores_assignment(
                stored[i],
                asked_rows(asset_id, taxonomy_id, inputs)[i],
            ),
        row_ids_unique(rows_beside(rows, asset_id, taxonomy_id) + stored),
        restored.len() == rows_of(rows, asset_id, taxonomy_id).len(),
        forall|i: int|
            #![trigger restored[i]]
            0 <= i < restored.len() ==> stores_assignment(
                restored[i],
                kept_assignments(
                    rows_of(rows_of_asset(rows, asset_id), asset_id, taxonomy_id),
                )[i],
            ),
    ensures
        ({
            let half = with_rows(rows_beside(rows, asset_id, taxonomy_id), stored);
            let after = with_rows(rows_beside(half, asset_id, taxonomy_id), restored);
            &&& shown(after, any_asset_id, Some(any_taxonomy_id), taxonomies) == shown(
                rows,
                any_asset_id,
                Some(any_taxonomy_id),
                taxonomies,
            )
            &&& any_asset_id != asset_id ==> shown(after, any_asset_id, None, taxonomies) == shown(
                rows,
                any_asset_id,
                None,
                taxonomies,
            )
        }),
{
    let asked = asked_rows(asset_id, taxonomy_id, inputs);
    let half = with_rows(rows_beside(rows, asset_id, taxonomy_id), stored);
    let after = with_rows(rows_beside(half, asset_id, taxonomy_id), restored);
    lemma_asked_rows_belong(asset_id, taxonomy_id, inputs);
    law_failed_replacement_changes_nothing(rows, asset_id, taxonomy_id, asked, stored, restored);
    let of_asset = |row: AssignmentView| row.asset_id == any_asset_id;
    let of_taxonomy = |row: AssignmentView| row.taxonomy_id == any_taxonomy_id;
    let of_both = |row: AssignmentView| belongs_to(row, any_asset_id, any_taxonomy_id);
    let beside = |row: AssignmentView| !belongs_to(row, asset_id, taxonomy_id);
    lemma_filter_twice(rows, of_asset, of_taxonomy, of_both);
    lemma_filter_twice(after, of_asset, of_taxonomy, of_both);
    if any_asset_id == asset_id && any_taxonomy_id == taxonomy_id {
        let named = |row: AssignmentView| named_assignment(taxonomies, row);
        let former = rows_of(rows, asset_id, taxonomy_id);
        assert(restored.map_values(named) =~= former.map_values(named)) by {
            assert forall|i: int| 0 <= i < former.len() implies named(restored[i]) == named(
                former[i],
            ) by {
                assert(kept_assignment(restored[i]) == kept_assignment(former[i]));
            }
        }
    } else {
        lemma_filter_twice(rows, beside, of_both, of_both);
        lemma_filter_twice(after, beside, of_both, of_both);
    }
    if any_asset_id != asset_id {
        lemma_filter_twice(rows, beside, of_asset, of_asset);
        lemma_filter_twice(after, beside, of_asset, of_asset);
    }
}

} // verus!
