//! What the tools answer, told from what goes into a call and what the services
//! give.
use crate::assignment_store::stores_assignment;
use crate::errors::AiError;
use crate::models::{
    assignments_view, law_assignments_view, taxonomies_view, Asset, AssetTaxonomyAssignment,
    AssignmentView, TaxonomyWithCategories,
};
use crate::text::{decimal, law_decimal_reads_back, number};
use crate::tools::asset_taxonomy_assignments::{
    law_selection_goes_by_taxonomy, resolve_symbol, AssetSearch, AssignmentSearch,
    GetAssetTaxonomyAssignmentsArgs, GetAssetTaxonomyAssignmentsOutput,
    GetAssetTaxonomyAssignmentsTool, NameSearch,
};
use crate::tools::names::{
    law_category_of_another_taxonomy_stands_for_itself, law_known_category_is_named,
    law_known_category_is_named_anywhere, law_known_taxonomy_is_named,
    law_unknown_ids_stand_for_themselves,
};
use crate::tools::set_asset_taxonomy_assignments::{
    inputs_view, law_acceptance, law_accepted_weights_are_shares, law_first_bad_weight_is_refused,
    law_shares_are_accepted_up_to_the_whole, total_weight, validate_weights, AssignmentInput,
    PendingReplacement, ReplacementRequest, SetAssetTaxonomyAssignmentsArgs,
    SetAssetTaxonomyAssignmentsOutput, SetAssetTaxonomyAssignmentsTool, StoredAssignments,
    ValidatedRequest,
};
use crate::tools::taxonomies::{
    law_listed_records_match, ListTaxonomiesArgs, ListTaxonomiesOutput, ListTaxonomiesTool,
};
use std::sync::Arc;
use vstd::prelude::*;

verus! {

/// The taxonomy in place `i` is the last with this id.
pub open spec fn is_taxonomy_of(
    taxonomies: Seq<TaxonomyWithCategories>,
    id: Seq<char>,
    i: int,
) -> bool {
    &&& 0 <= i < taxonomies.len()
    &&& taxonomies[i].taxonomy.id@ == id
    &&& forall|j: int|
        i < j < taxonomies.len() ==> (#[trigger] taxonomies[j]).taxonomy.id@ != id
}

/// The category in place `k` of a taxonomy is the last there with this id.
pub open spec fn is_category_of(taxonomy: TaxonomyWithCategories, id: Seq<char>, k: int) -> bool {
    &&& 0 <= k < taxonomy.categories@.len()
    &&& taxonomy.categories@[k].id@ == id
    &&& forall|j: int|
        k < j < taxonomy.categories@.len() ==> (#[trigger] taxonomy.categories@[j]).id@ != id
}

/// A symbol resolves to the id of the asset that has it where there is one such
/// asset and no other. Otherwise the message says that there is none, that there are
/// several, or why the search failed.
pub proof fn law_symbols_resolve_to_one_asset(
    found: Result<Vec<Asset>, String>,
    symbol: &str,
    resolved: Result<String, AiError>,
)
    requires
        call_ensures(resolve_symbol, (found, symbol), resolved),
    ensures
        resolved is Ok <==> (found matches Ok(assets) && assets@.len() == 1),
        resolved matches Ok(id) ==> id@ == found->Ok_0@[0].id@,
        found matches Ok(assets) ==> (assets@.len() == 0 ==> (resolved matches Err(
            AiError::ToolExecutionFailed(text),
        ) && text@ == "Asset not found for symbol '"@ + symbol@ + "'"@)),
        found matches Ok(assets) ==> (assets@.len() > 1 ==> (resolved matches Err(
            AiError::ToolExecutionFailed(text),
        ) && text@ == "Ambiguous symbol '"@ + symbol@
            + "', please specify with exchange suffix (e.g. 'VWRL.MI')"@)),
        found matches Err(reason) ==> (resolved matches Err(AiError::ToolExecutionFailed(text))
            && text@ == reason@),
{
}

/// A reading call that finds its asset goes on to read the assignments of that
/// asset, and keeps what the caller asked for.
pub proof fn law_reading_goes_on_with_the_asset<E>(
    tool: GetAssetTaxonomyAssignmentsTool<E>,
    args: GetAssetTaxonomyAssignmentsArgs,
    start: AssetSearch,
    asset: Asset,
    found: Vec<Asset>,
    next: Result<AssignmentSearch, AiError>,
)
    requires
        call_ensures(GetAssetTaxonomyAssignmentsTool::<E>::call, (&tool, args), start),
        found@ == seq![asset],
        call_ensures(AssetSearch::assets_found, (start, Ok(found)), next),
    ensures
        next matches Ok(search) && search.asset_id@ == asset.id@ && search.symbol@ == args.symbol@
            && search.taxonomy_id == args.taxonomy_id,
{
}

/// Of the assignments that are read, those of the taxonomy that is asked for are
/// kept, or all of them, as they are and in order.
pub proof fn law_reading_keeps_the_taxonomy_asked_for(
    search: AssignmentSearch,
    rows: Vec<AssetTaxonomyAssignment>,
    next: Result<NameSearch, AiError>,
)
    requires
        call_ensures(AssignmentSearch::assignments_found, (search, Ok(rows)), next),
    ensures
        next matches Ok(names) && names.symbol == search.symbol && names.asset_id
            == search.asset_id,
        search.taxonomy_id is None ==> assignments_view(next->Ok_0.rows@) == assignments_view(
            rows@,
        ),
        search.taxonomy_id matches Some(id) ==> forall|i: int|
            #![trigger rows@[i]]
            0 <= i < rows@.len() ==> (assignments_view(next->Ok_0.rows@).contains(rows@[i]@)
                <==> rows@[i].taxonomy_id@ == id@),
        search.taxonomy_id matches Some(id) ==> forall|k: int|
            #![trigger next->Ok_0.rows@[k]]
            0 <= k < next->Ok_0.rows@.len() ==> next->Ok_0.rows@[k].taxonomy_id@ == id@,
{
    let views = assignments_view(rows@);
    law_assignments_view(rows@);
    if let Some(id) = search.taxonomy_id {
        law_selection_goes_by_taxonomy(views, id@);
        let kept = next->Ok_0.rows@;
        let of_taxonomy = |row: AssignmentView| row.taxonomy_id == id@;
        assert(assignments_view(kept) == views.filter(of_taxonomy));
        assert forall|i: int| #![trigger rows@[i]] 0 <= i < rows@.len() implies (assignments_view(
            kept,
        ).contains(rows@[i]@) <==> rows@[i].taxonomy_id@ == id@) by {
            assert(views[i] == rows@[i]@);
        }
        assert forall|k: int| #![trigger kept[k]] 0 <= k < kept.len() implies kept[k].taxonomy_id@
            == id@ by {
            assert(assignments_view(kept)[k] == kept[k]@);
            views.lemma_filter_pred(of_taxonomy, k);
        }
    }
}

/// Every row that is shown has the ids, the weight and the source of its row, in the
/// same place, whatever names are known.
pub proof fn law_reading_shows_the_rows(
    search: NameSearch,
    taxonomies: Vec<TaxonomyWithCategories>,
    outcome: Result<GetAssetTaxonomyAssignmentsOutput, AiError>,
)
    requires
        call_ensures(NameSearch::taxonomies_found, (search, Ok(taxonomies)), outcome),
    ensures
        outcome matches Ok(output) && output.symbol@ == search.symbol@ && output.asset_id@
            == search.asset_id@ && output.assignments@.len() == search.rows@.len(),
        forall|r: int|
            #![trigger outcome->Ok_0.assignments@[r]]
            0 <= r < search.rows@.len() ==> {
                let shown = outcome->Ok_0.assignments@[r];
                let row = search.rows@[r];
                &&& shown.taxonomy_id@ == row.taxonomy_id@
                &&& shown.category_id@ == row.category_id@
                &&& shown.weight_basis_points == row.weight
                &&& shown.source@ == row.source@
            },
{
}

/// A row whose taxonomy and category are known is shown by their names, whatever its
/// weight or source.
pub proof fn law_reading_shows_known_names(
    search: NameSearch,
    taxonomies: Vec<TaxonomyWithCategories>,
    outcome: Result<GetAssetTaxonomyAssignmentsOutput, AiError>,
    r: int,
    i: int,
    k: int,
)
    requires
        call_ensures(NameSearch::taxonomies_found, (search, Ok(taxonomies)), outcome),
        0 <= r < search.rows@.len(),
        is_taxonomy_of(taxonomies@, search.rows@[r].taxonomy_id@, i),
        is_category_of(taxonomies@[i], search.rows@[r].category_id@, k),
    ensures
        outcome matches Ok(output) && output.assignments@[r].taxonomy_name@
            == taxonomies@[i].taxonomy.name@ && output.assignments@[r].category_name@
            == taxonomies@[i].categories@[k].name@,
{
    let all = taxonomies_view(taxonomies@);
    assert(all[i] == taxonomies@[i]@);
    assert(all[i].categories[k] == taxonomies@[i].categories@[k]@);
    assert forall|j: int| i < j < all.len() implies (#[trigger] all[j]).taxonomy.id
        != all[i].taxonomy.id by {
        assert(all[j] == taxonomies@[j]@);
    }
    assert forall|j: int| k < j < all[i].categories.len() implies (
    #[trigger] all[i].categories[j]).id != all[i].categories[k].id by {
        assert(all[i].categories[j] == taxonomies@[i].categories@[j]@);
    }
    law_known_taxonomy_is_named(all, i);
    law_known_category_is_named(all, i, k);
    let shown = outcome->Ok_0.assignments@[r];
}

/// A row whose taxonomy is not known is shown by its ids, and one whose taxonomy is
/// known but not its category by the taxonomy's name and the category's id.
pub proof fn law_reading_shows_ids_for_unknown_names(
    search: NameSearch,
    taxonomies: Vec<TaxonomyWithCategories>,
    outcome: Result<GetAssetTaxonomyAssignmentsOutput, AiError>,
    r: int,
    i: int,
)
    requires
        call_ensures(NameSearch::taxonomies_found, (search, Ok(taxonomies)), outcome),
        0 <= r < search.rows@.len(),
    ensures
        (forall|j: int|
            0 <= j < taxonomies@.len() ==> (#[trigger] taxonomies@[j]).taxonomy.id@
                != search.rows@[r].taxonomy_id@) ==> (outcome matches Ok(output)
            && output.assignments@[r].taxonomy_name@ == search.rows@[r].taxonomy_id@
            && output.assignments@[r].category_name@ == search.rows@[r].category_id@),
        is_taxonomy_of(taxonomies@, search.rows@[r].taxonomy_id@, i) && (forall|j: int|
            0 <= j < taxonomies@[i].categories@.len() ==> (
            #[trigger] taxonomies@[i].categories@[j]).id@ != search.rows@[r].category_id@) ==> (
        outcome matches Ok(output) && output.assignments@[r].taxonomy_name@
            == taxonomies@[i].taxonomy.name@ && output.assignments@[r].category_name@
            == search.rows@[r].category_id@),
{
    let all = taxonomies_view(taxonomies@);
    let row = search.rows@[r];
    let shown = outcome->Ok_0.assignments@[r];
    if forall|j: int|
        0 <= j < taxonomies@.len() ==> (#[trigger] taxonomies@[j]).taxonomy.id@
            != row.taxonomy_id@ {
        assert forall|j: int| 0 <= j < all.len() implies (#[trigger] all[j]).taxonomy.id
            != row.taxonomy_id@ by {
            assert(all[j] == taxonomies@[j]@);
        }
        law_unknown_ids_stand_for_themselves(all, row.taxonomy_id@, row.category_id@);
    }
    if is_taxonomy_of(taxonomies@, row.taxonomy_id@, i) && (forall|j: int|
        0 <= j < taxonomies@[i].categories@.len() ==> (
        #[trigger] taxonomies@[i].categories@[j]).id@ != row.category_id@) {
        assert(all[i] == taxonomies@[i]@);
        assert forall|j: int| i < j < all.len() implies (#[trigger] all[j]).taxonomy.id
            != all[i].taxonomy.id by {
            assert(all[j] == taxonomies@[j]@);
        }
        assert forall|j: int| 0 <= j < all[i].categories.len() implies (
        #[trigger] all[i].categories[j]).id != row.category_id@ by {
            assert(all[i].categories[j] == taxonomies@[i].categories@[j]@);
        }
        law_known_taxonomy_is_named(all, i);
        law_category_of_another_taxonomy_stands_for_itself(all, i, row.category_id@);
    }
}

/// A failure of a service is passed on to the agent by every step of a reading call.
pub proof fn law_reading_passes_failures_on(
    start: AssetSearch,
    search: AssignmentSearch,
    names: NameSearch,
    reason: String,
    first: Result<AssignmentSearch, AiError>,
    second: Result<NameSearch, AiError>,
    third: Result<GetAssetTaxonomyAssignmentsOutput, AiError>,
)
    requires
        call_ensures(AssetSearch::assets_found, (start, Err(reason)), first),
        call_ensures(AssignmentSearch::assignments_found, (search, Err(reason)), second),
        call_ensures(NameSearch::taxonomies_found, (names, Err(reason)), third),
    ensures
        first matches Err(AiError::ToolExecutionFailed(text)) && text@ == reason@,
        second matches Err(AiError::ToolExecutionFailed(text)) && text@ == reason@,
        third matches Err(AiError::ToolExecutionFailed(text)) && text@ == reason@,
{
}

/// A listing holds every taxonomy and every category that the service gives, in
/// order and as they are; a failure is passed on.
pub proof fn law_listing_shows_everything<E>(
    tool: ListTaxonomiesTool<E>,
    args: ListTaxonomiesArgs,
    found: Result<Vec<TaxonomyWithCategories>, String>,
    outcome: Result<ListTaxonomiesOutput, AiError>,
    i: int,
    k: int,
)
    requires
        call_ensures(ListTaxonomiesTool::<E>::call, (&tool, args, found), outcome),
    ensures
        found matches Err(reason) ==> (outcome matches Err(AiError::ToolExecutionFailed(text))
            && text@ == reason@),
        found matches Ok(taxonomies) ==> (outcome matches Ok(output) && output.taxonomies@.len()
            == taxonomies@.len()),
        found matches Ok(taxonomies) ==> (0 <= i < taxonomies@.len() ==> {
            let listed = outcome->Ok_0.taxonomies@[i];
            let stored = taxonomies@[i];
            &&& listed.taxonomy_id@ == stored.taxonomy.id@
            &&& listed.taxonomy_name@ == stored.taxonomy.name@
            &&& listed.is_single_select == stored.taxonomy.is_single_select
            &&& listed.categories@.len() == stored.categories@.len()
            &&& 0 <= k < stored.categories@.len() ==> {
                let shown = listed.categories@[k];
                let category = stored.categories@[k];
                &&& shown.category_id@ == category.id@
                &&& shown.category_name@ == category.name@
                &&& shown.sort_order == category.sort_order
                &&& shown.parent_id is Some <==> category.parent_id is Some
                &&& shown.parent_id is Some ==> shown.parent_id->0@ == category.parent_id->0@
            }
        }),
{
    if let Ok(taxonomies) = found {
        if 0 <= i < taxonomies@.len() {
            law_listed_records_match(taxonomies@[i], outcome->Ok_0.taxonomies@[i], k);
        }
    }
}

/// The sum of the first `n` weights.
pub open spec fn sum_of_weights(inputs: Seq<AssignmentInput>, n: int) -> int
    decreases n,
{
    if n <= 0 {
        0
    } else {
        sum_of_weights(inputs, n - 1) + inputs[n - 1].weight_basis_points
    }
}

proof fn lemma_sum_is_total(inputs: Seq<AssignmentInput>, n: int)
    requires
        0 <= n <= inputs.len(),
    ensures
        sum_of_weights(inputs, n) == total_weight(inputs_view(inputs).take(n)),
    decreases n,
{
    if n > 0 {
        lemma_sum_is_total(inputs, n - 1);
        assert(inputs_view(inputs).take(n).drop_last() =~= inputs_view(inputs).take(n - 1));
        assert(inputs_view(inputs).take(n).last() == inputs[n - 1]@);
    }
}

/// Weights are accepted exactly where each is from 0 to 10000 and their sum is at
/// most 10000, and the answer is then their sum.
pub proof fn law_weights_are_accepted_up_to_the_whole(
    assignments: &[AssignmentInput],
    total: Result<i32, AiError>,
)
    requires
        call_ensures(validate_weights, (assignments,), total),
    ensures
        total is Ok <==> sum_of_weights(assignments@, assignments@.len() as int) <= 10000 && (
        forall|i: int|
            0 <= i < assignments@.len() ==> 0 <= (
            #[trigger] assignments@[i]).weight_basis_points <= 10000),
        total matches Ok(sum) ==> sum == sum_of_weights(
            assignments@,
            assignments@.len() as int,
        ),
{
    let inputs = inputs_view(assignments@);
    lemma_sum_is_total(assignments@, assignments@.len() as int);
    assert(inputs.take(inputs.len() as int) =~= inputs);
    law_acceptance(inputs);
    assert((forall|i: int| 0 <= i < inputs.len() ==> 0 <= (#[trigger] inputs[i]).weight <= 10000)
        <==> (forall|i: int|
        0 <= i < assignments@.len() ==> 0 <= (#[trigger] assignments@[i]).weight_basis_points
            <= 10000)) by {
        assert forall|i: int| 0 <= i < inputs.len() implies (#[trigger] inputs[i]).weight
            == assignments@[i].weight_basis_points by {}
        if forall|i: int| 0 <= i < inputs.len() ==> 0 <= (#[trigger] inputs[i]).weight <= 10000 {
            assert forall|i: int| 0 <= i < assignments@.len() implies 0 <= (
            #[trigger] assignments@[i]).weight_basis_points <= 10000 by {
                assert(0 <= inputs[i].weight <= 10000);
            }
        }
    }
}

/// A refusal of weights gives the reason: the first weight below 0 or above 10000
/// with its category, or else the sum.
pub proof fn law_refused_weights_are_explained(
    assignments: &[AssignmentInput],
    total: Result<i32, AiError>,
    i: int,
)
    requires
        call_ensures(validate_weights, (assignments,), total),
        0 <= i <= assignments@.len(),
        forall|j: int|
            0 <= j < i ==> 0 <= (#[trigger] assignments@[j]).weight_basis_points <= 10000,
        i < assignments@.len() ==> assignments@[i].weight_basis_points < 0
            || assignments@[i].weight_basis_points > 10000,
        i == assignments@.len() ==> sum_of_weights(assignments@, i) > 10000,
    ensures
        i < assignments@.len() ==> exists|digits: Seq<char>|
            #![trigger number(digits)]
            {
                let weight = assignments@[i].weight_basis_points;
                &&& weight < 0 ==> number(digits) == -weight && (total matches Err(
                    AiError::ToolExecutionFailed(text),
                ) && text@ == "weight_basis_points must be >= 0, got "@ + ("-"@ + digits)
                    + " for category '"@ + assignments@[i].category_id@ + "'"@)
                &&& weight >= 0 ==> number(digits) == weight && (total matches Err(
                    AiError::ToolExecutionFailed(text),
                ) && text@ == "weight_basis_points must be <= 10000, got "@ + digits
                    + " for category '"@ + assignments@[i].category_id@ + "'"@)
            },
        i == assignments@.len() ==> exists|digits: Seq<char>|
            #![trigger number(digits)]
            number(digits) == sum_of_weights(assignments@, i) && (total matches Err(
                AiError::ToolExecutionFailed(text),
            ) && text@ == "Total weight_basis_points ("@ + digits + ") exceeds 10000 (100%)"@),
{
    let inputs = inputs_view(assignments@);
    assert forall|j: int| 0 <= j < i implies 0 <= (#[trigger] inputs[j]).weight <= 10000 by {
        assert(0 <= assignments@[j].weight_basis_points <= 10000);
    }
    if i < assignments@.len() {
        let weight = assignments@[i].weight_basis_points as int;
        law_first_bad_weight_is_refused(inputs, i);
        let digits = decimal(
            if weight < 0 {
                (-weight) as nat
            } else {
                weight as nat
            },
        );
        law_decimal_reads_back(
            if weight < 0 {
                (-weight) as nat
            } else {
                weight as nat
            },
        );
        assert(number(digits) == if weight < 0 {
            -weight
        } else {
            weight
        });
    } else {
        lemma_sum_is_total(assignments@, i);
        assert(inputs.take(i) =~= inputs);
        law_shares_are_accepted_up_to_the_whole(inputs);
        law_decimal_reads_back(total_weight(inputs) as nat);
    }
}

/// A replacing call goes on exactly where its weights are accepted: a call with bad
/// weights reaches no service.
pub proof fn law_bad_weights_reach_no_service<E>(
    tool: SetAssetTaxonomyAssignmentsTool<E>,
    args: SetAssetTaxonomyAssignmentsArgs,
    checked: Result<i32, AiError>,
    next: Result<ValidatedRequest, AiError>,
    assignments: &[AssignmentInput],
)
    requires
        assignments@ == args.assignments@,
        call_ensures(validate_weights, (assignments,), checked),
        call_ensures(SetAssetTaxonomyAssignmentsTool::<E>::call, (&tool, args), next),
    ensures
        next is Ok <==> checked is Ok,
        next matches Ok(request) ==> request@ == args,
        next matches Err(AiError::ToolExecutionFailed(text)) ==> (checked matches Err(
            AiError::ToolExecutionFailed(reason),
        ) && text@ == reason@),
{
}

/// A replacing call asks the service for one row for each input, in order: for the
/// asset that the symbol resolved to, in the taxonomy of the call, with the category
/// and the weight of the input, the source "ai" and no id.
pub proof fn law_replacing_asks_for_the_inputs<E>(
    tool: SetAssetTaxonomyAssignmentsTool<E>,
    args: SetAssetTaxonomyAssignmentsArgs,
    checked: ValidatedRequest,
    asset: Asset,
    found: Vec<Asset>,
    next: Result<(ReplacementRequest, PendingReplacement), AiError>,
)
    requires
        call_ensures(SetAssetTaxonomyAssignmentsTool::<E>::call, (&tool, args), Ok(checked)),
        found@ == seq![asset],
        call_ensures(ValidatedRequest::assets_found, (checked, Ok(found)), next),
    ensures
        next matches Ok((request, pending)) && request.asset_id@ == asset.id@
            && request.taxonomy_id@ == args.taxonomy_id@ && request.assignments@.len()
            == args.assignments@.len(),
        forall|i: int|
            #![trigger next->Ok_0.0.assignments@[i]]
            0 <= i < args.assignments@.len() ==> {
                let row = next->Ok_0.0.assignments@[i];
                &&& row.id is None
                &&& row.asset_id@ == asset.id@
                &&& row.taxonomy_id@ == args.taxonomy_id@
                &&& row.category_id@ == args.assignments@[i].category_id@
                &&& row.weight == args.assignments@[i].weight_basis_points
                &&& row.source@ == "ai"@
            },
{
}

/// The whole of a replacing call: what is shown are the rows that the service
/// stored, one for one, with their own categories, weights and sources, and what is
/// reported as unallocated is what the weights of the call leave of 10000.
pub proof fn law_replacing_shows_what_is_stored<E>(
    tool: SetAssetTaxonomyAssignmentsTool<E>,
    args: SetAssetTaxonomyAssignmentsArgs,
    checked: ValidatedRequest,
    found: Result<Vec<Asset>, String>,
    request: ReplacementRequest,
    pending: PendingReplacement,
    rows: Vec<AssetTaxonomyAssignment>,
    stored: StoredAssignments,
    taxonomies: Vec<TaxonomyWithCategories>,
    outcome: Result<SetAssetTaxonomyAssignmentsOutput, AiError>,
)
    requires
        call_ensures(SetAssetTaxonomyAssignmentsTool::<E>::call, (&tool, args), Ok(checked)),
        call_ensures(ValidatedRequest::assets_found, (checked, found), Ok((request, pending))),
        call_ensures(PendingReplacement::assignments_replaced, (pending, Ok(rows)), Ok(stored)),
        call_ensures(StoredAssignments::taxonomies_found, (stored, Ok(taxonomies)), outcome),
    ensures
        outcome matches Ok(output) && output.assignments@.len() == rows@.len()
            && output.unallocated_basis_points == 10000 - sum_of_weights(
            args.assignments@,
            args.assignments@.len() as int,
        ) && 0 <= output.unallocated_basis_points <= 10000,
        forall|r: int|
            #![trigger outcome->Ok_0.assignments@[r]]
            0 <= r < rows@.len() ==> {
                let shown = outcome->Ok_0.assignments@[r];
                &&& shown.category_id@ == rows@[r].category_id@
                &&& shown.weight_basis_points == rows@[r].weight
                &&& shown.source@ == rows@[r].source@
            },
        rows@.len() == request.assignments@.len() && (forall|r: int|
            #![trigger rows@[r]]
            0 <= r < rows@.len() ==> stores_assignment(rows@[r]@, request.assignments@[r]@))
            ==> sum_of_output(outcome->Ok_0, rows@.len() as int)
            + outcome->Ok_0.unallocated_basis_points == 10000,
{
    let inputs = inputs_view(args.assignments@);
    lemma_sum_is_total(args.assignments@, args.assignments@.len() as int);
    assert(inputs.take(inputs.len() as int) =~= inputs);
    law_accepted_weights_are_shares(inputs);
    law_assignments_view(rows@);
    assert forall|r: int| #![trigger outcome->Ok_0.assignments@[r]] 0 <= r < rows@.len() implies {
        let shown = outcome->Ok_0.assignments@[r];
        &&& shown.category_id@ == rows@[r].category_id@
        &&& shown.weight_basis_points == rows@[r].weight
        &&& shown.source@ == rows@[r].source@
    } by {
        assert(stored.stored()[r] == rows@[r]@);
    }
    if rows@.len() == request.assignments@.len() && (forall|r: int|
        #![trigger rows@[r]]
        0 <= r < rows@.len() ==> stores_assignment(rows@[r]@, request.assignments@[r]@)) {
        assert forall|r: int|
            #![trigger outcome->Ok_0.assignments@[r]]
            0 <= r < rows@.len() implies outcome->Ok_0.assignments@[r].weight_basis_points
            == args.assignments@[r].weight_basis_points by {
            assert(stores_assignment(rows@[r]@, request.assignments@[r]@));
            assert(stored.stored()[r] == rows@[r]@);
        }
        lemma_same_sums(outcome->Ok_0, args.assignments@, rows@.len() as int);
    }
}

/// The sum of the first `n` weights that an output shows.
pub open spec fn sum_of_output(output: SetAssetTaxonomyAssignmentsOutput, n: int) -> int
    decreases n,
{
    if n <= 0 {
        0
    } else {
        sum_of_output(output, n - 1) + output.assignments@[n - 1].weight_basis_points
    }
}

proof fn lemma_same_sums(
    output: SetAssetTaxonomyAssignmentsOutput,
    inputs: Seq<AssignmentInput>,
    n: int,
)
    requires
        0 <= n <= output.assignments@.len(),
        forall|r: int|
            #![trigger output.assignments@[r]]
            0 <= r < n ==> output.assignments@[r].weight_basis_points
                == inputs[r].weight_basis_points,
    ensures
        sum_of_output(output, n) == sum_of_weights(inputs, n),
    decreases n,
{
    if n > 0 {
        lemma_same_sums(output, inputs, n - 1);
        let last = output.assignments@[n - 1];
    }
}

/// A stored row whose category is known is shown by the category's name, whatever
/// its weight or source.
pub proof fn law_replacing_shows_known_names(
    pending: PendingReplacement,
    rows: Vec<AssetTaxonomyAssignment>,
    stored: StoredAssignments,
    taxonomies: Vec<TaxonomyWithCategories>,
    outcome: Result<SetAssetTaxonomyAssignmentsOutput, AiError>,
    r: int,
    i: int,
    k: int,
)
    requires
        call_ensures(PendingReplacement::assignments_replaced, (pending, Ok(rows)), Ok(stored)),
        call_ensures(StoredAssignments::taxonomies_found, (stored, Ok(taxonomies)), outcome),
        0 <= r < rows@.len(),
        0 <= i < taxonomies@.len(),
        is_category_of(taxonomies@[i], rows@[r].category_id@, k),
        forall|j: int, m: int|
            #![trigger taxonomies@[j].categories@[m]]
            i < j < taxonomies@.len() && 0 <= m < taxonomies@[j].categories@.len()
                ==> taxonomies@[j].categories@[m].id@ != rows@[r].category_id@,
    ensures
        outcome matches Ok(output) && output.assignments@[r].category_name@
            == taxonomies@[i].categories@[k].name@,
{
    let all = taxonomies_view(taxonomies@);
    let shown = outcome->Ok_0.assignments@[r];
    assert(stored.stored()[r] == rows@[r]@);
    assert(all[i] == taxonomies@[i]@);
    assert(all[i].categories[k] == taxonomies@[i].categories@[k]@);
    assert forall|j: int| k < j < all[i].categories.len() implies (
    #[trigger] all[i].categories[j]).id != all[i].categories[k].id by {
        assert(all[i].categories[j] == taxonomies@[i].categories@[j]@);
    }
    assert forall|j: int, m: int|
        #![trigger all[j].categories[m]]
        i < j < all.len() && 0 <= m < all[j].categories.len() implies all[j].categories[m].id
        != all[i].categories[k].id by {
        assert(all[j].categories[m] == taxonomies@[j].categories@[m]@);
    }
    law_known_category_is_named_anywhere(all, i, k);
}

/// A stored row of a category that no taxonomy has is shown by the category's id.
pub proof fn law_replacing_shows_ids_for_unknown_names(
    pending: PendingReplacement,
    rows: Vec<AssetTaxonomyAssignment>,
    stored: StoredAssignments,
    taxonomies: Vec<TaxonomyWithCategories>,
    outcome: Result<SetAssetTaxonomyAssignmentsOutput, AiError>,
    r: int,
)
    requires
        call_ensures(PendingReplacement::assignments_replaced, (pending, Ok(rows)), Ok(stored)),
        call_ensures(StoredAssignments::taxonomies_found, (stored, Ok(taxonomies)), outcome),
        0 <= r < rows@.len(),
        forall|j: int, m: int|
            #![trigger taxonomies@[j].categories@[m]]
            0 <= j < taxonomies@.len() && 0 <= m < taxonomies@[j].categories@.len()
                ==> taxonomies@[j].categories@[m].id@ != rows@[r].category_id@,
    ensures
        outcome matches Ok(output) && output.assignments@[r].category_name@
            == rows@[r].category_id@,
{
    let all = taxonomies_view(taxonomies@);
    let shown = outcome->Ok_0.assignments@[r];
    assert(stored.stored()[r] == rows@[r]@);
    assert forall|j: int, m: int|
        #![trigger all[j].categories[m]]
        0 <= j < all.len() && 0 <= m < all[j].categories.len() implies all[j].categories[m].id
        != rows@[r].category_id@ by {
        assert(all[j].categories[m] == taxonomies@[j].categories@[m]@);
    }
    law_unknown_ids_stand_for_themselves(all, rows@[r].taxonomy_id@, rows@[r].category_id@);
}

/// A failure of a service ends a replacing call at every step, with its reason.
pub proof fn law_replacing_passes_failures_on(
    checked: ValidatedRequest,
    pending: PendingReplacement,
    stored: StoredAssignments,
    reason: String,
    first: Result<(ReplacementRequest, PendingReplacement), AiError>,
    second: Result<StoredAssignments, AiError>,
    third: Result<SetAssetTaxonomyAssignmentsOutput, AiError>,
)
    requires
        call_ensures(ValidatedRequest::assets_found, (checked, Err(reason)), first),
        call_ensures(PendingReplacement::assignments_replaced, (pending, Err(reason)), second),
        call_ensures(StoredAssignments::taxonomies_found, (stored, Err(reason)), third),
    ensures
        first matches Err(AiError::ToolExecutionFailed(text)) && text@ == reason@,
        second matches Err(AiError::ToolExecutionFailed(text)) && text@ == reason@,
        third matches Err(AiError::ToolExecutionFailed(text)) && text@ == reason@,
{
}

/// A listing tool reaches the services through the environment that it was made with,
/// and so does a copy of it.
pub proof fn law_listing_tool_keeps_its_environment<E>(
    env: Arc<E>,
    tool: ListTaxonomiesTool<E>,
    copy: ListTaxonomiesTool<E>,
    reached: &Arc<E>,
)
    requires
        call_ensures(ListTaxonomiesTool::<E>::new, (env,), tool),
        call_ensures(ListTaxonomiesTool::<E>::clone, (&tool,), copy),
        call_ensures(ListTaxonomiesTool::<E>::env, (&copy,), reached),
    ensures
        *reached == env,
{
}

/// A reading tool reaches the services through the environment that it was made with,
/// and so does a copy of it.
pub proof fn law_reading_tool_keeps_its_environment<E>(
    env: Arc<E>,
    tool: GetAssetTaxonomyAssignmentsTool<E>,
    copy: GetAssetTaxonomyAssignmentsTool<E>,
    reached: &Arc<E>,
)
    requires
        call_ensures(GetAssetTaxonomyAssignmentsTool::<E>::new, (env,), tool),
        call_ensures(GetAssetTaxonomyAssignmentsTool::<E>::clone, (&tool,), copy),
        call_ensures(GetAssetTaxonomyAssignmentsTool::<E>::env, (&copy,), reached),
    ensures
        *reached == env,
{
}

/// A replacing tool reaches the services through the environment that it was made with,
/// and so does a copy of it.
pub proof fn law_replacing_tool_keeps_its_environment<E>(
    env: Arc<E>,
    tool: SetAssetTaxonomyAssignmentsTool<E>,
    copy: SetAssetTaxonomyAssignmentsTool<E>,
    reached: &Arc<E>,
)
    requires
        call_ensures(SetAssetTaxonomyAssignmentsTool::<E>::new, (env,), tool),
        call_ensures(SetAssetTaxonomyAssignmentsTool::<E>::clone, (&tool,), copy),
        call_ensures(SetAssetTaxonomyAssignmentsTool::<E>::env, (&copy,), reached),
    ensures
        *reached == env,
{
}

/// An error of a tool says the text that it holds.
pub proof fn law_tool_messages_are_told(error: AiError, message: &str)
    requires
        call_ensures(AiError::message, (&error,), message),
    ensures
        error matches AiError::ToolExecutionFailed(text) && message@ == text@,
{
}

/// A checked request searches for the symbol of the call.
pub proof fn law_replacing_searches_for_the_symbol<E>(
    tool: SetAssetTaxonomyAssignmentsTool<E>,
    args: SetAssetTaxonomyAssignmentsArgs,
    checked: ValidatedRequest,
    symbol: &str,
)
    requires
        call_ensures(SetAssetTaxonomyAssignmentsTool::<E>::call, (&tool, args), Ok(checked)),
        call_ensures(ValidatedRequest::symbol, (&checked,), symbol),
    ensures
        symbol@ == args.symbol@,
{
}

/// A symbol that no asset or more than one has ends a reading and a replacing call
/// alike, with the message of its resolution.
pub proof fn law_unresolved_symbols_end_a_call(
    start: AssetSearch,
    checked: ValidatedRequest,
    found: Result<Vec<Asset>, String>,
    symbol: &str,
    resolved: Result<String, AiError>,
    first: Result<AssignmentSearch, AiError>,
    second: Result<(ReplacementRequest, PendingReplacement), AiError>,
)
    requires
        symbol@ == start.args.symbol@,
        call_ensures(ValidatedRequest::symbol, (&checked,), symbol),
        call_ensures(resolve_symbol, (found, symbol), resolved),
        call_ensures(AssetSearch::assets_found, (start, found), first),
        call_ensures(ValidatedRequest::assets_found, (checked, found), second),
    ensures
        first is Ok <==> resolved is Ok,
        second is Ok <==> resolved is Ok,
        resolved matches Err(AiError::ToolExecutionFailed(reason)) ==> (first matches Err(
            AiError::ToolExecutionFailed(text),
        ) && text@ == reason@) && (second matches Err(AiError::ToolExecutionFailed(text)) && text@
            == reason@),
        resolved matches Ok(id) ==> first->Ok_0.asset_id@ == id@ && second->Ok_0.0.asset_id@
            == id@,
{
}

} // verus!
