//! What the operations of the service give, told from what goes into them and what
//! comes out.
use crate::assignment_store::belongs_to;
use crate::assignments::{
    kept_assignment, kept_assignments, AssignmentClearing, AssignmentLookup, AssignmentStep,
    Replacement, ReplacementClearing, ReplacementLookup, ReplacementStep, Restoration,
    RestorationStep,
};
use crate::children_map::ChildrenMap;
use crate::errors::{DatabaseError, Error, ValidationError};
use crate::exchange::{
    document_written, law_exported_document_is_imported_document,
    law_imported_rows_are_numbered_under_their_parents, law_imported_rows_hold_the_categories,
    stores_taxonomy, CreatedTaxonomy, ExportLookup, ImportStep, PendingCategories,
};
use crate::flatten::{
    category_count, flatten, flatten_with_ids, forest_size, id_texts, law_forest_size_adds_up,
    law_rows_follow_their_parents, row_ids,
};
use crate::hierarchy::{
    hierarchy_is_finite, ids_unique, is_hierarchy, law_forest_shows_every_row,
    law_unique_ids_make_finite,
};
use crate::models::{
    assignments_view, categories_view, forest_view, law_categories_view, new_assignments_view,
    new_categories_view, text_of, AssetTaxonomyAssignment, AssignmentView, Category, CategoryJson,
    CategoryView, NewAssetTaxonomyAssignment, NewCategory, NewTaxonomy, Taxonomy, TaxonomyJson,
    TaxonomyWithCategories,
};
use crate::ordering::siblings;
use crate::round_trip::{law_each_category_has_its_row, stores};
use crate::taxonomy_service::{
    CategoryDeletion, CategoryMove, ChildLookup, LeafCategory, TaxonomyDeletion, TaxonomyLookup,
    TaxonomyService,
};
use crate::text::{
    decimal_text, law_decimal_reads_back, law_signed_decimal_reads_back, number,
    signed_decimal_text,
};
use std::sync::Arc;
use vstd::prelude::*;

verus! {

/// The error refuses an input with this message.
pub open spec fn refuses(error: Error, message: Seq<char>) -> bool {
    error matches Error::Validation(ValidationError::InvalidInput(text)) && text@ == message
}

/// The error reports a missing record with this message.
pub open spec fn reports_missing(error: Error, message: Seq<char>) -> bool {
    error matches Error::Database(DatabaseError::NotFound(text)) && text@ == message
}

/// The row names this category as its parent.
pub open spec fn names_parent(row: Category, category_id: Seq<char>) -> bool {
    row.parent_id matches Some(parent) && parent@ == category_id
}

/// A system taxonomy stays, and any other may go: only the flag decides. A taxonomy
/// that is not there does not stop its deletion, and a failed lookup ends it.
pub proof fn law_system_taxonomies_stay<R>(
    service: TaxonomyService<R>,
    id: &str,
    lookup: TaxonomyLookup,
    found: Result<Option<Taxonomy>, Error>,
    next: Result<TaxonomyDeletion, Error>,
)
    requires
        call_ensures(TaxonomyService::<R>::delete_taxonomy, (&service, id), lookup),
        call_ensures(TaxonomyLookup::taxonomy_found, (lookup, found), next),
    ensures
        lookup.id@ == id@,
        found matches Ok(Some(taxonomy)) ==> (next is Err <==> taxonomy.is_system),
        found matches Ok(Some(taxonomy)) && taxonomy.is_system ==> refuses(
            next->Err_0,
            "Cannot delete system taxonomy"@,
        ),
        found matches Ok(None) ==> next is Ok,
        found matches Err(error) ==> next == Err::<TaxonomyDeletion, Error>(error),
        next matches Ok(deletion) ==> deletion.id@ == id@,
{
}

/// A category is deleted exactly where no row of its taxonomy names it as the parent
/// and no asset is assigned to it; nothing else about the rows matters. The messages
/// say which of the two stands in the way.
pub proof fn law_only_free_leaves_may_go<R>(
    service: TaxonomyService<R>,
    taxonomy_id: &str,
    category_id: &str,
    lookup: ChildLookup,
    rows: Vec<Category>,
    leaf: Result<LeafCategory, Error>,
    assignments: Vec<AssetTaxonomyAssignment>,
    next: Result<CategoryDeletion, Error>,
)
    requires
        call_ensures(
            TaxonomyService::<R>::delete_category,
            (&service, taxonomy_id, category_id),
            lookup,
        ),
        call_ensures(ChildLookup::categories_found, (lookup, Ok(rows)), leaf),
        leaf matches Ok(l) ==> call_ensures(
            LeafCategory::assignments_found,
            (l, Ok(assignments)),
            next,
        ),
    ensures
        lookup.taxonomy_id@ == taxonomy_id@ && lookup.category_id@ == category_id@,
        leaf is Ok <==> forall|i: int|
            #![trigger rows@[i]]
            0 <= i < rows@.len() ==> !names_parent(rows@[i], category_id@),
        leaf matches Err(error) ==> refuses(error, "Cannot delete category with children"@),
        leaf matches Ok(l) ==> l.taxonomy_id@ == taxonomy_id@ && l.category_id@ == category_id@,
        leaf is Ok ==> (next is Ok <==> assignments@.len() == 0),
        leaf is Ok && next is Ok ==> next->Ok_0.taxonomy_id@ == taxonomy_id@
            && next->Ok_0.category_id@ == category_id@,
        leaf is Ok && next is Err ==> exists|digits: Seq<char>| #[trigger]
            number(digits) == assignments@.len() && refuses(
                next->Err_0,
                "Cannot delete category with "@ + digits + " asset assignments"@,
            ),
{
    assert forall|i: int|
        #![trigger rows@[i]]
        0 <= i < rows@.len() && leaf is Ok implies !names_parent(rows@[i], category_id@) by {}
    law_decimal_reads_back(assignments@.len());
}

/// A failed read ends the deletion of a category with its error.
pub proof fn law_failed_reads_end_a_deletion(
    lookup: ChildLookup,
    leaf: LeafCategory,
    error: Error,
    first: Result<LeafCategory, Error>,
    second: Result<CategoryDeletion, Error>,
)
    requires
        call_ensures(ChildLookup::categories_found, (lookup, Err(error)), first),
        call_ensures(LeafCategory::assignments_found, (leaf, Err(error)), second),
    ensures
        first == Err::<LeafCategory, Error>(error),
        second == Err::<CategoryDeletion, Error>(error),
{
}

/// A move changes the parent and the sort order of a category and nothing else; a
/// category that is not there is not moved.
pub proof fn law_move_changes_the_place_only<R>(
    service: TaxonomyService<R>,
    taxonomy_id: &str,
    category_id: &str,
    new_parent_id: Option<String>,
    position: i32,
    start: CategoryMove,
    found: Result<Option<Category>, Error>,
    next: Result<Category, Error>,
)
    requires
        call_ensures(
            TaxonomyService::<R>::move_category,
            (&service, taxonomy_id, category_id, new_parent_id, position),
            start,
        ),
        call_ensures(CategoryMove::category_found, (start, found), next),
    ensures
        start.taxonomy_id@ == taxonomy_id@ && start.category_id@ == category_id@,
        found matches Err(error) ==> next == Err::<Category, Error>(error),
        found matches Ok(None) ==> next is Err && reports_missing(
            next->Err_0,
            "Category not found"@,
        ),
        found matches Ok(Some(category)) ==> (next matches Ok(moved) && moved.parent_id
            == new_parent_id && moved.sort_order == position && moved.id == category.id
            && moved.taxonomy_id == category.taxonomy_id && moved.name == category.name
            && moved.key == category.key && moved.color == category.color && moved.description
            == category.description && moved.created_at == category.created_at
            && moved.updated_at == category.updated_at),
{
}

/// An import asks for a user taxonomy whatever the document holds, and a document
/// that cannot be read is refused.
pub proof fn law_imports_are_user_taxonomies<R>(
    service: TaxonomyService<R>,
    document: Result<TaxonomyJson, String>,
    next: Result<(NewTaxonomy, PendingCategories), Error>,
)
    requires
        call_ensures(TaxonomyService::<R>::import_taxonomy_json, (&service, document), next),
    ensures
        next is Ok <==> document is Ok,
        document matches Err(reason) ==> refuses(next->Err_0, "Invalid JSON: "@ + reason@),
        next matches Ok((asked, pending)) ==> !asked.is_system && !asked.is_single_select
            && asked.description is None && asked.sort_order == 0 && asked.id is None
            && asked.name@ == document->Ok_0.name@ && asked.color@ == document->Ok_0.color@
            && pending.categories == document->Ok_0.categories,
{
}

/// What is imported may be deleted again, where the store keeps the flag that it was
/// asked to.
pub proof fn law_imported_taxonomies_may_go<R>(
    service: TaxonomyService<R>,
    document: TaxonomyJson,
    asked: NewTaxonomy,
    pending: PendingCategories,
    stored: Taxonomy,
    lookup: TaxonomyLookup,
    next: Result<TaxonomyDeletion, Error>,
)
    requires
        call_ensures(
            TaxonomyService::<R>::import_taxonomy_json,
            (&service, Ok(document)),
            Ok((asked, pending)),
        ),
        stored.is_system == asked.is_system,
        call_ensures(TaxonomyLookup::taxonomy_found, (lookup, Ok(Some(stored))), next),
    ensures
        next is Ok,
{
}

/// What is imported takes several assignments of an asset side by side, where the
/// store keeps the flag that it was asked to.
pub proof fn law_imported_taxonomies_take_several_assignments<R>(
    service: TaxonomyService<R>,
    document: TaxonomyJson,
    asked: NewTaxonomy,
    pending: PendingCategories,
    stored: Taxonomy,
    lookup: AssignmentLookup,
    next: Result<AssignmentStep, Error>,
)
    requires
        call_ensures(
            TaxonomyService::<R>::import_taxonomy_json,
            (&service, Ok(document)),
            Ok((asked, pending)),
        ),
        stored.is_single_select == asked.is_single_select,
        call_ensures(AssignmentLookup::taxonomy_found, (lookup, Ok(Some(stored))), next),
    ensures
        next == Ok::<AssignmentStep, Error>(AssignmentStep::Store(lookup.assignment)),
{
}

/// Once the taxonomy of an import is there, its categories are created, all of them
/// and only where there are any: under the id that the store gave the taxonomy,
/// numbered from zero, each at the top or under an earlier one.
pub proof fn law_imported_categories_are_created<R>(
    service: TaxonomyService<R>,
    pending: PendingCategories,
    created: Result<Taxonomy, Error>,
    next: Result<ImportStep, Error>,
)
    requires
        call_ensures(
            PendingCategories::taxonomy_created::<R>,
            (pending, &service, created),
            next,
        ),
    ensures
        created matches Err(error) ==> next == Err::<ImportStep, Error>(error),
        created matches Ok(taxonomy) && pending.categories@.len() == 0 ==> next == Ok::<
            ImportStep,
            Error,
        >(ImportStep::Done(created->Ok_0)),
        created matches Ok(taxonomy) && pending.categories@.len() > 0 ==> (next matches Ok(
            ImportStep::CreateCategories { created: kept, categories },
        ) && kept.taxonomy == created->Ok_0 && categories@.len() == forest_size(
            forest_view(pending.categories@),
        ) && (forall|i: int|
            #![trigger categories@[i]]
            0 <= i < categories@.len() ==> categories@[i].taxonomy_id@ == created->Ok_0.id@
                && categories@[i].sort_order == i && categories@[i].id is Some && (
            categories@[i].parent_id matches Some(parent) ==> exists|r: int|
                #![trigger categories@[r]]
                0 <= r < i && (categories@[r].id matches Some(id) && id@ == parent@)))),
{
    if created is Ok && pending.categories@.len() > 0 {
        if let Ok(ImportStep::CreateCategories { created: kept, categories }) = next {
            law_imported_rows_are_numbered_under_their_parents(
                kept.taxonomy.id@,
                forest_view(pending.categories@),
                categories@,
            );
        }
    }
}

/// An import ends with the taxonomy that was created, whatever count the store gives.
pub proof fn law_import_ends_with_its_taxonomy(
    kept: CreatedTaxonomy,
    answer: Result<usize, Error>,
    outcome: Result<Taxonomy, Error>,
)
    requires
        call_ensures(CreatedTaxonomy::categories_created, (kept, answer), outcome),
    ensures
        answer is Ok ==> outcome == Ok::<Taxonomy, Error>(kept.taxonomy),
        answer matches Err(error) ==> outcome == Err::<Taxonomy, Error>(error),
{
}

/// The document of an export holds the name and the color of the taxonomy and one
/// top-level category for each row without a parent, in sibling order, with all that
/// stands below it, whatever the flags of the taxonomy.
pub proof fn law_exports_show_every_category<R>(
    service: TaxonomyService<R>,
    id: &str,
    lookup: ExportLookup,
    found: Result<Option<TaxonomyWithCategories>, Error>,
    next: Result<TaxonomyJson, Error>,
)
    requires
        call_ensures(TaxonomyService::<R>::export_taxonomy_json, (&service, id), lookup),
        call_ensures(ExportLookup::taxonomy_found::<R>, (lookup, &service, found), next),
    ensures
        lookup.id@ == id@,
        found matches Err(error) ==> next == Err::<TaxonomyJson, Error>(error),
        found matches Ok(None) ==> next is Err && reports_missing(
            next->Err_0,
            "Taxonomy not found"@,
        ),
        found matches Ok(Some(stored)) ==> (next matches Ok(document) && document.name@
            == stored.taxonomy.name@ && document.color@ == stored.taxonomy.color@
            && document.instruments@.len() == 0 && document.categories@.len() == categories_view(
            stored.categories@,
        ).filter(|row: CategoryView| row.parent_id == None::<Seq<char>>).len() && is_hierarchy(
            categories_view(stored.categories@),
            None,
            forest_view(document.categories@),
        )),
{
    if let Ok(Some(stored)) = found {
        if let Ok(document) = next {
            law_forest_shows_every_row(
                categories_view(stored.categories@),
                None,
                forest_view(document.categories@),
            );
        }
    }
}

/// An import followed by an export gives the document back, less its instrument
/// mappings: where the store keeps the taxonomy and its categories as they were
/// created, in whatever arrangement, and the fresh ids differ from each other.
pub proof fn law_export_after_import<R>(
    service: TaxonomyService<R>,
    document: TaxonomyJson,
    asked: NewTaxonomy,
    pending: PendingCategories,
    taxonomy: Taxonomy,
    kept: CreatedTaxonomy,
    categories: Vec<NewCategory>,
    rows: Seq<CategoryView>,
    lookup: ExportLookup,
    stored: TaxonomyWithCategories,
    exported: TaxonomyJson,
)
    requires
        call_ensures(
            TaxonomyService::<R>::import_taxonomy_json,
            (&service, Ok(document)),
            Ok((asked, pending)),
        ),
        stores_taxonomy(taxonomy@, asked@),
        call_ensures(
            PendingCategories::taxonomy_created::<R>,
            (pending, &service, Ok(taxonomy)),
            Ok(ImportStep::CreateCategories { created: kept, categories }),
        ),
        row_ids(new_categories_view(categories@)).no_duplicates(),
        rows.len() == categories@.len(),
        forall|i: int|
            #![trigger rows[i]]
            0 <= i < rows.len() ==> stores(rows[i], categories@[i]@),
        stored.taxonomy == taxonomy,
        categories_view(stored.categories@).to_multiset() == rows.to_multiset(),
        call_ensures(
            ExportLookup::taxonomy_found::<R>,
            (lookup, &service, Ok(Some(stored))),
            Ok(exported),
        ),
    ensures
        exported.name@ == document.name@,
        exported.color@ == document.color@,
        forest_view(exported.categories@) == forest_view(document.categories@),
        exported.instruments@.len() == 0,
{
    law_exported_document_is_imported_document(
        document@,
        taxonomy.id@,
        categories@,
        rows,
        stored@,
        exported@,
    );
}

/// A document that cannot be written is refused, and any other is handed on.
pub proof fn law_written_documents_are_handed_on(
    written: Result<String, String>,
    outcome: Result<String, Error>,
)
    requires
        call_ensures(document_written, (written,), outcome),
    ensures
        written matches Ok(text) ==> outcome == Ok::<String, Error>(text),
        written matches Err(reason) ==> outcome is Err && refuses(
            outcome->Err_0,
            "Failed to serialize: "@ + reason@,
        ),
{
}

/// The forest of a list of categories shows every category that can be reached from
/// the top: one node for each row without a parent, in sibling order, with the name,
/// key, color and description of its row, and below it the forest under its id.
pub proof fn law_trees_show_every_row<R>(
    service: TaxonomyService<R>,
    categories: &[Category],
    nodes: Vec<CategoryJson>,
    k: int,
)
    requires
        call_ensures(TaxonomyService::<R>::categories_to_json, (&service, categories), nodes),
    ensures
        nodes@.len() == categories_view(categories@).filter(
            |row: CategoryView| row.parent_id == None::<Seq<char>>,
        ).len(),
        0 <= k < nodes@.len() ==> {
            let i = siblings(categories_view(categories@), None)[k];
            &&& 0 <= i < categories@.len()
            &&& categories@[i].parent_id is None
            &&& nodes@[k].name@ == categories@[i].name@
            &&& nodes@[k].key@ == categories@[i].key@
            &&& nodes@[k].color@ == categories@[i].color@
            &&& text_of(nodes@[k].description) == text_of(categories@[i].description)
            &&& is_hierarchy(
                categories_view(categories@),
                Some(categories@[i].id@),
                forest_view(nodes@[k].children@),
            )
        },
{
    let rows = categories_view(categories@);
    let forest = forest_view(nodes@);
    law_categories_view(categories@);
    law_forest_shows_every_row(rows, None, forest);
    if 0 <= k < nodes@.len() {
        let node = forest[k];
        let i = siblings(rows, None)[k];
        assert(rows[i] == categories@[i]@);
    }
}

/// Rows with ids of their own form a hierarchy that can be exported.
pub proof fn law_rows_with_unique_ids_can_be_exported(categories: &[Category], finite: bool)
    requires
        call_ensures(hierarchy_is_finite, (categories,), finite),
        ids_unique(categories_view(categories@)),
    ensures
        finite,
{
    law_unique_ids_make_finite(categories_view(categories@));
}

/// The count of a forest is the count of its trees, each its root and what stands
/// below it.
pub proof fn law_categories_are_counted(
    categories: &[CategoryJson],
    below: &[CategoryJson],
    count: Option<u32>,
    count_below: Option<u32>,
)
    requires
        call_ensures(category_count, (categories,), count),
        call_ensures(category_count, (below,), count_below),
        categories@.len() == 1,
        categories@[0].children@ == below@,
    ensures
        count matches Some(n) ==> count_below == Some((n - 1) as u32) && n > 0,
        count_below matches Some(n) ==> (n < u32::MAX ==> count == Some((n + 1) as u32)),
{
    let forest = forest_view(categories@);
    assert(forest =~= seq![forest[0]]);
    law_forest_size_adds_up(Seq::empty(), forest[0], Seq::empty());
}

/// A number that is written out reads back as the number.
pub proof fn law_written_numbers_read_back(n: u128, text: String, i: i32, signed: String)
    requires
        call_ensures(decimal_text, (n,), text),
        call_ensures(signed_decimal_text, (i,), signed),
    ensures
        number(text@) == n,
        i >= 0 ==> number(signed@) == i,
        i < 0 ==> signed@[0] == '-' && number(signed@.skip(1)) == -i,
{
    law_decimal_reads_back(n as nat);
    law_signed_decimal_reads_back(i as int);
}

/// An assignment takes the place of others exactly where its taxonomy is known and
/// takes one only; either way it is stored as it was asked for.
pub proof fn law_single_select_decides<R>(
    service: TaxonomyService<R>,
    assignment: NewAssetTaxonomyAssignment,
    lookup: AssignmentLookup,
    found: Result<Option<Taxonomy>, Error>,
    next: Result<AssignmentStep, Error>,
)
    requires
        call_ensures(
            TaxonomyService::<R>::assign_asset_to_category,
            (&service, assignment),
            lookup,
        ),
        call_ensures(AssignmentLookup::taxonomy_found, (lookup, found), next),
    ensures
        lookup.assignment == assignment,
        found matches Err(error) ==> next == Err::<AssignmentStep, Error>(error),
        found is Ok ==> next is Ok,
        found matches Ok(Some(taxonomy)) ==> (next->Ok_0 is Clear <==> taxonomy.is_single_select),
        found matches Ok(None) ==> next->Ok_0 is Store,
        next matches Ok(AssignmentStep::Clear(clearing)) ==> clearing.assignment == assignment,
        next matches Ok(AssignmentStep::Store(stored)) ==> stored == assignment,
{
}

/// Once the way is clear, the assignment is stored as it was asked for.
pub proof fn law_cleared_assignment_is_stored(
    clearing: AssignmentClearing,
    cleared: Result<usize, Error>,
    next: Result<NewAssetTaxonomyAssignment, Error>,
)
    requires
        call_ensures(AssignmentClearing::cleared, (clearing, cleared), next),
    ensures
        cleared is Ok ==> next == Ok::<NewAssetTaxonomyAssignment, Error>(clearing.assignment),
        cleared matches Err(error) ==> next == Err::<NewAssetTaxonomyAssignment, Error>(error),
{
}

/// A replacement that goes on to clear keeps the former rows of the asset in the
/// taxonomy, and only those: each with its own id, category, weight and source.
pub proof fn law_former_rows_are_kept<R>(
    service: TaxonomyService<R>,
    asset_id: &str,
    taxonomy_id: &str,
    assignments: Vec<NewAssetTaxonomyAssignment>,
    lookup: ReplacementLookup,
    rows: Vec<AssetTaxonomyAssignment>,
    next: Result<ReplacementClearing, Error>,
)
    requires
        call_ensures(
            TaxonomyService::<R>::replace_asset_assignments,
            (&service, asset_id, taxonomy_id, assignments),
            lookup,
        ),
        call_ensures(ReplacementLookup::assignments_found, (lookup, Ok(rows)), next),
    ensures
        next matches Ok(clearing) && clearing.asset_id@ == asset_id@ && clearing.taxonomy_id@
            == taxonomy_id@ && clearing.assignments == assignments,
        forall|i: int|
            #![trigger rows@[i]]
            0 <= i < rows@.len() && rows@[i].asset_id@ == asset_id@ && rows@[i].taxonomy_id@
                == taxonomy_id@ ==> exists|k: int|
                #![trigger next->Ok_0.kept@[k]]
                0 <= k < next->Ok_0.kept@.len() && keeps(next->Ok_0.kept@[k], rows@[i]),
        forall|k: int|
            #![trigger next->Ok_0.kept@[k]]
            0 <= k < next->Ok_0.kept@.len() ==> next->Ok_0.kept@[k].asset_id@ == asset_id@
                && next->Ok_0.kept@[k].taxonomy_id@ == taxonomy_id@ && exists|i: int|
                #![trigger rows@[i]]
                0 <= i < rows@.len() && keeps(next->Ok_0.kept@[k], rows@[i]),
{
    broadcast use Seq::lemma_filter_pred;

    let views = assignments_view(rows@);
    let within = |row: AssignmentView| belongs_to(row, asset_id@, taxonomy_id@);
    let former = views.filter(within);
    if let Ok(clearing) = next {
        let kept = new_assignments_view(clearing.kept@);
        assert(kept == kept_assignments(former));
        assert forall|i: int|
            #![trigger rows@[i]]
            0 <= i < rows@.len() && rows@[i].asset_id@ == asset_id@ && rows@[i].taxonomy_id@
                == taxonomy_id@ implies exists|k: int|
            #![trigger clearing.kept@[k]]
            0 <= k < clearing.kept@.len() && keeps(clearing.kept@[k], rows@[i]) by {
            assert(views[i] == rows@[i]@);
            views.lemma_filter_contains(within, i);
            let k = choose|k: int| 0 <= k < former.len() && former[k] == views[i];
            assert(kept[k] == clearing.kept@[k]@);
            assert(kept[k] == kept_assignment(former[k]));
            assert(keeps(clearing.kept@[k], rows@[i]));
        }
        assert forall|k: int| #![trigger clearing.kept@[k]] 0 <= k < clearing.kept@.len() implies
            clearing.kept@[k].asset_id@ == asset_id@ && clearing.kept@[k].taxonomy_id@
            == taxonomy_id@ && exists|i: int|
            #![trigger rows@[i]]
            0 <= i < rows@.len() && keeps(clearing.kept@[k], rows@[i]) by {
            assert(kept[k] == clearing.kept@[k]@);
            assert(kept[k] == kept_assignment(former[k]));
            assert(within(views.filter(within)[k]));
            views.lemma_filter_contains_rev(within, former[k]);
            let i = choose|i: int| 0 <= i < views.len() && views[i] == former[k];
            assert(views[i] == rows@[i]@);
            assert(keeps(clearing.kept@[k], rows@[i]));
        }
    }
}

/// The assignment stores the row again.
pub open spec fn keeps(kept: NewAssetTaxonomyAssignment, row: AssetTaxonomyAssignment) -> bool {
    &&& kept.id matches Some(id) && id@ == row.id@
    &&& kept.asset_id@ == row.asset_id@
    &&& kept.taxonomy_id@ == row.taxonomy_id@
    &&& kept.category_id@ == row.category_id@
    &&& kept.weight == row.weight
    &&& kept.source@ == row.source@
}

/// A replacement whose former rows cannot be read goes on exactly where there is
/// nothing to store.
pub proof fn law_unread_rows_refuse_new_ones(
    lookup: ReplacementLookup,
    error: Error,
    next: Result<ReplacementClearing, Error>,
)
    requires
        call_ensures(ReplacementLookup::assignments_found, (lookup, Err(error)), next),
    ensures
        lookup.assignments@.len() > 0 ==> next == Err::<ReplacementClearing, Error>(error),
        lookup.assignments@.len() == 0 ==> (next matches Ok(clearing) && clearing.asset_id
            == lookup.asset_id && clearing.taxonomy_id == lookup.taxonomy_id
            && clearing.assignments@.len() == 0),
{
}

/// Replacing by nothing ends once the former rows are cleared, with nothing stored.
pub proof fn law_replacing_by_nothing_clears(
    clearing: ReplacementClearing,
    count: usize,
    next: Result<Replacement, Error>,
    step: ReplacementStep,
)
    requires
        clearing.assignments@.len() == 0,
        call_ensures(ReplacementClearing::cleared, (clearing, Ok(count)), next),
        next matches Ok(replacement) ==> call_ensures(Replacement::next, (replacement,), step),
    ensures
        next is Ok,
        step matches ReplacementStep::Done(rows) && rows@.len() == 0,
{
    if let ReplacementStep::Done(rows) = step {
        assert(assignments_view(rows@).len() == rows@.len());
    }
}

/// The first call of a replacement stores the first assignment, and where it fails
/// the restoration clears what was stored before anything is stored again.
pub proof fn law_first_store_and_its_failure(
    clearing: ReplacementClearing,
    count: usize,
    next: Result<Replacement, Error>,
    step: ReplacementStep,
    error: Error,
    answered: Result<Replacement, Restoration>,
    undo: RestorationStep,
)
    requires
        clearing.assignments@.len() > 0,
        call_ensures(ReplacementClearing::cleared, (clearing, Ok(count)), next),
        next matches Ok(replacement) ==> call_ensures(Replacement::next, (replacement,), step),
        step matches ReplacementStep::Store { assignment, rest } ==> call_ensures(
            Replacement::assignment_stored,
            (rest, Err(error)),
            answered,
        ),
        answered matches Err(restoration) ==> call_ensures(
            Restoration::next,
            (restoration,),
            undo,
        ),
    ensures
        next is Ok,
        step matches ReplacementStep::Store { assignment, rest } && assignment@
            == clearing.assignments@[0]@,
        answered matches Err(restoration) && restoration@.error == error
            && restoration@.pending.len() == clearing.kept@.len(),
        undo matches RestorationStep::Clear { asset_id, taxonomy_id, rest } && asset_id@
            == clearing.asset_id@ && taxonomy_id@ == clearing.taxonomy_id@,
{
}

/// The rows of a forest are numbered on from the start that is given, carry the ids
/// that are given, in place, and belong to the taxonomy. Each category of the forest
/// has a row with its name, key, color and description under the parent that is
/// given, and the rows of the categories below it follow under its id.
pub proof fn law_rows_hold_the_forest(
    taxonomy_id: &str,
    categories: &[CategoryJson],
    parent_id: Option<String>,
    sort_start: i32,
    ids: &[String],
    rows: Vec<NewCategory>,
    k: int,
)
    requires
        call_ensures(
            flatten_with_ids,
            (taxonomy_id, categories, parent_id, sort_start, ids),
            rows,
        ),
        ids@.len() == forest_size(forest_view(categories@)),
    ensures
        rows@.len() == ids@.len(),
        forall|i: int|
            #![trigger rows@[i]]
            0 <= i < rows@.len() ==> rows@[i].taxonomy_id@ == taxonomy_id@ && rows@[i].sort_order
                == sort_start + i && (rows@[i].id matches Some(id) && id@ == ids@[i]@),
        0 <= k < categories@.len() ==> {
            let place = forest_size(forest_view(categories@).take(k)) as int;
            let below = forest_size(forest_view(categories@[k].children@)) as int;
            &&& 0 <= place
            &&& place + below < rows@.len()
            &&& rows@[place].name@ == categories@[k].name@
            &&& rows@[place].key@ == categories@[k].key@
            &&& rows@[place].color@ == categories@[k].color@
            &&& text_of(rows@[place].description) == text_of(categories@[k].description)
            &&& text_of(rows@[place].parent_id) == text_of(parent_id)
            &&& new_categories_view(rows@).subrange(place + 1, place + 1 + below) == flatten(
                taxonomy_id@,
                forest_view(categories@[k].children@),
                Some(ids@[place]@),
                sort_start as int,
                id_texts(ids@),
                place + 1,
            )
        },
{
    let nodes = forest_view(categories@);
    let texts = id_texts(ids@);
    let parent = text_of(parent_id);
    let views = new_categories_view(rows@);
    assert forall|i: int| #![trigger rows@[i]] 0 <= i < rows@.len() implies rows@[i].taxonomy_id@
        == taxonomy_id@ && rows@[i].sort_order == sort_start + i && (rows@[i].id matches Some(id)
        && id@ == ids@[i]@) by {
        law_rows_follow_their_parents(
            taxonomy_id@,
            nodes,
            parent,
            sort_start as int,
            texts,
            0,
            i,
        );
        assert(views[i] == rows@[i]@);
    }
    if 0 <= k < categories@.len() {
        let place = law_each_category_has_its_row(
            taxonomy_id@,
            nodes,
            parent,
            sort_start as int,
            texts,
            0,
            k,
        );
        assert(views[place] == rows@[place]@);
        assert(nodes[k] == categories@[k]@);
        assert(texts[place] == ids@[place]@);
    }
}

/// The top-level rows of an import hold the top-level categories of its document.
pub proof fn law_imported_rows_hold_the_document<R>(
    service: TaxonomyService<R>,
    pending: PendingCategories,
    taxonomy: Taxonomy,
    kept: CreatedTaxonomy,
    rows: Vec<NewCategory>,
    k: int,
)
    requires
        call_ensures(
            PendingCategories::taxonomy_created::<R>,
            (pending, &service, Ok(taxonomy)),
            Ok(ImportStep::CreateCategories { created: kept, categories: rows }),
        ),
        0 <= k < pending.categories@.len(),
    ensures
        ({
            let place = forest_size(forest_view(pending.categories@).take(k)) as int;
            &&& 0 <= place < rows@.len()
            &&& rows@[place].name@ == pending.categories@[k].name@
            &&& rows@[place].key@ == pending.categories@[k].key@
            &&& rows@[place].color@ == pending.categories@[k].color@
            &&& text_of(rows@[place].description) == text_of(pending.categories@[k].description)
            &&& rows@[place].parent_id is None
        }),
{
    let nodes = forest_view(pending.categories@);
    assert(nodes[k] == pending.categories@[k]@);
    law_imported_rows_hold_the_categories(taxonomy.id@, nodes, rows@, k);
}

/// The forest below a category shows every row that names the category as its
/// parent, in sibling order.
pub proof fn law_trees_show_every_row_below<R>(
    service: TaxonomyService<R>,
    map: ChildrenMap<'_>,
    categories: &[Category],
    parent_id: Option<String>,
    nodes: Vec<CategoryJson>,
    k: int,
)
    requires
        call_ensures(ChildrenMap::new, (categories,), map),
        call_ensures(
            TaxonomyService::<R>::build_category_tree,
            (&service, &map, parent_id),
            nodes,
        ),
    ensures
        nodes@.len() == categories_view(categories@).filter(
            |row: CategoryView| row.parent_id == text_of(parent_id),
        ).len(),
        0 <= k < nodes@.len() ==> {
            let i = siblings(categories_view(categories@), text_of(parent_id))[k];
            &&& 0 <= i < categories@.len()
            &&& text_of(categories@[i].parent_id) == text_of(parent_id)
            &&& nodes@[k].name@ == categories@[i].name@
            &&& nodes@[k].key@ == categories@[i].key@
            &&& nodes@[k].color@ == categories@[i].color@
            &&& text_of(nodes@[k].description) == text_of(categories@[i].description)
            &&& is_hierarchy(
                categories_view(categories@),
                Some(categories@[i].id@),
                forest_view(nodes@[k].children@),
            )
        },
{
    let rows = categories_view(categories@);
    let parent = text_of(parent_id);
    let forest = forest_view(nodes@);
    law_forest_shows_every_row(rows, parent, forest);
    if 0 <= k < nodes@.len() {
        let node = forest[k];
        let i = siblings(rows, parent)[k];
        assert(rows[i] == categories@[i]@);
    }
}

/// A replacement asks for its assignments one after the other, collects the answers
/// in order, and ends with them once nothing is left.
pub proof fn law_replacement_collects_the_answers(
    replacement: Replacement,
    step: ReplacementStep,
    row: AssetTaxonomyAssignment,
    answered: Result<Replacement, Restoration>,
)
    requires
        call_ensures(Replacement::next, (replacement,), step),
        step matches ReplacementStep::Store { assignment, rest } ==> call_ensures(
            Replacement::assignment_stored,
            (rest, Ok(row)),
            answered,
        ),
    ensures
        step is Done <==> replacement@.pending.len() == 0,
        step matches ReplacementStep::Done(rows) ==> assignments_view(rows@)
            == replacement@.stored,
        step matches ReplacementStep::Store { assignment, rest } ==> assignment@
            == replacement@.pending[0] && (answered matches Ok(after) && after@.pending
            == replacement@.pending.skip(1) && after@.stored == replacement@.stored.push(row@)
            && after@.kept == replacement@.kept && after@.asset_id == replacement@.asset_id
            && after@.taxonomy_id == replacement@.taxonomy_id),
{
    if replacement@.pending.len() > 0 {
        assert(replacement@.pending.drop_first() =~= replacement@.pending.skip(1));
    }
}

/// A restoration clears once, stores the kept rows again one after the other, and
/// ends with the error of the replacement once nothing is left.
pub proof fn law_restoration_goes_row_by_row(restoration: Restoration, step: RestorationStep)
    requires
        call_ensures(Restoration::next, (restoration,), step),
    ensures
        step is Clear <==> restoration@.clears,
        step is Failed <==> !restoration@.clears && restoration@.pending.len() == 0,
        step matches RestorationStep::Clear { asset_id, taxonomy_id, rest } ==> asset_id@
            == restoration@.asset_id && taxonomy_id@ == restoration@.taxonomy_id
            && !rest@.clears && rest@.pending == restoration@.pending && rest@.error
            == restoration@.error,
        step matches RestorationStep::Store { assignment, rest } ==> assignment@
            == restoration@.pending[0] && rest@.pending == restoration@.pending.skip(1)
            && !rest@.clears && rest@.error == restoration@.error,
        step matches RestorationStep::Failed(error) ==> error == restoration@.error,
{
    if restoration@.pending.len() > 0 {
        assert(restoration@.pending.drop_first() =~= restoration@.pending.skip(1));
    }
}

/// A clearing that fails ends the replacement with its error, before anything is
/// stored.
pub proof fn law_failed_clearing_ends_a_replacement(
    clearing: ReplacementClearing,
    error: Error,
    next: Result<Replacement, Error>,
)
    requires
        call_ensures(ReplacementClearing::cleared, (clearing, Err(error)), next),
    ensures
        next == Err::<Replacement, Error>(error),
{
}

/// An error says the text that it holds.
pub proof fn law_messages_are_told(error: Error, message: &str)
    requires
        call_ensures(Error::message, (&error,), message),
    ensures
        error matches Error::Validation(ValidationError::InvalidInput(text)) ==> message@ == text@,
        error matches Error::Database(DatabaseError::NotFound(text)) ==> message@ == text@,
        error matches Error::Unexpected(text) ==> message@ == text@,
{
}

/// A service reaches the store that it was made with.
pub proof fn law_service_keeps_its_store<R>(
    repository: Arc<R>,
    service: TaxonomyService<R>,
    reached: &Arc<R>,
)
    requires
        call_ensures(TaxonomyService::<R>::new, (repository,), service),
        call_ensures(TaxonomyService::<R>::repository, (&service,), reached),
    ensures
        *reached == repository,
{
}

} // verus!
