//! Import and export of taxonomies as documents.
use crate::errors::Error;
use crate::flatten::{flatten, forest_size, law_rows_follow_their_parents, row_ids};
use crate::hierarchy::{
    is_finite, is_hierarchy, law_forest_shows_every_row, law_hierarchy_unique,
};
use crate::ids::is_uuid_v4;
use crate::models::{
    categories_view, forest_view, new_categories_view, text_of, CategoryJson, CategoryJsonView,
    CategoryView, NewCategory, NewTaxonomy, NewTaxonomyView, Taxonomy, TaxonomyJson,
    TaxonomyJsonView, TaxonomyView, TaxonomyWithCategories, TaxonomyWithCategoriesView,
};
use crate::ordering::siblings;
use crate::round_trip::{law_each_category_has_its_row, law_export_gives_back_import, stores};
use crate::taxonomy_service::TaxonomyService;
use vstd::prelude::*;

verus! {

/// The taxonomy that an import creates: never a system taxonomy.
pub open spec fn imported_taxonomy(document: TaxonomyJsonView) -> NewTaxonomyView {
    NewTaxonomyView {
        id: None,
        name: document.name,
        color: document.color,
        description: None,
        is_system: false,
        is_single_select: false,
        sort_order: 0,
    }
}

/// `rows` are the categories of a forest, to be created in a taxonomy: numbered
/// from zero, each with an id that has the form of a random UUID. That the ids
/// differ is left to chance.
pub open spec fn are_imported_rows(
    taxonomy_id: Seq<char>,
    nodes: Seq<CategoryJsonView>,
    rows: Seq<NewCategory>,
) -> bool {
    &&& rows.len() == forest_size(nodes)
    &&& forall|i: int|
        0 <= i < rows.len() ==> (#[trigger] rows[i]).id is Some && is_uuid_v4(rows[i].id->0@)
    &&& new_categories_view(rows) == flatten(
        taxonomy_id,
        nodes,
        None,
        0,
        row_ids(new_categories_view(rows)),
        0,
    )
}

/// `document` is the export of a taxonomy.
pub open spec fn is_export(
    stored: TaxonomyWithCategoriesView,
    document: TaxonomyJsonView,
) -> bool {
    &&& document.name == stored.taxonomy.name
    &&& document.color == stored.taxonomy.color
    &&& is_hierarchy(stored.categories, None, document.categories)
    &&& document.instruments.len() == 0
}

impl<R: ?Sized> TaxonomyService<R> {
    /// Starts an import from the outcome of reading the document: the next call
    /// is `create_taxonomy` on the taxonomy that is handed back.
    pub fn import_taxonomy_json(&self, document: Result<TaxonomyJson, String>) -> (next: Result<
        (NewTaxonomy, PendingCategories),
        Error,
    >)
        ensures
            match document {
                Err(reason) => next matches Err(error) && error.is_invalid_input(
                    "Invalid JSON: "@ + reason@,
                ),
                Ok(document) => next matches Ok((taxonomy, pending)) && taxonomy@
                    == imported_taxonomy(document@) && taxonomy.id is None && taxonomy.name
                    == document.name && taxonomy.color == document.color
                    && taxonomy.description is None && !taxonomy.is_system
                    && !taxonomy.is_single_select && taxonomy.sort_order == 0
                    && pending.categories == document.categories,
            },
    {
        match document {
            Err(reason) => Err(
                Error::invalid_input("Invalid JSON: ".to_string().concat(reason.as_str())),
            ),
            Ok(document) => Ok(
                (
                    NewTaxonomy {
                        id: None,
                        name: document.name,
                        color: document.color,
                        description: None,
                        is_system: false,
                        is_single_select: false,
                        sort_order: 0,
                    },
                    PendingCategories { categories: document.categories },
                ),
            ),
        }
    }

    /// Starts the export of a taxonomy.
    pub fn export_taxonomy_json(&self, id: &str) -> (next: ExportLookup)
        ensures
            next.id@ == id@,
    {
        ExportLookup { id: id.to_string() }
    }
}

/// The categories of an import, which wait for their taxonomy: the next call is
/// `create_taxonomy` on the taxonomy that they came with.
pub struct PendingCategories {
    pub categories: Vec<CategoryJson>,
}

/// What follows the creation of an imported taxonomy.
pub enum ImportStep {
    /// The next call is `bulk_create_categories(categories)`.
    CreateCategories { created: CreatedTaxonomy, categories: Vec<NewCategory> },
    /// There is nothing more to create.
    Done(Taxonomy),
}

/// An imported taxonomy whose categories are being created.
pub struct CreatedTaxonomy {
    pub taxonomy: Taxonomy,
}

impl PendingCategories {
    /// Goes on with the import once `create_taxonomy` has answered.
    pub fn taxonomy_created<R: ?Sized>(
        self,
        service: &TaxonomyService<R>,
        created: Result<Taxonomy, Error>,
    ) -> (next: Result<ImportStep, Error>)
        requires
            created is Ok ==> forest_size(forest_view(self.categories@)) <= i32::MAX,
        ensures
            match created {
                Err(error) => next == Err::<ImportStep, Error>(error),
                Ok(taxonomy) => if self.categories@.len() == 0 {
                    next == Ok::<ImportStep, Error>(ImportStep::Done(taxonomy))
                } else {
                    next matches Ok(
                        ImportStep::CreateCategories { created, categories },
                    ) && created.taxonomy == taxonomy && are_imported_rows(
                        taxonomy.id@,
                        forest_view(self.categories@),
                        categories@,
                    )
                },
            },
    {
        let taxonomy = created?;
        let mut sort_order: i32 = 0;
        let categories = service.flatten_categories(
            taxonomy.id.as_str(),
            self.categories.as_slice(),
            None,
            &mut sort_order,
        );
        if !categories.is_empty() {
            Ok(ImportStep::CreateCategories { created: CreatedTaxonomy { taxonomy }, categories })
        } else {
            Ok(ImportStep::Done(taxonomy))
        }
    }
}

impl CreatedTaxonomy {
    /// Ends the import once `bulk_create_categories` has answered.
    pub fn categories_created(self, created: Result<usize, Error>) -> (outcome: Result<
        Taxonomy,
        Error,
    >)
        ensures
            outcome == match created {
                Err(error) => Err::<Taxonomy, Error>(error),
                Ok(_) => Ok(self.taxonomy),
            },
    {
        match created {
            Err(error) => Err(error),
            Ok(_) => Ok(self.taxonomy),
        }
    }
}

/// The export of a taxonomy begins: the next call is
/// `get_taxonomy_with_categories(id)`.
pub struct ExportLookup {
    pub id: String,
}

impl ExportLookup {
    /// The document of the taxonomy, once `get_taxonomy_with_categories` has
    /// answered; it is to be written as JSON next.
    pub fn taxonomy_found<R: ?Sized>(
        self,
        service: &TaxonomyService<R>,
        found: Result<Option<TaxonomyWithCategories>, Error>,
    ) -> (next: Result<TaxonomyJson, Error>)
        requires
            found matches Ok(Some(stored)) ==> is_finite(
                categories_view(stored.categories@),
                None,
            ),
        ensures
            match found {
                Err(error) => next == Err::<TaxonomyJson, Error>(error),
                Ok(None) => next matches Err(error) && error.is_not_found("Taxonomy not found"@),
                Ok(Some(stored)) => next matches Ok(document) && is_export(stored@, document@)
                    && document.name == stored.taxonomy.name && document.color
                    == stored.taxonomy.color && document.instruments@.len() == 0
                    && is_hierarchy(
                    categories_view(stored.categories@),
                    None,
                    forest_view(document.categories@),
                ),
            },
    {
        match found? {
            None => Err(Error::not_found("Taxonomy not found")),
            Some(stored) => {
                let categories = service.categories_to_json(stored.categories.as_slice());
                Ok(
                    TaxonomyJson {
                        name: stored.taxonomy.name,
                        color: stored.taxonomy.color,
                        categories,
                        instruments: Vec::new(),
                    },
                )
            },
        }
    }
}

/// Ends an export with the outcome of writing the document as JSON.
pub fn document_written(written: Result<String, String>) -> (outcome: Result<String, Error>)
    ensures
        match written {
            Err(reason) => outcome matches Err(error) && error.is_invalid_input(
                "Failed to serialize: "@ + reason@,
            ),
            Ok(text) => outcome == Ok::<String, Error>(text),
        },
{
    match written {
        Err(reason) => Err(
            Error::invalid_input("Failed to serialize: ".to_string().concat(reason.as_str())),
        ),
        Ok(text) => Ok(text),
    }
}

/// A stored taxonomy holds what it was created with.
pub open spec fn stores_taxonomy(stored: TaxonomyView, created: NewTaxonomyView) -> bool {
    &&& created.id matches Some(id) ==> stored.id == id
    &&& stored.name == created.name
    &&& stored.color == created.color
    &&& stored.description == created.description
    &&& stored.is_system == created.is_system
    &&& stored.is_single_select == created.is_single_select
    &&& stored.sort_order == created.sort_order
}

/// The export of an imported taxonomy is the document that was imported, less
/// its instrument mappings: where the store keeps the taxonomy and the
/// categories as they were created, in whatever arrangement, and the fresh ids
/// differ from each other.
pub proof fn law_exported_document_is_imported_document(
    imported: TaxonomyJsonView,
    taxonomy_id: Seq<char>,
    created: Seq<NewCategory>,
    kept: Seq<CategoryView>,
    stored: TaxonomyWithCategoriesView,
    exported: TaxonomyJsonView,
)
    requires
        stores_taxonomy(stored.taxonomy, imported_taxonomy(imported)),
        are_imported_rows(taxonomy_id, imported.categories, created),
        row_ids(new_categories_view(created)).no_duplicates(),
        kept.len() == created.len(),
        forall|i: int|
            #![trigger kept[i]]
            0 <= i < kept.len() ==> stores(kept[i], created[i]@),
        stored.categories.to_multiset() == kept.to_multiset(),
        is_export(stored, exported),
    ensures
        exported == (TaxonomyJsonView { instruments: Seq::empty(), ..imported }),
{
    let rows = new_categories_view(created);
    let ids = row_ids(rows);
    assert forall|i: int| #![trigger kept[i]] 0 <= i < kept.len() implies stores(
        kept[i],
        flatten(taxonomy_id, imported.categories, None, 0, ids, 0)[i],
    ) by {
        assert(rows[i] == created[i]@);
    }
    law_export_gives_back_import(
        taxonomy_id,
        imported.categories,
        0,
        ids,
        kept,
        stored.categories,
    );
    law_hierarchy_unique(stored.categories, None, exported.categories, imported.categories);
    assert(exported.instruments =~= Seq::empty());
}

/// An import creates a user taxonomy, whatever the document holds: never a system
/// one, never a single-select one, without a description, first in order, under an
/// id of the store's choice, and with the name and color of the document.
pub proof fn law_import_creates_a_user_taxonomy(document: TaxonomyJsonView)
    ensures
        !imported_taxonomy(document).is_system,
        !imported_taxonomy(document).is_single_select,
        imported_taxonomy(document).description is None,
        imported_taxonomy(document).sort_order == 0,
        imported_taxonomy(document).id is None,
        imported_taxonomy(document).name == document.name,
        imported_taxonomy(document).color == document.color,
{
}

/// The rows of an import belong to its taxonomy, are numbered from zero without a
/// gap, carry ids of the form of random UUIDs, and each stands at the top or under
/// the id of an earlier row. There is one for each category of the document.
pub proof fn law_imported_rows_are_numbered_under_their_parents(
    taxonomy_id: Seq<char>,
    nodes: Seq<CategoryJsonView>,
    rows: Seq<NewCategory>,
)
    requires
        are_imported_rows(taxonomy_id, nodes, rows),
    ensures
        rows.len() == forest_size(nodes),
        forall|i: int|
            #![trigger rows[i]]
            0 <= i < rows.len() ==> rows[i].taxonomy_id@ == taxonomy_id && rows[i].sort_order == i
                && (rows[i].id matches Some(id) && is_uuid_v4(id@)) && (rows[i].parent_id matches
                Some(parent) ==> exists|r: int|
                #![trigger rows[r]]
                0 <= r < i && (rows[r].id matches Some(id) && id@ == parent@)),
{
    let views = new_categories_view(rows);
    let ids = row_ids(views);
    assert forall|i: int| #![trigger rows[i]] 0 <= i < rows.len() implies rows[i].taxonomy_id@
        == taxonomy_id && rows[i].sort_order == i && (rows[i].id matches Some(id) && is_uuid_v4(
        id@,
    )) && (rows[i].parent_id matches Some(parent) ==> exists|r: int|
        #![trigger rows[r]]
        0 <= r < i && (rows[r].id matches Some(id) && id@ == parent@)) by {
        law_rows_follow_their_parents(taxonomy_id, nodes, None, 0, ids, 0, i);
        assert(views[i] == rows[i]@);
        if rows[i].parent_id is Some {
            let r = choose|r: int| 0 <= r < i && views[i].parent_id == Some(#[trigger] ids[r]);
            assert(views[r] == rows[r]@);
            assert(rows[r].id is Some);
        }
    }
}

/// Each category of an imported document has its row: with its name, key, color and
/// description, at the top where the category stands at the top.
pub proof fn law_imported_rows_hold_the_categories(
    taxonomy_id: Seq<char>,
    nodes: Seq<CategoryJsonView>,
    rows: Seq<NewCategory>,
    k: int,
)
    requires
        are_imported_rows(taxonomy_id, nodes, rows),
        0 <= k < nodes.len(),
    ensures
        ({
            let place = forest_size(nodes.take(k)) as int;
            &&& 0 <= place < rows.len()
            &&& rows[place].name@ == nodes[k].name
            &&& rows[place].key@ == nodes[k].key
            &&& rows[place].color@ == nodes[k].color
            &&& text_of(rows[place].description) == nodes[k].description
            &&& rows[place].parent_id is None
        }),
{
    let views = new_categories_view(rows);
    let place = law_each_category_has_its_row(
        taxonomy_id,
        nodes,
        None,
        0,
        row_ids(views),
        0,
        k,
    );
    assert(views[place] == rows[place]@);
}

/// An export shows the whole taxonomy, whatever its flags: its name and color, one
/// top-level node for each row without a parent, below each node one for each row
/// that names its category, and so on down, each with the name, key, color and
/// description of its row.
pub proof fn law_export_shows_every_category(
    stored: TaxonomyWithCategoriesView,
    document: TaxonomyJsonView,
)
    requires
        is_export(stored, document),
    ensures
        document.name == stored.taxonomy.name,
        document.color == stored.taxonomy.color,
        document.instruments.len() == 0,
        is_hierarchy(stored.categories, None, document.categories),
        document.categories.len() == stored.categories.filter(
            |row: CategoryView| row.parent_id is None,
        ).len(),
        forall|i: int|
            #![trigger stored.categories[i]]
            0 <= i < stored.categories.len() && stored.categories[i].parent_id is None ==> exists|
                k: int,
            |
                #![trigger document.categories[k]]
                0 <= k < document.categories.len() && document.categories[k].name
                    == stored.categories[i].name && document.categories[k].key
                    == stored.categories[i].key && document.categories[k].color
                    == stored.categories[i].color && document.categories[k].description
                    == stored.categories[i].description && is_hierarchy(
                    stored.categories,
                    Some(stored.categories[i].id),
                    document.categories[k].children,
                ),
        forall|k: int, j: int|
            #![trigger document.categories[k], stored.categories[j]]
            0 <= k < document.categories.len() && 0 <= j < stored.categories.len()
                && stored.categories[j].parent_id == Some(
                stored.categories[siblings(stored.categories, None)[k]].id,
            ) ==> exists|m: int|
                #![trigger document.categories[k].children[m]]
                0 <= m < document.categories[k].children.len()
                    && document.categories[k].children[m].name == stored.categories[j].name
                    && document.categories[k].children[m].key == stored.categories[j].key
                    && document.categories[k].children[m].color == stored.categories[j].color
                    && document.categories[k].children[m].description
                    == stored.categories[j].description && is_hierarchy(
                    stored.categories,
                    Some(stored.categories[j].id),
                    document.categories[k].children[m].children,
                ),
{
    let rows = stored.categories;
    let nodes = document.categories;
    law_forest_shows_every_row(rows, None, nodes);
    let absent = |row: CategoryView| row.parent_id is None;
    assert(absent =~= (|row: CategoryView| row.parent_id == None::<Seq<char>>));
    assert forall|k: int, j: int|
        #![trigger nodes[k], rows[j]]
        0 <= k < nodes.len() && 0 <= j < rows.len() && rows[j].parent_id == Some(
            rows[siblings(rows, None)[k]].id,
        ) implies exists|m: int|
        #![trigger nodes[k].children[m]]
        0 <= m < nodes[k].children.len() && nodes[k].children[m].name == rows[j].name
            && nodes[k].children[m].key == rows[j].key && nodes[k].children[m].color
            == rows[j].color && nodes[k].children[m].description == rows[j].description
            && is_hierarchy(rows, Some(rows[j].id), nodes[k].children[m].children) by {
        let parent = Some(rows[siblings(rows, None)[k]].id);
        law_forest_shows_every_row(rows, parent, nodes[k].children);
        let m = choose|m: int|
            #![trigger nodes[k].children[m]]
            0 <= m < nodes[k].children.len() && siblings(rows, parent)[m] == j;
    }
}

} // verus!
