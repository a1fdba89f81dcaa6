//! The records that the taxonomy store keeps and the document that a taxonomy
//! is exchanged in, each with the mathematical view that contracts speak of.
use chrono::NaiveDateTime;
use vstd::prelude::*;

verus! {

/// `chrono::NaiveDateTime`: a point in time, carried through unread. Nothing is
/// claimed of what it holds.
#[verifier::external_type_specification]
#[verifier::external_body]
pub struct ExNaiveDateTime(chrono::NaiveDateTime);

/// The text of an optional string.
pub open spec fn text_of(text: Option<String>) -> Option<Seq<char>> {
    match text {
        Some(t) => Some(t@),
        None => None,
    }
}

/// A classification scheme, such as regions or sectors.
#[derive(Debug)]
pub struct Taxonomy {
    pub id: String,
    pub name: String,
    pub color: String,
    pub description: Option<String>,
    pub is_system: bool,
    pub is_single_select: bool,
    pub sort_order: i32,
    pub created_at: NaiveDateTime,
    pub updated_at: NaiveDateTime,
}

pub struct TaxonomyView {
    pub id: Seq<char>,
    pub name: Seq<char>,
    pub color: Seq<char>,
    pub description: Option<Seq<char>>,
    pub is_system: bool,
    pub is_single_select: bool,
    pub sort_order: i32,
    pub created_at: NaiveDateTime,
    pub updated_at: NaiveDateTime,
}

impl View for Taxonomy {
    type V = TaxonomyView;

    open spec fn view(&self) -> TaxonomyView {
        TaxonomyView {
            id: self.id@,
            name: self.name@,
            color: self.color@,
            description: text_of(self.description),
            is_system: self.is_system,
            is_single_select: self.is_single_select,
            sort_order: self.sort_order,
            created_at: self.created_at,
            updated_at: self.updated_at,
        }
    }
}

/// A taxonomy that is to be created; the store picks the id where it is absent.
#[derive(Debug)]
pub struct NewTaxonomy {
    pub id: Option<String>,
    pub name: String,
    pub color: String,
    pub description: Option<String>,
    pub is_system: bool,
    pub is_single_select: bool,
    pub sort_order: i32,
}

pub struct NewTaxonomyView {
    pub id: Option<Seq<char>>,
    pub name: Seq<char>,
    pub color: Seq<char>,
    pub description: Option<Seq<char>>,
    pub is_system: bool,
    pub is_single_select: bool,
    pub sort_order: i32,
}

impl View for NewTaxonomy {
    type V = NewTaxonomyView;

    open spec fn view(&self) -> NewTaxonomyView {
        NewTaxonomyView {
            id: text_of(self.id),
            name: self.name@,
            color: self.color@,
            description: text_of(self.description),
            is_system: self.is_system,
            is_single_select: self.is_single_select,
            sort_order: self.sort_order,
        }
    }
}

/// One category of a taxonomy. Categories form a hierarchy through `parent_id`.
#[derive(Debug)]
pub struct Category {
    pub id: String,
    pub taxonomy_id: String,
    pub parent_id: Option<String>,
    pub name: String,
    pub key: String,
    pub color: String,
    pub description: Option<String>,
    pub sort_order: i32,
    pub created_at: NaiveDateTime,
    pub updated_at: NaiveDateTime,
}

pub struct CategoryView {
    pub id: Seq<char>,
    pub taxonomy_id: Seq<char>,
    pub parent_id: Option<Seq<char>>,
    pub name: Seq<char>,
    pub key: Seq<char>,
    pub color: Seq<char>,
    pub description: Option<Seq<char>>,
    pub sort_order: i32,
    pub created_at: NaiveDateTime,
    pub updated_at: NaiveDateTime,
}

impl View for Category {
    type V = CategoryView;

    open spec fn view(&self) -> CategoryView {
        CategoryView {
            id: self.id@,
            taxonomy_id: self.taxonomy_id@,
            parent_id: text_of(self.parent_id),
            name: self.name@,
            key: self.key@,
            color: self.color@,
            description: text_of(self.description),
            sort_order: self.sort_order,
            created_at: self.created_at,
            updated_at: self.updated_at,
        }
    }
}

/// The views of a list of categories.
pub open spec fn categories_view(categories: Seq<Category>) -> Seq<CategoryView> {
    categories.map_values(|c: Category| c@)
}

/// A category that is to be created.
#[derive(Debug)]
pub struct NewCategory {
    pub id: Option<String>,
    pub taxonomy_id: String,
    pub parent_id: Option<String>,
    pub name: String,
    pub key: String,
    pub color: String,
    pub description: Option<String>,
    pub sort_order: i32,
}

pub struct NewCategoryView {
    pub id: Option<Seq<char>>,
    pub taxonomy_id: Seq<char>,
    pub parent_id: Option<Seq<char>>,
    pub name: Seq<char>,
    pub key: Seq<char>,
    pub color: Seq<char>,
    pub description: Option<Seq<char>>,
    pub sort_order: int,
}

impl View for NewCategory {
    type V = NewCategoryView;

    open spec fn view(&self) -> NewCategoryView {
        NewCategoryView {
            id: text_of(self.id),
            taxonomy_id: self.taxonomy_id@,
            parent_id: text_of(self.parent_id),
            name: self.name@,
            key: self.key@,
            color: self.color@,
            description: text_of(self.description),
            sort_order: self.sort_order as int,
        }
    }
}

/// The views of a list of categories that are to be created.
pub open spec fn new_categories_view(categories: Seq<NewCategory>) -> Seq<NewCategoryView> {
    categories.map_values(|c: NewCategory| c@)
}

/// A taxonomy together with all its categories.
#[derive(Debug)]
pub struct TaxonomyWithCategories {
    pub taxonomy: Taxonomy,
    pub categories: Vec<Category>,
}

pub struct TaxonomyWithCategoriesView {
    pub taxonomy: TaxonomyView,
    pub categories: Seq<CategoryView>,
}

impl View for TaxonomyWithCategories {
    type V = TaxonomyWithCategoriesView;

    open spec fn view(&self) -> TaxonomyWithCategoriesView {
        TaxonomyWithCategoriesView {
            taxonomy: self.taxonomy@,
            categories: categories_view(self.categories@),
        }
    }
}

/// The views of a list of taxonomies with their categories.
pub open spec fn taxonomies_view(taxonomies: Seq<TaxonomyWithCategories>) -> Seq<
    TaxonomyWithCategoriesView,
> {
    taxonomies.map_values(|t: TaxonomyWithCategories| t@)
}

/// The share of an asset, in basis points, that falls into a category.
#[derive(Debug)]
pub struct AssetTaxonomyAssignment {
    pub id: String,
    pub asset_id: String,
    pub taxonomy_id: String,
    pub category_id: String,
    pub weight: i32,
    pub source: String,
    pub created_at: NaiveDateTime,
    pub updated_at: NaiveDateTime,
}

pub struct AssignmentView {
    pub id: Seq<char>,
    pub asset_id: Seq<char>,
    pub taxonomy_id: Seq<char>,
    pub category_id: Seq<char>,
    pub weight: i32,
    pub source: Seq<char>,
    pub created_at: NaiveDateTime,
    pub updated_at: NaiveDateTime,
}

impl View for AssetTaxonomyAssignment {
    type V = AssignmentView;

    open spec fn view(&self) -> AssignmentView {
        AssignmentView {
            id: self.id@,
            asset_id: self.asset_id@,
            taxonomy_id: self.taxonomy_id@,
            category_id: self.category_id@,
            weight: self.weight,
            source: self.source@,
            created_at: self.created_at,
            updated_at: self.updated_at,
        }
    }
}

impl Clone for AssetTaxonomyAssignment {
    fn clone(&self) -> (copy: Self)
        ensures
            copy@ == self@,
    {
        AssetTaxonomyAssignment {
            id: self.id.clone(),
            asset_id: self.asset_id.clone(),
            taxonomy_id: self.taxonomy_id.clone(),
            category_id: self.category_id.clone(),
            weight: self.weight,
            source: self.source.clone(),
            created_at: self.created_at,
            updated_at: self.updated_at,
        }
    }
}

/// The views of a list of stored assignments.
pub open spec fn assignments_view(assignments: Seq<AssetTaxonomyAssignment>) -> Seq<
    AssignmentView,
> {
    assignments.map_values(|a: AssetTaxonomyAssignment| a@)
}

/// An assignment that is to be stored; the store picks the id where it is absent.
#[derive(Debug)]
pub struct NewAssetTaxonomyAssignment {
    pub id: Option<String>,
    pub asset_id: String,
    pub taxonomy_id: String,
    pub category_id: String,
    pub weight: i32,
    pub source: String,
}

pub struct NewAssignmentView {
    pub id: Option<Seq<char>>,
    pub asset_id: Seq<char>,
    pub taxonomy_id: Seq<char>,
    pub category_id: Seq<char>,
    pub weight: i32,
    pub source: Seq<char>,
}

impl View for NewAssetTaxonomyAssignment {
    type V = NewAssignmentView;

    open spec fn view(&self) -> NewAssignmentView {
        NewAssignmentView {
            id: text_of(self.id),
            asset_id: self.asset_id@,
            taxonomy_id: self.taxonomy_id@,
            category_id: self.category_id@,
            weight: self.weight,
            source: self.source@,
        }
    }
}

/// The views of a list of assignments that are to be stored.
pub open spec fn new_assignments_view(assignments: Seq<NewAssetTaxonomyAssignment>) -> Seq<
    NewAssignmentView,
> {
    assignments.map_values(|a: NewAssetTaxonomyAssignment| a@)
}

/// A category in an exchanged document, with the categories below it.
#[derive(Debug)]
pub struct CategoryJson {
    pub name: String,
    pub key: String,
    pub color: String,
    pub description: Option<String>,
    pub children: Vec<CategoryJson>,
}

pub struct CategoryJsonView {
    pub name: Seq<char>,
    pub key: Seq<char>,
    pub color: Seq<char>,
    pub description: Option<Seq<char>>,
    pub children: Seq<CategoryJsonView>,
}

/// The views of a list of exchanged categories, all the way down.
pub open spec fn forest_view(nodes: Seq<CategoryJson>) -> Seq<CategoryJsonView>
    decreases nodes,
{
    Seq::new(
        nodes.len(),
        |i: int|
            if 0 <= i < nodes.len() {
                CategoryJsonView {
                    name: nodes[i].name@,
                    key: nodes[i].key@,
                    color: nodes[i].color@,
                    description: text_of(nodes[i].description),
                    children: forest_view(nodes[i].children@),
                }
            } else {
                arbitrary()
            },
    )
}

impl View for CategoryJson {
    type V = CategoryJsonView;

    open spec fn view(&self) -> CategoryJsonView {
        CategoryJsonView {
            name: self.name@,
            key: self.key@,
            color: self.color@,
            description: text_of(self.description),
            children: forest_view(self.children@),
        }
    }
}

/// The document that a taxonomy is imported from and exported to.
///
/// `instruments` holds each instrument mapping as raw JSON text.
#[derive(Debug)]
pub struct TaxonomyJson {
    pub name: String,
    pub color: String,
    pub categories: Vec<CategoryJson>,
    pub instruments: Vec<String>,
}

pub struct TaxonomyJsonView {
    pub name: Seq<char>,
    pub color: Seq<char>,
    pub categories: Seq<CategoryJsonView>,
    pub instruments: Seq<Seq<char>>,
}

impl View for TaxonomyJson {
    type V = TaxonomyJsonView;

    open spec fn view(&self) -> TaxonomyJsonView {
        TaxonomyJsonView {
            name: self.name@,
            color: self.color@,
            categories: forest_view(self.categories@),
            instruments: self.instruments@.map_values(|text: String| text@),
        }
    }
}

/// An asset as a symbol search finds it.
#[derive(Debug)]
pub struct Asset {
    pub id: String,
    pub instrument_symbol: Option<String>,
}

/// The view of a taxonomy holds each of its fields.
pub proof fn law_taxonomy_view(record: Taxonomy)
    ensures
        record@.id == record.id@,
        record@.name == record.name@,
        record@.color == record.color@,
        record@.description == (match record.description {
            Some(text) => Some(text@),
            None => None,
        }),
        record@.is_system == record.is_system,
        record@.is_single_select == record.is_single_select,
        record@.sort_order == record.sort_order,
        record@.created_at == record.created_at,
        record@.updated_at == record.updated_at,
{
}

/// The view of a taxonomy to be created holds each of its fields.
pub proof fn law_new_taxonomy_view(record: NewTaxonomy)
    ensures
        record@.id == (match record.id {
            Some(text) => Some(text@),
            None => None,
        }),
        record@.name == record.name@,
        record@.color == record.color@,
        record@.description == (match record.description {
            Some(text) => Some(text@),
            None => None,
        }),
        record@.is_system == record.is_system,
        record@.is_single_select == record.is_single_select,
        record@.sort_order == record.sort_order,
{
}

/// The view of a category holds each of its fields.
pub proof fn law_category_view(record: Category)
    ensures
        record@.id == record.id@,
        record@.taxonomy_id == record.taxonomy_id@,
        record@.parent_id == (match record.parent_id {
            Some(text) => Some(text@),
            None => None,
        }),
        record@.name == record.name@,
        record@.key == record.key@,
        record@.color == record.color@,
        record@.description == (match record.description {
            Some(text) => Some(text@),
            None => None,
        }),
        record@.sort_order == record.sort_order,
        record@.created_at == record.created_at,
        record@.updated_at == record.updated_at,
{
}

/// The view of a category to be created holds each of its fields.
pub proof fn law_new_category_view(record: NewCategory)
    ensures
        record@.id == (match record.id {
            Some(text) => Some(text@),
            None => None,
        }),
        record@.taxonomy_id == record.taxonomy_id@,
        record@.parent_id == (match record.parent_id {
            Some(text) => Some(text@),
            None => None,
        }),
        record@.name == record.name@,
        record@.key == record.key@,
        record@.color == record.color@,
        record@.description == (match record.description {
            Some(text) => Some(text@),
            None => None,
        }),
        record@.sort_order == record.sort_order,
{
}

/// The view of an assignment holds each of its fields.
pub proof fn law_assignment_view(record: AssetTaxonomyAssignment)
    ensures
        record@.id == record.id@,
        record@.asset_id == record.asset_id@,
        record@.taxonomy_id == record.taxonomy_id@,
        record@.category_id == record.category_id@,
        record@.weight == record.weight,
        record@.source == record.source@,
        record@.created_at == record.created_at,
        record@.updated_at == record.updated_at,
{
}

/// The view of an assignment to be stored holds each of its fields.
pub proof fn law_new_assignment_view(record: NewAssetTaxonomyAssignment)
    ensures
        record@.id == (match record.id {
            Some(text) => Some(text@),
            None => None,
        }),
        record@.asset_id == record.asset_id@,
        record@.taxonomy_id == record.taxonomy_id@,
        record@.category_id == record.category_id@,
        record@.weight == record.weight,
        record@.source == record.source@,
{
}

/// The view of a taxonomy with its categories holds the taxonomy and every
/// category, in order.
pub proof fn law_taxonomy_with_categories_view(record: TaxonomyWithCategories)
    ensures
        record@.taxonomy == record.taxonomy@,
        record@.categories.len() == record.categories@.len(),
        forall|i: int|
            #![trigger record@.categories[i]]
            0 <= i < record.categories@.len() ==> record@.categories[i] == record.categories@[i]@,
{
}

/// The view of an exchanged category holds each of its fields and every category
/// below it, in order.
pub proof fn law_category_json_view(record: CategoryJson)
    ensures
        record@.name == record.name@,
        record@.key == record.key@,
        record@.color == record.color@,
        record@.description == (match record.description {
            Some(text) => Some(text@),
            None => None,
        }),
        record@.children.len() == record.children@.len(),
        forall|i: int|
            #![trigger record@.children[i]]
            0 <= i < record.children@.len() ==> record@.children[i] == record.children@[i]@,
{
}

/// The view of a document holds its name, its color, every category and every
/// instrument mapping, in order.
pub proof fn law_taxonomy_json_view(record: TaxonomyJson)
    ensures
        record@.name == record.name@,
        record@.color == record.color@,
        record@.categories.len() == record.categories@.len(),
        forall|i: int|
            #![trigger record@.categories[i]]
            0 <= i < record.categories@.len() ==> record@.categories[i] == record.categories@[i]@,
        record@.instruments.len() == record.instruments@.len(),
        forall|i: int|
            #![trigger record@.instruments[i]]
            0 <= i < record.instruments@.len() ==> record@.instruments[i]
                == record.instruments@[i]@,
{
}

/// The view of an optional string is absent exactly where the string is, and
/// holds its characters otherwise.
pub proof fn law_text_of(text: Option<String>)
    ensures
        text is None <==> text_of(text) is None,
        text matches Some(t) ==> text_of(text) == Some(t@),
{
}

/// The view of a list of categories holds the view of each, in place.
pub proof fn law_categories_view(records: Seq<Category>)
    ensures
        categories_view(records).len() == records.len(),
        forall|i: int|
            #![trigger categories_view(records)[i]]
            0 <= i < records.len() ==> categories_view(records)[i] == records[i]@,
{
}

/// The view of a list of categories to be created holds the view of each, in place.
pub proof fn law_new_categories_view(records: Seq<NewCategory>)
    ensures
        new_categories_view(records).len() == records.len(),
        forall|i: int|
            #![trigger new_categories_view(records)[i]]
            0 <= i < records.len() ==> new_categories_view(records)[i] == records[i]@,
{
}

/// The view of a list of taxonomies holds the view of each, in place.
pub proof fn law_taxonomies_view(records: Seq<TaxonomyWithCategories>)
    ensures
        taxonomies_view(records).len() == records.len(),
        forall|i: int|
            #![trigger taxonomies_view(records)[i]]
            0 <= i < records.len() ==> taxonomies_view(records)[i] == records[i]@,
{
}

/// The view of a list of assignments holds the view of each, in place.
pub proof fn law_assignments_view(records: Seq<AssetTaxonomyAssignment>)
    ensures
        assignments_view(records).len() == records.len(),
        forall|i: int|
            #![trigger assignments_view(records)[i]]
            0 <= i < records.len() ==> assignments_view(records)[i] == records[i]@,
{
}

/// The view of a list of assignments to be stored holds the view of each, in place.
pub proof fn law_new_assignments_view(records: Seq<NewAssetTaxonomyAssignment>)
    ensures
        new_assignments_view(records).len() == records.len(),
        forall|i: int|
            #![trigger new_assignments_view(records)[i]]
            0 <= i < records.len() ==> new_assignments_view(records)[i] == records[i]@,
{
}

/// The view of a list of exchanged categories holds the view of each, in place.
pub proof fn law_forest_view(records: Seq<CategoryJson>)
    ensures
        forest_view(records).len() == records.len(),
        forall|i: int|
            #![trigger forest_view(records)[i]]
            0 <= i < records.len() ==> forest_view(records)[i] == records[i]@,
{
}

} // verus!
