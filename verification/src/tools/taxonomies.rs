//! The tool that lists all taxonomies and their categories.
use crate::errors::AiError;
use crate::models::{
    taxonomies_view, text_of, CategoryView, TaxonomyWithCategories, TaxonomyWithCategoriesView,
};
use crate::tools::definition::{ToolDefinition, ToolDefinitionView};
use std::sync::Arc;
use vstd::prelude::*;

verus! {

/// The name of the tool.
pub const NAME: &'static str = "list_taxonomies";

/// What the tool does, as the agent is told.
pub const DESCRIPTION: &'static str = "List all taxonomies and their categories. Use this to discover available classification schemes (e.g., regions, sectors, asset classes) before assigning assets to categories.";

/// Arguments of the tool: none.
#[derive(Debug)]
pub struct ListTaxonomiesArgs {}

/// A category of a listed taxonomy.
#[derive(Debug, Clone)]
pub struct CategoryDto {
    pub category_id: String,
    pub category_name: String,
    pub parent_id: Option<String>,
    pub sort_order: i32,
}

pub struct CategoryDtoView {
    pub category_id: Seq<char>,
    pub category_name: Seq<char>,
    pub parent_id: Option<Seq<char>>,
    pub sort_order: i32,
}

impl View for CategoryDto {
    type V = CategoryDtoView;

    open spec fn view(&self) -> CategoryDtoView {
        CategoryDtoView {
            category_id: self.category_id@,
            category_name: self.category_name@,
            parent_id: text_of(self.parent_id),
            sort_order: self.sort_order,
        }
    }
}

/// A listed taxonomy with its categories.
#[derive(Debug, Clone)]
pub struct TaxonomyDto {
    pub taxonomy_id: String,
    pub taxonomy_name: String,
    pub is_single_select: bool,
    pub categories: Vec<CategoryDto>,
}

pub struct TaxonomyDtoView {
    pub taxonomy_id: Seq<char>,
    pub taxonomy_name: Seq<char>,
    pub is_single_select: bool,
    pub categories: Seq<CategoryDtoView>,
}

impl View for TaxonomyDto {
    type V = TaxonomyDtoView;

    open spec fn view(&self) -> TaxonomyDtoView {
        TaxonomyDtoView {
            taxonomy_id: self.taxonomy_id@,
            taxonomy_name: self.taxonomy_name@,
            is_single_select: self.is_single_select,
            categories: self.categories@.map_values(|c: CategoryDto| c@),
        }
    }
}

/// Output of the tool.
#[derive(Debug, Clone)]
pub struct ListTaxonomiesOutput {
    pub taxonomies: Vec<TaxonomyDto>,
}

/// What the tool shows of a category.
pub open spec fn listed_category(category: CategoryView) -> CategoryDtoView {
    CategoryDtoView {
        category_id: category.id,
        category_name: category.name,
        parent_id: category.parent_id,
        sort_order: category.sort_order,
    }
}

/// What the tool shows of a taxonomy.
pub open spec fn listed_taxonomy(taxonomy: TaxonomyWithCategoriesView) -> TaxonomyDtoView {
    TaxonomyDtoView {
        taxonomy_id: taxonomy.taxonomy.id,
        taxonomy_name: taxonomy.taxonomy.name,
        is_single_select: taxonomy.taxonomy.is_single_select,
        categories: taxonomy.categories.map_values(|c: CategoryView| listed_category(c)),
    }
}

/// What is listed of a taxonomy, field by field and category by category.
pub open spec fn is_listed(stored: TaxonomyWithCategories, listed: TaxonomyDto) -> bool {
    &&& listed.taxonomy_id@ == stored.taxonomy.id@
    &&& listed.taxonomy_name@ == stored.taxonomy.name@
    &&& listed.is_single_select == stored.taxonomy.is_single_select
    &&& listed.categories@.len() == stored.categories@.len()
    &&& forall|k: int|
        #![trigger listed.categories@[k]]
        0 <= k < stored.categories@.len() ==> listed.categories@[k].category_id@
            == stored.categories@[k].id@ && listed.categories@[k].category_name@
            == stored.categories@[k].name@ && text_of(listed.categories@[k].parent_id) == text_of(
            stored.categories@[k].parent_id,
        ) && listed.categories@[k].sort_order == stored.categories@[k].sort_order
}

/// The tool, with the environment that it reaches the services through.
pub struct ListTaxonomiesTool<E> {
    env: Arc<E>,
}

impl<E> ListTaxonomiesTool<E> {
    /// The environment of the tool.
    pub closed spec fn environment(&self) -> Arc<E> {
        self.env
    }

    pub fn new(env: Arc<E>) -> (tool: Self)
        ensures
            tool.environment() == env,
    {
        Self { env }
    }

    /// The environment of the tool.
    pub fn env(&self) -> (env: &Arc<E>)
        ensures
            *env == self.environment(),
    {
        &self.env
    }

    /// The definition of the tool: it takes no parameters.
    pub fn definition(&self) -> (definition: ToolDefinition)
        ensures
            definition@ == (ToolDefinitionView {
                name: NAME@,
                description: DESCRIPTION@,
                parameters: Seq::empty(),
            }),
    {
        let definition = ToolDefinition {
            name: NAME.to_string(),
            description: DESCRIPTION.to_string(),
            parameters: Vec::new(),
        };
        assert(definition@.parameters =~= Seq::empty());
        definition
    }

    /// Answers a call of the tool from what `get_taxonomies_with_categories()` of
    /// the taxonomy service gave: each taxonomy is listed, in order, with all its
    /// categories in order.
    pub fn call(
        &self,
        _args: ListTaxonomiesArgs,
        found: Result<Vec<TaxonomyWithCategories>, String>,
    ) -> (outcome: Result<ListTaxonomiesOutput, AiError>)
        ensures
            match found {
                Err(reason) => outcome == Err::<ListTaxonomiesOutput, AiError>(
                    AiError::ToolExecutionFailed(reason),
                ),
                Ok(taxonomies) => outcome matches Ok(output) && output.taxonomies@.len()
                    == taxonomies@.len() && (forall|i: int|
                    #![trigger output.taxonomies@[i]]
                    0 <= i < taxonomies@.len() ==> is_listed(
                        taxonomies@[i],
                        output.taxonomies@[i],
                    )) && output.taxonomies@.map_values(
                    |t: TaxonomyDto| t@,
                ) == taxonomies_view(taxonomies@).map_values(
                    |t: TaxonomyWithCategoriesView| listed_taxonomy(t),
                ),
            },
    {
        let taxonomies = match found {
            Err(reason) => {
                return Err(AiError::ToolExecutionFailed(reason));
            },
            Ok(taxonomies) => taxonomies,
        };
        let mut listed: Vec<TaxonomyDto> = Vec::new();
        let mut i: usize = 0;
        while i < taxonomies.len()
            invariant
                i <= taxonomies@.len(),
                listed@.len() == i,
                forall|j: int|
                    0 <= j < i ==> (#[trigger] listed@[j])@ == listed_taxonomy(taxonomies@[j]@)
                        && is_listed(taxonomies@[j], listed@[j]),
            decreases taxonomies@.len() - i,
        {
            let source = &taxonomies[i];
            let mut categories: Vec<CategoryDto> = Vec::new();
            let mut k: usize = 0;
            while k < source.categories.len()
                invariant
                    k <= source.categories@.len(),
                    categories@.len() == k,
                    forall|j: int|
                        0 <= j < k ==> (#[trigger] categories@[j])@ == listed_category(
                            source.categories@[j]@,
                        ) && categories@[j].category_id@ == source.categories@[j].id@
                            && categories@[j].category_name@ == source.categories@[j].name@
                            && text_of(categories@[j].parent_id) == text_of(
                            source.categories@[j].parent_id,
                        ) && categories@[j].sort_order == source.categories@[j].sort_order,
                decreases source.categories@.len() - k,
            {
                let category = &source.categories[k];
                categories.push(
                    CategoryDto {
                        category_id: category.id.clone(),
                        category_name: category.name.clone(),
                        parent_id: category.parent_id.clone(),
                        sort_order: category.sort_order,
                    },
                );
                k = k + 1;
            }
            let dto = TaxonomyDto {
                taxonomy_id: source.taxonomy.id.clone(),
                taxonomy_name: source.taxonomy.name.clone(),
                is_single_select: source.taxonomy.is_single_select,
                categories,
            };
            assert(dto@.categories =~= listed_taxonomy(source@).categories);
            listed.push(dto);
            i = i + 1;
        }
        let output = ListTaxonomiesOutput { taxonomies: listed };
        assert(output.taxonomies@.map_values(|t: TaxonomyDto| t@) =~= taxonomies_view(
            taxonomies@,
        ).map_values(|t: TaxonomyWithCategoriesView| listed_taxonomy(t)));
        Ok(output)
    }
}

impl<E> Clone for ListTaxonomiesTool<E> {
    fn clone(&self) -> (tool: Self)
        ensures
            tool.environment() == self.environment(),
    {
        Self { env: self.env.clone() }
    }
}

/// What is listed holds what is stored: of a taxonomy its id, name and kind of
/// choice, and of each of its categories, in order, the id, name, parent and sort
/// order.
pub proof fn law_listing_holds_what_is_stored(stored: TaxonomyWithCategoriesView)
    ensures
        listed_taxonomy(stored).taxonomy_id == stored.taxonomy.id,
        listed_taxonomy(stored).taxonomy_name == stored.taxonomy.name,
        listed_taxonomy(stored).is_single_select == stored.taxonomy.is_single_select,
        listed_taxonomy(stored).categories.len() == stored.categories.len(),
        forall|k: int|
            #![trigger listed_taxonomy(stored).categories[k]]
            0 <= k < stored.categories.len() ==> {
                let listed = listed_taxonomy(stored).categories[k];
                &&& listed.category_id == stored.categories[k].id
                &&& listed.category_name == stored.categories[k].name
                &&& listed.parent_id == stored.categories[k].parent_id
                &&& listed.sort_order == stored.categories[k].sort_order
            },
{
}

/// A listed taxonomy has the id, the name and the kind of choice of the stored one,
/// and each listed category the id, the name, the parent and the sort order of the
/// stored one in the same place.
pub proof fn law_listed_records_match(
    stored: TaxonomyWithCategories,
    listed: TaxonomyDto,
    k: int,
)
    requires
        is_listed(stored, listed),
    ensures
        listed.taxonomy_id@ == stored.taxonomy.id@,
        listed.taxonomy_name@ == stored.taxonomy.name@,
        listed.is_single_select == stored.taxonomy.is_single_select,
        listed.categories@.len() == stored.categories@.len(),
        0 <= k < stored.categories@.len() ==> listed.categories@[k].category_id@
            == stored.categories@[k].id@ && listed.categories@[k].category_name@
            == stored.categories@[k].name@ && listed.categories@[k].sort_order
            == stored.categories@[k].sort_order && (match (
            listed.categories@[k].parent_id,
            stored.categories@[k].parent_id,
        ) {
            (Some(shown), Some(parent)) => shown@ == parent@,
            (None, None) => true,
            _ => false,
        }),
{
    if 0 <= k < stored.categories@.len() {
        assert(text_of(listed.categories@[k].parent_id) == text_of(
            stored.categories@[k].parent_id,
        ));
    }
}

} // verus!
