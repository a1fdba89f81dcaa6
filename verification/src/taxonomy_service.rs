//! The taxonomy service: its hierarchy of categories, what may be deleted, and
//! where a category moves.
use crate::children_map::{positions, ChildrenMap};
use crate::errors::Error;
use crate::flatten::{
    category_count, flatten, flatten_with_ids, forest_size, id_texts, law_rows_follow_their_parents,
    row_ids,
};
use crate::hierarchy::{
    describes, hierarchy, is_finite, is_hierarchy, law_forest_shows_every_row, lemma_finite_below,
};
use crate::ids::{fresh_ids, is_uuid_v4};
use crate::models::{
    categories_view, forest_view, new_categories_view, text_of, AssetTaxonomyAssignment, Category,
    CategoryJson, CategoryJsonView, CategoryView, NewCategory, Taxonomy,
};
use crate::ordering::{is_sibling_order, lemma_siblings, siblings};
use crate::text::{decimal, decimal_text};
use std::sync::Arc;
use vstd::prelude::*;

verus! {

/// The taxonomy service over a store `R`.
///
/// The store is reached from outside: each operation below takes what a call on
/// the store gave back and says which call comes next.
pub struct TaxonomyService<R: ?Sized> {
    repository: Arc<R>,
}

impl<R: ?Sized> TaxonomyService<R> {
    /// The store of the service.
    pub closed spec fn store(&self) -> Arc<R> {
        self.repository
    }

    pub fn new(repository: Arc<R>) -> (service: Self)
        ensures
            service.store() == repository,
    {
        Self { repository }
    }

    /// The store of the service.
    pub fn repository(&self) -> (repository: &Arc<R>)
        ensures
            *repository == self.store(),
    {
        &self.repository
    }

    /// Writes a category forest out as rows with fresh ids, parents before
    /// children, numbering them from `sort_start` on.
    pub fn flatten_categories(
        &self,
        taxonomy_id: &str,
        categories: &[CategoryJson],
        parent_id: Option<String>,
        sort_start: &mut i32,
    ) -> (rows: Vec<NewCategory>)
        requires
            *old(sort_start) + forest_size(forest_view(categories@)) <= i32::MAX,
        ensures
            new_categories_view(rows@) == flatten(
                taxonomy_id@,
                forest_view(categories@),
                text_of(parent_id),
                *old(sort_start) as int,
                row_ids(new_categories_view(rows@)),
                0,
            ),
            rows@.len() == forest_size(forest_view(categories@)),
            forall|i: int|
                0 <= i < rows@.len() ==> (#[trigger] rows@[i]).id is Some && is_uuid_v4(
                    rows@[i].id->0@,
                ) && rows@[i].taxonomy_id@ == taxonomy_id@ && rows@[i].sort_order == *old(
                    sort_start,
                ) + i,
            *final(sort_start) == *old(sort_start) + forest_size(forest_view(categories@)),
    {
        let count: u32 = category_count(categories).unwrap();
        let ids = fresh_ids(count as usize);
        let start: i32 = *sort_start;
        let rows = flatten_with_ids(taxonomy_id, categories, parent_id, start, ids.as_slice());
        assert(row_ids(new_categories_view(rows@)) =~= id_texts(ids@)) by {
            assert forall|i: int| 0 <= i < rows@.len() implies row_ids(new_categories_view(rows@))[i]
                == id_texts(ids@)[i] by {
                assert(text_of(rows@[i].id) == Some(ids@[i]@));
            }
        }
        proof {
            assert forall|i: int| 0 <= i < rows@.len() implies (
            #[trigger] rows@[i]).taxonomy_id@ == taxonomy_id@ && rows@[i].sort_order == start
                + i by {
                law_rows_follow_their_parents(
                    taxonomy_id@,
                    forest_view(categories@),
                    text_of(parent_id),
                    start as int,
                    id_texts(ids@),
                    0,
                    i,
                );
                assert(new_categories_view(rows@)[i] == rows@[i]@);
            }
        }
        *sort_start = (start as i64 + count as i64) as i32;
        rows
    }

    /// Builds the forest under `parent_id` from grouped rows.
    pub fn build_category_tree(
        &self,
        children_map: &ChildrenMap<'_>,
        parent_id: Option<String>,
    ) -> (nodes: Vec<CategoryJson>)
        requires
            is_finite(children_map.rows(), text_of(parent_id)),
        ensures
            is_hierarchy(children_map.rows(), text_of(parent_id), forest_view(nodes@)),
        decreases hierarchy(children_map.rows(), text_of(parent_id)),
    {
        let ghost rows = children_map.rows();
        let ghost parent = text_of(parent_id);
        let ghost order = siblings(rows, parent);
        let ghost forest = hierarchy(rows, parent);
        proof {
            lemma_siblings(rows, parent);
            assert(is_hierarchy(rows, parent, forest));
        }
        let mut nodes: Vec<CategoryJson> = Vec::new();
        if let Some(group) = children_map.get(&parent_id) {
            let mut k: usize = 0;
            while k < group.len()
                invariant
                    k <= group@.len(),
                    nodes@.len() == k,
                    rows == children_map.rows(),
                    parent == text_of(parent_id),
                    order == siblings(rows, parent),
                    order == positions(group@),
                    is_sibling_order(rows, parent, rows.len() as int, order),
                    is_finite(rows, parent),
                    forest == hierarchy(rows, parent),
                    forest.len() == order.len(),
                    forall|j: int|
                        #![trigger nodes@[j]]
                        0 <= j < k ==> describes(nodes@[j]@, rows[order[j]]) && is_hierarchy(
                            rows,
                            Some(rows[order[j]].id),
                            nodes@[j]@.children,
                        ),
                decreases group@.len() - k,
            {
                proof {
                    assert(order[k as int] == group@[k as int]);
                    lemma_finite_below(rows, parent, k as int);
                }
                let cat = children_map.row(group[k]);
                let children = self.build_category_tree(children_map, Some(cat.id.clone()));
                nodes.push(
                    CategoryJson {
                        name: cat.name.clone(),
                        key: cat.key.clone(),
                        color: cat.color.clone(),
                        description: cat.description.clone(),
                        children,
                    },
                );
                k = k + 1;
            }
        }
        proof {
            let view = forest_view(nodes@);
            assert forall|k: int| #![trigger view[k]] 0 <= k < view.len() implies describes(
                view[k],
                rows[order[k]],
            ) && is_hierarchy(rows, Some(rows[order[k]].id), view[k].children) by {
                assert(view[k] == nodes@[k]@);
            }
        }
        nodes
    }

    /// The rows of a taxonomy as the forest that they form.
    pub fn categories_to_json(&self, categories: &[Category]) -> (nodes: Vec<CategoryJson>)
        requires
            is_finite(categories_view(categories@), None),
        ensures
            is_hierarchy(categories_view(categories@), None, forest_view(nodes@)),
    {
        let children_map = ChildrenMap::new(categories);
        self.build_category_tree(&children_map, None)
    }

    /// Starts the deletion of a taxonomy.
    pub fn delete_taxonomy(&self, id: &str) -> (next: TaxonomyLookup)
        ensures
            next.id@ == id@,
    {
        TaxonomyLookup { id: id.to_string() }
    }

    /// Starts the deletion of a category.
    pub fn delete_category(&self, taxonomy_id: &str, category_id: &str) -> (next: ChildLookup)
        ensures
            next.taxonomy_id@ == taxonomy_id@,
            next.category_id@ == category_id@,
    {
        ChildLookup { taxonomy_id: taxonomy_id.to_string(), category_id: category_id.to_string() }
    }

    /// Starts moving a category under another parent, to a position there.
    pub fn move_category(
        &self,
        taxonomy_id: &str,
        category_id: &str,
        new_parent_id: Option<String>,
        position: i32,
    ) -> (next: CategoryMove)
        ensures
            next.taxonomy_id@ == taxonomy_id@,
            next.category_id@ == category_id@,
            next.new_parent_id == new_parent_id,
            next.position == position,
    {
        CategoryMove {
            taxonomy_id: taxonomy_id.to_string(),
            category_id: category_id.to_string(),
            new_parent_id,
            position,
        }
    }
}

/// The deletion of a taxonomy begins: the next call is `get_taxonomy(id)`.
pub struct TaxonomyLookup {
    pub id: String,
}

/// A taxonomy may go: the next and last call is `delete_taxonomy(id)`.
pub struct TaxonomyDeletion {
    pub id: String,
}

impl TaxonomyLookup {
    /// Decides on the deletion once `get_taxonomy` has answered: a system
    /// taxonomy stays.
    pub fn taxonomy_found(self, found: Result<Option<Taxonomy>, Error>) -> (next: Result<
        TaxonomyDeletion,
        Error,
    >)
        ensures
            match found {
                Err(error) => next == Err::<TaxonomyDeletion, Error>(error),
                Ok(Some(taxonomy)) if taxonomy.is_system => next matches Err(error)
                    && error.is_invalid_input("Cannot delete system taxonomy"@),
                Ok(_) => next == Ok::<TaxonomyDeletion, Error>(TaxonomyDeletion { id: self.id }),
            },
    {
        if let Some(taxonomy) = found? {
            if taxonomy.is_system {
                return Err(Error::invalid_input("Cannot delete system taxonomy".to_string()));
            }
        }
        Ok(TaxonomyDeletion { id: self.id })
    }
}

/// The deletion of a category begins: the next call is
/// `get_categories(taxonomy_id)`.
pub struct ChildLookup {
    pub taxonomy_id: String,
    pub category_id: String,
}

/// A category without children: the next call is
/// `get_category_assignments(taxonomy_id, category_id)`.
pub struct LeafCategory {
    pub taxonomy_id: String,
    pub category_id: String,
}

/// A category may go: the next and last call is
/// `delete_category(taxonomy_id, category_id)`.
pub struct CategoryDeletion {
    pub taxonomy_id: String,
    pub category_id: String,
}

/// Some row names `category_id` as its parent.
pub open spec fn has_children(rows: Seq<CategoryView>, category_id: Seq<char>) -> bool {
    exists|i: int| 0 <= i < rows.len() && (#[trigger] rows[i]).parent_id == Some(category_id)
}

impl ChildLookup {
    /// Decides on the deletion once `get_categories` has answered: a category
    /// with children stays.
    pub fn categories_found(self, categories: Result<Vec<Category>, Error>) -> (next: Result<
        LeafCategory,
        Error,
    >)
        ensures
            categories matches Ok(rows) ==> (next is Err <==> exists|i: int|
                #![trigger rows@[i]]
                0 <= i < rows@.len() && (rows@[i].parent_id matches Some(parent) && parent@
                    == self.category_id@)),
            match categories {
                Err(error) => next == Err::<LeafCategory, Error>(error),
                Ok(rows) => if has_children(categories_view(rows@), self.category_id@) {
                    next matches Err(error) && error.is_invalid_input(
                        "Cannot delete category with children"@,
                    )
                } else {
                    next == Ok::<LeafCategory, Error>(
                        LeafCategory {
                            taxonomy_id: self.taxonomy_id,
                            category_id: self.category_id,
                        },
                    )
                },
            },
    {
        let rows = categories?;
        let mut i: usize = 0;
        while i < rows.len()
            invariant
                i <= rows@.len(),
                categories == Ok::<Vec<Category>, Error>(rows),
                forall|j: int|
                    0 <= j < i ==> (#[trigger] rows@[j])@.parent_id != Some(self.category_id@),
            decreases rows@.len() - i,
        {
            if let Some(parent) = &rows[i].parent_id {
                if *parent == self.category_id {
                    assert(categories_view(rows@)[i as int].parent_id == Some(self.category_id@));
                    assert(rows@[i as int].parent_id matches Some(p) && p@ == self.category_id@);
                    return Err(
                        Error::invalid_input("Cannot delete category with children".to_string()),
                    );
                }
            }
            i = i + 1;
        }
        assert forall|j: int| 0 <= j < rows@.len() implies (#[trigger] categories_view(
            rows@,
        )[j]).parent_id != Some(self.category_id@) by {
            assert(rows@[j]@.parent_id != Some(self.category_id@));
        }
        Ok(LeafCategory { taxonomy_id: self.taxonomy_id, category_id: self.category_id })
    }
}

impl LeafCategory {
    /// Decides on the deletion once `get_category_assignments` has answered: a
    /// category that assets are assigned to stays.
    pub fn assignments_found(
        self,
        assignments: Result<Vec<AssetTaxonomyAssignment>, Error>,
    ) -> (next: Result<CategoryDeletion, Error>)
        ensures
            match assignments {
                Err(error) => next == Err::<CategoryDeletion, Error>(error),
                Ok(rows) => if rows@.len() > 0 {
                    next matches Err(error) && error.is_invalid_input(
                        "Cannot delete category with "@ + decimal(rows@.len())
                            + " asset assignments"@,
                    )
                } else {
                    next == Ok::<CategoryDeletion, Error>(
                        CategoryDeletion {
                            taxonomy_id: self.taxonomy_id,
                            category_id: self.category_id,
                        },
                    )
                },
            },
    {
        let rows = assignments?;
        if !rows.is_empty() {
            let message = "Cannot delete category with ".to_string().concat(
                decimal_text(rows.len() as u128).as_str(),
            ).concat(" asset assignments");
            return Err(Error::invalid_input(message));
        }
        Ok(CategoryDeletion { taxonomy_id: self.taxonomy_id, category_id: self.category_id })
    }
}

/// The move of a category begins: the next call is
/// `get_category(taxonomy_id, category_id)`.
pub struct CategoryMove {
    pub taxonomy_id: String,
    pub category_id: String,
    pub new_parent_id: Option<String>,
    pub position: i32,
}

impl CategoryMove {
    /// The category as it is to be stored, once `get_category` has answered; the
    /// next and last call is `update_category` on it.
    pub fn category_found(self, found: Result<Option<Category>, Error>) -> (next: Result<
        Category,
        Error,
    >)
        ensures
            match found {
                Err(error) => next == Err::<Category, Error>(error),
                Ok(None) => next matches Err(error) && error.is_not_found("Category not found"@),
                Ok(Some(category)) => next == Ok::<Category, Error>(
                    Category {
                        parent_id: self.new_parent_id,
                        sort_order: self.position,
                        ..category
                    },
                ),
            },
    {
        match found? {
            None => Err(Error::not_found("Category not found")),
            Some(category) => Ok(
                Category {
                    parent_id: self.new_parent_id,
                    sort_order: self.position,
                    ..category
                },
            ),
        }
    }
}

/// A category has children exactly where some row names its id as the parent, and
/// nothing else about that row matters. Where it has none, every row has another
/// parent or none.
pub proof fn law_children_are_rows_that_name_the_category(
    rows: Seq<CategoryView>,
    category_id: Seq<char>,
)
    ensures
        forall|i: int|
            #![trigger rows[i]]
            0 <= i < rows.len() && rows[i].parent_id == Some(category_id) ==> has_children(
                rows,
                category_id,
            ),
        !has_children(rows, category_id) <==> forall|i: int|
            #![trigger rows[i]]
            0 <= i < rows.len() ==> rows[i].parent_id != Some(category_id),
{
}

/// A category has children exactly where an export shows something below it.
pub proof fn law_leaf_has_an_empty_forest(
    rows: Seq<CategoryView>,
    category_id: Seq<char>,
    nodes: Seq<CategoryJsonView>,
)
    requires
        is_hierarchy(rows, Some(category_id), nodes),
    ensures
        has_children(rows, category_id) <==> nodes.len() > 0,
{
    law_forest_shows_every_row(rows, Some(category_id), nodes);
    if nodes.len() > 0 {
        lemma_siblings(rows, Some(category_id));
        let first = siblings(rows, Some(category_id))[0];
        assert(rows[first].parent_id == Some(category_id));
    }
}

} // verus!
