//! A category forest written out as rows, parents before children.
use crate::models::{
    forest_view, new_categories_view, text_of, CategoryJson, CategoryJsonView, NewCategory,
    NewCategoryView,
};
use vstd::prelude::*;

verus! {

/// How many categories a forest holds.
pub open spec fn forest_size(nodes: Seq<CategoryJsonView>) -> nat
    decreases nodes,
{
    if nodes.len() == 0 {
        0
    } else {
        forest_size(nodes.drop_last()) + 1 + forest_size(nodes.last().children)
    }
}

/// The row of one category.
pub open spec fn category_row(
    taxonomy_id: Seq<char>,
    node: CategoryJsonView,
    parent: Option<Seq<char>>,
    id: Seq<char>,
    sort_order: int,
) -> NewCategoryView {
    NewCategoryView {
        id: Some(id),
        taxonomy_id,
        parent_id: parent,
        name: node.name,
        key: node.key,
        color: node.color,
        description: node.description,
        sort_order,
    }
}

/// The rows of a forest under `parent`: each category is followed by all that
/// stands below it. The row in place `at + i` has id `ids[at + i]` and sort
/// order `sort_start + at + i`.
pub open spec fn flatten(
    taxonomy_id: Seq<char>,
    nodes: Seq<CategoryJsonView>,
    parent: Option<Seq<char>>,
    sort_start: int,
    ids: Seq<Seq<char>>,
    at: int,
) -> Seq<NewCategoryView>
    decreases nodes,
{
    if nodes.len() == 0 {
        Seq::empty()
    } else {
        let place = at + forest_size(nodes.drop_last());
        flatten(taxonomy_id, nodes.drop_last(), parent, sort_start, ids, at).push(
            category_row(taxonomy_id, nodes.last(), parent, ids[place], sort_start + place),
        ) + flatten(
            taxonomy_id,
            nodes.last().children,
            Some(ids[place]),
            sort_start,
            ids,
            place + 1,
        )
    }
}

/// The texts of a list of ids.
pub open spec fn id_texts(ids: Seq<String>) -> Seq<Seq<char>> {
    ids.map_values(|id: String| id@)
}

/// The ids of a list of rows.
pub open spec fn row_ids(rows: Seq<NewCategoryView>) -> Seq<Seq<char>> {
    rows.map_values(|row: NewCategoryView| row.id->0)
}

/// A forest has as many rows as it has categories.
pub proof fn lemma_flatten_len(
    taxonomy_id: Seq<char>,
    nodes: Seq<CategoryJsonView>,
    parent: Option<Seq<char>>,
    sort_start: int,
    ids: Seq<Seq<char>>,
    at: int,
)
    ensures
        flatten(taxonomy_id, nodes, parent, sort_start, ids, at).len() == forest_size(nodes),
    decreases nodes,
{
    if nodes.len() > 0 {
        let place = at + forest_size(nodes.drop_last());
        lemma_flatten_len(taxonomy_id, nodes.drop_last(), parent, sort_start, ids, at);
        lemma_flatten_len(
            taxonomy_id,
            nodes.last().children,
            Some(ids[place]),
            sort_start,
            ids,
            place + 1,
        );
    }
}

/// Every row of a forest has the id and the sort order of its place, and its
/// parent is the parent of the forest or an earlier row.
pub proof fn law_rows_follow_their_parents(
    taxonomy_id: Seq<char>,
    nodes: Seq<CategoryJsonView>,
    parent: Option<Seq<char>>,
    sort_start: int,
    ids: Seq<Seq<char>>,
    at: int,
    i: int,
)
    requires
        0 <= i < forest_size(nodes),
    ensures
        ({
            let row = flatten(taxonomy_id, nodes, parent, sort_start, ids, at)[i];
            &&& row.taxonomy_id == taxonomy_id
            &&& row.id == Some(ids[at + i])
            &&& row.sort_order == sort_start + at + i
            &&& row.parent_id == parent || exists|r: int|
                at <= r < at + i && row.parent_id == Some(#[trigger] ids[r])
        }),
    decreases nodes,
{
    let rows = flatten(taxonomy_id, nodes, parent, sort_start, ids, at);
    let before = flatten(taxonomy_id, nodes.drop_last(), parent, sort_start, ids, at);
    let size = forest_size(nodes.drop_last()) as int;
    let place = at + size;
    lemma_flatten_len(taxonomy_id, nodes.drop_last(), parent, sort_start, ids, at);
    let below = flatten(
        taxonomy_id,
        nodes.last().children,
        Some(ids[place]),
        sort_start,
        ids,
        place + 1,
    );
    lemma_flatten_len(
        taxonomy_id,
        nodes.last().children,
        Some(ids[place]),
        sort_start,
        ids,
        place + 1,
    );
    if i < size {
        law_rows_follow_their_parents(
            taxonomy_id,
            nodes.drop_last(),
            parent,
            sort_start,
            ids,
            at,
            i,
        );
        assert(rows[i] == before[i]);
    } else if i > size {
        law_rows_follow_their_parents(
            taxonomy_id,
            nodes.last().children,
            Some(ids[place]),
            sort_start,
            ids,
            place + 1,
            i - size - 1,
        );
        assert(rows[i] == below[i - size - 1]);
    }
}

/// A forest grows by each tree as large as the tree is.
pub proof fn lemma_size_of_prefix(nodes: Seq<CategoryJsonView>, i: int)
    requires
        0 <= i < nodes.len(),
    ensures
        forest_size(nodes.take(i + 1)) == forest_size(nodes.take(i)) + 1 + forest_size(
            nodes[i].children,
        ),
        forest_size(nodes.take(i + 1)) <= forest_size(nodes),
    decreases nodes.len(),
{
    assert(nodes.take(i + 1).drop_last() =~= nodes.take(i));
    if i + 1 == nodes.len() {
        assert(nodes.take(i + 1) =~= nodes);
    } else {
        lemma_size_of_prefix(nodes.drop_last(), i);
        assert(nodes.drop_last().take(i + 1) =~= nodes.take(i + 1));
    }
}

/// Counts the categories of a forest; `None` where they are more than a `u32`
/// can number.
pub fn category_count(categories: &[CategoryJson]) -> (count: Option<u32>)
    ensures
        match count {
            Some(n) => n == forest_size(forest_view(categories@)),
            None => forest_size(forest_view(categories@)) > u32::MAX,
        },
    decreases categories@,
{
    let ghost nodes = forest_view(categories@);
    let mut total: u32 = 0;
    let mut i: usize = 0;
    assert(nodes.take(0) =~= Seq::empty());
    while i < categories.len()
        invariant
            i <= categories@.len(),
            nodes == forest_view(categories@),
            total == forest_size(nodes.take(i as int)),
        decreases categories@.len() - i,
    {
        proof {
            lemma_size_of_prefix(nodes, i as int);
        }
        let below = match category_count(categories[i].children.as_slice()) {
            Some(below) => below,
            None => {
                return None;
            },
        };
        if below == u32::MAX || total > u32::MAX - 1 - below {
            return None;
        }
        total = total + 1 + below;
        i = i + 1;
    }
    assert(nodes.take(nodes.len() as int) =~= nodes);
    Some(total)
}

/// Appends the rows of a forest under `parent_id` to `rows`; the row in place
/// `i` gets `ids[i]` and sort order `sort_start + i`.
fn append_rows(
    taxonomy_id: &str,
    categories: &[CategoryJson],
    parent_id: &Option<String>,
    sort_start: i32,
    ids: &[String],
    rows: &mut Vec<NewCategory>,
)
    requires
        old(rows)@.len() + forest_size(forest_view(categories@)) <= ids@.len(),
        sort_start + ids@.len() <= i32::MAX,
    ensures
        new_categories_view(final(rows)@) == new_categories_view(old(rows)@) + flatten(
            taxonomy_id@,
            forest_view(categories@),
            text_of(*parent_id),
            sort_start as int,
            id_texts(ids@),
            old(rows)@.len() as int,
        ),
        final(rows)@.len() == old(rows)@.len() + forest_size(forest_view(categories@)),
    decreases categories@,
{
    let ghost nodes = forest_view(categories@);
    let ghost before = new_categories_view(rows@);
    let ghost at = rows@.len() as int;
    let ghost parent = text_of(*parent_id);
    let ghost texts = id_texts(ids@);
    let mut i: usize = 0;
    assert(nodes.take(0) =~= Seq::empty());
    assert(before + Seq::empty() =~= before);
    while i < categories.len()
        invariant
            i <= categories@.len(),
            nodes == forest_view(categories@),
            parent == text_of(*parent_id),
            texts == id_texts(ids@),
            at + forest_size(nodes) <= ids@.len(),
            sort_start + ids@.len() <= i32::MAX,
            rows@.len() == at + forest_size(nodes.take(i as int)),
            new_categories_view(rows@) == before + flatten(
                taxonomy_id@,
                nodes.take(i as int),
                parent,
                sort_start as int,
                texts,
                at,
            ),
        decreases categories@.len() - i,
    {
        let ghost place = rows@.len() as int;
        let ghost so_far = new_categories_view(rows@);
        proof {
            lemma_size_of_prefix(nodes, i as int);
            assert(nodes.take(i + 1).drop_last() =~= nodes.take(i as int));
        }
        let cat = &categories[i];
        let id = ids[rows.len()].clone();
        let sort_order: i64 = sort_start as i64 + rows.len() as i64;
        let row = NewCategory {
            id: Some(id.clone()),
            taxonomy_id: taxonomy_id.to_string(),
            parent_id: parent_id.clone(),
            name: cat.name.clone(),
            key: cat.key.clone(),
            color: cat.color.clone(),
            description: cat.description.clone(),
            sort_order: sort_order as i32,
        };
        rows.push(row);
        proof {
            assert(new_categories_view(rows@) =~= so_far.push(row@));
            assert(row@ == category_row(
                taxonomy_id@,
                nodes[i as int],
                parent,
                texts[place],
                sort_start + place,
            ));
        }
        append_rows(taxonomy_id, cat.children.as_slice(), &Some(id), sort_start, ids, rows);
        proof {
            assert(new_categories_view(rows@) =~= before + flatten(
                taxonomy_id@,
                nodes.take(i + 1),
                parent,
                sort_start as int,
                texts,
                at,
            ));
        }
        i = i + 1;
    }
    assert(nodes.take(nodes.len() as int) =~= nodes);
}

/// The rows of a forest, with the ids that are given.
pub fn flatten_with_ids(
    taxonomy_id: &str,
    categories: &[CategoryJson],
    parent_id: Option<String>,
    sort_start: i32,
    ids: &[String],
) -> (rows: Vec<NewCategory>)
    requires
        ids@.len() == forest_size(forest_view(categories@)),
        sort_start + ids@.len() <= i32::MAX,
    ensures
        new_categories_view(rows@) == flatten(
            taxonomy_id@,
            forest_view(categories@),
            text_of(parent_id),
            sort_start as int,
            id_texts(ids@),
            0,
        ),
        rows@.len() == ids@.len(),
        forall|i: int| 0 <= i < rows@.len() ==> text_of((#[trigger] rows@[i]).id) == Some(ids@[i]@),
{
    let mut rows: Vec<NewCategory> = Vec::new();
    assert(new_categories_view(rows@) =~= Seq::empty());
    append_rows(taxonomy_id, categories, &parent_id, sort_start, ids, &mut rows);
    assert(new_categories_view(rows@) =~= flatten(
        taxonomy_id@,
        forest_view(categories@),
        text_of(parent_id),
        sort_start as int,
        id_texts(ids@),
        0,
    ));
    assert forall|i: int| 0 <= i < rows@.len() implies text_of((#[trigger] rows@[i]).id) == Some(
        ids@[i]@,
    ) by {
        law_rows_follow_their_parents(
            taxonomy_id@,
            forest_view(categories@),
            text_of(parent_id),
            sort_start as int,
            id_texts(ids@),
            0,
            i,
        );
        assert(new_categories_view(rows@)[i] == rows@[i]@);
    }
    rows
}

/// A forest is as large as its parts: an empty one holds nothing, a tree holds its
/// root and what stands below it, and two forests side by side hold what both hold.
pub proof fn law_forest_size_adds_up(
    left: Seq<CategoryJsonView>,
    node: CategoryJsonView,
    right: Seq<CategoryJsonView>,
)
    ensures
        forest_size(Seq::empty()) == 0,
        forest_size(seq![node]) == 1 + forest_size(node.children),
        forest_size(left + right) == forest_size(left) + forest_size(right),
    decreases right.len(),
{
    assert(seq![node].drop_last() =~= Seq::empty());
    assert(forest_size(Seq::empty()) == 0);
    assert(seq![node].last() == node);
    if right.len() == 0 {
        assert(left + right =~= left);
    } else {
        assert((left + right).drop_last() =~= left + right.drop_last());
        assert((left + right).last() == right.last());
        law_forest_size_adds_up(left, node, right.drop_last());
    }
}

/// The ids of rows and the texts of ids are read off in place.
pub proof fn law_ids_in_place(rows: Seq<NewCategoryView>, ids: Seq<String>)
    ensures
        row_ids(rows).len() == rows.len(),
        forall|i: int|
            #![trigger row_ids(rows)[i]]
            0 <= i < rows.len() && rows[i].id is Some ==> rows[i].id == Some(row_ids(rows)[i]),
        id_texts(ids).len() == ids.len(),
        forall|i: int|
            #![trigger id_texts(ids)[i]]
            0 <= i < ids.len() ==> id_texts(ids)[i] == ids[i]@,
{
}

} // verus!
