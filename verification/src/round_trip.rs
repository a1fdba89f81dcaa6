//! What is imported is what is exported: the rows of a forest give that forest
//! back.
use crate::flatten::{
    category_row, flatten, forest_size, law_rows_follow_their_parents, lemma_flatten_len,
    lemma_size_of_prefix,
};
use crate::hierarchy::{describes, hierarchy, is_finite, is_hierarchy, law_hierarchy_unique};
use crate::models::{CategoryJsonView, CategoryView, NewCategoryView};
use crate::ordering::{
    is_sibling_order, lemma_siblings, lemma_strictly_ordered_unique, precedes, siblings,
    strictly_ordered,
};
use vstd::prelude::*;

verus! {

/// A stored row holds what it was created with.
pub open spec fn stores(stored: CategoryView, created: NewCategoryView) -> bool {
    &&& created.id == Some(stored.id)
    &&& stored.taxonomy_id == created.taxonomy_id
    &&& stored.parent_id == created.parent_id
    &&& stored.name == created.name
    &&& stored.key == created.key
    &&& stored.color == created.color
    &&& stored.description == created.description
    &&& stored.sort_order == created.sort_order
}

/// The place of the `k`-th tree of a forest whose rows start at `at`.
spec fn tree_place(nodes: Seq<CategoryJsonView>, at: int, k: int) -> int {
    at + forest_size(nodes.take(k))
}

/// The `k`-th tree of a forest stands at its place, followed by all below it.
proof fn lemma_flatten_tree(
    taxonomy_id: Seq<char>,
    nodes: Seq<CategoryJsonView>,
    parent: Option<Seq<char>>,
    sort_start: int,
    ids: Seq<Seq<char>>,
    at: int,
    k: int,
)
    requires
        0 <= k < nodes.len(),
    ensures
        ({
            let rows = flatten(taxonomy_id, nodes, parent, sort_start, ids, at);
            let place = tree_place(nodes, at, k);
            let below = forest_size(nodes[k].children) as int;
            &&& 0 <= place - at
            &&& place - at + 1 + below <= rows.len()
            &&& rows[place - at] == category_row(
                taxonomy_id,
                nodes[k],
                parent,
                ids[place],
                sort_start + place,
            )
            &&& rows.subrange(place - at + 1, place - at + 1 + below) == flatten(
                taxonomy_id,
                nodes[k].children,
                Some(ids[place]),
                sort_start,
                ids,
                place + 1,
            )
        }),
    decreases nodes.len(),
{
    let rows = flatten(taxonomy_id, nodes, parent, sort_start, ids, at);
    let before = flatten(taxonomy_id, nodes.drop_last(), parent, sort_start, ids, at);
    let size = forest_size(nodes.drop_last()) as int;
    let last = flatten(
        taxonomy_id,
        nodes.last().children,
        Some(ids[at + size]),
        sort_start,
        ids,
        at + size + 1,
    );
    lemma_flatten_len(taxonomy_id, nodes.drop_last(), parent, sort_start, ids, at);
    lemma_flatten_len(
        taxonomy_id,
        nodes.last().children,
        Some(ids[at + size]),
        sort_start,
        ids,
        at + size + 1,
    );
    let place = tree_place(nodes, at, k);
    let below = forest_size(nodes[k].children) as int;
    if k == nodes.len() - 1 {
        assert(nodes.take(k) =~= nodes.drop_last());
        assert(rows.subrange(place - at + 1, place - at + 1 + below) =~= last);
    } else {
        lemma_flatten_tree(taxonomy_id, nodes.drop_last(), parent, sort_start, ids, at, k);
        assert(nodes.drop_last().take(k) =~= nodes.take(k));
        assert(rows[place - at] == before[place - at]);
        assert(rows.subrange(place - at + 1, place - at + 1 + below) =~= before.subrange(
            place - at + 1,
            place - at + 1 + below,
        ));
    }
}

/// Every place of a forest belongs to one of its trees.
proof fn lemma_place_in_tree(nodes: Seq<CategoryJsonView>, at: int, i: int) -> (k: int)
    requires
        at <= i < at + forest_size(nodes),
    ensures
        0 <= k < nodes.len(),
        tree_place(nodes, at, k) <= i <= tree_place(nodes, at, k) + forest_size(nodes[k].children),
    decreases nodes.len(),
{
    let front = nodes.drop_last();
    if i < at + forest_size(front) {
        let k = lemma_place_in_tree(front, at, i);
        assert(front.take(k) =~= nodes.take(k));
        k
    } else {
        let k = nodes.len() - 1;
        assert(nodes.take(k) =~= front);
        k
    }
}

/// Rows hold a forest from place `at` on, and no other row belongs to it.
spec fn holds_forest(
    rows: Seq<CategoryView>,
    taxonomy_id: Seq<char>,
    nodes: Seq<CategoryJsonView>,
    parent: Option<Seq<char>>,
    sort_start: int,
    ids: Seq<Seq<char>>,
    at: int,
) -> bool {
    let created = flatten(taxonomy_id, nodes, parent, sort_start, ids, at);
    let end = at + forest_size(nodes);
    &&& 0 <= at
    &&& end <= rows.len()
    &&& rows.len() == ids.len()
    &&& ids.no_duplicates()
    &&& parent == None::<Seq<char>> || exists|r: int|
        0 <= r < at && parent == Some(#[trigger] ids[r])
    &&& forall|i: int| #![trigger rows[i]] at <= i < end ==> stores(rows[i], created[i - at])
    &&& forall|i: int|
        #![trigger rows[i]]
        0 <= i < rows.len() && !(at <= i < end) ==> rows[i].parent_id != parent
    &&& forall|i: int, r: int|
        #![trigger rows[i], ids[r]]
        0 <= i < rows.len() && !(at <= i < end) && at <= r < end ==> rows[i].parent_id != Some(
            ids[r],
        )
}

/// Within a forest, a row in a tree but not at its place has its parent in that
/// tree.
proof fn lemma_parent_in_tree(
    rows: Seq<CategoryView>,
    taxonomy_id: Seq<char>,
    nodes: Seq<CategoryJsonView>,
    parent: Option<Seq<char>>,
    sort_start: int,
    ids: Seq<Seq<char>>,
    at: int,
    k: int,
    i: int,
) -> (r: int)
    requires
        holds_forest(rows, taxonomy_id, nodes, parent, sort_start, ids, at),
        0 <= k < nodes.len(),
        tree_place(nodes, at, k) < i <= tree_place(nodes, at, k) + forest_size(nodes[k].children),
    ensures
        at <= tree_place(nodes, at, k) <= r < i < rows.len(),
        rows[i].parent_id == Some(ids[r]),
{
    let place = tree_place(nodes, at, k);
    let created = flatten(taxonomy_id, nodes, parent, sort_start, ids, at);
    let children = nodes[k].children;
    let below = flatten(taxonomy_id, children, Some(ids[place]), sort_start, ids, place + 1);
    lemma_flatten_len(taxonomy_id, nodes, parent, sort_start, ids, at);
    lemma_flatten_tree(taxonomy_id, nodes, parent, sort_start, ids, at, k);
    law_rows_follow_their_parents(
        taxonomy_id,
        children,
        Some(ids[place]),
        sort_start,
        ids,
        place + 1,
        i - place - 1,
    );
    assert(created.subrange(place - at + 1, place - at + 1 + forest_size(children))[i - place - 1]
        == created[i - at]);
    assert(below[i - place - 1] == created[i - at]);
    if rows[i].parent_id == Some(ids[place]) {
        place
    } else {
        choose|r: int|
            place + 1 <= r < i && below[i - place - 1].parent_id == Some(#[trigger] ids[r])
    }
}

/// The rows under the parent of a forest are the roots of its trees.
proof fn lemma_roots_are_siblings(
    rows: Seq<CategoryView>,
    taxonomy_id: Seq<char>,
    nodes: Seq<CategoryJsonView>,
    parent: Option<Seq<char>>,
    sort_start: int,
    ids: Seq<Seq<char>>,
    at: int,
)
    requires
        holds_forest(rows, taxonomy_id, nodes, parent, sort_start, ids, at),
    ensures
        siblings(rows, parent) == Seq::new(nodes.len(), |k: int| tree_place(nodes, at, k)),
{
    let order = Seq::new(nodes.len(), |k: int| tree_place(nodes, at, k));
    let created = flatten(taxonomy_id, nodes, parent, sort_start, ids, at);
    lemma_flatten_len(taxonomy_id, nodes, parent, sort_start, ids, at);
    assert forall|k: int| #![trigger order[k]] 0 <= k < order.len() implies 0 <= order[k]
        < rows.len() && rows[order[k]].parent_id == parent && rows[order[k]].sort_order
        == sort_start + order[k] by {
        lemma_flatten_tree(taxonomy_id, nodes, parent, sort_start, ids, at, k);
        assert(stores(rows[order[k]], created[order[k] - at]));
    }
    assert forall|i: int|
        #![trigger rows[i]]
        0 <= i < rows.len() && rows[i].parent_id == parent implies order.contains(i) by {
        let k = lemma_place_in_tree(nodes, at, i);
        if i != order[k] {
            let r = lemma_parent_in_tree(
                rows,
                taxonomy_id,
                nodes,
                parent,
                sort_start,
                ids,
                at,
                k,
                i,
            );
            let r0 = choose|r: int| 0 <= r < at && parent == Some(#[trigger] ids[r]);
            assert(ids[r] == ids[r0]);
        }
    }
    assert forall|j: int, k: int| 0 <= j < k < order.len() implies precedes(
        rows,
        #[trigger] order[j],
        #[trigger] order[k],
    ) by {
        lemma_places_grow(nodes, at, j, k);
    }
    assert(is_sibling_order(rows, parent, rows.len() as int, order));
    lemma_siblings(rows, parent);
}

proof fn lemma_places_grow(nodes: Seq<CategoryJsonView>, at: int, j: int, k: int)
    requires
        0 <= j < k < nodes.len(),
    ensures
        tree_place(nodes, at, j) + forest_size(nodes[j].children) < tree_place(nodes, at, k),
    decreases k,
{
    lemma_size_of_prefix(nodes, k - 1);
    if j < k - 1 {
        lemma_places_grow(nodes, at, j, k - 1);
    }
}

/// Below each tree stands the forest of its children.
proof fn lemma_children_held(
    rows: Seq<CategoryView>,
    taxonomy_id: Seq<char>,
    nodes: Seq<CategoryJsonView>,
    parent: Option<Seq<char>>,
    sort_start: int,
    ids: Seq<Seq<char>>,
    at: int,
    k: int,
)
    requires
        holds_forest(rows, taxonomy_id, nodes, parent, sort_start, ids, at),
        0 <= k < nodes.len(),
    ensures
        holds_forest(
            rows,
            taxonomy_id,
            nodes[k].children,
            Some(ids[tree_place(nodes, at, k)]),
            sort_start,
            ids,
            tree_place(nodes, at, k) + 1,
        ),
{
    let created = flatten(taxonomy_id, nodes, parent, sort_start, ids, at);
    let end = at + forest_size(nodes);
    let place = tree_place(nodes, at, k);
    let children = nodes[k].children;
    let first = place + 1;
    let last = first + forest_size(children);
    let below = flatten(taxonomy_id, children, Some(ids[place]), sort_start, ids, first);
    lemma_flatten_len(taxonomy_id, nodes, parent, sort_start, ids, at);
    lemma_flatten_tree(taxonomy_id, nodes, parent, sort_start, ids, at, k);
    assert forall|i: int| #![trigger rows[i]] first <= i < last implies stores(
        rows[i],
        below[i - first],
    ) by {
        assert(created.subrange(first - at, last - at)[i - first] == created[i - at]);
        assert(stores(rows[i], created[i - at]));
    }
    assert forall|i: int, r: int|
        #![trigger rows[i], ids[r]]
        0 <= i < rows.len() && !(first <= i < last) && place <= r < last implies rows[i].parent_id
        != Some(ids[r]) by {
        if at <= i < end {
            let j = lemma_place_in_tree(nodes, at, i);
            let other = tree_place(nodes, at, j);
            if i == other {
                lemma_flatten_tree(taxonomy_id, nodes, parent, sort_start, ids, at, j);
                assert(stores(rows[i], created[i - at]));
                assert(rows[i].parent_id == parent);
                if parent == Some(ids[r]) {
                    let r0 = choose|r: int| 0 <= r < at && parent == Some(#[trigger] ids[r]);
                    assert(ids[r] == ids[r0]);
                }
            } else {
                let q = lemma_parent_in_tree(
                    rows,
                    taxonomy_id,
                    nodes,
                    parent,
                    sort_start,
                    ids,
                    at,
                    j,
                    i,
                );
                if j < k {
                    lemma_places_grow(nodes, at, j, k);
                } else if j > k {
                    lemma_places_grow(nodes, at, k, j);
                }
                assert(q != r);
            }
        }
    }
    assert forall|i: int|
        #![trigger rows[i]]
        0 <= i < rows.len() && !(first <= i < last) implies rows[i].parent_id != Some(
        ids[place],
    ) by {
        assert(ids[place] == ids[place]);
    }
}

/// Rows that hold a forest give that forest back.
proof fn lemma_forest_restored(
    rows: Seq<CategoryView>,
    taxonomy_id: Seq<char>,
    nodes: Seq<CategoryJsonView>,
    parent: Option<Seq<char>>,
    sort_start: int,
    ids: Seq<Seq<char>>,
    at: int,
)
    requires
        holds_forest(rows, taxonomy_id, nodes, parent, sort_start, ids, at),
    ensures
        is_hierarchy(rows, parent, nodes),
    decreases nodes,
{
    let created = flatten(taxonomy_id, nodes, parent, sort_start, ids, at);
    let order = siblings(rows, parent);
    lemma_roots_are_siblings(rows, taxonomy_id, nodes, parent, sort_start, ids, at);
    lemma_flatten_len(taxonomy_id, nodes, parent, sort_start, ids, at);
    assert forall|k: int| #![trigger nodes[k]] 0 <= k < nodes.len() implies describes(
        nodes[k],
        rows[order[k]],
    ) && is_hierarchy(rows, Some(rows[order[k]].id), nodes[k].children) by {
        let place = tree_place(nodes, at, k);
        assert(order[k] == place);
        lemma_flatten_tree(taxonomy_id, nodes, parent, sort_start, ids, at, k);
        assert(stores(rows[place], created[place - at]));
        lemma_children_held(rows, taxonomy_id, nodes, parent, sort_start, ids, at, k);
        lemma_forest_restored(
            rows,
            taxonomy_id,
            nodes[k].children,
            Some(ids[place]),
            sort_start,
            ids,
            place + 1,
        );
    }
}

/// No two siblings share a sort order.
pub open spec fn sort_orders_distinct(rows: Seq<CategoryView>) -> bool {
    forall|i: int, j: int|
        0 <= i < j < rows.len() && (#[trigger] rows[i]).parent_id == (#[trigger] rows[j]).parent_id
            ==> rows[i].sort_order != rows[j].sort_order
}

/// The rows under `parent`, in sibling order.
spec fn sibling_rows(rows: Seq<CategoryView>, parent: Option<Seq<char>>) -> Seq<CategoryView> {
    siblings(rows, parent).map_values(|i: int| rows[i])
}

/// Distinct sort orders of siblings survive a rearrangement.
proof fn lemma_rearranged_distinct(rows: Seq<CategoryView>, other: Seq<CategoryView>)
    requires
        sort_orders_distinct(rows),
        rows.to_multiset() == other.to_multiset(),
    ensures
        sort_orders_distinct(other),
        forall|row: CategoryView| #[trigger] rows.contains(row) <==> other.contains(row),
{
    broadcast use vstd::seq_lib::group_to_multiset_ensures;

    assert forall|i: int, j: int|
        0 <= i < rows.len() && 0 <= j < rows.len() && i != j implies rows[i] != rows[j] by {
        if rows[i].parent_id == rows[j].parent_id {
            if i < j {
                assert(rows[i].sort_order != rows[j].sort_order);
            } else {
                assert(rows[j].sort_order != rows[i].sort_order);
            }
        }
    }
    rows.lemma_multiset_has_no_duplicates();
    assert forall|row: CategoryView| #[trigger] rows.contains(row) <==> other.contains(row) by {
        assert(rows.contains(row) <==> rows.to_multiset().count(row) > 0);
        assert(other.contains(row) <==> other.to_multiset().count(row) > 0);
    }
    other.lemma_multiset_has_no_duplicates_conv();
    assert forall|i: int, j: int|
        0 <= i < j < other.len() && (#[trigger] other[i]).parent_id == (
        #[trigger] other[j]).parent_id implies other[i].sort_order != other[j].sort_order by {
        assert(other.contains(other[i]));
        assert(other.contains(other[j]));
        assert(rows.contains(other[i]));
        assert(rows.contains(other[j]));
        let a = choose|a: int| 0 <= a < rows.len() && rows[a] == other[i];
        let b = choose|b: int| 0 <= b < rows.len() && rows[b] == other[j];
        assert(a != b);
        if a < b {
            assert(rows[a].sort_order != rows[b].sort_order);
        } else {
            assert(rows[b].sort_order != rows[a].sort_order);
        }
    }
}

proof fn lemma_sibling_rows(rows: Seq<CategoryView>, parent: Option<Seq<char>>)
    requires
        sort_orders_distinct(rows),
    ensures
        strictly_ordered(
            sibling_rows(rows, parent),
            |a: CategoryView, b: CategoryView| a.sort_order < b.sort_order,
        ),
        forall|row: CategoryView| #[trigger]
            sibling_rows(rows, parent).contains(row) <==> rows.contains(row) && row.parent_id
                == parent,
{
    lemma_siblings(rows, parent);
    let order = siblings(rows, parent);
    let listed = sibling_rows(rows, parent);
    assert forall|j: int, k: int| 0 <= j < k < listed.len() implies (
    #[trigger] listed[j]).sort_order < (#[trigger] listed[k]).sort_order by {
        assert(precedes(rows, order[j], order[k]));
        assert(rows[order[j]].parent_id == parent && rows[order[k]].parent_id == parent);
        if order[j] < order[k] {
            assert(rows[order[j]].sort_order != rows[order[k]].sort_order);
        }
    }
    assert forall|row: CategoryView| #[trigger] listed.contains(row) <==> rows.contains(row)
        && row.parent_id == parent by {
        if listed.contains(row) {
            let k = choose|k: int| 0 <= k < listed.len() && listed[k] == row;
            assert(rows[order[k]] == row);
        }
        if rows.contains(row) && row.parent_id == parent {
            let i = choose|i: int| 0 <= i < rows.len() && rows[i] == row;
            assert(order.contains(i));
            let k = choose|k: int| 0 <= k < order.len() && order[k] == i;
            assert(listed[k] == row);
        }
    }
}

/// Where no two siblings share a sort order, the order in which the store hands
/// them out does not matter: any arrangement gives the same forest.
pub proof fn law_arrangement_does_not_matter(
    rows: Seq<CategoryView>,
    other: Seq<CategoryView>,
    parent: Option<Seq<char>>,
    nodes: Seq<CategoryJsonView>,
)
    requires
        sort_orders_distinct(rows),
        rows.to_multiset() == other.to_multiset(),
        is_hierarchy(rows, parent, nodes),
    ensures
        is_hierarchy(other, parent, nodes),
    decreases nodes,
{
    lemma_rearranged_distinct(rows, other);
    lemma_sibling_rows(rows, parent);
    lemma_sibling_rows(other, parent);
    let x = sibling_rows(rows, parent);
    let y = sibling_rows(other, parent);
    lemma_strictly_ordered_unique(
        x,
        y,
        |a: CategoryView, b: CategoryView| a.sort_order < b.sort_order,
    );
    assert forall|k: int| #![trigger nodes[k]] 0 <= k < nodes.len() implies describes(
        nodes[k],
        other[siblings(other, parent)[k]],
    ) && is_hierarchy(other, Some(other[siblings(other, parent)[k]].id), nodes[k].children) by {
        assert(x[k] == y[k]);
        law_arrangement_does_not_matter(
            rows,
            other,
            Some(rows[siblings(rows, parent)[k]].id),
            nodes[k].children,
        );
    }
}

/// What is exported after an import is what was imported: where the store holds
/// the rows of a forest, in whatever arrangement, and no two of their ids are
/// the same, the forest built from the rows is the forest they were made from.
pub proof fn law_export_gives_back_import(
    taxonomy_id: Seq<char>,
    nodes: Seq<CategoryJsonView>,
    sort_start: int,
    ids: Seq<Seq<char>>,
    stored: Seq<CategoryView>,
    rows: Seq<CategoryView>,
)
    requires
        ids.len() == forest_size(nodes),
        ids.no_duplicates(),
        stored.len() == ids.len(),
        forall|i: int|
            #![trigger stored[i]]
            0 <= i < stored.len() ==> stores(
                stored[i],
                flatten(taxonomy_id, nodes, None, sort_start, ids, 0)[i],
            ),
        rows.to_multiset() == stored.to_multiset(),
    ensures
        is_hierarchy(rows, None, nodes),
        is_finite(rows, None),
        hierarchy(rows, None) == nodes,
{
    lemma_forest_restored(stored, taxonomy_id, nodes, None, sort_start, ids, 0);
    assert forall|i: int, j: int| 0 <= i < j < stored.len() implies #[trigger] stored[i].sort_order
        != #[trigger] stored[j].sort_order by {
        law_rows_follow_their_parents(taxonomy_id, nodes, None, sort_start, ids, 0, i);
        law_rows_follow_their_parents(taxonomy_id, nodes, None, sort_start, ids, 0, j);
    }
    law_arrangement_does_not_matter(stored, rows, None, nodes);
    law_hierarchy_unique(rows, None, nodes, hierarchy(rows, None));
}

/// Every category of a forest has a row of its own: one that holds its name, key,
/// color and description, stands under the parent of the forest, and is followed by
/// the rows of the categories below it, which stand under its id.
pub proof fn law_each_category_has_its_row(
    taxonomy_id: Seq<char>,
    nodes: Seq<CategoryJsonView>,
    parent: Option<Seq<char>>,
    sort_start: int,
    ids: Seq<Seq<char>>,
    at: int,
    k: int,
) -> (place: int)
    requires
        0 <= k < nodes.len(),
    ensures
        place == at + forest_size(nodes.take(k)),
        ({
            let rows = flatten(taxonomy_id, nodes, parent, sort_start, ids, at);
            let row = rows[place - at];
            let below = forest_size(nodes[k].children) as int;
            &&& rows.len() == forest_size(nodes)
            &&& 0 <= place - at
            &&& place - at + 1 + below <= rows.len()
            &&& row.id == Some(ids[place])
            &&& row.taxonomy_id == taxonomy_id
            &&& row.parent_id == parent
            &&& row.name == nodes[k].name
            &&& row.key == nodes[k].key
            &&& row.color == nodes[k].color
            &&& row.description == nodes[k].description
            &&& row.sort_order == sort_start + place
            &&& rows.subrange(place - at + 1, place - at + 1 + below) == flatten(
                taxonomy_id,
                nodes[k].children,
                Some(ids[place]),
                sort_start,
                ids,
                place + 1,
            )
        }),
{
    lemma_flatten_len(taxonomy_id, nodes, parent, sort_start, ids, at);
    lemma_flatten_tree(taxonomy_id, nodes, parent, sort_start, ids, at, k);
    tree_place(nodes, at, k)
}

} // verus!
