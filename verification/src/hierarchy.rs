//! The category hierarchy as a forest: what it is, when it is finite, and how
//! it is built from rows.
use crate::children_map::{positions, ChildrenMap};
use crate::models::{categories_view, text_of, Category, CategoryJsonView, CategoryView};
use crate::ordering::{is_sibling_order, law_siblings_in_order, lemma_siblings, siblings};
use vstd::prelude::*;

verus! {

/// A node of a document says of a category what its row says.
pub open spec fn describes(node: CategoryJsonView, row: CategoryView) -> bool {
    &&& node.name == row.name
    &&& node.key == row.key
    &&& node.color == row.color
    &&& node.description == row.description
}

/// `nodes` are the categories under `parent`, in sibling order, each with all
/// that stands below it.
pub open spec fn is_hierarchy(
    rows: Seq<CategoryView>,
    parent: Option<Seq<char>>,
    nodes: Seq<CategoryJsonView>,
) -> bool
    decreases nodes,
{
    let order = siblings(rows, parent);
    &&& nodes.len() == order.len()
    &&& forall|k: int|
        #![trigger nodes[k]]
        0 <= k < nodes.len() ==> describes(nodes[k], rows[order[k]]) && is_hierarchy(
            rows,
            Some(rows[order[k]].id),
            nodes[k].children,
        )
}

/// The walk down from `parent` ends: no category stands below itself.
pub open spec fn is_finite(rows: Seq<CategoryView>, parent: Option<Seq<char>>) -> bool {
    exists|nodes: Seq<CategoryJsonView>| is_hierarchy(rows, parent, nodes)
}

/// The forest under `parent`.
pub open spec fn hierarchy(rows: Seq<CategoryView>, parent: Option<Seq<char>>) -> Seq<
    CategoryJsonView,
> {
    choose|nodes: Seq<CategoryJsonView>| is_hierarchy(rows, parent, nodes)
}

/// Rows determine the forest under a parent: there is at most one.
pub proof fn law_hierarchy_unique(
    rows: Seq<CategoryView>,
    parent: Option<Seq<char>>,
    x: Seq<CategoryJsonView>,
    y: Seq<CategoryJsonView>,
)
    requires
        is_hierarchy(rows, parent, x),
        is_hierarchy(rows, parent, y),
    ensures
        x == y,
    decreases x,
{
    let order = siblings(rows, parent);
    assert forall|k: int| 0 <= k < x.len() implies x[k] == y[k] by {
        law_hierarchy_unique(rows, Some(rows[order[k]].id), x[k].children, y[k].children);
    }
    assert(x =~= y);
}

/// Where the walk ends below a parent, it ends below each of its children.
pub proof fn lemma_finite_below(rows: Seq<CategoryView>, parent: Option<Seq<char>>, k: int)
    requires
        is_finite(rows, parent),
        0 <= k < siblings(rows, parent).len(),
    ensures
        is_finite(rows, Some(rows[siblings(rows, parent)[k]].id)),
        hierarchy(rows, Some(rows[siblings(rows, parent)[k]].id)) == hierarchy(
            rows,
            parent,
        )[k].children,
{
    let below = Some(rows[siblings(rows, parent)[k]].id);
    let nodes = hierarchy(rows, parent);
    assert(is_hierarchy(rows, parent, nodes));
    assert(is_hierarchy(rows, below, nodes[k].children));
    law_hierarchy_unique(rows, below, nodes[k].children, hierarchy(rows, below));
}

/// Where the walk ends below every child, it ends below the parent.
proof fn lemma_finite_above(rows: Seq<CategoryView>, parent: Option<Seq<char>>)
    requires
        forall|i: int|
            #![trigger rows[i]]
            0 <= i < rows.len() && rows[i].parent_id == parent ==> is_finite(
                rows,
                Some(rows[i].id),
            ),
    ensures
        is_finite(rows, parent),
{
    lemma_siblings(rows, parent);
    let order = siblings(rows, parent);
    let nodes = Seq::new(
        order.len(),
        |k: int|
            CategoryJsonView {
                name: rows[order[k]].name,
                key: rows[order[k]].key,
                color: rows[order[k]].color,
                description: rows[order[k]].description,
                children: hierarchy(rows, Some(rows[order[k]].id)),
            },
    );
    assert(is_hierarchy(rows, parent, nodes));
}

/// No two rows share an id.
pub open spec fn ids_unique(rows: Seq<CategoryView>) -> bool {
    forall|i: int, j: int|
        0 <= i < j < rows.len() ==> #[trigger] rows[i].id != #[trigger] rows[j].id
}

/// A walk down from a root, row by row.
spec fn is_descent(rows: Seq<CategoryView>, path: Seq<int>) -> bool {
    &&& path.len() > 0
    &&& forall|k: int| #![trigger path[k]] 0 <= k < path.len() ==> 0 <= path[k] < rows.len()
    &&& rows[path[0]].parent_id == None::<Seq<char>>
    &&& forall|k: int|
        #![trigger path[k]]
        0 < k < path.len() ==> rows[path[k]].parent_id == Some(rows[path[k - 1]].id)
    &&& path.no_duplicates()
}

proof fn lemma_descent_is_short(rows: Seq<CategoryView>, path: Seq<int>)
    requires
        is_descent(rows, path),
    ensures
        path.len() <= rows.len(),
{
    let all = vstd::set_lib::set_int_range(0, rows.len() as int);
    vstd::set_lib::lemma_int_range(0, rows.len() as int);
    path.unique_seq_to_set();
    assert forall|i: int| path.to_set().contains(i) implies all.contains(i) by {
        let k = choose|k: int| 0 <= k < path.len() && path[k] == i;
    }
    vstd::set_lib::lemma_len_subset(path.to_set(), all);
}

proof fn lemma_descent_ends(rows: Seq<CategoryView>, path: Seq<int>)
    requires
        ids_unique(rows),
        is_descent(rows, path),
    ensures
        is_finite(rows, Some(rows[path.last()].id)),
    decreases rows.len() - path.len(),
{
    let parent = Some(rows[path.last()].id);
    assert forall|i: int|
        #![trigger rows[i]]
        0 <= i < rows.len() && rows[i].parent_id == parent implies is_finite(
        rows,
        Some(rows[i].id),
    ) by {
        let longer = path.push(i);
        if path.contains(i) {
            let k = choose|k: int| 0 <= k < path.len() && path[k] == i;
            assert(k > 0);
            assert(rows[path[k - 1]].id == rows[path.last()].id);
            assert(path[k - 1] == path[path.len() - 1]);
        }
        assert forall|k: int| #![trigger longer[k]] 0 < k < longer.len() implies
            rows[longer[k]].parent_id == Some(rows[longer[k - 1]].id) by {
            if k < path.len() {
                assert(longer[k] == path[k]);
            }
        }
        assert(longer[0] == path[0]);
        assert(is_descent(rows, longer));
        lemma_descent_is_short(rows, longer);
        lemma_descent_ends(rows, longer);
    }
    lemma_finite_above(rows, parent);
}

/// Where no two rows share an id, the walk down from the roots ends, whatever
/// the rows name as their parents.
pub proof fn law_unique_ids_make_finite(rows: Seq<CategoryView>)
    requires
        ids_unique(rows),
    ensures
        is_finite(rows, None),
{
    assert forall|i: int|
        #![trigger rows[i]]
        0 <= i < rows.len() && rows[i].parent_id == None::<Seq<char>> implies is_finite(
        rows,
        Some(rows[i].id),
    ) by {
        assert(is_descent(rows, seq![i]));
        lemma_descent_ends(rows, seq![i]);
    }
    lemma_finite_above(rows, None);
}

/// Some child of `parent` is not cleared.
spec fn has_open_child(
    rows: Seq<CategoryView>,
    cleared: Seq<bool>,
    parent: Option<Seq<char>>,
) -> bool {
    exists|j: int|
        #![trigger cleared[j]]
        0 <= j < rows.len() && rows[j].parent_id == parent && !cleared[j]
}

/// Where every uncleared row has an uncleared child, the walk from a parent
/// with an uncleared child does not end.
proof fn lemma_endless(
    rows: Seq<CategoryView>,
    cleared: Seq<bool>,
    parent: Option<Seq<char>>,
    nodes: Seq<CategoryJsonView>,
)
    requires
        cleared.len() == rows.len(),
        forall|i: int|
            #![trigger cleared[i]]
            0 <= i < rows.len() && !cleared[i] ==> has_open_child(rows, cleared, Some(rows[i].id)),
        has_open_child(rows, cleared, parent),
    ensures
        !is_hierarchy(rows, parent, nodes),
    decreases nodes,
{
    if is_hierarchy(rows, parent, nodes) {
        lemma_siblings(rows, parent);
        let order = siblings(rows, parent);
        let j = choose|j: int|
            #![trigger cleared[j]]
            0 <= j < rows.len() && rows[j].parent_id == parent && !cleared[j];
        assert(order.contains(j));
        let k = choose|k: int| 0 <= k < order.len() && order[k] == j;
        assert(is_hierarchy(rows, Some(rows[j].id), nodes[k].children));
        lemma_endless(rows, cleared, Some(rows[j].id), nodes[k].children);
    }
}

spec fn open_count(cleared: Seq<bool>) -> nat
    decreases cleared.len(),
{
    if cleared.len() == 0 {
        0
    } else {
        open_count(cleared.drop_last()) + if cleared.last() {
            0nat
        } else {
            1nat
        }
    }
}

proof fn lemma_clearing_counts(cleared: Seq<bool>, i: int)
    requires
        0 <= i < cleared.len(),
        !cleared[i],
    ensures
        open_count(cleared.update(i, true)) == open_count(cleared) - 1,
    decreases cleared.len(),
{
    let updated = cleared.update(i, true);
    if i == cleared.len() - 1 {
        assert(updated.drop_last() =~= cleared.drop_last());
    } else {
        assert(updated.drop_last() =~= cleared.drop_last().update(i, true));
        lemma_clearing_counts(cleared.drop_last(), i);
    }
}

/// Tells whether every row under `parent_id` is cleared.
fn all_cleared(
    children_map: &ChildrenMap<'_>,
    cleared: &Vec<bool>,
    parent_id: &Option<String>,
) -> (all: bool)
    requires
        cleared@.len() == children_map.rows().len(),
    ensures
        all == !has_open_child(children_map.rows(), cleared@, text_of(*parent_id)),
{
    let ghost rows = children_map.rows();
    let ghost parent = text_of(*parent_id);
    let ghost order = siblings(rows, parent);
    proof {
        lemma_siblings(rows, parent);
    }
    if let Some(group) = children_map.get(parent_id) {
        let mut k: usize = 0;
        while k < group.len()
            invariant
                k <= group@.len(),
                rows == children_map.rows(),
                parent == text_of(*parent_id),
                cleared@.len() == rows.len(),
                order == positions(group@),
                is_sibling_order(rows, parent, rows.len() as int, order),
                forall|j: int| 0 <= j < k ==> cleared@[#[trigger] order[j]],
            decreases group@.len() - k,
        {
            assert(order[k as int] == group@[k as int]);
            if !cleared[group[k]] {
                assert(!cleared@[order[k as int]]);
                return false;
            }
            k = k + 1;
        }
    }
    assert forall|j: int|
        #![trigger cleared@[j]]
        0 <= j < rows.len() && rows[j].parent_id == parent implies cleared@[j] by {
        assert(order.contains(j));
        let k = choose|k: int| 0 <= k < order.len() && order[k] == j;
        assert(cleared@[order[k]]);
    }
    true
}

/// Tells whether the walk down from the roots ends.
///
/// Rows are cleared from the leaves up: a row is cleared once all its children
/// are. What stays uncleared stands above a category that stands below itself.
pub fn hierarchy_is_finite(categories: &[Category]) -> (finite: bool)
    ensures
        finite == is_finite(categories_view(categories@), None),
{
    let children_map = ChildrenMap::new(categories);
    let ghost rows = children_map.rows();
    let mut cleared: Vec<bool> = Vec::new();
    while cleared.len() < categories.len()
        invariant
            cleared@.len() <= categories@.len(),
            forall|i: int| 0 <= i < cleared@.len() ==> !#[trigger] cleared@[i],
        decreases categories@.len() - cleared@.len(),
    {
        cleared.push(false);
    }
    let mut changed: bool = true;
    while changed
        invariant
            rows == categories_view(categories@),
            rows == children_map.rows(),
            cleared@.len() == rows.len(),
            forall|i: int|
                #![trigger cleared@[i]]
                0 <= i < rows.len() && cleared@[i] ==> is_finite(rows, Some(rows[i].id)),
            !changed ==> forall|i: int|
                #![trigger cleared@[i]]
                0 <= i < rows.len() && !cleared@[i] ==> has_open_child(
                    rows,
                    cleared@,
                    Some(rows[i].id),
                ),
        decreases open_count(cleared@), (if changed { 1int } else { 0int }),
    {
        changed = false;
        let ghost before = cleared@;
        let mut i: usize = 0;
        while i < categories.len()
            invariant
                i <= categories@.len(),
                rows == categories_view(categories@),
                rows == children_map.rows(),
                cleared@.len() == rows.len(),
                forall|i: int|
                    #![trigger cleared@[i]]
                    0 <= i < rows.len() && cleared@[i] ==> is_finite(rows, Some(rows[i].id)),
                !changed ==> cleared@ == before,
                changed ==> open_count(cleared@) < open_count(before),
                !changed ==> forall|j: int|
                    #![trigger cleared@[j]]
                    0 <= j < i && !cleared@[j] ==> has_open_child(rows, cleared@, Some(rows[j].id)),
            decreases categories@.len() - i,
        {
            if !cleared[i] {
                let id = Some(categories[i].id.clone());
                if all_cleared(&children_map, &cleared, &id) {
                    proof {
                        lemma_clearing_counts(cleared@, i as int);
                        assert forall|j: int|
                            #![trigger rows[j]]
                            0 <= j < rows.len() && rows[j].parent_id == text_of(id) implies
                            is_finite(rows, Some(rows[j].id)) by {
                            assert(cleared@[j]);
                        }
                        lemma_finite_above(rows, text_of(id));
                    }
                    cleared.set(i, true);
                    changed = true;
                }
            }
            i = i + 1;
        }
    }
    let finite = all_cleared(&children_map, &cleared, &None);
    proof {
        if finite {
            assert forall|j: int|
                #![trigger rows[j]]
                0 <= j < rows.len() && rows[j].parent_id == None::<Seq<char>> implies
                is_finite(rows, Some(rows[j].id)) by {
                assert(cleared@[j]);
            }
            lemma_finite_above(rows, None);
        } else {
            assert forall|nodes: Seq<CategoryJsonView>|
                !#[trigger] is_hierarchy(rows, None, nodes) by {
                lemma_endless(rows, cleared@, None, nodes);
            }
        }
    }
    finite
}

/// The forest under a parent shows every row that names the parent and no other:
/// as many nodes as there are such rows, in sibling order, each with the name, key,
/// color and description of its row, and below each the forest under that row's id.
/// The same holds of the forest below, and so on to the leaves.
pub proof fn law_forest_shows_every_row(
    rows: Seq<CategoryView>,
    parent: Option<Seq<char>>,
    nodes: Seq<CategoryJsonView>,
)
    requires
        is_hierarchy(rows, parent, nodes),
    ensures
        nodes.len() == rows.filter(|row: CategoryView| row.parent_id == parent).len(),
        nodes.len() == siblings(rows, parent).len(),
        forall|k: int|
            #![trigger nodes[k]]
            0 <= k < nodes.len() ==> {
                let i = siblings(rows, parent)[k];
                &&& 0 <= i < rows.len()
                &&& rows[i].parent_id == parent
                &&& nodes[k].name == rows[i].name
                &&& nodes[k].key == rows[i].key
                &&& nodes[k].color == rows[i].color
                &&& nodes[k].description == rows[i].description
                &&& is_hierarchy(rows, Some(rows[i].id), nodes[k].children)
                &&& nodes[k].children.len() == rows.filter(
                    |row: CategoryView| row.parent_id == Some(rows[i].id),
                ).len()
            },
        forall|i: int|
            #![trigger rows[i]]
            0 <= i < rows.len() && rows[i].parent_id == parent ==> exists|k: int|
                #![trigger nodes[k]]
                0 <= k < nodes.len() && siblings(rows, parent)[k] == i && nodes[k].name
                    == rows[i].name && nodes[k].key == rows[i].key && nodes[k].color
                    == rows[i].color && nodes[k].description == rows[i].description
                    && is_hierarchy(rows, Some(rows[i].id), nodes[k].children),
{
    let order = siblings(rows, parent);
    law_siblings_in_order(rows, parent);
    assert forall|k: int| #![trigger nodes[k]] 0 <= k < nodes.len() implies {
        let i = siblings(rows, parent)[k];
        &&& 0 <= i < rows.len()
        &&& rows[i].parent_id == parent
        &&& nodes[k].name == rows[i].name
        &&& nodes[k].key == rows[i].key
        &&& nodes[k].color == rows[i].color
        &&& nodes[k].description == rows[i].description
        &&& is_hierarchy(rows, Some(rows[i].id), nodes[k].children)
        &&& nodes[k].children.len() == rows.filter(
            |row: CategoryView| row.parent_id == Some(rows[i].id),
        ).len()
    } by {
        let i = order[k];
        assert(describes(nodes[k], rows[i]));
        law_siblings_in_order(rows, Some(rows[i].id));
    }
    assert forall|i: int|
        #![trigger rows[i]]
        0 <= i < rows.len() && rows[i].parent_id == parent implies exists|k: int|
        #![trigger nodes[k]]
        0 <= k < nodes.len() && order[k] == i && nodes[k].name == rows[i].name && nodes[k].key
            == rows[i].key && nodes[k].color == rows[i].color && nodes[k].description
            == rows[i].description && is_hierarchy(rows, Some(rows[i].id), nodes[k].children) by {
        let k = choose|k: int| 0 <= k < order.len() && order[k] == i;
        assert(describes(nodes[k], rows[i]));
    }
}

/// A walk ends exactly where there is a forest to show for it.
pub proof fn law_finite_where_there_is_a_forest(
    rows: Seq<CategoryView>,
    parent: Option<Seq<char>>,
    nodes: Seq<CategoryJsonView>,
)
    ensures
        is_hierarchy(rows, parent, nodes) ==> is_finite(rows, parent) && hierarchy(rows, parent)
            == nodes,
        is_finite(rows, parent) ==> is_hierarchy(rows, parent, hierarchy(rows, parent)),
{
    if is_hierarchy(rows, parent, nodes) {
        law_hierarchy_unique(rows, parent, nodes, hierarchy(rows, parent));
    }
}

} // verus!
