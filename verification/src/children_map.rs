//! The rows of a taxonomy grouped by parent, each group in sibling order.
use crate::models::{categories_view, text_of, Category, CategoryView};
use crate::ordering::{
    is_insertion_point, is_sibling_order, lemma_insert_extends_order,
    lemma_other_parent_keeps_order, lemma_siblings, precedes, siblings,
};
use vstd::hash_map::StringHashMap;
use vstd::prelude::*;

verus! {

/// Row positions as mathematical integers.
pub open spec fn positions(group: Seq<usize>) -> Seq<int> {
    group.map_values(|i: usize| i as int)
}

/// The positions that are filed under `id`.
spec fn group_of(groups: Seq<Vec<usize>>, index: Map<Seq<char>, usize>, id: Seq<char>) -> Seq<
    int,
> {
    if index.contains_key(id) {
        positions(groups[index[id] as int]@)
    } else {
        Seq::empty()
    }
}

/// The first `count` rows are filed, each under its parent and in sibling order.
spec fn is_grouping(
    rows: Seq<CategoryView>,
    count: int,
    roots: Seq<usize>,
    groups: Seq<Vec<usize>>,
    index: Map<Seq<char>, usize>,
) -> bool {
    &&& 0 <= count <= rows.len()
    &&& is_sibling_order(rows, None, count, positions(roots))
    &&& forall|id: Seq<char>| #[trigger] index.contains_key(id) ==> index[id] < groups.len()
    &&& forall|a: Seq<char>, b: Seq<char>|
        #![trigger index[a], index[b]]
        index.contains_key(a) && index.contains_key(b) && index[a] == index[b] ==> a == b
    &&& forall|id: Seq<char>|
        is_sibling_order(rows, Some(id), count, #[trigger] group_of(groups, index, id))
}

/// Puts `position` into `group`, behind every row that comes before it.
fn insert_sibling(
    categories: &[Category],
    group: &mut Vec<usize>,
    position: usize,
    Ghost(parent): Ghost<Option<Seq<char>>>,
)
    requires
        position < categories@.len(),
        categories_view(categories@)[position as int].parent_id == parent,
        is_sibling_order(
            categories_view(categories@),
            parent,
            position as int,
            positions(old(group)@),
        ),
    ensures
        is_sibling_order(
            categories_view(categories@),
            parent,
            position + 1,
            positions(final(group)@),
        ),
{
    let ghost rows = categories_view(categories@);
    let ghost order = positions(group@);
    let mut slot: usize = group.len();
    assert forall|k: int| 0 <= k < group@.len() implies #[trigger] group@[k]
        < categories@.len() by {
        assert(order[k] == group@[k]);
    }
    while slot > 0 && categories[position].sort_order < categories[group[slot - 1]].sort_order
        invariant
            position < categories@.len(),
            slot <= group@.len(),
            rows == categories_view(categories@),
            order == positions(group@),
            is_sibling_order(rows, parent, position as int, order),
            forall|k: int| 0 <= k < group@.len() ==> #[trigger] group@[k] < categories@.len(),
            forall|k: int|
                slot <= k < order.len() ==> rows[position as int].sort_order
                    < rows[#[trigger] order[k]].sort_order,
        decreases slot,
    {
        slot = slot - 1;
    }
    proof {
        assert forall|k: int| 0 <= k < slot implies rows[#[trigger] order[k]].sort_order
            <= rows[position as int].sort_order by {
            if k < slot - 1 {
                assert(precedes(rows, order[k], order[slot - 1]));
            }
        }
        assert(is_insertion_point(rows, order, position as int, slot as int));
        lemma_insert_extends_order(rows, parent, position as int, order, slot as int);
    }
    group.insert(slot, position);
    assert(positions(group@) =~= order.insert(slot as int, position as int));
}

/// Where the rows under each parent are found.
pub struct ChildrenMap<'a> {
    categories: &'a [Category],
    roots: Vec<usize>,
    groups: Vec<Vec<usize>>,
    index: StringHashMap<usize>,
}

impl<'a> ChildrenMap<'a> {
    #[verifier::type_invariant]
    spec fn complete(&self) -> bool {
        is_grouping(
            categories_view(self.categories@),
            self.categories@.len() as int,
            self.roots@,
            self.groups@,
            self.index@,
        )
    }

    /// The rows that were grouped.
    pub closed spec fn rows(&self) -> Seq<CategoryView> {
        categories_view(self.categories@)
    }

    /// The row at a position.
    pub fn row(&self, position: usize) -> (row: &Category)
        requires
            position < self.rows().len(),
        ensures
            row@ == self.rows()[position as int],
    {
        &self.categories[position]
    }

    /// Groups `categories` by parent and puts each group in sibling order.
    pub fn new(categories: &'a [Category]) -> (map: ChildrenMap<'a>)
        ensures
            map.rows() == categories_view(categories@),
    {
        let ghost rows = categories_view(categories@);
        let mut roots: Vec<usize> = Vec::new();
        let mut groups: Vec<Vec<usize>> = Vec::new();
        let mut index: StringHashMap<usize> = StringHashMap::new();
        let mut i: usize = 0;
        while i < categories.len()
            invariant
                i <= categories@.len(),
                rows == categories_view(categories@),
                is_grouping(rows, i as int, roots@, groups@, index@),
            decreases categories@.len() - i,
        {
            let ghost old_roots = roots@;
            let ghost old_groups = groups@;
            let ghost old_index = index@;
            let ghost parent = rows[i as int].parent_id;
            match &categories[i].parent_id {
                None => {
                    insert_sibling(categories, &mut roots, i, Ghost(None));
                },
                Some(id) => {
                    let slot: usize = match index.get(id.as_str()) {
                        Some(slot) => *slot,
                        None => {
                            let slot: usize = groups.len();
                            groups.push(Vec::new());
                            index.insert(id.clone(), slot);
                            slot
                        },
                    };
                    proof {
                        assert(positions(groups@[slot as int]@) =~= group_of(
                            old_groups,
                            old_index,
                            id@,
                        ));
                    }
                    insert_sibling(categories, &mut groups[slot], i, Ghost(Some(id@)));
                },
            }
            proof {
                assert forall|id: Seq<char>| is_sibling_order(
                    rows,
                    Some(id),
                    i + 1,
                    #[trigger] group_of(groups@, index@, id),
                ) by {
                    assert(is_sibling_order(
                        rows,
                        Some(id),
                        i as int,
                        group_of(old_groups, old_index, id),
                    ));
                    if parent != Some(id) {
                        assert(group_of(groups@, index@, id) =~= group_of(
                            old_groups,
                            old_index,
                            id,
                        ));
                        lemma_other_parent_keeps_order(
                            rows,
                            Some(id),
                            i as int,
                            group_of(old_groups, old_index, id),
                        );
                    }
                }
            }
            i = i + 1;
        }
        ChildrenMap { categories, roots, groups, index }
    }

    /// The rows under `parent`, in sibling order; `None` only where there is none.
    pub fn get(&self, parent: &Option<String>) -> (children: Option<&Vec<usize>>)
        ensures
            match children {
                Some(group) => positions(group@) == siblings(self.rows(), text_of(*parent)),
                None => siblings(self.rows(), text_of(*parent)).len() == 0,
            },
    {
        proof {
            use_type_invariant(self);
            lemma_siblings(self.rows(), text_of(*parent));
            if let Some(id) = parent {
                assert(group_of(self.groups@, self.index@, id@) == siblings(
                    self.rows(),
                    Some(id@),
                ));
            } else {
                assert(positions(self.roots@) == siblings(self.rows(), None));
            }
        }
        match parent {
            None => Some(&self.roots),
            Some(id) => match self.index.get(id.as_str()) {
                Some(slot) => Some(&self.groups[*slot]),
                None => None,
            },
        }
    }
}

/// Positions are the numbers that a group lists, in place.
pub proof fn law_positions(group: Seq<usize>)
    ensures
        positions(group).len() == group.len(),
        forall|i: int|
            #![trigger positions(group)[i]]
            0 <= i < group.len() ==> positions(group)[i] == group[i],
{
}

} // verus!
