//! Siblings in a category hierarchy: which rows stand under a parent, and in
//! what order.
use crate::models::CategoryView;
use vstd::prelude::*;

verus! {

/// Row `a` comes before row `b` among siblings: by sort order, and by position
/// where two sort orders are equal.
pub open spec fn precedes(rows: Seq<CategoryView>, a: int, b: int) -> bool {
    rows[a].sort_order < rows[b].sort_order || (rows[a].sort_order == rows[b].sort_order && a < b)
}

/// `order` lists, among the first `count` rows, the positions of those whose
/// parent is `parent`: each once, in sibling order.
pub open spec fn is_sibling_order(
    rows: Seq<CategoryView>,
    parent: Option<Seq<char>>,
    count: int,
    order: Seq<int>,
) -> bool {
    &&& forall|k: int|
        #![trigger order[k]]
        0 <= k < order.len() ==> 0 <= order[k] < count && rows[order[k]].parent_id == parent
    &&& forall|i: int|
        #![trigger rows[i]]
        0 <= i < count && rows[i].parent_id == parent ==> order.contains(i)
    &&& forall|j: int, k: int|
        0 <= j < k < order.len() ==> precedes(rows, #[trigger] order[j], #[trigger] order[k])
}

/// The positions of the rows under `parent`, in sibling order.
pub open spec fn siblings(rows: Seq<CategoryView>, parent: Option<Seq<char>>) -> Seq<int> {
    choose|order: Seq<int>| is_sibling_order(rows, parent, rows.len() as int, order)
}

/// The elements of `s` come in the order of `before`.
pub open spec fn strictly_ordered<A>(s: Seq<A>, before: spec_fn(A, A) -> bool) -> bool {
    forall|j: int, k: int| 0 <= j < k < s.len() ==> before(#[trigger] s[j], #[trigger] s[k])
}

/// Two strictly ordered lists of the same elements are the same list.
pub proof fn lemma_strictly_ordered_unique<A>(
    x: Seq<A>,
    y: Seq<A>,
    before: spec_fn(A, A) -> bool,
)
    requires
        forall|a: A, b: A|
            x.contains(a) && x.contains(b) && #[trigger] before(a, b) ==> !before(b, a),
        strictly_ordered(x, before),
        strictly_ordered(y, before),
        forall|a: A| #[trigger] x.contains(a) <==> y.contains(a),
    ensures
        x == y,
    decreases x.len(),
{
    if x.len() == 0 {
        if y.len() > 0 {
            assert(y.contains(y[0]));
            assert(x.contains(y[0]));
        }
        assert(x =~= y);
    } else {
        assert(x.contains(x[0]));
        assert(y.contains(x[0]));
        let j = choose|j: int| 0 <= j < y.len() && y[j] == x[0];
        assert(y.contains(y[0]));
        assert(x.contains(y[0]));
        let i = choose|i: int| 0 <= i < x.len() && x[i] == y[0];
        if j > 0 {
            assert(before(y[0], y[j]));
            if i > 0 {
                assert(before(x[0], x[i]));
            }
        }
        assert(x[0] == y[0]);
        let x1 = x.drop_first();
        let y1 = y.drop_first();
        assert forall|a: A| #[trigger] x1.contains(a) implies y1.contains(a) && x.contains(a) by {
            let k = choose|k: int| 0 <= k < x1.len() && x1[k] == a;
            assert(x[k + 1] == a);
            assert(x.contains(a));
            assert(y.contains(a));
            let l = choose|l: int| 0 <= l < y.len() && y[l] == a;
            if l == 0 {
                assert(before(x[0], x[k + 1]));
            } else {
                assert(y1[l - 1] == a);
            }
        }
        assert forall|a: A| #[trigger] y1.contains(a) implies x1.contains(a) by {
            let k = choose|k: int| 0 <= k < y1.len() && y1[k] == a;
            assert(y[k + 1] == a);
            assert(y.contains(a));
            assert(x.contains(a));
            let l = choose|l: int| 0 <= l < x.len() && x[l] == a;
            if l == 0 {
                assert(before(y[0], y[k + 1]));
            } else {
                assert(x1[l - 1] == a);
            }
        }
        lemma_strictly_ordered_unique(x1, y1, before);
        assert(x =~= seq![x[0]] + x1);
        assert(y =~= seq![y[0]] + y1);
    }
}

/// A list of positions is the sibling order of a parent in one way only.
pub proof fn lemma_sibling_order_unique(
    rows: Seq<CategoryView>,
    parent: Option<Seq<char>>,
    count: int,
    x: Seq<int>,
    y: Seq<int>,
)
    requires
        is_sibling_order(rows, parent, count, x),
        is_sibling_order(rows, parent, count, y),
    ensures
        x == y,
{
    let before = |a: int, b: int| precedes(rows, a, b);
    assert forall|a: int| #[trigger] x.contains(a) <==> y.contains(a) by {
        if x.contains(a) {
            let k = choose|k: int| 0 <= k < x.len() && x[k] == a;
            assert(rows[a].parent_id == parent);
        }
        if y.contains(a) {
            let k = choose|k: int| 0 <= k < y.len() && y[k] == a;
            assert(rows[a].parent_id == parent);
        }
    }
    lemma_strictly_ordered_unique(x, y, before);
}

/// Where the next row belongs among its siblings: behind all that come before it.
pub open spec fn is_insertion_point(
    rows: Seq<CategoryView>,
    order: Seq<int>,
    position: int,
    slot: int,
) -> bool {
    &&& 0 <= slot <= order.len()
    &&& forall|k: int|
        0 <= k < slot ==> rows[#[trigger] order[k]].sort_order <= rows[position].sort_order
    &&& forall|k: int|
        slot <= k < order.len() ==> rows[position].sort_order
            < rows[#[trigger] order[k]].sort_order
}

/// Inserting the next row at its place extends the order by that row.
pub proof fn lemma_insert_extends_order(
    rows: Seq<CategoryView>,
    parent: Option<Seq<char>>,
    position: int,
    order: Seq<int>,
    slot: int,
)
    requires
        0 <= position < rows.len(),
        is_sibling_order(rows, parent, position, order),
        rows[position].parent_id == parent,
        is_insertion_point(rows, order, position, slot),
    ensures
        is_sibling_order(rows, parent, position + 1, order.insert(slot, position)),
{
    let extended = order.insert(slot, position);
    assert forall|i: int|
        #![trigger rows[i]]
        0 <= i < position + 1 && rows[i].parent_id == parent implies extended.contains(i) by {
        if i == position {
            assert(extended[slot] == i);
        } else {
            assert(order.contains(i));
            let k = choose|k: int| 0 <= k < order.len() && order[k] == i;
            if k < slot {
                assert(extended[k] == i);
            } else {
                assert(extended[k + 1] == i);
            }
        }
    }
    assert forall|k: int|
        #![trigger extended[k]]
        0 <= k < extended.len() implies 0 <= extended[k] < position + 1
        && rows[extended[k]].parent_id == parent by {
        if k < slot {
            assert(extended[k] == order[k]);
        } else if k > slot {
            assert(extended[k] == order[k - 1]);
        }
    }
    assert forall|j: int, k: int| 0 <= j < k < extended.len() implies precedes(
        rows,
        #[trigger] extended[j],
        #[trigger] extended[k],
    ) by {
        if j < slot {
            assert(extended[j] == order[j]);
        } else if j > slot {
            assert(extended[j] == order[j - 1]);
        }
        if k < slot {
            assert(extended[k] == order[k]);
        } else if k > slot {
            assert(extended[k] == order[k - 1]);
        }
    }
}

/// A row under another parent leaves the order as it is.
pub proof fn lemma_other_parent_keeps_order(
    rows: Seq<CategoryView>,
    parent: Option<Seq<char>>,
    position: int,
    order: Seq<int>,
)
    requires
        0 <= position < rows.len(),
        is_sibling_order(rows, parent, position, order),
        rows[position].parent_id != parent,
    ensures
        is_sibling_order(rows, parent, position + 1, order),
{
}

proof fn lemma_insertion_point_exists(
    rows: Seq<CategoryView>,
    parent: Option<Seq<char>>,
    position: int,
    order: Seq<int>,
    from: int,
) -> (slot: int)
    requires
        0 <= position < rows.len(),
        is_sibling_order(rows, parent, position, order),
        0 <= from <= order.len(),
        forall|k: int|
            from <= k < order.len() ==> rows[position].sort_order
                < rows[#[trigger] order[k]].sort_order,
    ensures
        is_insertion_point(rows, order, position, slot),
    decreases from,
{
    if from > 0 && rows[position].sort_order < rows[order[from - 1]].sort_order {
        lemma_insertion_point_exists(rows, parent, position, order, from - 1)
    } else {
        assert forall|k: int| 0 <= k < from implies rows[#[trigger] order[k]].sort_order
            <= rows[position].sort_order by {
            if k < from - 1 {
                assert(precedes(rows, order[k], order[from - 1]));
            }
        }
        from
    }
}

proof fn lemma_sibling_order_exists(
    rows: Seq<CategoryView>,
    parent: Option<Seq<char>>,
    count: int,
) -> (order: Seq<int>)
    requires
        0 <= count <= rows.len(),
    ensures
        is_sibling_order(rows, parent, count, order),
    decreases count,
{
    if count == 0 {
        Seq::empty()
    } else {
        let before = lemma_sibling_order_exists(rows, parent, count - 1);
        if rows[count - 1].parent_id == parent {
            let slot = lemma_insertion_point_exists(
                rows,
                parent,
                count - 1,
                before,
                before.len() as int,
            );
            lemma_insert_extends_order(rows, parent, count - 1, before, slot);
            before.insert(slot, count - 1)
        } else {
            before
        }
    }
}

/// Every parent has its siblings in order, and only one list is that order.
pub proof fn lemma_siblings(rows: Seq<CategoryView>, parent: Option<Seq<char>>)
    ensures
        is_sibling_order(rows, parent, rows.len() as int, siblings(rows, parent)),
        forall|order: Seq<int>| #[trigger]
            is_sibling_order(rows, parent, rows.len() as int, order) ==> order == siblings(
                rows,
                parent,
            ),
{
    let order = lemma_sibling_order_exists(rows, parent, rows.len() as int);
    let chosen = siblings(rows, parent);
    assert forall|order: Seq<int>| #[trigger]
        is_sibling_order(rows, parent, rows.len() as int, order) implies order == chosen by {
        lemma_sibling_order_unique(rows, parent, rows.len() as int, order, chosen);
    }
}

/// The siblings under a parent are exactly the rows that name it, each once, by
/// rising sort order, and rows with the same sort order stay as they stood.
pub proof fn law_siblings_in_order(rows: Seq<CategoryView>, parent: Option<Seq<char>>)
    ensures
        forall|k: int|
            #![trigger siblings(rows, parent)[k]]
            0 <= k < siblings(rows, parent).len() ==> 0 <= siblings(rows, parent)[k] < rows.len()
                && rows[siblings(rows, parent)[k]].parent_id == parent,
        forall|i: int|
            #![trigger rows[i]]
            0 <= i < rows.len() && rows[i].parent_id == parent ==> exists|k: int|
                0 <= k < siblings(rows, parent).len() && siblings(rows, parent)[k] == i,
        forall|j: int, k: int|
            #![trigger siblings(rows, parent)[j], siblings(rows, parent)[k]]
            0 <= j < k < siblings(rows, parent).len() ==> {
                let a = siblings(rows, parent)[j];
                let b = siblings(rows, parent)[k];
                &&& a != b
                &&& rows[a].sort_order <= rows[b].sort_order
                &&& rows[a].sort_order == rows[b].sort_order ==> a < b
            },
        siblings(rows, parent).len() == rows.filter(
            |row: CategoryView| row.parent_id == parent,
        ).len(),
{
    lemma_siblings(rows, parent);
    let order = siblings(rows, parent);
    assert forall|i: int|
        #![trigger rows[i]]
        0 <= i < rows.len() && rows[i].parent_id == parent implies exists|k: int|
        0 <= k < order.len() && order[k] == i by {
        assert(order.contains(i));
    }
    assert forall|j: int, k: int|
        #![trigger order[j], order[k]]
        0 <= j < k < order.len() implies {
        let a = order[j];
        let b = order[k];
        &&& a != b
        &&& rows[a].sort_order <= rows[b].sort_order
        &&& rows[a].sort_order == rows[b].sort_order ==> a < b
    } by {
        assert(precedes(rows, order[j], order[k]));
    }
    let counted = lemma_siblings_counted(rows, parent, rows.len() as int);
    assert(counted == order);
    assert(rows.take(rows.len() as int) =~= rows);
}

/// As many rows stand in the sibling order as name the parent.
proof fn lemma_siblings_counted(
    rows: Seq<CategoryView>,
    parent: Option<Seq<char>>,
    count: int,
) -> (order: Seq<int>)
    requires
        0 <= count <= rows.len(),
    ensures
        is_sibling_order(rows, parent, count, order),
        order.len() == rows.take(count).filter(
            |row: CategoryView| row.parent_id == parent,
        ).len(),
    decreases count,
{
    reveal(Seq::filter);
    if count == 0 {
        Seq::empty()
    } else {
        let before = lemma_siblings_counted(rows, parent, count - 1);
        assert(rows.take(count).drop_last() =~= rows.take(count - 1));
        assert(rows.take(count).last() == rows[count - 1]);
        if rows[count - 1].parent_id == parent {
            let slot = lemma_insertion_point_exists(
                rows,
                parent,
                count - 1,
                before,
                before.len() as int,
            );
            lemma_insert_extends_order(rows, parent, count - 1, before, slot);
            before.insert(slot, count - 1)
        } else {
            lemma_other_parent_keeps_order(rows, parent, count - 1, before);
            before
        }
    }
}

} // verus!
