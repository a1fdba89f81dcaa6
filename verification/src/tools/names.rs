//! Names of taxonomies and categories, found by id.
//!
//! Where two records share an id, the later one counts.
use crate::models::{
    categories_view, taxonomies_view, Category, CategoryView, TaxonomyWithCategories,
    TaxonomyWithCategoriesView,
};
use vstd::hash_map::StringHashMap;
use vstd::prelude::*;

verus! {

/// The name of the category with this id.
pub open spec fn find_category(categories: Seq<CategoryView>, id: Seq<char>) -> Option<Seq<char>>
    decreases categories.len(),
{
    if categories.len() == 0 {
        None
    } else if categories.last().id == id {
        Some(categories.last().name)
    } else {
        find_category(categories.drop_last(), id)
    }
}

/// The taxonomy with this id.
pub open spec fn find_taxonomy(
    taxonomies: Seq<TaxonomyWithCategoriesView>,
    id: Seq<char>,
) -> Option<TaxonomyWithCategoriesView>
    decreases taxonomies.len(),
{
    if taxonomies.len() == 0 {
        None
    } else if taxonomies.last().taxonomy.id == id {
        Some(taxonomies.last())
    } else {
        find_taxonomy(taxonomies.drop_last(), id)
    }
}

/// The name of the category with this id, whatever its taxonomy.
pub open spec fn find_category_anywhere(
    taxonomies: Seq<TaxonomyWithCategoriesView>,
    id: Seq<char>,
) -> Option<Seq<char>>
    decreases taxonomies.len(),
{
    if taxonomies.len() == 0 {
        None
    } else {
        match find_category(taxonomies.last().categories, id) {
            Some(name) => Some(name),
            None => find_category_anywhere(taxonomies.drop_last(), id),
        }
    }
}

/// The name of a taxonomy, or its id where it has none.
pub open spec fn taxonomy_name(
    taxonomies: Seq<TaxonomyWithCategoriesView>,
    taxonomy_id: Seq<char>,
) -> Seq<char> {
    match find_taxonomy(taxonomies, taxonomy_id) {
        Some(found) => found.taxonomy.name,
        None => taxonomy_id,
    }
}

/// The name of a category of a taxonomy, or its id where it has none.
pub open spec fn category_name(
    taxonomies: Seq<TaxonomyWithCategoriesView>,
    taxonomy_id: Seq<char>,
    category_id: Seq<char>,
) -> Seq<char> {
    match find_taxonomy(taxonomies, taxonomy_id) {
        Some(found) => match find_category(found.categories, category_id) {
            Some(name) => name,
            None => category_id,
        },
        None => category_id,
    }
}

/// The name of a category of any taxonomy, or its id where it has none.
pub open spec fn category_name_anywhere(
    taxonomies: Seq<TaxonomyWithCategoriesView>,
    category_id: Seq<char>,
) -> Seq<char> {
    match find_category_anywhere(taxonomies, category_id) {
        Some(name) => name,
        None => category_id,
    }
}

/// An entry of a map from ids to names says what a search finds.
spec fn entry_is(names: Map<Seq<char>, String>, id: Seq<char>, found: Option<Seq<char>>) -> bool {
    match found {
        Some(name) => names.contains_key(id) && names[id]@ == name,
        None => !names.contains_key(id),
    }
}

/// The name under an id, or the id where there is none.
fn name_or_id(names: &StringHashMap<String>, id: &String) -> (name: String)
    ensures
        name@ == if names@.contains_key(id@) {
            names@[id@]@
        } else {
            id@
        },
{
    match names.get(id.as_str()) {
        Some(name) => name.clone(),
        None => id.clone(),
    }
}

/// The entry under `id` once the categories of a list are added.
spec fn entry_added(
    before: Map<Seq<char>, String>,
    after: Map<Seq<char>, String>,
    categories: Seq<CategoryView>,
    id: Seq<char>,
) -> bool {
    match find_category(categories, id) {
        Some(name) => after.contains_key(id) && after[id]@ == name,
        None => if before.contains_key(id) {
            after.contains_key(id) && after[id] == before[id]
        } else {
            !after.contains_key(id)
        },
    }
}

/// Adds the categories of a list, one by one.
fn add_categories(names: &mut StringHashMap<String>, categories: &[Category])
    ensures
        forall|id: Seq<char>| #[trigger]
            entry_added(old(names)@, final(names)@, categories_view(categories@), id),
{
    let ghost start = names@;
    let ghost rows = categories_view(categories@);
    let mut i: usize = 0;
    while i < categories.len()
        invariant
            i <= categories@.len(),
            rows == categories_view(categories@),
            forall|id: Seq<char>| #[trigger] entry_added(start, names@, rows.take(i as int), id),
        decreases categories@.len() - i,
    {
        let ghost before = names@;
        names.insert(categories[i].id.clone(), categories[i].name.clone());
        proof {
            assert(rows.take(i + 1).drop_last() =~= rows.take(i as int));
            assert forall|id: Seq<char>| #[trigger]
                entry_added(start, names@, rows.take(i + 1), id) by {
                assert(entry_added(start, before, rows.take(i as int), id));
            }
        }
        i = i + 1;
    }
    assert(rows.take(rows.len() as int) =~= rows);
}

/// The names of the categories of all taxonomies.
pub struct CategoryNames {
    names: StringHashMap<String>,
    taxonomies: Ghost<Seq<TaxonomyWithCategoriesView>>,
}

impl CategoryNames {
    #[verifier::type_invariant]
    spec fn complete(&self) -> bool {
        forall|id: Seq<char>| #[trigger]
            entry_is(self.names@, id, find_category_anywhere(self.taxonomies@, id))
    }

    /// The taxonomies that were read.
    pub closed spec fn source(&self) -> Seq<TaxonomyWithCategoriesView> {
        self.taxonomies@
    }

    /// Reads the names of all categories.
    pub fn new(taxonomies: &[TaxonomyWithCategories]) -> (names: CategoryNames)
        ensures
            names.source() == taxonomies_view(taxonomies@),
    {
        let ghost all = taxonomies_view(taxonomies@);
        let mut names: StringHashMap<String> = StringHashMap::new();
        let mut i: usize = 0;
        while i < taxonomies.len()
            invariant
                i <= taxonomies@.len(),
                all == taxonomies_view(taxonomies@),
                forall|id: Seq<char>| #[trigger]
                    entry_is(names@, id, find_category_anywhere(all.take(i as int), id)),
            decreases taxonomies@.len() - i,
        {
            let ghost before = names@;
            add_categories(&mut names, taxonomies[i].categories.as_slice());
            proof {
                assert(all.take(i + 1).drop_last() =~= all.take(i as int));
                assert(all.take(i + 1).last() == taxonomies@[i as int]@);
                assert forall|id: Seq<char>| #[trigger]
                    entry_is(names@, id, find_category_anywhere(all.take(i + 1), id)) by {
                    assert(entry_is(before, id, find_category_anywhere(all.take(i as int), id)));
                    assert(entry_added(before, names@, all[i as int].categories, id));
                }
            }
            i = i + 1;
        }
        assert(all.take(all.len() as int) =~= all);
        CategoryNames { names, taxonomies: Ghost(all) }
    }

    /// The name of a category, or its id where it has none.
    pub fn category_name(&self, category_id: &String) -> (name: String)
        ensures
            name@ == category_name_anywhere(self.source(), category_id@),
    {
        proof {
            use_type_invariant(self);
            assert(entry_is(
                self.names@,
                category_id@,
                find_category_anywhere(self.taxonomies@, category_id@),
            ));
        }
        name_or_id(&self.names, category_id)
    }
}

/// The entry under a taxonomy id says what a search finds.
spec fn taxonomy_entry_is(
    entries: Map<Seq<char>, (String, StringHashMap<String>)>,
    id: Seq<char>,
    found: Option<TaxonomyWithCategoriesView>,
) -> bool {
    match found {
        Some(taxonomy) => {
            &&& entries.contains_key(id)
            &&& entries[id].0@ == taxonomy.taxonomy.name
            &&& forall|category_id: Seq<char>| #[trigger]
                entry_is(
                    entries[id].1@,
                    category_id,
                    find_category(taxonomy.categories, category_id),
                )
        },
        None => !entries.contains_key(id),
    }
}

/// The names of all taxonomies and of the categories in each.
pub struct TaxonomyNames {
    entries: StringHashMap<(String, StringHashMap<String>)>,
    taxonomies: Ghost<Seq<TaxonomyWithCategoriesView>>,
}

impl TaxonomyNames {
    #[verifier::type_invariant]
    spec fn complete(&self) -> bool {
        forall|id: Seq<char>| #[trigger]
            taxonomy_entry_is(self.entries@, id, find_taxonomy(self.taxonomies@, id))
    }

    /// The taxonomies that were read.
    pub closed spec fn source(&self) -> Seq<TaxonomyWithCategoriesView> {
        self.taxonomies@
    }

    /// Reads the names of all taxonomies and categories.
    pub fn new(taxonomies: &[TaxonomyWithCategories]) -> (names: TaxonomyNames)
        ensures
            names.source() == taxonomies_view(taxonomies@),
    {
        let ghost all = taxonomies_view(taxonomies@);
        let mut entries: StringHashMap<(String, StringHashMap<String>)> = StringHashMap::new();
        let mut i: usize = 0;
        while i < taxonomies.len()
            invariant
                i <= taxonomies@.len(),
                all == taxonomies_view(taxonomies@),
                forall|id: Seq<char>| #[trigger]
                    taxonomy_entry_is(entries@, id, find_taxonomy(all.take(i as int), id)),
            decreases taxonomies@.len() - i,
        {
            let ghost before = entries@;
            let mut categories: StringHashMap<String> = StringHashMap::new();
            add_categories(&mut categories, taxonomies[i].categories.as_slice());
            proof {
                assert forall|id: Seq<char>| #[trigger]
                    entry_is(
                        categories@,
                        id,
                        find_category(all[i as int].categories, id),
                    ) by {
                    assert(entry_added(
                        Map::empty(),
                        categories@,
                        all[i as int].categories,
                        id,
                    ));
                }
            }
            entries.insert(
                taxonomies[i].taxonomy.id.clone(),
                (taxonomies[i].taxonomy.name.clone(), categories),
            );
            proof {
                assert(all.take(i + 1).drop_last() =~= all.take(i as int));
                assert forall|id: Seq<char>| #[trigger]
                    taxonomy_entry_is(entries@, id, find_taxonomy(all.take(i + 1), id)) by {
                    assert(taxonomy_entry_is(before, id, find_taxonomy(all.take(i as int), id)));
                }
            }
            i = i + 1;
        }
        assert(all.take(all.len() as int) =~= all);
        TaxonomyNames { entries, taxonomies: Ghost(all) }
    }

    /// The name of a taxonomy, or its id where it has none.
    pub fn taxonomy_name(&self, taxonomy_id: &String) -> (name: String)
        ensures
            name@ == taxonomy_name(self.source(), taxonomy_id@),
    {
        proof {
            use_type_invariant(self);
            assert(taxonomy_entry_is(
                self.entries@,
                taxonomy_id@,
                find_taxonomy(self.taxonomies@, taxonomy_id@),
            ));
        }
        match self.entries.get(taxonomy_id.as_str()) {
            Some(entry) => entry.0.clone(),
            None => taxonomy_id.clone(),
        }
    }

    /// The name of a category of a taxonomy, or its id where it has none.
    pub fn category_name(&self, taxonomy_id: &String, category_id: &String) -> (name: String)
        ensures
            name@ == category_name(self.source(), taxonomy_id@, category_id@),
    {
        proof {
            use_type_invariant(self);
            assert(taxonomy_entry_is(
                self.entries@,
                taxonomy_id@,
                find_taxonomy(self.taxonomies@, taxonomy_id@),
            ));
        }
        match self.entries.get(taxonomy_id.as_str()) {
            Some(entry) => {
                proof {
                    let found = find_taxonomy(self.taxonomies@, taxonomy_id@)->0;
                    assert(entry_is(
                        entry.1@,
                        category_id@,
                        find_category(found.categories, category_id@),
                    ));
                }
                name_or_id(&entry.1, category_id)
            },
            None => category_id.clone(),
        }
    }
}

/// A category with an id that no later category of the list has is found by it.
proof fn lemma_last_category_is_found(categories: Seq<CategoryView>, k: int)
    requires
        0 <= k < categories.len(),
        forall|j: int|
            k < j < categories.len() ==> (#[trigger] categories[j]).id != categories[k].id,
    ensures
        find_category(categories, categories[k].id) == Some(categories[k].name),
    decreases categories.len(),
{
    if k < categories.len() - 1 {
        lemma_last_category_is_found(categories.drop_last(), k);
    }
}

/// An id that no category of the list has finds nothing.
proof fn lemma_missing_category(categories: Seq<CategoryView>, id: Seq<char>)
    requires
        forall|j: int| 0 <= j < categories.len() ==> (#[trigger] categories[j]).id != id,
    ensures
        find_category(categories, id) is None,
    decreases categories.len(),
{
    if categories.len() > 0 {
        lemma_missing_category(categories.drop_last(), id);
    }
}

/// A taxonomy with an id that no later taxonomy has is found by it.
proof fn lemma_last_taxonomy_is_found(taxonomies: Seq<TaxonomyWithCategoriesView>, i: int)
    requires
        0 <= i < taxonomies.len(),
        forall|j: int|
            i < j < taxonomies.len() ==> (#[trigger] taxonomies[j]).taxonomy.id
                != taxonomies[i].taxonomy.id,
    ensures
        find_taxonomy(taxonomies, taxonomies[i].taxonomy.id) == Some(taxonomies[i]),
    decreases taxonomies.len(),
{
    if i < taxonomies.len() - 1 {
        lemma_last_taxonomy_is_found(taxonomies.drop_last(), i);
    }
}

proof fn lemma_missing_taxonomy(taxonomies: Seq<TaxonomyWithCategoriesView>, id: Seq<char>)
    requires
        forall|j: int| 0 <= j < taxonomies.len() ==> (#[trigger] taxonomies[j]).taxonomy.id != id,
    ensures
        find_taxonomy(taxonomies, id) is None,
    decreases taxonomies.len(),
{
    if taxonomies.len() > 0 {
        lemma_missing_taxonomy(taxonomies.drop_last(), id);
    }
}

proof fn lemma_category_of_one_taxonomy(
    taxonomies: Seq<TaxonomyWithCategoriesView>,
    i: int,
    id: Seq<char>,
)
    requires
        0 <= i < taxonomies.len(),
        find_category(taxonomies[i].categories, id) is Some,
        forall|j: int|
            i < j < taxonomies.len() ==> find_category(
                (#[trigger] taxonomies[j]).categories,
                id,
            ) is None,
    ensures
        find_category_anywhere(taxonomies, id) == find_category(taxonomies[i].categories, id),
    decreases taxonomies.len(),
{
    if i < taxonomies.len() - 1 {
        assert(taxonomies[taxonomies.len() - 1] == taxonomies.last());
        lemma_category_of_one_taxonomy(taxonomies.drop_last(), i, id);
    }
}

/// A taxonomy whose id no later taxonomy has is shown by its own name.
pub proof fn law_known_taxonomy_is_named(taxonomies: Seq<TaxonomyWithCategoriesView>, i: int)
    requires
        0 <= i < taxonomies.len(),
        forall|j: int|
            i < j < taxonomies.len() ==> (#[trigger] taxonomies[j]).taxonomy.id
                != taxonomies[i].taxonomy.id,
    ensures
        taxonomy_name(taxonomies, taxonomies[i].taxonomy.id) == taxonomies[i].taxonomy.name,
{
    lemma_last_taxonomy_is_found(taxonomies, i);
}

/// A category whose id no later category of its taxonomy has is shown by its own
/// name, where no later taxonomy has the taxonomy's id.
pub proof fn law_known_category_is_named(
    taxonomies: Seq<TaxonomyWithCategoriesView>,
    i: int,
    k: int,
)
    requires
        0 <= i < taxonomies.len(),
        forall|j: int|
            i < j < taxonomies.len() ==> (#[trigger] taxonomies[j]).taxonomy.id
                != taxonomies[i].taxonomy.id,
        0 <= k < taxonomies[i].categories.len(),
        forall|j: int|
            k < j < taxonomies[i].categories.len() ==> (#[trigger] taxonomies[i].categories[j]).id
                != taxonomies[i].categories[k].id,
    ensures
        category_name(taxonomies, taxonomies[i].taxonomy.id, taxonomies[i].categories[k].id)
            == taxonomies[i].categories[k].name,
{
    lemma_last_taxonomy_is_found(taxonomies, i);
    lemma_last_category_is_found(taxonomies[i].categories, k);
}

/// A category whose id no later category has, in its taxonomy or in a later one, is
/// shown by its own name where all taxonomies are searched.
pub proof fn law_known_category_is_named_anywhere(
    taxonomies: Seq<TaxonomyWithCategoriesView>,
    i: int,
    k: int,
)
    requires
        0 <= i < taxonomies.len(),
        0 <= k < taxonomies[i].categories.len(),
        forall|j: int|
            k < j < taxonomies[i].categories.len() ==> (#[trigger] taxonomies[i].categories[j]).id
                != taxonomies[i].categories[k].id,
        forall|j: int, m: int|
            #![trigger taxonomies[j].categories[m]]
            i < j < taxonomies.len() && 0 <= m < taxonomies[j].categories.len()
                ==> taxonomies[j].categories[m].id != taxonomies[i].categories[k].id,
    ensures
        category_name_anywhere(taxonomies, taxonomies[i].categories[k].id)
            == taxonomies[i].categories[k].name,
{
    let id = taxonomies[i].categories[k].id;
    lemma_last_category_is_found(taxonomies[i].categories, k);
    assert forall|j: int| i < j < taxonomies.len() implies find_category(
        (#[trigger] taxonomies[j]).categories,
        id,
    ) is None by {
        assert forall|m: int| 0 <= m < taxonomies[j].categories.len() implies (
        #[trigger] taxonomies[j].categories[m]).id != id by {}
        lemma_missing_category(taxonomies[j].categories, id);
    }
    lemma_category_of_one_taxonomy(taxonomies, i, id);
}

/// A category id that a taxonomy does not have stands for itself there, whatever
/// other taxonomies have.
pub proof fn law_category_of_another_taxonomy_stands_for_itself(
    taxonomies: Seq<TaxonomyWithCategoriesView>,
    i: int,
    category_id: Seq<char>,
)
    requires
        0 <= i < taxonomies.len(),
        forall|j: int|
            i < j < taxonomies.len() ==> (#[trigger] taxonomies[j]).taxonomy.id
                != taxonomies[i].taxonomy.id,
        forall|j: int|
            0 <= j < taxonomies[i].categories.len() ==> (#[trigger] taxonomies[i].categories[j]).id
                != category_id,
    ensures
        category_name(taxonomies, taxonomies[i].taxonomy.id, category_id) == category_id,
{
    lemma_last_taxonomy_is_found(taxonomies, i);
    lemma_missing_category(taxonomies[i].categories, category_id);
}

/// An id that nothing has is shown as it is, in place of a name.
pub proof fn law_unknown_ids_stand_for_themselves(
    taxonomies: Seq<TaxonomyWithCategoriesView>,
    taxonomy_id: Seq<char>,
    category_id: Seq<char>,
)
    ensures
        (forall|j: int|
            0 <= j < taxonomies.len() ==> (#[trigger] taxonomies[j]).taxonomy.id != taxonomy_id)
            ==> taxonomy_name(taxonomies, taxonomy_id) == taxonomy_id && category_name(
            taxonomies,
            taxonomy_id,
            category_id,
        ) == category_id,
        (forall|j: int, k: int|
            #![trigger taxonomies[j].categories[k]]
            0 <= j < taxonomies.len() && 0 <= k < taxonomies[j].categories.len()
                ==> taxonomies[j].categories[k].id != category_id) ==> category_name_anywhere(
            taxonomies,
            category_id,
        ) == category_id && category_name(taxonomies, taxonomy_id, category_id) == category_id,
    decreases taxonomies.len(),
{
    if forall|j: int|
        0 <= j < taxonomies.len() ==> (#[trigger] taxonomies[j]).taxonomy.id != taxonomy_id {
        lemma_missing_taxonomy(taxonomies, taxonomy_id);
    }
    if taxonomies.len() > 0 && forall|j: int, k: int|
        #![trigger taxonomies[j].categories[k]]
        0 <= j < taxonomies.len() && 0 <= k < taxonomies[j].categories.len()
            ==> taxonomies[j].categories[k].id != category_id {
        let front = taxonomies.drop_last();
        let last = taxonomies.last().categories;
        assert forall|k: int| 0 <= k < last.len() implies (#[trigger] last[k]).id
            != category_id by {
            assert(taxonomies[taxonomies.len() - 1].categories[k].id != category_id);
        }
        lemma_missing_category(last, category_id);
        assert forall|j: int, k: int|
            #![trigger front[j].categories[k]]
            0 <= j < front.len() && 0 <= k < front[j].categories.len() implies
            front[j].categories[k].id != category_id by {
            assert(taxonomies[j].categories[k].id != category_id);
        }
        law_unknown_ids_stand_for_themselves(front, taxonomy_id, category_id);
    }
}

/// The two tools name a category alike where its id is its own: where no other
/// category, in its taxonomy or in another, has the id and no other taxonomy has
/// the taxonomy's id, a search in the taxonomy and a search in all give the
/// category's name.
pub proof fn law_searches_agree(taxonomies: Seq<TaxonomyWithCategoriesView>, i: int, k: int)
    requires
        0 <= i < taxonomies.len(),
        0 <= k < taxonomies[i].categories.len(),
        forall|j: int|
            0 <= j < taxonomies.len() && j != i ==> (#[trigger] taxonomies[j]).taxonomy.id
                != taxonomies[i].taxonomy.id,
        forall|j: int, m: int|
            #![trigger taxonomies[j].categories[m]]
            0 <= j < taxonomies.len() && 0 <= m < taxonomies[j].categories.len() && (j != i || m
                != k) ==> taxonomies[j].categories[m].id != taxonomies[i].categories[k].id,
    ensures
        category_name(taxonomies, taxonomies[i].taxonomy.id, taxonomies[i].categories[k].id)
            == taxonomies[i].categories[k].name,
        category_name_anywhere(taxonomies, taxonomies[i].categories[k].id)
            == taxonomies[i].categories[k].name,
{
    law_known_category_is_named(taxonomies, i, k);
    law_known_category_is_named_anywhere(taxonomies, i, k);
}

} // verus!
