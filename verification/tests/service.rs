use chrono::NaiveDateTime;
use std::sync::Arc;
use taxonomy::children_map::ChildrenMap;
use taxonomy::errors::{DatabaseError, Error, ValidationError};
use taxonomy::hierarchy::hierarchy_is_finite;
use taxonomy::models::{AssetTaxonomyAssignment, Category, CategoryJson, Taxonomy};
use taxonomy::taxonomy_service::TaxonomyService;
use taxonomy::text::{decimal_text, signed_decimal_text};

fn service() -> TaxonomyService<()> {
    TaxonomyService::new(Arc::new(()))
}

fn row(id: &str, parent: Option<&str>, sort_order: i32) -> Category {
    Category {
        id: id.to_string(),
        taxonomy_id: "t".to_string(),
        parent_id: parent.map(|p| p.to_string()),
        name: format!("name of {id}"),
        key: format!("key of {id}"),
        color: "#808080".to_string(),
        description: Some(format!("about {id}")),
        sort_order,
        created_at: NaiveDateTime::default(),
        updated_at: NaiveDateTime::default(),
    }
}

fn taxonomy(is_system: bool) -> Taxonomy {
    Taxonomy {
        id: "t".to_string(),
        name: "T".to_string(),
        color: "#ffffff".to_string(),
        description: None,
        is_system,
        is_single_select: false,
        sort_order: 0,
        created_at: NaiveDateTime::default(),
        updated_at: NaiveDateTime::default(),
    }
}

fn assignment() -> AssetTaxonomyAssignment {
    AssetTaxonomyAssignment {
        id: "r".to_string(),
        asset_id: "a".to_string(),
        taxonomy_id: "t".to_string(),
        category_id: "c".to_string(),
        weight: 1,
        source: "manual".to_string(),
        created_at: NaiveDateTime::default(),
        updated_at: NaiveDateTime::default(),
    }
}

fn invalid(error: Error) -> String {
    match error {
        Error::Validation(ValidationError::InvalidInput(text)) => text,
        other => panic!("expected a refused input, got {other:?}"),
    }
}

fn missing(error: Error) -> String {
    match error {
        Error::Database(DatabaseError::NotFound(text)) => text,
        other => panic!("expected a missing record, got {other:?}"),
    }
}

fn down() -> Error {
    Error::Unexpected("down".to_string())
}

#[test]
fn system_taxonomy_stays() {
    let lookup = service().delete_taxonomy("t");
    assert_eq!(lookup.id, "t");
    let error = lookup.taxonomy_found(Ok(Some(taxonomy(true)))).err().unwrap();
    assert_eq!(invalid(error), "Cannot delete system taxonomy");
}

#[test]
fn other_taxonomies_may_go() {
    let deletion = service().delete_taxonomy("t").taxonomy_found(Ok(Some(taxonomy(false))));
    assert_eq!(deletion.ok().unwrap().id, "t");
    let deletion = service().delete_taxonomy("missing").taxonomy_found(Ok(None));
    assert_eq!(deletion.ok().unwrap().id, "missing");
    let error = service().delete_taxonomy("t").taxonomy_found(Err(down())).err().unwrap();
    assert_eq!(error.message(), "down");
}

#[test]
fn category_with_children_stays() {
    let rows = vec![row("a", None, 0), row("b", Some("c"), 0)];
    let lookup = service().delete_category("t", "c");
    assert_eq!(lookup.taxonomy_id, "t");
    let error = lookup.categories_found(Ok(rows)).err().unwrap();
    assert_eq!(invalid(error), "Cannot delete category with children");
}

#[test]
fn category_with_assignments_stays() {
    let rows = || vec![row("c", Some("a"), 0), row("d", None, 0)];
    let leaf = service().delete_category("t", "c").categories_found(Ok(rows())).ok().unwrap();
    let error = leaf.assignments_found(Ok(vec![assignment()])).err().unwrap();
    assert_eq!(invalid(error), "Cannot delete category with 1 asset assignments");
    let leaf = service().delete_category("t", "c").categories_found(Ok(rows())).ok().unwrap();
    let many: Vec<AssetTaxonomyAssignment> = (0..120).map(|_| assignment()).collect();
    let error = leaf.assignments_found(Ok(many)).err().unwrap();
    assert_eq!(invalid(error), "Cannot delete category with 120 asset assignments");
}

#[test]
fn free_leaf_category_may_go() {
    let leaf = service().delete_category("t", "c").categories_found(Ok(vec![])).ok().unwrap();
    let deletion = leaf.assignments_found(Ok(vec![])).ok().unwrap();
    assert_eq!(deletion.taxonomy_id, "t");
    assert_eq!(deletion.category_id, "c");
}

#[test]
fn failures_end_a_deletion() {
    let error = service().delete_category("t", "c").categories_found(Err(down())).err().unwrap();
    assert_eq!(error.message(), "down");
    let leaf = service().delete_category("t", "c").categories_found(Ok(vec![])).ok().unwrap();
    assert_eq!(leaf.assignments_found(Err(down())).err().unwrap().message(), "down");
}

#[test]
fn move_changes_parent_and_position_only() {
    let start = service().move_category("t", "c", Some("p".to_string()), 7);
    let moved = start.category_found(Ok(Some(row("c", None, 1)))).ok().unwrap();
    assert_eq!(moved.parent_id.as_deref(), Some("p"));
    assert_eq!(moved.sort_order, 7);
    assert_eq!(moved.id, "c");
    assert_eq!(moved.taxonomy_id, "t");
    assert_eq!(moved.name, "name of c");
    assert_eq!(moved.key, "key of c");
    assert_eq!(moved.color, "#808080");
    assert_eq!(moved.description.as_deref(), Some("about c"));
}

#[test]
fn move_of_a_missing_category_fails() {
    let error = service().move_category("t", "c", None, 0).category_found(Ok(None)).err().unwrap();
    assert_eq!(missing(error), "Category not found");
    let error = service().move_category("t", "c", None, 0).category_found(Err(down()));
    assert_eq!(error.err().unwrap().message(), "down");
}

fn keys(nodes: &[CategoryJson]) -> Vec<&str> {
    nodes.iter().map(|n| n.key.as_str()).collect()
}

#[test]
fn rows_form_a_forest_in_sibling_order() {
    let rows = vec![
        row("b", None, 5),
        row("a1", Some("a"), 2),
        row("a", None, 1),
        row("a2", Some("a"), -3),
        row("a11", Some("a1"), 0),
        row("stray", Some("nowhere"), 0),
    ];
    let forest = service().categories_to_json(&rows);
    assert_eq!(keys(&forest), vec!["key of a", "key of b"]);
    assert_eq!(keys(&forest[0].children), vec!["key of a2", "key of a1"]);
    assert_eq!(keys(&forest[0].children[1].children), vec!["key of a11"]);
    assert!(forest[1].children.is_empty());
    assert_eq!(forest[0].name, "name of a");
    assert_eq!(forest[0].color, "#808080");
    assert_eq!(forest[0].description.as_deref(), Some("about a"));
}

#[test]
fn siblings_with_equal_sort_order_keep_their_order() {
    let rows = vec![row("c", None, 1), row("a", None, 1), row("z", None, 0), row("b", None, 1)];
    let forest = service().categories_to_json(&rows);
    assert_eq!(keys(&forest), vec!["key of z", "key of c", "key of a", "key of b"]);
}

#[test]
fn arrangement_of_the_rows_does_not_matter() {
    let forward = service().categories_to_json(&[row("a", None, 0), row("b", Some("a"), 1), row("c", Some("a"), 2)]);
    let backward = service().categories_to_json(&[row("c", Some("a"), 2), row("b", Some("a"), 1), row("a", None, 0)]);
    assert_eq!(keys(&forward), keys(&backward));
    assert_eq!(keys(&forward[0].children), vec!["key of b", "key of c"]);
    assert_eq!(keys(&backward[0].children), vec!["key of b", "key of c"]);
}

#[test]
fn arrangement_does_not_matter_where_siblings_differ() {
    // "b" and "x" share a sort order, under different parents.
    let forward = vec![row("a", None, 0), row("x", None, 1), row("b", Some("a"), 1)];
    let backward = vec![row("b", Some("a"), 1), row("x", None, 1), row("a", None, 0)];
    for rows in [forward, backward] {
        let forest = service().categories_to_json(&rows);
        assert_eq!(keys(&forest), vec!["key of a", "key of x"]);
        assert_eq!(keys(&forest[0].children), vec!["key of b"]);
    }
}

#[test]
fn forest_under_one_category() {
    let rows = vec![row("a", None, 0), row("b", Some("a"), 0), row("c", Some("b"), 0)];
    let map = ChildrenMap::new(&rows);
    let below = service().build_category_tree(&map, Some("a".to_string()));
    assert_eq!(keys(&below), vec!["key of b"]);
    assert_eq!(keys(&below[0].children), vec!["key of c"]);
    assert!(service().build_category_tree(&map, Some("c".to_string())).is_empty());
}

#[test]
fn no_rows_form_an_empty_forest() {
    assert!(service().categories_to_json(&[]).is_empty());
    assert!(hierarchy_is_finite(&[]));
}

#[test]
fn rows_with_distinct_ids_form_a_finite_hierarchy() {
    // "x" and "y" stand below each other, but below no root.
    let rows = vec![row("x", Some("y"), 0), row("y", Some("x"), 0), row("r", None, 0), row("s", Some("s"), 0)];
    assert!(hierarchy_is_finite(&rows));
    assert_eq!(keys(&service().categories_to_json(&rows)), vec!["key of r"]);
}

#[test]
fn category_below_itself_makes_the_hierarchy_endless() {
    // Two rows share the id "x": one is a root, the other stands below it.
    let rows = vec![row("x", None, 0), row("y", Some("x"), 0), row("x", Some("y"), 0)];
    assert!(!hierarchy_is_finite(&rows));
    let rows = vec![row("x", None, 0), row("x", Some("x"), 0)];
    assert!(!hierarchy_is_finite(&rows));
    let rows = vec![row("x", None, 0), row("x", None, 0), row("y", Some("x"), 0)];
    assert!(hierarchy_is_finite(&rows));
    let forest = service().categories_to_json(&rows);
    assert_eq!(keys(&forest), vec!["key of x", "key of x"]);
    assert_eq!(keys(&forest[0].children), vec!["key of y"]);
    assert_eq!(keys(&forest[1].children), vec!["key of y"]);
}

#[test]
fn numbers_in_decimal() {
    assert_eq!(decimal_text(0), "0");
    assert_eq!(decimal_text(1234567890), "1234567890");
    assert_eq!(decimal_text(u128::MAX), "340282366920938463463374607431768211455");
    assert_eq!(signed_decimal_text(0), "0");
    assert_eq!(signed_decimal_text(-10), "-10");
    assert_eq!(signed_decimal_text(i32::MAX), "2147483647");
    assert_eq!(signed_decimal_text(i32::MIN), "-2147483648");
}
