use chrono::NaiveDateTime;
use std::sync::Arc;
use taxonomy::errors::{DatabaseError, Error, ValidationError};
use taxonomy::exchange::{document_written, ImportStep};
use taxonomy::flatten::{category_count, flatten_with_ids};
use taxonomy::hierarchy::hierarchy_is_finite;
use taxonomy::ids::fresh_ids;
use taxonomy::models::{
    Category, CategoryJson, NewCategory, NewTaxonomy, Taxonomy, TaxonomyJson,
    TaxonomyWithCategories,
};
use taxonomy::taxonomy_service::TaxonomyService;

fn service() -> TaxonomyService<()> {
    TaxonomyService::new(Arc::new(()))
}

fn node(key: &str, children: Vec<CategoryJson>) -> CategoryJson {
    CategoryJson {
        name: format!("name of {key}"),
        key: key.to_string(),
        color: format!("color of {key}"),
        description: if children.is_empty() { None } else { Some(format!("about {key}")) },
        children,
    }
}

fn forest() -> Vec<CategoryJson> {
    vec![
        node("a", vec![node("a1", vec![node("a11", vec![])]), node("a2", vec![])]),
        node("b", vec![]),
    ]
}

fn stored_taxonomy(id: &str, new: NewTaxonomy) -> Taxonomy {
    Taxonomy {
        id: id.to_string(),
        name: new.name,
        color: new.color,
        description: new.description,
        is_system: new.is_system,
        is_single_select: new.is_single_select,
        sort_order: new.sort_order,
        created_at: NaiveDateTime::default(),
        updated_at: NaiveDateTime::default(),
    }
}

fn stored_category(new: NewCategory) -> Category {
    Category {
        id: new.id.unwrap(),
        taxonomy_id: new.taxonomy_id,
        parent_id: new.parent_id,
        name: new.name,
        key: new.key,
        color: new.color,
        description: new.description,
        sort_order: new.sort_order,
        created_at: NaiveDateTime::default(),
        updated_at: NaiveDateTime::default(),
    }
}

/// Writes a forest out in one line.
fn outline(nodes: &[CategoryJson]) -> String {
    let mut text = String::new();
    for n in nodes {
        text.push_str(&format!(
            "{}|{}|{}|{:?}({})",
            n.key,
            n.name,
            n.color,
            n.description,
            outline(&n.children)
        ));
    }
    text
}

fn is_uuid_v4(id: &str) -> bool {
    id.len() == 36
        && id.chars().enumerate().all(|(i, c)| match i {
            8 | 13 | 18 | 23 => c == '-',
            14 => c == '4',
            19 => matches!(c, '8' | '9' | 'a' | 'b'),
            _ => matches!(c, '0'..='9' | 'a'..='f'),
        })
}

#[test]
fn rows_come_parents_first_with_running_sort_order() {
    let ids: Vec<String> = (0..5).map(|i| format!("id-{i}")).collect();
    let rows = flatten_with_ids("t", &forest(), None, 10, &ids);
    let shape: Vec<(&str, &str, Option<&str>, i32)> = rows
        .iter()
        .map(|r| {
            (r.id.as_deref().unwrap(), r.key.as_str(), r.parent_id.as_deref(), r.sort_order)
        })
        .collect();
    assert_eq!(
        shape,
        vec![
            ("id-0", "a", None, 10),
            ("id-1", "a1", Some("id-0"), 11),
            ("id-2", "a11", Some("id-1"), 12),
            ("id-3", "a2", Some("id-0"), 13),
            ("id-4", "b", None, 14),
        ]
    );
    assert!(rows.iter().all(|r| r.taxonomy_id == "t"));
    assert_eq!(rows[1].name, "name of a1");
    assert_eq!(rows[1].color, "color of a1");
    assert_eq!(rows[1].description.as_deref(), Some("about a1"));
    assert!(rows[4].description.is_none());
}

#[test]
fn flattening_draws_fresh_ids_and_advances_the_sort_order() {
    let mut sort_order = 3;
    let rows = service().flatten_categories("t", &forest(), Some("top".to_string()), &mut sort_order);
    assert_eq!(sort_order, 8);
    assert_eq!(rows.len(), 5);
    let ids: Vec<&str> = rows.iter().map(|r| r.id.as_deref().unwrap()).collect();
    assert!(ids.iter().all(|id| is_uuid_v4(id)), "got: {ids:?}");
    for i in 0..ids.len() {
        for j in 0..i {
            assert_ne!(ids[i], ids[j]);
        }
    }
    assert_eq!(rows[0].parent_id.as_deref(), Some("top"));
    assert_eq!(rows[1].parent_id.as_deref(), Some(ids[0]));
    assert_eq!(rows[2].parent_id.as_deref(), Some(ids[1]));
    assert_eq!(rows[3].parent_id.as_deref(), Some(ids[0]));
    assert_eq!(rows[4].parent_id.as_deref(), Some("top"));
    let orders: Vec<i32> = rows.iter().map(|r| r.sort_order).collect();
    assert_eq!(orders, vec![3, 4, 5, 6, 7]);
}

#[test]
fn flattening_reaches_the_ends_of_the_sort_order() {
    let mut sort_order = i32::MAX - 1;
    let rows = service().flatten_categories("t", &[node("a", vec![])], None, &mut sort_order);
    assert_eq!(rows[0].sort_order, i32::MAX - 1);
    assert_eq!(sort_order, i32::MAX);
    let mut sort_order = i32::MIN;
    let rows = service().flatten_categories("t", &forest(), None, &mut sort_order);
    assert_eq!(rows[4].sort_order, i32::MIN + 4);
    assert_eq!(sort_order, i32::MIN + 5);
    let mut sort_order = 0;
    assert!(service().flatten_categories("t", &[], None, &mut sort_order).is_empty());
    assert_eq!(sort_order, 0);
}

#[test]
fn fresh_ids_have_the_form_of_random_uuids() {
    let ids = fresh_ids(64);
    assert_eq!(ids.len(), 64);
    assert!(ids.iter().all(|id| is_uuid_v4(id)), "got: {ids:?}");
    assert!(fresh_ids(0).is_empty());
}

#[test]
fn categories_are_counted_at_every_depth() {
    assert_eq!(category_count(&forest()), Some(5));
    assert_eq!(category_count(&[]), Some(0));
}

#[test]
fn unreadable_document_is_refused() {
    let error = service()
        .import_taxonomy_json(Err("expected value at line 1 column 1".to_string()))
        .err()
        .unwrap();
    match error {
        Error::Validation(ValidationError::InvalidInput(text)) => {
            assert_eq!(text, "Invalid JSON: expected value at line 1 column 1");
        }
        other => panic!("expected a refused input, got {other:?}"),
    }
}

fn document(categories: Vec<CategoryJson>) -> TaxonomyJson {
    TaxonomyJson {
        name: "Regions".to_string(),
        color: "#123456".to_string(),
        categories,
        instruments: vec!["mapping".to_string()],
    }
}

#[test]
fn imported_taxonomy_is_never_a_system_taxonomy() {
    let (taxonomy, pending) =
        service().import_taxonomy_json(Ok(document(forest()))).ok().unwrap();
    assert!(taxonomy.id.is_none());
    assert_eq!(taxonomy.name, "Regions");
    assert_eq!(taxonomy.color, "#123456");
    assert!(taxonomy.description.is_none());
    assert!(!taxonomy.is_system);
    assert!(!taxonomy.is_single_select);
    assert_eq!(taxonomy.sort_order, 0);
    assert_eq!(outline(&pending.categories), outline(&forest()));
}

#[test]
fn import_without_categories_ends_with_the_taxonomy() {
    let (taxonomy, pending) = service().import_taxonomy_json(Ok(document(vec![]))).ok().unwrap();
    let step = pending.taxonomy_created(&service(), Ok(stored_taxonomy("new", taxonomy)));
    match step.ok().unwrap() {
        ImportStep::Done(taxonomy) => assert_eq!(taxonomy.id, "new"),
        ImportStep::CreateCategories { .. } => panic!("there are no categories to create"),
    }
}

#[test]
fn failures_end_an_import() {
    let (_, pending) = service().import_taxonomy_json(Ok(document(forest()))).ok().unwrap();
    let error = pending.taxonomy_created(&service(), Err(Error::Unexpected("down".to_string())));
    assert_eq!(error.err().unwrap().message(), "down");
    let (taxonomy, pending) = service().import_taxonomy_json(Ok(document(forest()))).ok().unwrap();
    let step = pending.taxonomy_created(&service(), Ok(stored_taxonomy("new", taxonomy)));
    match step.ok().unwrap() {
        ImportStep::CreateCategories { created, categories } => {
            assert_eq!(categories.len(), 5);
            let error = created.categories_created(Err(Error::Unexpected("full".to_string())));
            assert_eq!(error.err().unwrap().message(), "full");
        }
        ImportStep::Done(_) => panic!("there are categories to create"),
    }
}

#[test]
fn export_gives_back_what_was_imported() {
    let svc = service();
    let (taxonomy, pending) = svc.import_taxonomy_json(Ok(document(forest()))).ok().unwrap();
    let stored = stored_taxonomy("new", taxonomy);
    let (taxonomy, rows) = match pending.taxonomy_created(&svc, Ok(stored)).ok().unwrap() {
        ImportStep::CreateCategories { created, categories } => {
            assert!(categories.iter().all(|c| c.taxonomy_id == "new"));
            let count = categories.len();
            (created.categories_created(Ok(count)).ok().unwrap(), categories)
        }
        ImportStep::Done(_) => panic!("there are categories to create"),
    };
    assert_eq!(taxonomy.id, "new");
    // The store hands the rows out in another arrangement.
    let mut kept: Vec<Category> = rows.into_iter().map(stored_category).collect();
    kept.reverse();
    kept.swap(0, 2);
    assert!(hierarchy_is_finite(&kept));
    let lookup = svc.export_taxonomy_json("new");
    assert_eq!(lookup.id, "new");
    let exported = lookup
        .taxonomy_found(&svc, Ok(Some(TaxonomyWithCategories { taxonomy, categories: kept })))
        .ok()
        .unwrap();
    assert_eq!(exported.name, "Regions");
    assert_eq!(exported.color, "#123456");
    assert!(exported.instruments.is_empty());
    assert_eq!(outline(&exported.categories), outline(&forest()));
}

#[test]
fn export_of_a_missing_taxonomy_fails() {
    let svc = service();
    let error = svc.export_taxonomy_json("gone").taxonomy_found(&svc, Ok(None)).err().unwrap();
    match error {
        Error::Database(DatabaseError::NotFound(text)) => assert_eq!(text, "Taxonomy not found"),
        other => panic!("expected a missing record, got {other:?}"),
    }
    let error = svc
        .export_taxonomy_json("t")
        .taxonomy_found(&svc, Err(Error::Unexpected("down".to_string())));
    assert_eq!(error.err().unwrap().message(), "down");
}

#[test]
fn unwritable_document_is_refused() {
    assert_eq!(document_written(Ok("{}".to_string())).ok().unwrap(), "{}");
    let error = document_written(Err("out of space".to_string())).err().unwrap();
    assert_eq!(error.message(), "Failed to serialize: out of space");
}
