use chrono::NaiveDateTime;
use std::sync::Arc;
use taxonomy::models::{Category, Taxonomy, TaxonomyWithCategories};
use taxonomy::tools::taxonomies::{ListTaxonomiesArgs, ListTaxonomiesTool};

fn make_taxonomy(id: &str, name: &str, is_single_select: bool) -> Taxonomy {
    let now = NaiveDateTime::default();
    Taxonomy {
        id: id.to_string(),
        name: name.to_string(),
        color: "#ffffff".to_string(),
        description: None,
        is_system: false,
        is_single_select,
        sort_order: 0,
        created_at: now,
        updated_at: now,
    }
}

fn make_category(
    id: &str,
    taxonomy_id: &str,
    name: &str,
    parent_id: Option<&str>,
    sort_order: i32,
) -> Category {
    let now = NaiveDateTime::default();
    Category {
        id: id.to_string(),
        taxonomy_id: taxonomy_id.to_string(),
        parent_id: parent_id.map(|s| s.to_string()),
        name: name.to_string(),
        key: id.to_string(),
        color: "#808080".to_string(),
        description: None,
        sort_order,
        created_at: now,
        updated_at: now,
    }
}

#[test]
fn test_list_taxonomies_empty() {
    let tool = ListTaxonomiesTool::new(Arc::new(()));
    let result = tool.call(ListTaxonomiesArgs {}, Ok(vec![]));
    assert!(result.is_ok());
    let output = result.unwrap();
    assert!(output.taxonomies.is_empty());
}

#[test]
fn test_list_taxonomies_flat_categories() {
    let taxonomy = make_taxonomy("regions", "Regions", true);
    let cat_na = make_category("NORTH_AMERICA", "regions", "North America", None, 0);
    let cat_eu = make_category("EUROPE", "regions", "Europe", None, 1);

    let tool = ListTaxonomiesTool::new(Arc::new(()));
    let result = tool.call(
        ListTaxonomiesArgs {},
        Ok(vec![TaxonomyWithCategories { taxonomy, categories: vec![cat_na, cat_eu] }]),
    );
    assert!(result.is_ok());
    let output = result.unwrap();

    assert_eq!(output.taxonomies.len(), 1);
    let t = &output.taxonomies[0];
    assert_eq!(t.taxonomy_id, "regions");
    assert_eq!(t.taxonomy_name, "Regions");
    assert!(t.is_single_select);
    assert_eq!(t.categories.len(), 2);
    assert!(t.categories.iter().all(|c| c.parent_id.is_none()));
    assert_eq!(t.categories[0].category_id, "NORTH_AMERICA");
    assert_eq!(t.categories[1].sort_order, 1);
}

#[test]
fn test_list_taxonomies_hierarchical_categories() {
    let taxonomy = make_taxonomy("industries_gics", "Industries (GICS)", false);
    let parent = make_category("TECHNOLOGY", "industries_gics", "Technology", None, 0);
    let child = make_category("SOFTWARE", "industries_gics", "Software", Some("TECHNOLOGY"), 0);

    let tool = ListTaxonomiesTool::new(Arc::new(()));
    let result = tool.call(
        ListTaxonomiesArgs {},
        Ok(vec![TaxonomyWithCategories { taxonomy, categories: vec![parent, child] }]),
    );
    assert!(result.is_ok());
    let output = result.unwrap();

    let categories = &output.taxonomies[0].categories;
    let parent_cat = categories.iter().find(|c| c.category_id == "TECHNOLOGY").unwrap();
    let child_cat = categories.iter().find(|c| c.category_id == "SOFTWARE").unwrap();

    assert!(parent_cat.parent_id.is_none());
    assert_eq!(child_cat.parent_id.as_deref(), Some("TECHNOLOGY"));
}

#[test]
fn taxonomies_are_listed_in_order() {
    let tool = ListTaxonomiesTool::new(Arc::new(())).clone();
    let output = tool
        .call(
            ListTaxonomiesArgs {},
            Ok(vec![
                TaxonomyWithCategories {
                    taxonomy: make_taxonomy("b", "B", false),
                    categories: vec![make_category("x", "b", "X", None, 7)],
                },
                TaxonomyWithCategories { taxonomy: make_taxonomy("a", "A", true), categories: vec![] },
            ]),
        )
        .unwrap();
    assert_eq!(output.taxonomies[0].taxonomy_id, "b");
    assert!(!output.taxonomies[0].is_single_select);
    assert_eq!(output.taxonomies[0].categories[0].category_name, "X");
    assert_eq!(output.taxonomies[0].categories[0].sort_order, 7);
    assert_eq!(output.taxonomies[1].taxonomy_id, "a");
    assert!(output.taxonomies[1].categories.is_empty());
}

#[test]
fn failure_to_read_taxonomies_is_passed_on() {
    let tool = ListTaxonomiesTool::new(Arc::new(()));
    let error = tool.call(ListTaxonomiesArgs {}, Err("store is down".to_string())).unwrap_err();
    assert_eq!(error.message(), "store is down");
}

#[test]
fn definition_of_the_listing_tool() {
    let definition = ListTaxonomiesTool::new(Arc::new(())).definition();
    assert_eq!(definition.name, "list_taxonomies");
    assert_eq!(
        definition.description,
        "List all taxonomies and their categories. Use this to discover available classification schemes (e.g., regions, sectors, asset classes) before assigning assets to categories."
    );
    assert!(definition.parameters.is_empty());
}
